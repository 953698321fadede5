use nexus_bot::api_client::{CoussinInventoryItem, CoussinProfileResponse, CoussinStealOutcome};
use nexus_bot::coussin::{
    build_coussin_bet_response, build_coussin_insurance_response, build_coussin_inventory_response,
    build_coussin_prime_response, build_coussin_profile_response, build_coussin_shop_response,
    challenge_button_ids, format_bet_announcement, format_coussin_resolve_result,
    format_prime_announcement, format_recit, format_steal_defense_result, format_steal_prompt,
    parse_coussin_challenge_button, parse_coussin_steal_button, parse_steal_event,
    process_steal_event_payload, steal_button_id, validate_coussin_challenge,
    MSG_CHALLENGE_UNAVAILABLE, MSG_DUEL_RESOLVE_FAILED,
};
use nexus_bot::json::{Json, JsonNumber};

fn four(a: &str, b: &str, c: &str, d: &str) -> Option<(String, String, String, String)> {
    Some((a.to_string(), b.to_string(), c.to_string(), d.to_string()))
}

#[test]
fn test_parse_coussin_challenge_button() {
    assert_eq!(
        parse_coussin_challenge_button("c:a:combat_1:def_1:att_1"),
        four("a", "combat_1", "def_1", "att_1")
    );
    assert_eq!(
        parse_coussin_challenge_button("c:r:combat_2:def_2:att_2"),
        four("r", "combat_2", "def_2", "att_2")
    );
    assert_eq!(parse_coussin_challenge_button("invalid"), None);
    assert_eq!(parse_coussin_challenge_button("c:a:1"), None);
    assert_eq!(parse_coussin_challenge_button(""), None);
    assert_eq!(parse_coussin_challenge_button("c:::"), None);
    assert_eq!(parse_coussin_challenge_button("x:a:1:2:3"), None);
}

#[test]
fn test_parse_coussin_steal_button() {
    assert_eq!(
        parse_coussin_steal_button("cs:d:att_1:vic_1"),
        Some(("att_1".to_string(), "vic_1".to_string()))
    );
    assert_eq!(parse_coussin_steal_button("other"), None);
    assert_eq!(parse_coussin_steal_button("cs:x:1:2"), None);
}

#[test]
fn a_button_id_reads_by_its_pieces_and_its_head() {
    let e = String::new;
    assert_eq!(parse_coussin_challenge_button("c::::"), Some((e(), e(), e(), e())));
    assert_eq!(parse_coussin_challenge_button("c:a:b:c:d:e"), None);
    assert_eq!(parse_coussin_challenge_button("cc:a:b:c:d"), None);
    assert_eq!(parse_coussin_steal_button("cs:d::"), Some((e(), e())));
    assert_eq!(parse_coussin_steal_button("cs:d:a:b:c"), None);
    assert_eq!(parse_coussin_steal_button("cs:dd:a:b"), None);
}

#[test]
fn test_validate_coussin_challenge() {
    assert!(validate_coussin_challenge(10, 20, false).is_ok());
    assert_eq!(
        validate_coussin_challenge(10, 10, false),
        Err("Te piéger toi-même, c'est juste t'asseoir.")
    );
    assert_eq!(validate_coussin_challenge(10, 20, true), Err("Un bot ne s'assoit jamais."));
}

#[test]
fn test_formatting_helpers() {
    let prompt = format_steal_prompt(1, 2, 30);
    assert!(prompt.contains("30 secondes"));
    assert!(prompt.contains("<@1>"));

    let out_success = CoussinStealOutcome {
        thief_id: "t1".into(),
        success: true,
        amount: 50,
        thief_total: 10,
        victim_total: 5,
    };
    let s_text = format_steal_defense_result(&out_success);
    assert!(s_text.contains("repart avec **50** coins"));

    let out_fail = CoussinStealOutcome {
        thief_id: "t1".into(),
        success: false,
        amount: 25,
        thief_total: 5,
        victim_total: 12,
    };
    let f_text = format_steal_defense_result(&out_fail);
    assert!(f_text.contains("repart bredouille et perd **25** coins"));

    let prime_text = format_prime_announcement(5, 100);
    assert!(prime_text.contains("100 coins"));

    let bet_text = format_bet_announcement(6, 20);
    assert!(bet_text.contains("Popcorn servi"));

    let res_text = format_coussin_resolve_result(10, 20);
    assert!(res_text.contains("Duel resolu"));
}

fn profile() -> CoussinProfileResponse {
    CoussinProfileResponse {
        username: "Alice".into(),
        class: "Guerrier".into(),
        level: 2,
        xp: 50,
        atk: 10,
        def: 5,
        hp_current: 100,
        hp_max: 100,
        coins: 500,
        stat_points: 0,
        title: "Recrue".into(),
        total_wins: 3,
        total_losses: 1,
        total_draws: 0,
        total_stolen: 0,
        cowardice_count: 0,
        chaos_events: 0,
    }
}

#[test]
fn test_coussin_response_helpers() {
    let (accept, refuse) = challenge_button_ids("combat1", 20, 10);
    assert_eq!(accept, "c:a:combat1:20:10");
    assert_eq!(refuse, "c:r:combat1:20:10");
    assert_eq!(steal_button_id("att1", 10), "cs:d:att1:10");

    let emb_p = build_coussin_profile_response(&Ok(profile()), "Guerrier");
    assert!(emb_p.title.unwrap().contains("Alice"));

    let emb_p_err = build_coussin_profile_response(&Err("Profile err".into()), "Guerrier");
    assert_eq!(emb_p_err.description.as_deref(), Some("Profile err"));

    let emb_shop_ok = build_coussin_shop_response("shield", &Ok(450));
    assert!(emb_shop_ok.title.unwrap().contains("Planque"));

    let emb_shop_err = build_coussin_shop_response("shield", &Err("Shop err".into()));
    assert_eq!(emb_shop_err.description.as_deref(), Some("Shop err"));

    let emb_ins_ok = build_coussin_insurance_response(&Ok((false, "demain".into())));
    assert!(emb_ins_ok.title.unwrap().contains("Garantie"));

    let emb_ins_err = build_coussin_insurance_response(&Err("Ins err".into()));
    assert_eq!(emb_ins_err.description.as_deref(), Some("Ins err"));

    let items = vec![CoussinInventoryItem { item_key: "shield".into(), quantity: 1 }];
    let emb_inv_ok = build_coussin_inventory_response(&Ok(items), &["Bouclier".to_string()]);
    assert!(emb_inv_ok.title.unwrap().contains("Sous ton coussin"));

    let emb_inv_err = build_coussin_inventory_response(&Err("Inv err".into()), &[]);
    assert_eq!(emb_inv_err.description.as_deref(), Some("Inv err"));

    let prime_ok = build_coussin_prime_response(5, 100, &Ok(()));
    assert!(prime_ok.contains("100 coins"));
    let prime_err = build_coussin_prime_response(5, 100, &Err("Prime err".into()));
    assert_eq!(prime_err, "Prime err");

    let bet_ok = build_coussin_bet_response(6, 50, &Ok(()));
    assert!(bet_ok.contains("Popcorn"));
    let bet_err = build_coussin_bet_response(6, 50, &Err("Bet err".into()));
    assert_eq!(bet_err, "Bet err");

    let resolve_txt = format_coussin_resolve_result(10, 20);
    assert!(resolve_txt.contains("<@10>"));
    assert!(resolve_txt.contains("<@20>"));

    assert!(MSG_DUEL_RESOLVE_FAILED.contains("Le duel"));
    assert!(MSG_CHALLENGE_UNAVAILABLE.contains("plus disponible"));

    let def_succ = CoussinStealOutcome {
        success: true,
        thief_id: "t1".into(),
        amount: 50,
        thief_total: 20,
        victim_total: 10,
    };
    assert!(format_steal_defense_result(&def_succ).contains("repart avec **50** coins"));

    let def_fail = CoussinStealOutcome {
        success: false,
        thief_id: "t1".into(),
        amount: 50,
        thief_total: 10,
        victim_total: 20,
    };
    assert!(format_steal_defense_result(&def_fail).contains("repart bredouille"));
}

#[test]
fn test_format_recit_success() {
    let text = format_recit(true, "victim_1", "thief_1", 100, 15, 10, 2);
    assert!(text.contains("repart avec **100** coins"));
    assert!(text.contains("vigilance −2"));
}

#[test]
fn test_format_recit_failure() {
    let text = format_recit(false, "victim_1", "thief_1", 50, 10, 18, 0);
    assert!(text.contains("reparti bredouille"));
    assert!(text.contains("**50** coins perdus"));
}

fn obj(entries: Vec<(&str, Json)>) -> Json {
    Json::Object(entries.into_iter().map(|(k, v)| (k.to_string(), v)).collect())
}

fn text(s: &str) -> Json {
    Json::Str(s.to_string())
}

fn num(n: u64) -> Json {
    Json::Number(JsonNumber { unsigned: Some(n), signed: Some(n as i64) })
}

#[test]
fn test_parse_steal_event() {
    let val = obj(vec![
        ("event", text("coussin_steal_resolved")),
        (
            "data",
            obj(vec![
                ("channel_id", text("12345")),
                ("thief_id", text("t1")),
                ("victim_id", text("v1")),
                ("message_id", text("67890")),
                ("success", Json::Bool(true)),
                ("amount", num(100)),
                ("thief_total", num(20)),
                ("victim_total", num(10)),
                ("absence_malus", num(5)),
            ]),
        ),
    ]);
    let parsed = parse_steal_event(&val).unwrap();
    assert_eq!(parsed.channel_id, 12345);
    assert_eq!(parsed.thief_id, "t1");
    assert_eq!(parsed.victim_id, "v1");
    assert_eq!(parsed.message_id, Some(67890));
    assert!(parsed.success);
    assert_eq!(parsed.amount, 100);

    let invalid_event = obj(vec![("event", text("other.event"))]);
    assert!(parse_steal_event(&invalid_event).is_none());

    let missing_data = obj(vec![("event", text("coussin_steal_resolved"))]);
    assert!(parse_steal_event(&missing_data).is_none());

    let missing_channel = obj(vec![
        ("event", text("coussin_steal_resolved")),
        ("data", obj(vec![("thief_id", text("t1")), ("victim_id", text("v1"))])),
    ]);
    assert!(parse_steal_event(&missing_channel).is_none());
}

#[test]
fn test_process_steal_event_payload() {
    assert_eq!(process_steal_event_payload("not json"), None);
    assert_eq!(process_steal_event_payload(r#"{"event":"other.event"}"#), None);

    let val_json = r#"{
        "event": "coussin_steal_resolved",
        "data": {
            "channel_id": "12345",
            "thief_id": "t1",
            "victim_id": "v1",
            "message_id": "67890",
            "success": true,
            "amount": 100,
            "thief_total": 20,
            "victim_total": 10,
            "absence_malus": 5
        }
    }"#;
    let res = process_steal_event_payload(val_json);
    assert!(res.is_some());
    let (channel_id, msg_id, recit) = res.unwrap();
    assert_eq!(channel_id, 12345);
    assert_eq!(msg_id, Some(67890));
    assert!(recit.contains("**100** coins"));
}

#[test]
fn steal_payload_story_names_thief_and_victim() {
    let payload = r#"{"event":"coussin_steal_resolved","data":{"channel_id":"7","thief_id":"11","victim_id":"22","success":false,"amount":30}}"#;
    let (channel_id, msg_id, recit) = process_steal_event_payload(payload).unwrap();
    assert_eq!(channel_id, 7);
    assert_eq!(msg_id, None);
    assert_eq!(
        recit,
        "🍀 <@22> n'a pas réagi, mais <@11> est reparti bredouille : **30** coins perdus.\n🎲 Voleur : **0** — Défense : **0** (vigilance −0)"
    );
}

#[test]
fn duel_and_steal_buttons_read_back() {
    let (accept, refuse) = challenge_button_ids("combat_9", 42, 7);
    assert_eq!(parse_coussin_challenge_button(&accept), four("a", "combat_9", "42", "7"));
    assert_eq!(parse_coussin_challenge_button(&refuse), four("r", "combat_9", "42", "7"));
    let steal = steal_button_id("att-3", 99);
    assert_eq!(parse_coussin_steal_button(&steal), Some(("att-3".to_string(), "99".to_string())));
}
