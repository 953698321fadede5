use nexus_bot::guard::{purge_count, purge_report, purge_selection, split_by_age, PurgeMessage, BULK_AGE_LIMIT};
use nexus_bot::api_client::{encode_segment, GrandSalonProfileResponse};
use nexus_bot::event_bus::STREAM_KEY;
use nexus_bot::grand_salon::{build_salon_response, extract_salon_action, format_profile, format_salon_error};
use nexus_bot::guard::{is_guild_allowed, is_purge_admin};
use nexus_bot::wheel::{
    filter_old_wheel_panel_ids, format_spin_result_response, handles_component, is_old_wheel_panel,
    is_panel_admin, ScannedMessage, PANEL_SPIN_ID, PANEL_TITLE,
};

const SEND_MESSAGES: u64 = 0x800;
const MANAGE_MESSAGES: u64 = 0x2000;
const MANAGE_GUILD: u64 = 0x20;
const ADMINISTRATOR: u64 = 0x8;

fn scanned(id: u64, author: u64, titles: Vec<Option<&str>>) -> ScannedMessage {
    ScannedMessage { id, author, titles: titles.into_iter().map(|t| t.map(str::to_string)).collect() }
}

fn titles(t: &[Option<&str>]) -> Vec<Option<String>> {
    t.iter().map(|x| x.map(str::to_string)).collect()
}

#[test]
fn wheel_panel_test_handles_component() {
    assert!(handles_component(PANEL_SPIN_ID));
    assert!(!handles_component("other_button"));
}

#[test]
fn test_is_panel_admin() {
    assert!(!is_panel_admin(None));
    assert!(!is_panel_admin(Some(SEND_MESSAGES)));
    assert!(is_panel_admin(Some(MANAGE_GUILD)));
    assert!(is_panel_admin(Some(ADMINISTRATOR)));
}

#[test]
fn test_wheel_panel_helpers() {
    let bot = 100;
    let other = 200;

    assert!(is_old_wheel_panel(bot, bot, &titles(&[Some(PANEL_TITLE)])));
    assert!(!is_old_wheel_panel(other, bot, &titles(&[Some(PANEL_TITLE)])));
    assert!(!is_old_wheel_panel(bot, bot, &titles(&[Some("Autre titre")])));

    let msgs = vec![
        scanned(1, bot, vec![Some(PANEL_TITLE)]),
        scanned(2, other, vec![Some(PANEL_TITLE)]),
        scanned(3, bot, vec![Some("Autre")]),
        scanned(4, bot, vec![None]),
    ];
    assert_eq!(filter_old_wheel_panel_ids(&msgs, bot), vec![1]);

    let res = format_spin_result_response("Jackpot 1000");
    assert!(res.contains("Jackpot 1000"));
}

#[test]
fn test_format_spin_result_response_various() {
    let res1 = format_spin_result_response("Lucky 7");
    assert!(res1.contains("Lucky 7"));
    assert!(res1.contains("🌀"));

    let res2 = format_spin_result_response("Gold Bar 1000");
    assert!(res2.contains("Gold Bar 1000"));

    let res3 = format_spin_result_response("");
    assert!(res3.contains("🌀"));

    let res4 = format_spin_result_response("Çøsé ☕");
    assert!(res4.contains("Çøsé ☕"));
}

#[test]
fn test_is_old_wheel_panel_edge_cases() {
    let bot = 100;
    let other = 200;
    assert!(is_old_wheel_panel(bot, bot, &titles(&[Some(PANEL_TITLE)])));
    assert!(!is_old_wheel_panel(other, bot, &titles(&[Some(PANEL_TITLE)])));
    assert!(!is_old_wheel_panel(bot, bot, &titles(&[Some("Wrong")])));
    assert!(!is_old_wheel_panel(bot, bot, &[]));
    assert!(is_old_wheel_panel(bot, bot, &titles(&[Some("Other"), Some(PANEL_TITLE), Some("More")])));
    assert!(!is_old_wheel_panel(bot, bot, &titles(&[None, None])));
}

#[test]
fn test_filter_old_wheel_panel_ids_comprehensive() {
    let bot = 100;
    let other = 200;
    let msgs = vec![
        scanned(1, bot, vec![Some(PANEL_TITLE)]),
        scanned(2, bot, vec![Some("Wrong")]),
        scanned(3, other, vec![Some(PANEL_TITLE)]),
        scanned(4, bot, vec![]),
        scanned(5, bot, vec![None]),
        scanned(6, bot, vec![Some("X"), Some(PANEL_TITLE)]),
    ];
    let filtered = filter_old_wheel_panel_ids(&msgs, bot);
    assert_eq!(filtered.len(), 2);
    assert!(filtered.contains(&1));
    assert!(filtered.contains(&6));
}

#[test]
fn test_filter_old_wheel_panel_empty() {
    let msgs: Vec<ScannedMessage> = vec![];
    assert!(filter_old_wheel_panel_ids(&msgs, 100).is_empty());
}

#[test]
fn test_filter_old_wheel_panel_no_matches() {
    let msgs = vec![scanned(1, 200, vec![Some(PANEL_TITLE)]), scanned(2, 100, vec![Some("Wrong")])];
    assert!(filter_old_wheel_panel_ids(&msgs, 100).is_empty());
}

fn salon(name: &str, r: i64, j: i64, rep: i64, b: i64, res: i64) -> GrandSalonProfileResponse {
    GrandSalonProfileResponse {
        display_name: name.into(),
        rayonnement: r,
        jetons: j,
        reputation: rep,
        bons_plans: b,
        reseau: res,
    }
}

#[test]
fn test_format_profile_all_fields() {
    let formatted = format_profile(&salon("Bob", 100, 50, 200, 10, 5));
    assert!(formatted.contains("Bob"));
    assert!(formatted.contains("100"));
    assert!(formatted.contains("50"));
    assert!(formatted.contains("200"));
    assert!(formatted.contains("10"));
    assert!(formatted.contains("5"));
}

#[test]
fn test_format_profile_zero_values() {
    let formatted = format_profile(&salon("Charlie", 0, 0, 0, 0, 0));
    assert!(formatted.contains("Charlie"));
    assert!(formatted.contains("0"));
}

#[test]
fn test_extract_salon_action_all_actions() {
    assert_eq!(extract_salon_action(Some("rejoindre")), "rejoindre");
    assert_eq!(extract_salon_action(Some("profil")), "profil");
    assert_eq!(extract_salon_action(None), "profil");
    assert_eq!(extract_salon_action(Some("")), "");
}

#[test]
fn test_build_salon_response_success() {
    let res = build_salon_response(Ok(salon("Test", 1, 2, 3, 4, 5)));
    assert!(res.contains("Test"));
    assert!(res.contains("Rayonnement"));
}

#[test]
fn test_build_salon_response_error() {
    let res = build_salon_response(Err("API Error".into()));
    assert!(res.contains("API Error"));
    assert!(res.contains("indisponible"));
}

#[test]
fn test_format_salon_error_various() {
    assert!(format_salon_error("timeout").contains("timeout"));
    assert!(format_salon_error("user not found").contains("user not found"));
    assert!(format_salon_error("").contains("indisponible"));
}

#[test]
fn test_encode_segment() {
    assert_eq!(encode_segment("simple"), "simple");
    assert_eq!(encode_segment("hello world"), "hello%20world");
    assert_eq!(encode_segment("a/b"), "a%2Fb");
}

#[test]
fn test_is_guild_allowed_no_env() {
    assert!(is_guild_allowed(12345, None, None));
    assert!(is_guild_allowed(67890, None, None));
}

#[test]
fn test_is_guild_allowed_public_guild_id() {
    assert!(is_guild_allowed(12345, Some("12345"), None));
    assert!(!is_guild_allowed(67890, Some("12345"), None));
}

#[test]
fn test_is_guild_allowed_guild_id() {
    assert!(is_guild_allowed(999, None, Some("999")));
    assert!(!is_guild_allowed(12345, None, Some("999")));
}

#[test]
fn test_is_purge_admin() {
    assert!(!is_purge_admin(None));
    assert!(!is_purge_admin(Some(SEND_MESSAGES)));
    assert!(is_purge_admin(Some(MANAGE_MESSAGES)));
    assert!(is_purge_admin(Some(MANAGE_GUILD)));
    assert!(is_purge_admin(Some(ADMINISTRATOR)));
}

#[test]
fn stream_key_value() {
    assert_eq!(STREAM_KEY, "nexus:events");
    assert!(STREAM_KEY.contains("nexus"));
    assert!(STREAM_KEY.contains("events"));
}

#[test]
fn stream_key_is_nexus_not_sentinel() {
    assert_ne!(STREAM_KEY, "sentinel:events");
    assert_ne!(STREAM_KEY, "atrium:events");
    assert_ne!(STREAM_KEY, "ops:events");
}

#[test]
fn test_format_profile() {
    let p = salon("Alice", 10, 5, 20, 2, 3);
    let formatted = format_profile(&p);
    assert!(formatted.contains("Alice"));
    assert!(formatted.contains("Rayonnement **10**"));

    let err = format_salon_error("timeout");
    assert!(err.contains("timeout"));

    let ok_resp = build_salon_response(Ok(p));
    assert!(ok_resp.contains("Alice"));

    let err_resp = build_salon_response(Err("down".into()));
    assert!(err_resp.contains("down"));

    assert_eq!(extract_salon_action(Some("rejoindre")), "rejoindre");
    assert_eq!(extract_salon_action(None), "profil");
}

#[test]
fn test_build_spin_final_edit() {
    let content = format_spin_result_response("PQ 100");
    assert!(content.contains("PQ 100"));
    assert!(content.contains("🌀"));
}

fn msg(id: u64, pinned: bool, pin_notice: bool, from_bot: bool, timestamp: i64) -> PurgeMessage {
    PurgeMessage { id, pinned, pin_notice, from_bot, timestamp }
}

#[test]
fn purge_spares_its_reply_and_the_pins() {
    let v = vec![
        msg(1, false, false, false, 100),
        msg(2, true, false, false, 100),
        msg(3, false, true, true, 100),
        msg(4, false, false, true, 100),
        msg(9, false, false, true, 100),
    ];
    let all: Vec<u64> = purge_selection(&v, 9, "tous", true).iter().map(|m| m.id).collect();
    assert_eq!(all, vec![1, 3, 4]);
    let with_pins: Vec<u64> = purge_selection(&v, 9, "tous", false).iter().map(|m| m.id).collect();
    assert_eq!(with_pins, vec![1, 2, 3, 4]);
    let bots: Vec<u64> = purge_selection(&v, 9, "bot", true).iter().map(|m| m.id).collect();
    assert_eq!(bots, vec![3, 4]);
    let pins: Vec<u64> = purge_selection(&v, 9, "pins", true).iter().map(|m| m.id).collect();
    assert_eq!(pins, vec![3]);
}

#[test]
fn purge_splits_by_age() {
    let now = 2_000_000;
    let v = vec![msg(1, false, false, false, now - 10), msg(2, false, false, false, now - BULK_AGE_LIMIT - 1)];
    let (young, old) = split_by_age(&v, now);
    assert_eq!(young, vec![1]);
    assert_eq!(old, vec![2]);
    assert_eq!(purge_count(None), 50);
    assert_eq!(purge_count(Some(500)), 100);
    assert_eq!(purge_count(Some(0)), 1);
    assert_eq!(purge_report(3), "🧹 **3 message(s)** supprimé(s) avec succès !");
}
