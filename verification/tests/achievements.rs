use nexus_bot::achievements::{
    build_annonce, image_absolue, liste, parse_haut_fait, role_a_mentionner, salon_d_annonce,
    HautFaitDebloque, MODULE_BOT_NAME,
};
use nexus_bot::api_client::AchievementProgress;
use nexus_bot::config::GuildConfig;
use nexus_bot::event_bus::ACHIEVEMENT_UNLOCKED;

fn item(name: &str, description: &str, unlocked: Option<&str>) -> AchievementProgress {
    AchievementProgress {
        name: name.into(),
        description: description.into(),
        icon_url: None,
        unlocked_at: unlocked.map(|s| s.to_string()),
    }
}

fn evenement(data: &str) -> String {
    format!(r#"{{"event":"{}","data":{}}}"#, ACHIEVEMENT_UNLOCKED, data)
}

fn config(paires: &[(&str, &str)]) -> GuildConfig {
    let mut cfg = GuildConfig::new();
    for (k, v) in paires {
        cfg.insert((*k).to_string(), (*v).to_string());
    }
    cfg
}

fn fait_de_test() -> HautFaitDebloque {
    HautFaitDebloque {
        guild_id: "1".into(),
        guild_num: 1,
        user_id: "42".into(),
        nom: "Premier Pas".into(),
        description: "Rejoindre le serveur".into(),
        jeu: Some("Palworld".into()),
        icon_url: None,
    }
}

#[test]
fn test_liste_empty() {
    let res = liste(&[], "Vide");
    assert_eq!(res, "Vide");
}

#[test]
fn test_liste_items() {
    let item1 = item("Premier Pas", "Rejoins le jeu", Some("2026-01-01T00:00:00Z"));
    let res = liste(&[item1], "Vide");
    assert!(res.contains("Premier Pas"));
}

#[test]
fn test_liste_truncation() {
    let items: Vec<AchievementProgress> = (0..50)
        .map(|i| {
            item(
                &format!("Haut Fait Long Nom Numéro {i}"),
                &format!("Description très détaillée du haut fait numéro {i} avec du texte long"),
                Some("2026-01-01T00:00:00Z"),
            )
        })
        .collect();
    let res = liste(&items, "Vide");
    assert!(res.contains("de plus"));
}

#[test]
fn une_url_deja_absolue_part_telle_quelle() {
    assert_eq!(
        image_absolue("https://example.com/icon.png", None),
        Some("https://example.com/icon.png".into())
    );
    assert_eq!(
        image_absolue("http://example.com/icon.png", None),
        Some("http://example.com/icon.png".into())
    );
}

#[test]
fn une_image_vide_n_est_jamais_une_url() {
    assert_eq!(image_absolue("", None), None);
    assert_eq!(image_absolue("   ", None), None);
}

#[test]
fn le_chemin_local_devient_absolu_selon_la_base() {
    assert_eq!(image_absolue("/img/test.png", None), None);
    let base = Some("https://front.canap.fr");
    assert_eq!(
        image_absolue("/img/test.png", base),
        Some("https://front.canap.fr/img/test.png".into())
    );
    assert_eq!(
        image_absolue("img/test.png", base),
        Some("https://front.canap.fr/img/test.png".into())
    );
    assert_eq!(
        image_absolue("img/test.png", Some("https://front.canap.fr/")),
        Some("https://front.canap.fr/img/test.png".into())
    );
    assert_eq!(
        image_absolue("/img/test.png", Some("https://front.canap.fr//")),
        Some("https://front.canap.fr/img/test.png".into())
    );
    assert_eq!(image_absolue("/img/test.png", Some("")), None);
    assert_eq!(image_absolue("/img/test.png", Some("   ")), None);
    assert_eq!(
        image_absolue("achievements/icon.png", Some("https://cdn.example.com")),
        Some("https://cdn.example.com/achievements/icon.png".into())
    );
}

#[test]
fn test_liste_single_item() {
    let it = item("Test", "Description", Some("2026-01-01T00:00:00Z"));
    let res = liste(&[it], "Vide");
    assert!(res.contains("Test"));
    assert!(!res.contains("de plus"));
}

#[test]
fn test_liste_multiple_items_no_truncation() {
    let items = vec![
        item("A", "Desc A", Some("2026-01-01T00:00:00Z")),
        item("B", "Desc B", Some("2026-01-01T00:00:00Z")),
    ];
    let res = liste(&items, "Vide");
    assert!(res.contains("A"));
    assert!(res.contains("B"));
}

#[test]
fn test_liste_very_long_names() {
    let it = item(&"X".repeat(900), "Description", Some("2026-01-01T00:00:00Z"));
    let res = liste(&[it], "Vide");
    assert!(!res.is_empty());
}

#[test]
fn test_module_bot_name_constant() {
    assert_eq!(MODULE_BOT_NAME, "nexus-achievements");
}

#[test]
fn test_liste_with_mixed_items() {
    let items = vec![
        item("First", "Desc1", Some("2026-01-01T00:00:00Z")),
        item("Second", "Desc2", Some("2026-01-02T00:00:00Z")),
    ];
    let res = liste(&items, "Empty");
    assert!(res.contains("First"));
    assert!(res.contains("Second"));
    assert!(!res.contains("Empty"));
}

#[test]
fn test_liste_respects_empty_message() {
    let items: Vec<AchievementProgress> = vec![];
    let res = liste(&items, "No items here");
    assert_eq!(res, "No items here");
}

#[test]
fn test_liste_with_very_long_descriptions() {
    let items = vec![item("Test", &"x".repeat(500), Some("2026-01-01T00:00:00Z"))];
    let res = liste(&items, "Empty");
    assert!(!res.is_empty());
    assert!(res.contains("Test"));
}

#[test]
fn test_liste_boundary_at_950_chars() {
    let items = vec![
        item("Achievement", &"d".repeat(200), Some("2026-01-01T00:00:00Z")),
        item("Second", &"e".repeat(200), Some("2026-01-01T00:00:00Z")),
    ];
    let res = liste(&items, "Empty");
    assert!(res.contains("Achievement"));
}

#[test]
fn un_evenement_complet_se_lit_entierement() {
    let brut = evenement(
        r#"{"guild_id":"123","discord_user_id":"456","achievement_name":"Premier Pas","achievement_description":"Rejoindre le serveur","game":"Palworld","icon_url":"https://cdn.example.com/p.png"}"#,
    );
    let fait = parse_haut_fait(&brut).unwrap();
    assert_eq!(fait.guild_id, "123");
    assert_eq!(fait.guild_num, 123);
    assert_eq!(fait.user_id, "456");
    assert_eq!(fait.nom, "Premier Pas");
    assert_eq!(fait.description, "Rejoindre le serveur");
    assert_eq!(fait.jeu.as_deref(), Some("Palworld"));
}

#[test]
fn un_haut_fait_sans_nom_reste_annoncable() {
    let brut = evenement(r#"{"guild_id":"1","discord_user_id":"2"}"#);
    let fait = parse_haut_fait(&brut).unwrap();
    assert_eq!(fait.nom, "Haut fait");
    assert!(fait.description.is_empty());
    assert!(fait.jeu.is_none());
    assert!(fait.icon_url.is_none());
}

#[test]
fn un_evenement_inexploitable_ne_produit_rien() {
    assert!(parse_haut_fait("pas du json").is_none());
    assert!(parse_haut_fait(r#"{"event":"autre_chose","data":{}}"#).is_none());
    assert!(parse_haut_fait(&format!(r#"{{"event":"{}"}}"#, ACHIEVEMENT_UNLOCKED)).is_none());
    assert!(parse_haut_fait(&evenement(r#"{"discord_user_id":"2"}"#)).is_none());
    assert!(parse_haut_fait(&evenement(r#"{"guild_id":"1"}"#)).is_none());
    assert!(parse_haut_fait(&evenement(r#"{"guild_id":"pas_un_nombre","discord_user_id":"2"}"#)).is_none());
}

#[test]
fn sans_configuration_l_annonce_part_dans_le_salon_choisi() {
    assert_eq!(salon_d_annonce(&config(&[("announce_channel_id", "999")])), Some(999));
    assert_eq!(salon_d_annonce(&config(&[])), None);
}

#[test]
fn les_deux_interrupteurs_coupent_l_annonce_separement() {
    let avec = |extra: (&str, &str)| config(&[("announce_channel_id", "999"), extra]);
    assert_eq!(salon_d_annonce(&avec(("enabled", "false"))), None);
    assert_eq!(salon_d_annonce(&avec(("announce_enabled", "false"))), None);
    assert_eq!(salon_d_annonce(&avec(("enabled", "true"))), Some(999));
}

#[test]
fn un_salon_absurde_vaut_pas_de_salon() {
    assert_eq!(salon_d_annonce(&config(&[("announce_channel_id", "0")])), None);
    assert_eq!(salon_d_annonce(&config(&[("announce_channel_id", "")])), None);
    assert_eq!(salon_d_annonce(&config(&[("announce_channel_id", "abc")])), None);
    assert_eq!(salon_d_annonce(&config(&[("announce_channel_id", " 42 ")])), Some(42));
}

#[test]
fn aucune_mention_par_defaut() {
    assert_eq!(role_a_mentionner(&config(&[])), None);
    assert_eq!(role_a_mentionner(&config(&[("mention_role_id", "0")])), None);
    assert_eq!(role_a_mentionner(&config(&[("mention_role_id", "abc")])), None);
    assert_eq!(role_a_mentionner(&config(&[("mention_role_id", "77")])), Some(77));
}

#[test]
fn l_annonce_nomme_le_membre_et_son_haut_fait() {
    let msg = build_annonce(&fait_de_test(), None, None);
    let d = msg.embed.description.clone().unwrap();
    assert!(d.contains("<@42>"));
    assert!(d.contains("Premier Pas"));
    assert!(msg.content.is_none());
}

#[test]
fn le_role_configure_est_mentionne() {
    let msg = build_annonce(&fait_de_test(), Some(77), None);
    assert_eq!(msg.content.as_deref(), Some("<@&77>"));
}

#[test]
fn les_champs_facultatifs_disparaissent_quand_ils_sont_vides() {
    let mut fait = fait_de_test();
    fait.description = String::new();
    fait.jeu = None;
    let msg = build_annonce(&fait, None, None);
    assert!(msg.embed.fields.is_empty());
}

#[test]
fn test_parse_haut_fait_complete_data() {
    let payload = evenement(
        r#"{"guild_id":"123","discord_user_id":"456","achievement_name":"TestAchieve","achievement_description":"Test Desc","game":"TestGame","icon_url":"https://example.com/icon.png"}"#,
    );
    let fait = parse_haut_fait(&payload).unwrap();
    assert_eq!(fait.guild_id, "123");
    assert_eq!(fait.guild_num, 123);
    assert_eq!(fait.user_id, "456");
    assert_eq!(fait.nom, "TestAchieve");
    assert_eq!(fait.description, "Test Desc");
    assert_eq!(fait.jeu, Some("TestGame".to_string()));
    assert_eq!(fait.icon_url, Some("https://example.com/icon.png".to_string()));
}

#[test]
fn test_parse_haut_fait_invalid_json() {
    assert!(parse_haut_fait("not json").is_none());
}

#[test]
fn test_parse_haut_fait_wrong_event_type() {
    let payload = r#"{"event":"some_other_event","data":{"guild_id":"123","discord_user_id":"456"}}"#;
    assert!(parse_haut_fait(payload).is_none());
}

#[test]
fn test_parse_haut_fait_missing_guild_id() {
    assert!(parse_haut_fait(&evenement(r#"{"discord_user_id":"456"}"#)).is_none());
}

#[test]
fn test_parse_haut_fait_missing_user_id() {
    assert!(parse_haut_fait(&evenement(r#"{"guild_id":"123"}"#)).is_none());
}

#[test]
fn test_parse_haut_fait_invalid_guild_id_number() {
    assert!(parse_haut_fait(&evenement(r#"{"guild_id":"not_a_number","discord_user_id":"456"}"#)).is_none());
}

#[test]
fn test_salon_d_annonce_with_valid_channel() {
    assert_eq!(salon_d_annonce(&config(&[("announce_channel_id", "12345")])), Some(12345));
}

#[test]
fn test_salon_d_annonce_with_whitespace() {
    assert_eq!(salon_d_annonce(&config(&[("announce_channel_id", "  98765  ")])), Some(98765));
}

#[test]
fn test_salon_d_annonce_disabled() {
    let cfg = config(&[("announce_channel_id", "123"), ("enabled", "false")]);
    assert_eq!(salon_d_annonce(&cfg), None);
}

#[test]
fn test_salon_d_annonce_announce_disabled() {
    let cfg = config(&[("announce_channel_id", "123"), ("announce_enabled", "false")]);
    assert_eq!(salon_d_annonce(&cfg), None);
}

#[test]
fn test_role_a_mentionner_with_valid_id() {
    assert_eq!(role_a_mentionner(&config(&[("mention_role_id", "54321")])), Some(54321));
}

#[test]
fn test_role_a_mentionner_with_whitespace() {
    assert_eq!(role_a_mentionner(&config(&[("mention_role_id", "  11111  ")])), Some(11111));
}

#[test]
fn test_role_a_mentionner_invalid_id() {
    assert_eq!(role_a_mentionner(&config(&[("mention_role_id", "not_a_number")])), None);
}

#[test]
fn test_haut_fait_debloque_equality() {
    let f1 = HautFaitDebloque {
        guild_id: "1".into(),
        guild_num: 1,
        user_id: "2".into(),
        nom: "Achievement".into(),
        description: "Desc".into(),
        jeu: Some("Game".into()),
        icon_url: None,
    };
    let f2 = f1.clone();
    assert_eq!(f1, f2);
}

#[test]
fn test_haut_fait_debloque_fields() {
    let fait = HautFaitDebloque {
        guild_id: "guild123".into(),
        guild_num: 999,
        user_id: "user456".into(),
        nom: "Achievement Name".into(),
        description: "Long description".into(),
        jeu: Some("Game Name".into()),
        icon_url: Some("http://example.com/icon.png".into()),
    };
    assert_eq!(fait.guild_id, "guild123");
    assert_eq!(fait.guild_num, 999);
    assert_eq!(fait.user_id, "user456");
    assert_eq!(fait.nom, "Achievement Name");
}

#[test]
fn test_build_annonce_with_description_and_game() {
    let fait = HautFaitDebloque {
        guild_id: "1".into(),
        guild_num: 1,
        user_id: "42".into(),
        nom: "Complete Game".into(),
        description: "You won!".into(),
        jeu: Some("Epic Game".into()),
        icon_url: None,
    };
    let msg = build_annonce(&fait, None, None);
    assert!(msg.embed.fields.len() >= 2);
}

#[test]
fn test_build_annonce_with_full_url_icon() {
    let mut fait = fait_de_test();
    fait.icon_url = Some("https://example.com/icon.png".into());
    let msg = build_annonce(&fait, None, None);
    assert!(msg.embed.thumbnail.is_some());
}

#[test]
fn test_liste_with_exact_950_char_boundary() {
    let items: Vec<AchievementProgress> = (0..3)
        .map(|i| item(&format!("Achievement {}", i), &"x".repeat(200), Some("2026-01-01T00:00:00Z")))
        .collect();
    let res = liste(&items, "Empty");
    assert!(!res.is_empty());
}

#[test]
fn test_parse_haut_fait_null_fields() {
    let payload = evenement(
        r#"{"guild_id":"123","discord_user_id":"456","achievement_name":null,"achievement_description":null,"game":null}"#,
    );
    let fait = parse_haut_fait(&payload).unwrap();
    assert_eq!(fait.nom, "Haut fait");
    assert!(fait.description.is_empty());
    assert!(fait.jeu.is_none());
}

#[test]
fn test_sous_option_user_with_valid_member() {
    let it = item("Test", "Desc", Some("2026-01-01T00:00:00Z"));
    let res = liste(&[it], "Empty");
    assert!(res.contains("Test"));
}

#[test]
fn test_parse_haut_fait_minimal_fields_only() {
    let fait = parse_haut_fait(&evenement(r#"{"guild_id":"999","discord_user_id":"888"}"#)).unwrap();
    assert_eq!(fait.guild_id, "999");
    assert_eq!(fait.guild_num, 999);
    assert_eq!(fait.user_id, "888");
    assert_eq!(fait.nom, "Haut fait");
    assert!(fait.description.is_empty());
    assert!(fait.jeu.is_none());
    assert!(fait.icon_url.is_none());
}

#[test]
fn test_build_annonce_color_is_golden() {
    let msg = build_annonce(&fait_de_test(), None, None);
    assert_eq!(msg.embed.color, Some(0xf1c40f));
}

#[test]
fn test_build_annonce_has_correct_timestamp() {
    let msg = build_annonce(&fait_de_test(), None, None);
    assert!(msg.embed.timestamp);
}

#[test]
fn test_list_respects_custom_empty_message() {
    let custom_msg = "Rien du tout";
    let res = liste(&[], custom_msg);
    assert_eq!(res, custom_msg);
}

#[test]
fn test_haut_fait_debloque_clone() {
    let f1 = HautFaitDebloque {
        guild_id: "1".into(),
        guild_num: 1,
        user_id: "2".into(),
        nom: "Test".into(),
        description: "Desc".into(),
        jeu: None,
        icon_url: None,
    };
    let f2 = f1.clone();
    assert_eq!(f1.guild_id, f2.guild_id);
    assert_eq!(f1.user_id, f2.user_id);
}

#[test]
fn test_parse_haut_fait_with_all_fields_populated() {
    let payload = evenement(
        r#"{"guild_id":"1001","discord_user_id":"2002","achievement_name":"Full Achievement","achievement_description":"Complete description here","game":"Epic Game","icon_url":"https://example.com/icon.png"}"#,
    );
    let fait = parse_haut_fait(&payload).unwrap();
    assert_eq!(fait.guild_id, "1001");
    assert_eq!(fait.guild_num, 1001);
    assert_eq!(fait.user_id, "2002");
    assert_eq!(fait.nom, "Full Achievement");
    assert_eq!(fait.description, "Complete description here");
    assert_eq!(fait.jeu, Some("Epic Game".to_string()));
    assert_eq!(fait.icon_url, Some("https://example.com/icon.png".to_string()));
}

#[test]
fn test_salon_d_annonce_with_zero_channel_id() {
    assert_eq!(salon_d_annonce(&config(&[("announce_channel_id", "0")])), None);
}

#[test]
fn test_role_a_mentionner_with_zero_id() {
    assert_eq!(role_a_mentionner(&config(&[("mention_role_id", "0")])), None);
}

#[test]
fn test_liste_single_item_under_limit() {
    let it = item("Single", "Desc", Some("2026-01-01T00:00:00Z"));
    let res = liste(&[it], "Empty");
    assert!(res.contains("Single"));
    assert!(!res.contains("de plus"));
}

#[test]
fn test_parse_haut_fait_large_guild_id() {
    let fait = parse_haut_fait(&evenement(r#"{"guild_id":"999999999999","discord_user_id":"123"}"#)).unwrap();
    assert_eq!(fait.guild_id, "999999999999");
    assert_eq!(fait.guild_num, 999999999999);
}

#[test]
fn test_build_annonce_empty_description() {
    let mut fait = fait_de_test();
    fait.description = String::new();
    let msg = build_annonce(&fait, None, None);
    for field in &msg.embed.fields {
        assert_ne!(field.name, "Haut fait");
    }
}

#[test]
fn test_build_annonce_no_game_field_when_none() {
    let mut fait = fait_de_test();
    fait.jeu = None;
    let msg = build_annonce(&fait, None, None);
    for field in &msg.embed.fields {
        assert_ne!(field.name, "Jeu");
    }
}

#[test]
fn test_parse_haut_fait_guild_id_with_spaces_fails() {
    assert!(parse_haut_fait(&evenement(r#"{"guild_id":"  123  ","discord_user_id":"456"}"#)).is_none());
}

#[test]
fn test_salon_d_annonce_large_channel_id() {
    assert_eq!(
        salon_d_annonce(&config(&[("announce_channel_id", "123456789012345")])),
        Some(123456789012345)
    );
}

#[test]
fn test_haut_fait_debloque_with_all_options() {
    let fait = HautFaitDebloque {
        guild_id: "100".into(),
        guild_num: 100,
        user_id: "200".into(),
        nom: "Full Test".into(),
        description: "Full test description".into(),
        jeu: Some("Test Game".into()),
        icon_url: Some("https://test.com/icon.png".into()),
    };
    assert_eq!(fait.guild_id, "100");
    assert_eq!(fait.guild_num, 100);
    assert_eq!(fait.user_id, "200");
    assert_eq!(fait.nom, "Full Test");
    assert_eq!(fait.description, "Full test description");
    assert_eq!(fait.jeu, Some("Test Game".to_string()));
    assert_eq!(fait.icon_url, Some("https://test.com/icon.png".to_string()));
}

#[test]
fn test_liste_two_items_exact_boundary() {
    let items = vec![
        item("First Achievement Name", "First description with some content", Some("2026-01-01T00:00:00Z")),
        item("Second Achievement Name", "Second description with some content", Some("2026-01-02T00:00:00Z")),
    ];
    let res = liste(&items, "Empty");
    assert!(res.contains("First"));
    assert!(res.contains("Second"));
}

#[test]
fn test_build_annonce_with_mention() {
    let msg = build_annonce(&fait_de_test(), Some(555), None);
    assert_eq!(msg.content.as_deref(), Some("<@&555>"));
}

#[test]
fn test_build_annonce_footer_branding() {
    let msg = build_annonce(&fait_de_test(), None, None);
    let footer = msg.embed.footer.clone().unwrap();
    assert!(footer.contains("Hauts faits"));
    assert!(footer.contains("Nexus"));
}

#[test]
fn test_parse_haut_fait_event_field_must_match() {
    let wrong_event = r#"{"event":"achievement.other","data":{"guild_id":"1","discord_user_id":"2"}}"#;
    assert!(parse_haut_fait(wrong_event).is_none());
}

#[test]
fn test_salon_d_annonce_default_enabled() {
    assert_eq!(salon_d_annonce(&config(&[("announce_channel_id", "123")])), Some(123));
}

#[test]
fn test_build_annonce_has_embed() {
    let msg = build_annonce(&fait_de_test(), None, None);
    assert!(msg.embed.title.is_some());
}

#[test]
fn test_build_annonce_embed_title() {
    let msg = build_annonce(&fait_de_test(), None, None);
    assert_eq!(msg.embed.title.as_deref(), Some("🏆 Haut fait debloque"));
}

#[test]
fn test_parse_haut_fait_description_empty_string() {
    let fait = parse_haut_fait(&evenement(r#"{"guild_id":"1","discord_user_id":"2","achievement_description":""}"#)).unwrap();
    assert_eq!(fait.description, "");
}

#[test]
fn test_liste_adds_ellipsis_when_truncated() {
    let items: Vec<AchievementProgress> = (0..100)
        .map(|i| item(&format!("Achievement{}", i), &"x".repeat(50), Some("2026-01-01T00:00:00Z")))
        .collect();
    let res = liste(&items, "Empty");
    assert!(res.contains("de plus"));
}

#[test]
fn test_salon_d_annonce_both_disabled() {
    let cfg = config(&[("announce_channel_id", "123"), ("enabled", "false"), ("announce_enabled", "false")]);
    assert_eq!(salon_d_annonce(&cfg), None);
}

#[test]
fn test_role_a_mentionner_with_spaces() {
    assert_eq!(role_a_mentionner(&config(&[("mention_role_id", "  777  ")])), Some(777));
}

#[test]
fn test_parse_haut_fait_all_optional_fields() {
    let payload = evenement(
        r#"{"guild_id":"5","discord_user_id":"6","achievement_name":"","achievement_description":"","game":"","icon_url":""}"#,
    );
    let fait = parse_haut_fait(&payload).unwrap();
    assert_eq!(fait.nom, "");
    assert_eq!(fait.description, "");
}

#[test]
fn test_liste_preserves_formatting() {
    let it = item("**Bold** Text", "_Italic_ Text", Some("2026-01-01T00:00:00Z"));
    let res = liste(&[it], "Empty");
    assert!(res.contains("**Bold**"));
}

#[test]
fn test_haut_fait_debloque_debug() {
    let fait = HautFaitDebloque {
        guild_id: "1".into(),
        guild_num: 1,
        user_id: "2".into(),
        nom: "Test".into(),
        description: "Desc".into(),
        jeu: None,
        icon_url: None,
    };
    let debug_str = format!("{:?}", fait);
    assert!(debug_str.contains("1"));
}

#[test]
fn test_build_annonce_description_mentions_user() {
    let fait = HautFaitDebloque {
        guild_id: "1".into(),
        guild_num: 1,
        user_id: "999".into(),
        nom: "Test".into(),
        description: "Desc".into(),
        jeu: None,
        icon_url: None,
    };
    let msg = build_annonce(&fait, None, None);
    assert!(msg.embed.description.unwrap().contains("999"));
}

#[test]
fn test_module_bot_name_used_correctly() {
    assert_eq!(MODULE_BOT_NAME, "nexus-achievements");
}

#[test]
fn test_salon_d_annonce_with_negative_channel() {
    assert_eq!(salon_d_annonce(&config(&[("announce_channel_id", "-1")])), None);
}

// Own checks.

#[test]
fn liste_fits_in_an_embed_field() {
    let items: Vec<AchievementProgress> = (0..200)
        .map(|i| item(&format!("Nom {i}"), &"é".repeat(40), Some("2026-01-01T00:00:00Z")))
        .collect();
    let res = liste(&items, "Vide");
    assert!(res.len() <= 1024);
    assert!(res.ends_with("de plus._"));
}

#[test]
fn liste_exact_text_of_two_items() {
    let items = vec![item("A", "a", None), item("B", "b", None)];
    assert_eq!(liste(&items, "Vide"), "• **A** — a\n• **B** — b\n");
}

#[test]
fn the_card_counts_and_splits_the_achievements() {
    let mut a = item("Gagne", "desc", Some("2026-01-01T00:00:00Z"));
    a.icon_url = Some("/img/a.png".into());
    let b = item("Reste", "desc", None);
    let card = nexus_bot::achievements::progress_card(7, &[a, b], Some("https://front.example"));
    assert_eq!(card.title.as_deref(), Some("🏆 Hauts faits — 1 / 2"));
    assert_eq!(card.description.as_deref(), Some("<@7>"));
    assert_eq!(card.thumbnail.as_deref(), Some("https://front.example/img/a.png"));
    assert_eq!(card.fields.len(), 2);
    assert_eq!(card.fields[0].name, "Debloques (1)");
    assert_eq!(card.fields[1].name, "A decrocher (1)");
}

#[test]
fn a_long_list_stays_within_a_field() {
    let items: Vec<AchievementProgress> = (0..200)
        .map(|i| AchievementProgress {
            name: format!("Haut fait numero {i} — très long"),
            description: "une description assez longue pour remplir le champ rapidement".to_string(),
            icon_url: None,
            unlocked_at: None,
        })
        .collect();
    let text = nexus_bot::achievements::liste(&items, "rien");
    assert!(text.len() <= 1024);
    assert!(text.chars().count() <= 1024);
    assert!(text.contains("de plus._"));
}
