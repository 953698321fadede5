use nexus_bot::portal::{parse_abandoned_server_name, registration_topic};
use nexus_bot::portal::{portal_click, PortalClick};
use nexus_bot::portal::{role_named, MemberRepair};
use nexus_bot::session_start::{
    is_session_panel_button, session_start_step, ClaimOutcome, SessionStartAction, SessionStartEvent, SessionStartState,
};
use nexus_bot::api_client::{GameServer, TemplateField};
use nexus_bot::config::GuildConfig;
use nexus_bot::portal::{
    build_opening_soon_embed, build_private_reveal_card, build_restart_warning_content,
    build_restarted_content, chunk_options, est_annonce_de_redemarrage, etat_affiche,
    format_daily_ping_content, format_registration_ack_content, format_registration_error_content,
    format_reveal_ack, format_when_timestamp, handles_component, legacy_private_text_name,
    panel_rows, parse_deleted_payload, parse_portal_event, parse_restart_warning,
    private_text_topic, public_cover_url, public_cover_url_for_status, role_de_session,
    server_id_from_topic, session_role_name, session_suffix, slugify, strip_status_suffix,
    RapportResync,
};
use nexus_bot::reglages::{
    is_player_password_key, is_safe_game_option, lignes_reglages, nom_du_reglage,
    public_game_options, registration_options, section_du_reglage, valeur_lisible,
};

fn champ(key: &str, label: &str, group: Option<&str>) -> TemplateField {
    TemplateField { key: key.into(), label: label.into(), group: group.map(str::to_string) }
}

fn config(paires: &[(&str, &str)]) -> GuildConfig {
    let mut cfg = GuildConfig::new();
    for (k, v) in paires {
        cfg.insert((*k).to_string(), (*v).to_string());
    }
    cfg
}

#[test]
fn les_reglages_prennent_leur_nom_francais() {
    let schema = vec![champ("SPAWN_MONSTERS", "Spawn monstres", Some("Monde"))];
    let cfg = config(&[("SPAWN_MONSTERS", "true")]);
    let lignes = lignes_reglages(&cfg, &schema, true);
    assert!(lignes.iter().any(|l| l.contains("Spawn monstres")));
    assert!(!lignes.iter().any(|l| l.contains("SPAWN_MONSTERS")), "la cle technique ne doit plus apparaitre");
    assert!(lignes.iter().any(|l| l.contains("Monde")));
}

#[test]
fn un_reglage_inconnu_du_schema_reste_affiche() {
    let cfg = config(&[("MYSTERE", "42")]);
    let lignes = lignes_reglages(&cfg, &[], true);
    assert!(lignes.iter().any(|l| l.contains("MYSTERE")));
}

#[test]
fn les_valeurs_booleennes_se_lisent_en_francais() {
    assert_eq!(valeur_lisible("true"), "Oui");
    assert_eq!(valeur_lisible("false"), "Non");
    assert_eq!(valeur_lisible("1"), "Oui");
    assert_eq!(valeur_lisible("0"), "Non");
    assert_eq!(valeur_lisible(""), "—");
    assert_eq!(valeur_lisible("normal"), "normal");
}

#[test]
fn le_mot_de_passe_ne_sort_pas_du_salon_prive() {
    let cfg = config(&[("SERVER_PASSWORD", "secret")]);
    let prive = lignes_reglages(&cfg, &[], true);
    let inscription = lignes_reglages(&cfg, &[], false);
    assert!(prive.iter().any(|l| l.contains("secret")));
    assert!(!inscription.iter().any(|l| l.contains("secret")));
}

#[test]
fn le_preavis_se_lit_dans_l_evenement() {
    let payload = r#"{"event":"game_server_restart_warning","data":{
        "server_id":"s1","guild_id":"1","minutes_left":15,
        "restart_at":"2026-08-19T13:00:00Z"}}"#;
    let (minutes, quand) = parse_restart_warning(payload);
    assert_eq!(minutes, 15);
    assert_eq!(quand.as_deref(), Some("2026-08-19T13:00:00Z"));
}

#[test]
fn un_preavis_illisible_ne_fait_pas_disparaitre_l_annonce() {
    assert_eq!(parse_restart_warning("pas du json"), (0, None));
    assert_eq!(parse_restart_warning(r#"{"event":"x"}"#), (0, None));
    let (minutes, quand) = parse_restart_warning(r#"{"data":{"server_id":"s1"}}"#);
    assert_eq!(minutes, 0);
    assert!(quand.is_none());
}

#[test]
fn l_annonce_de_redemarrage_mentionne_le_role_et_l_heure() {
    let avec = build_restart_warning_content(Some(42), "Valheim", 15, Some("2026-08-19T13:00:00Z"));
    assert!(avec.contains("<@&42>"));
    assert!(avec.contains("Valheim"));
    assert!(avec.contains("15 minutes"));
    assert!(avec.contains("<t:"));
    let sans = build_restart_warning_content(None, "Valheim", 15, None);
    assert!(!sans.contains("<@&"));
    assert!(!sans.contains("<t:"));
    assert!(sans.contains("Valheim"));
}

#[test]
fn l_annonce_de_retour_dit_quand_revenir() {
    let avec = build_restarted_content(Some(7), "Palworld");
    assert!(avec.contains("<@&7>"));
    assert!(avec.contains("Palworld"));
    assert!(build_restarted_content(None, "Palworld").contains("Palworld"));
}

#[test]
fn une_heure_de_redemarrage_illisible_est_simplement_omise() {
    let contenu = build_restart_warning_content(None, "Jeu", 5, Some("pas une date"));
    assert!(!contenu.contains("<t:"));
    assert!(contenu.contains("5 minutes"));
}

#[test]
fn game_portal_test_handles_component() {
    assert!(handles_component("gp_register:123"));
    assert!(handles_component("gp_unregister:123"));
    assert!(handles_component("gp_reveal_ip:123"));
    assert!(!handles_component("other_custom_id"));
}

#[test]
fn test_is_player_password_key() {
    assert!(is_player_password_key("PASSWORD"));
    assert!(is_player_password_key("server_pass"));
    assert!(is_player_password_key("SERVER_PASSWORD"));
    assert!(is_player_password_key("ServerConfig_ServerPassword"));
    assert!(!is_player_password_key("ADMIN_PASSWORD"));
}

#[test]
fn test_is_safe_game_option() {
    assert!(is_safe_game_option("SERVER_PASSWORD"));
    assert!(is_safe_game_option("MAX_PLAYERS"));
    assert!(!is_safe_game_option("OPS"));
    assert!(!is_safe_game_option("ADMIN_PASSWORD"));
    assert!(!is_safe_game_option("RCON_PORT"));
    assert!(!is_safe_game_option("API_KEY"));
    assert!(!is_safe_game_option("SECRET_TOKEN"));
}

#[test]
fn test_slugify() {
    assert_eq!(slugify("Minecraft 1.20"), "minecraft-1-20");
    assert_eq!(slugify("ARK: Survival Evolved"), "ark-survival-evolved");
    assert_eq!(slugify(""), "serveur");
}

#[test]
fn test_server_id_from_topic() {
    let topic = "Nexus Game Portal | session:abc-123-def | registration";
    assert_eq!(server_id_from_topic(topic), Some("abc-123-def"));
    assert_eq!(server_id_from_topic("aucun"), None);
}

#[test]
fn test_chunk_options() {
    let options = vec!["Option 1".to_string(), "Option 2".to_string()];
    let chunks = chunk_options(&options);
    assert_eq!(chunks.len(), 1);
    assert!(chunks[0].contains("Option 1"));
    assert!(chunks[0].contains("Option 2"));
    let long_opt = "A".repeat(600);
    let chunks_multi = chunk_options(&[long_opt.clone(), long_opt.clone()]);
    assert_eq!(chunks_multi.len(), 2);
}

#[test]
fn test_public_cover_url() {
    assert_eq!(public_cover_url(None, None), None);
    assert_eq!(public_cover_url(Some(""), None), None);
    assert_eq!(
        public_cover_url_for_status(Some("https://example.com/cover.jpg"), "open", None),
        Some("https://example.com/cover.jpg".into())
    );
    assert_eq!(
        public_cover_url_for_status(Some("https://example.com/cover.jpg"), "waiting", None),
        Some("https://example.com/cover_attente.jpg".into())
    );
    assert_eq!(
        public_cover_url_for_status(Some("https://example.com/cover.jpg"), "closed", None),
        Some("https://example.com/cover_offline.jpg".into())
    );
    assert_eq!(
        public_cover_url_for_status(Some("/imgs/game.png"), "open", Some("https://app.canap.fr")),
        Some("https://app.canap.fr/imgs/game.png".into())
    );
}

#[test]
fn test_session_helpers_and_names() {
    assert_eq!(session_suffix("srv-1234-5678-abc"), "srv12345");
    assert_eq!(session_role_name("Valheim RPG", "srv-123"), "valheim-rpg_srv123");
    assert_eq!(slugify("Valheim RPG"), "valheim-rpg");
    assert_eq!(legacy_private_text_name("srv-123"), "joueurs-srv123");
    assert_eq!(private_text_topic("srv-123"), "Nexus Game Portal | session:srv-123 | private");
}

#[test]
fn test_valeur_lisible() {
    assert_eq!(valeur_lisible("true"), "Oui");
    assert_eq!(valeur_lisible("1"), "Oui");
    assert_eq!(valeur_lisible("false"), "Non");
    assert_eq!(valeur_lisible("0"), "Non");
    assert_eq!(valeur_lisible(""), "—");
    assert_eq!(valeur_lisible("10"), "10");
}

#[test]
fn test_lignes_and_sections_reglages() {
    let schema = [champ("PVP", "Combat PvP", Some("Gameplay"))];
    assert_eq!(nom_du_reglage(&schema, "PVP"), "Combat PvP");
    assert_eq!(nom_du_reglage(&schema, "UNKNOWN"), "UNKNOWN");
    assert_eq!(section_du_reglage(&schema, "PVP"), "Gameplay");
    assert_eq!(section_du_reglage(&schema, "UNKNOWN"), "Reglages generaux");
    let cfg = config(&[("PVP", "true"), ("PASSWORD", "secret"), ("ADMIN_PASS", "supersecret")]);
    assert_eq!(lignes_reglages(&cfg, &schema, false).len(), 2);
    assert_eq!(lignes_reglages(&cfg, &schema, true).len(), 4);
    assert_eq!(public_game_options(&cfg, &schema).len(), 4);
    assert_eq!(registration_options(&cfg, &schema).len(), 2);
}

#[test]
fn test_status_and_cover_helpers() {
    assert_eq!(strip_status_suffix("cover_attente"), "cover");
    assert_eq!(strip_status_suffix("cover_waiting"), "cover");
    assert_eq!(strip_status_suffix("cover_offline"), "cover");
    assert_eq!(strip_status_suffix("cover_normal"), "cover_normal");
    let url = Some("https://example.com/cover.jpg");
    assert_eq!(public_cover_url_for_status(url, "open", None), Some("https://example.com/cover.jpg".into()));
    assert_eq!(public_cover_url_for_status(url, "waiting", None), Some("https://example.com/cover_attente.jpg".into()));
    assert_eq!(public_cover_url_for_status(url, "closed", None), Some("https://example.com/cover_offline.jpg".into()));
    assert_eq!(public_cover_url_for_status(url, "scheduled", None), Some("https://example.com/cover_attente.jpg".into()));
    assert_eq!(public_cover_url_for_status(url, "stopped", None), Some("https://example.com/cover_offline.jpg".into()));
    let srv = GameServer {
        id: "s1".into(),
        guild_id: "g1".into(),
        template_id: "t1".into(),
        name: "Server".into(),
        status: "Running".into(),
        owner_user_id: "u1".into(),
        host_port: Some(25565),
        public_host: Some("play.com".into()),
        ip_reveal_at: None,
        ip_revealed: true,
        display_state: Some("open".into()),
        announcement_posted_at: None,
        rules: None,
        channel_name_registration: None,
        channel_name_private: None,
        channel_name_voice: None,
        text_channel_id: None,
        voice_channel_id: None,
        last_player_count: 0,
    };
    assert_eq!(etat_affiche(&srv), "open");
}

#[test]
fn test_parse_portal_event() {
    let valid_json = r#"{"event":"server.started","data":{"server_id":"srv_123","guild_id":"98765"}}"#;
    assert_eq!(parse_portal_event(valid_json), Some(("server.started".into(), "srv_123".into(), 98765)));
    assert_eq!(parse_portal_event("invalid json"), None);
    assert_eq!(parse_portal_event(r#"{"event":"server.started"}"#), None);
    assert_eq!(parse_portal_event(r#"{"event":"server.started","data":{"server_id":"s1"}}"#), None);
    assert_eq!(
        parse_portal_event(r#"{"event":"server.started","data":{"server_id":"s1","guild_id":"not_a_num"}}"#),
        None
    );
}

#[test]
fn test_reveal_and_ping_helpers() {
    let ack_start = format_reveal_ack(true, 5);
    assert!(ack_start.contains("démarre"));
    assert!(ack_start.contains("5 minute(s)"));
    let ack_online = format_reveal_ack(false, 2);
    assert!(ack_online.contains("déjà en ligne"));
    let embed_soon = build_opening_soon_embed("Minecraft", 10);
    assert!(embed_soon.title.as_deref().unwrap().contains("Minecraft"));
    assert!(embed_soon.description.as_deref().unwrap().contains("10 minute(s)"));
    let card = build_private_reveal_card("Minecraft", "Serveur Canap", Some("play.net"), Some(25565), Some("https://example.com/mc.jpg"));
    assert!(card.title.as_deref().unwrap().contains("Minecraft — Serveur Canap"));
    assert!(card.description.as_deref().unwrap().contains("`play.net:25565`"));
    assert_eq!(card.image.as_deref(), Some("https://example.com/mc.jpg"));
    let card_none = build_private_reveal_card("Minecraft", "Serveur Canap", None, None, None);
    assert!(card_none.description.as_deref().unwrap().contains("Adresse indisponible"));
    let ping_msg = format_daily_ping_content(1234, "Minecraft", "<t:100:R>");
    assert_eq!(ping_msg, "<@&1234> Le serveur **Minecraft** ouvre <t:100:R> ! Inscris-toi sur le panneau.");
    assert_eq!(format_when_timestamp(None), "bientôt");
    assert_eq!(format_when_timestamp(Some("2026-01-01T00:00:00Z")), "<t:1767225600:R>");
}

#[test]
fn test_panel_rows_and_embeds() {
    let rows = panel_rows("srv1", false);
    assert_eq!(rows.len(), 3);
    assert_eq!(rows[0].custom_id, "gp_register:srv1");
    assert_eq!(rows[2].custom_id, "gp_reveal_ip:srv1");
    let rows_revealed = panel_rows("srv1", true);
    assert_eq!(rows_revealed.len(), 2);
    let embed = nexus_bot::portal::build_panel_embed(
        "Minecraft",
        "Serveur",
        &["u1".to_string(), "u2".to_string()],
        Some("2026-01-01T00:00:00Z"),
        false,
        None,
        None,
    );
    assert!(embed.title.as_deref().unwrap().contains("Minecraft"));
    assert_eq!(embed.fields[0].name, "Inscrits (2)");
    assert_eq!(embed.fields[0].value, "<@u1>, <@u2>");
    assert!(embed.fields[1].value.contains("<t:1767225600:F>"));
}

#[test]
fn test_portal_registration_and_reveal_logic() {
    assert_eq!(strip_status_suffix("image_attente"), "image");
    assert_eq!(strip_status_suffix("image_waiting"), "image");
    assert_eq!(strip_status_suffix("image_offline"), "image");
    assert_eq!(strip_status_suffix("image_normal"), "image_normal");
    assert_eq!(format_registration_error_content(true, "quota"), "❌ Inscription impossible : quota");
    assert_eq!(format_registration_error_content(false, "introuvable"), "❌ Désinscription impossible : introuvable");
    assert_eq!(format_registration_ack_content(true), "Inscription enregistrée");
    assert_eq!(format_registration_ack_content(false), "Désinscription enregistrée");
}

fn enveloppe(data: &str) -> String {
    format!(r#"{{"event":"game_server_deleted","data":{}}}"#, data)
}

#[test]
fn les_salons_traversent_l_evenement() {
    let payload = enveloppe(
        r#"{"server_id":"11111111-1111-1111-1111-111111111111","guild_id":"123456789012345678","text_channel_id":"222222222222222222","voice_channel_id":"333333333333333333","template_id":"44444444-4444-4444-4444-444444444444"}"#,
    );
    let (texte, vocal, template) = parse_deleted_payload(&payload).expect("charge utile lisible");
    assert_eq!(texte.as_deref(), Some("222222222222222222"));
    assert_eq!(vocal.as_deref(), Some("333333333333333333"));
    assert_eq!(template, "44444444-4444-4444-4444-444444444444");
}

#[test]
fn un_serveur_sans_salons_reste_lisible() {
    let payload = enveloppe(
        r#"{"server_id":"11111111-1111-1111-1111-111111111111","guild_id":"123456789012345678","text_channel_id":null,"voice_channel_id":null,"template_id":"44444444-4444-4444-4444-444444444444"}"#,
    );
    let (texte, vocal, _) = parse_deleted_payload(&payload).expect("charge utile lisible");
    assert!(texte.is_none());
    assert!(vocal.is_none());
}

#[test]
fn un_message_d_avant_l_enrichissement_est_refuse() {
    let ancien = enveloppe(r#"{"server_id":"11111111-1111-1111-1111-111111111111","guild_id":"123456789012345678"}"#);
    assert!(parse_deleted_payload(&ancien).is_none());
}

#[test]
fn une_charge_utile_illisible_ne_panique_pas() {
    assert!(parse_deleted_payload("pas du json").is_none());
    assert!(parse_deleted_payload("{}").is_none());
}

#[test]
fn les_deux_annonces_sont_reconnues() {
    let preavis = build_restart_warning_content(None, "Palworld", 15, None);
    let retour = build_restarted_content(None, "Palworld");
    assert!(est_annonce_de_redemarrage(&preavis));
    assert!(est_annonce_de_redemarrage(&retour));
}

#[test]
fn la_mention_de_role_ne_gene_pas() {
    let role = Some(123456789012345678);
    assert!(est_annonce_de_redemarrage(&build_restart_warning_content(role, "Minecraft", 15, None)));
    assert!(est_annonce_de_redemarrage(&build_restarted_content(role, "Minecraft")));
}

#[test]
fn un_autre_message_a_coche_est_epargne() {
    assert!(!est_annonce_de_redemarrage("✅ **Palworld** : inscription enregistree."));
    assert!(!est_annonce_de_redemarrage("✅ Adresse revelee."));
    assert!(!est_annonce_de_redemarrage("🔄 Synchronisation des roles terminee."));
}

#[test]
fn un_message_de_joueur_est_epargne() {
    assert!(!est_annonce_de_redemarrage("il redemarre dans combien de temps ?"));
    assert!(!est_annonce_de_redemarrage(""));
}

#[test]
fn le_role_de_sa_propre_session_est_reconnu() {
    let id = "3f2a91bc-4d5e-4a7b-9c1d-2e3f4a5b6c7d";
    assert!(role_de_session(&session_role_name("Palworld", id), id));
    assert!(role_de_session(&session_role_name("Project Zomboid", id), id));
}

#[test]
fn le_role_d_une_autre_session_est_epargne() {
    let mien = "3f2a91bc-4d5e-4a7b-9c1d-2e3f4a5b6c7d";
    let autre = "99887766-4d5e-4a7b-9c1d-2e3f4a5b6c7d";
    assert!(!role_de_session(&session_role_name("Palworld", autre), mien));
}

#[test]
fn a_role_is_taken_exactly_when_the_suffixes_agree() {
    let mien = "3f2a91bc-4d5e-4a7b-9c1d-2e3f4a5b6c7d";
    assert!(role_de_session(&session_role_name("Palworld", "3f-2a-91-bc"), mien));
    assert!(!role_de_session(&session_role_name("Palworld", "3f2a91b"), mien));
    assert!(!role_de_session(&session_role_name("Palworld", "3f2a91bd"), mien));
}

#[test]
fn un_identifiant_trop_court_ne_reconnait_rien() {
    for (role, court) in [
        ("moderateur_abc", "abc"),
        ("staff_a1", "a1"),
        ("vip_2e3f4a5", "2e3f4a5"),
        ("quelquechose_", ""),
        ("autre_", "---"),
    ] {
        assert!(!role_de_session(role, court), "role {role:?} emporte par l'identifiant trop court {court:?}");
    }
}

#[test]
fn les_roles_ordinaires_sont_epargnes() {
    let id = "3f2a91bc-4d5e-4a7b-9c1d-2e3f4a5b6c7d";
    for nom in ["Moderateur", "@everyone", "admin_3f2a91b", "3f2a91bc"] {
        assert!(!role_de_session(nom, id), "role {nom:?} emporte a tort");
    }
}

#[test]
fn le_sujet_livre_l_identifiant_de_session() {
    let id = "3f2a91bc-4d5e-4a7b-9c1d-2e3f4a5b6c7d";
    assert_eq!(server_id_from_topic(&format!("Nexus Game Portal | session:{id} | registration")), Some(id));
    assert_eq!(server_id_from_topic(&format!("Nexus Game Portal | session:{id} | private")), Some(id));
    assert_eq!(server_id_from_topic("Salon de discussion general"), None);
}

#[test]
fn une_session_intacte_le_dit_sans_ambiguite() {
    let r = RapportResync { inscrits: 7, ..Default::default() };
    assert!(r.rien_a_faire());
    let texte = r.resume();
    assert!(texte.contains("Rien a reparer"));
    assert!(texte.contains('7'));
}

#[test]
fn chaque_reparation_est_nommee() {
    let r = RapportResync { inscrits: 5, roles_poses: 3, absents: 1, role_recree: true, panneau_republie: true };
    assert!(!r.rien_a_faire());
    let texte = r.resume();
    assert!(texte.contains("Role de session recree"));
    assert!(texte.contains("3 membre(s)"));
    assert!(texte.contains("Panneau d'inscription republie"));
    assert!(texte.contains("1 inscrit(s) introuvable"));
}

#[test]
fn un_role_rendu_suffit_a_ne_pas_dire_rien_a_faire() {
    let r = RapportResync { inscrits: 4, roles_poses: 1, ..Default::default() };
    assert!(!r.rien_a_faire());
    assert!(r.resume().contains("1 membre(s)"));
}

#[test]
fn des_absents_seuls_ne_valent_pas_reparation() {
    let r = RapportResync { inscrits: 4, absents: 2, ..Default::default() };
    assert!(r.rien_a_faire());
    assert!(r.resume().contains("Rien a reparer"));
}

// Own checks.

#[test]
fn the_exact_restart_announcement() {
    assert_eq!(
        build_restart_warning_content(Some(5), "Valheim", 15, Some("2026-01-01T00:00:00Z")),
        "🔄 <@&5> **Valheim** redemarre dans **15 minutes** (<t:1767225600:t>).\nMettez-vous a l'abri et sauvegardez votre progression."
    );
    assert_eq!(build_restarted_content(None, "Valheim"), "✅ **Valheim** est de nouveau en ligne.");
}

#[test]
fn chunks_keep_every_line_in_order() {
    let lines: Vec<String> = (0..40).map(|i| format!("ligne {i} {}", "z".repeat(60))).collect();
    let chunks = chunk_options(&lines);
    assert!(chunks.len() > 1);
    assert!(chunks.iter().all(|c| c.len() <= 1000));
    assert_eq!(chunks.join("\n"), lines.join("\n"));
}

#[test]
fn the_topic_of_a_private_channel_gives_back_its_session() {
    let id = "3f2a91bc-4d5e";
    assert_eq!(server_id_from_topic(&private_text_topic(id)), Some(id));
}

#[test]
fn a_topic_gives_back_an_id_of_any_characters() {
    for id in ["srv:42_é", "x", "a\tb", "ab\u{00A0}cd"] {
        assert_eq!(server_id_from_topic(&private_text_topic(id)), Some(id));
        assert_eq!(server_id_from_topic(&registration_topic(id)), Some(id));
    }
}

#[test]
fn the_options_card_has_a_block_even_without_options() {
    let embeds = nexus_bot::portal::build_options_embeds("Jeu", "Srv", &[]);
    assert_eq!(embeds.len(), 1);
    assert_eq!(embeds[0].fields[0].value, "_Aucune option publique configurée._");
    assert_eq!(embeds[0].title.as_deref(), Some("⚙️ Paramètres — Jeu · Srv"));
}

#[test]
fn a_click_names_its_action_and_server() {
    assert!(matches!(portal_click("gp_register:abc"), Some(PortalClick::Register(s)) if s == "abc"));
    assert!(matches!(portal_click("gp_unregister:abc"), Some(PortalClick::Unregister(s)) if s == "abc"));
    assert!(matches!(portal_click("gp_reveal_ip:abc"), Some(PortalClick::RevealIp(s)) if s == "abc"));
    assert!(portal_click("autre").is_none());
}

#[test]
fn the_registration_topic_gives_back_its_session() {
    let id = "3f2a91bc-4d5e-4a7b-9c1d-2e3f4a5b6c7d";
    assert_eq!(registration_topic(id), format!("Nexus Game Portal | session:{id} | registration"));
    assert_eq!(server_id_from_topic(&registration_topic(id)), Some(id));
    assert_eq!(parse_abandoned_server_name(r#"{"data":{"nom":"Valheim"}}"#), "Valheim");
    assert_eq!(parse_abandoned_server_name("pas du json"), "un serveur");
}

#[test]
fn panel_buttons_name_their_session() {
    for revealed in [false, true] {
        let rows = panel_rows("srv-7", revealed);
        assert_eq!(rows.len(), if revealed { 2 } else { 3 });
        assert!(matches!(portal_click(&rows[0].custom_id), Some(PortalClick::Register(s)) if s == "srv-7"));
        assert!(matches!(portal_click(&rows[1].custom_id), Some(PortalClick::Unregister(s)) if s == "srv-7"));
        if !revealed {
            assert!(matches!(portal_click(&rows[2].custom_id), Some(PortalClick::RevealIp(s)) if s == "srv-7"));
        }
    }
}

#[test]
fn an_opening_keeps_or_rolls_back_what_it_created() {
    let (s, a) = session_start_step(SessionStartState::Reading, SessionStartEvent::ServerRead { text_channel: None });
    assert_eq!(a, SessionStartAction::CreateRole);
    let (s, a) = session_start_step(s, SessionStartEvent::RoleCreated { role: Some(9) });
    assert_eq!(a, SessionStartAction::CreateChannels { role: 9 });
    let (partial, a) = session_start_step(s, SessionStartEvent::ChannelsCreated { text: Some(1), private: None, voice: Some(3) });
    assert_eq!(partial, SessionStartState::Finished);
    assert_eq!(a, SessionStartAction::RollBack { text_channel: Some(1), private_channel: None, voice_channel: Some(3), role: 9 });
    let (s, a) = session_start_step(s, SessionStartEvent::ChannelsCreated { text: Some(1), private: Some(2), voice: Some(3) });
    assert_eq!(a, SessionStartAction::ClaimChannels { text: 1, voice: 3 });
    let (_, a) = session_start_step(s, SessionStartEvent::ChannelsClaimed { outcome: ClaimOutcome::AlreadyClaimed });
    assert_eq!(a, SessionStartAction::RollBack { text_channel: Some(1), private_channel: Some(2), voice_channel: Some(3), role: 9 });
    for outcome in [ClaimOutcome::Claimed, ClaimOutcome::Failed] {
        let (_, a) = session_start_step(s, SessionStartEvent::ChannelsClaimed { outcome });
        assert_eq!(a, SessionStartAction::GrantRoleAndPublish { role: 9 });
    }
}

#[test]
fn an_opening_with_channels_in_place_refreshes_its_panel() {
    let (s, a) = session_start_step(SessionStartState::Reading, SessionStartEvent::ServerRead { text_channel: Some(5) });
    assert_eq!(a, SessionStartAction::CheckChannel { channel: 5 });
    let (_, a) = session_start_step(s, SessionStartEvent::ChannelChecked { exists: true });
    assert_eq!(a, SessionStartAction::RefreshPinnedPanel { channel: 5 });
    let (s, a) = session_start_step(s, SessionStartEvent::ChannelChecked { exists: false });
    assert_eq!(a, SessionStartAction::ReleaseGhosts);
    assert_eq!(session_start_step(s, SessionStartEvent::GhostsReleased { ok: false }).1, SessionStartAction::Stop);
    assert_eq!(session_start_step(s, SessionStartEvent::GhostsReleased { ok: true }).1, SessionStartAction::CreateRole);
    assert_eq!(session_start_step(SessionStartState::Reading, SessionStartEvent::ServerUnreadable).1, SessionStartAction::Stop);
    assert!(is_session_panel_button("gp_register:abc-1", "abc-1"));
    assert!(is_session_panel_button("gp_register:x:abc-1:y", "abc-1"));
    assert!(!is_session_panel_button("gp_unregister:abc-1", "abc-1"));
    assert!(!is_session_panel_button("gp_register:abc-2", "abc-1"));
}

#[test]
fn a_repair_counts_each_member_once() {
    let mut rapport = RapportResync::default();
    for m in [MemberRepair::Given, MemberRepair::Missing, MemberRepair::AlreadyHeld, MemberRepair::NotGiven, MemberRepair::Given] {
        rapport.note_member(m);
    }
    assert_eq!(rapport.roles_poses, 2);
    assert_eq!(rapport.absents, 2);
    assert!(!rapport.role_recree);
    let roles = vec![(1, "admin".to_string()), (2, "valheim_3f2a91bc".to_string()), (3, "valheim_3f2a91bc".to_string())];
    assert_eq!(role_named(&roles, "valheim_3f2a91bc"), Some(2));
    assert_eq!(role_named(&roles, "autre"), None);
}
