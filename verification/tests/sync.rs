use nexus_bot::json::Json;
use nexus_bot::sync::{build_inventory, role_json};

fn at<'a>(j: &'a Json, key: &str) -> &'a Json {
    j.get(key).unwrap()
}

fn arr<'a>(j: &'a Json, key: &str) -> &'a Vec<Json> {
    at(j, key).as_array().unwrap()
}

fn text<'a>(j: &'a Json, key: &str) -> &'a str {
    at(j, key).as_str().unwrap().as_str()
}

fn texts(j: &Json, key: &str) -> Vec<String> {
    arr(j, key).iter().map(|v| v.as_str().unwrap().clone()).collect()
}

fn strings(v: &[&str]) -> Vec<String> {
    v.iter().map(|s| s.to_string()).collect()
}

#[test]
fn un_identifiant_de_role_part_toujours_en_chaine() {
    let enorme = 1_234_567_890_123_456_789u64;
    let json = role_json(enorme, "Joueurs", 0x3498db, true);
    assert_eq!(text(&json, "id"), enorme.to_string());
    assert!(at(&json, "id").is_string());
    assert_eq!(text(&json, "id").parse::<u64>().unwrap(), enorme);
}

#[test]
fn un_role_porte_son_nom_sa_couleur_et_sa_mentionnabilite() {
    let json = role_json(42, "Minecraft", 0x2ecc71, false);
    assert_eq!(text(&json, "name"), "Minecraft");
    assert_eq!(at(&json, "color").as_u64(), Some(0x2ecc71));
    assert_eq!(at(&json, "mentionable").as_bool(), Some(false));

    let json = role_json(1, "7 Days to Die \u{1f9df}", 0, true);
    assert_eq!(text(&json, "name"), "7 Days to Die \u{1f9df}");
    assert_eq!(at(&json, "mentionable").as_bool(), Some(true));
}

#[test]
fn l_inventaire_garde_les_trois_listes_separees() {
    let roles = vec![role_json(1, "A", 0, true)];
    let vivants = strings(&["100", "200"]);
    let illisibles = strings(&["300"]);
    let inv = build_inventory(roles, &vivants, &illisibles);
    assert_eq!(arr(&inv, "roles").len(), 1);
    assert_eq!(texts(&inv, "live_panel_messages"), strings(&["100", "200"]));
    assert_eq!(texts(&inv, "unreadable_channels"), strings(&["300"]));
}

#[test]
fn un_inventaire_vide_reste_un_inventaire() {
    let inv = build_inventory(vec![], &[], &[]);
    assert!(arr(&inv, "roles").is_empty());
    assert!(arr(&inv, "live_panel_messages").is_empty());
    assert!(arr(&inv, "unreadable_channels").is_empty());
}

#[test]
fn test_role_json_with_various_colors() {
    let j1 = role_json(100, "Red", 0xFF0000, true);
    assert_eq!(at(&j1, "color").as_u64(), Some(0xFF0000));
    assert_eq!(text(&j1, "id"), "100");

    let j2 = role_json(200, "Blue", 0x0000FF, false);
    assert_eq!(at(&j2, "color").as_u64(), Some(0x0000FF));
    assert_eq!(at(&j2, "mentionable").as_bool(), Some(false));
}

#[test]
fn test_role_json_preserves_all_fields() {
    let j = role_json(42, "TestRole", 0x123456, true);
    assert_eq!(text(&j, "id"), "42");
    assert_eq!(text(&j, "name"), "TestRole");
    assert_eq!(at(&j, "color").as_u64(), Some(0x123456));
    assert_eq!(at(&j, "mentionable").as_bool(), Some(true));
}

#[test]
fn test_role_json_with_unicode_name() {
    let j = role_json(1, "🎮 Minecraft", 0x2ecc71, true);
    assert_eq!(text(&j, "name"), "🎮 Minecraft");
}

#[test]
fn test_build_inventory_with_all_populated() {
    let roles = vec![role_json(1, "Role1", 0, true), role_json(2, "Role2", 0, false)];
    let inv = build_inventory(roles, &strings(&["msg1", "msg2"]), &strings(&["ch1"]));
    assert_eq!(arr(&inv, "roles").len(), 2);
    assert_eq!(arr(&inv, "live_panel_messages").len(), 2);
    assert_eq!(arr(&inv, "unreadable_channels").len(), 1);
}

#[test]
fn test_build_inventory_only_roles() {
    let inv = build_inventory(vec![role_json(1, "Role1", 0, true)], &[], &[]);
    assert_eq!(arr(&inv, "roles").len(), 1);
    assert_eq!(arr(&inv, "live_panel_messages").len(), 0);
    assert_eq!(arr(&inv, "unreadable_channels").len(), 0);
}

#[test]
fn test_build_inventory_only_live_panels() {
    let inv = build_inventory(vec![], &strings(&["msg1"]), &[]);
    assert_eq!(arr(&inv, "roles").len(), 0);
    assert_eq!(arr(&inv, "live_panel_messages").len(), 1);
    assert_eq!(arr(&inv, "unreadable_channels").len(), 0);
}

#[test]
fn test_build_inventory_only_unreadable() {
    let inv = build_inventory(vec![], &[], &strings(&["ch1", "ch2"]));
    assert_eq!(arr(&inv, "roles").len(), 0);
    assert_eq!(arr(&inv, "live_panel_messages").len(), 0);
    assert_eq!(arr(&inv, "unreadable_channels").len(), 2);
}

#[test]
fn test_large_role_id_preserved_as_string() {
    let huge_id = u64::MAX;
    let j = role_json(huge_id, "Huge", 0, false);
    assert_eq!(text(&j, "id"), huge_id.to_string());
}

#[test]
fn test_role_json_with_empty_name() {
    assert_eq!(text(&role_json(1, "", 0, true), "name"), "");
}

#[test]
fn test_role_json_color_zero() {
    assert_eq!(at(&role_json(1, "Test", 0, true), "color").as_u64(), Some(0));
}

#[test]
fn test_role_json_with_spaces_in_name() {
    let j = role_json(1, "Role   With   Spaces", 0x123456, true);
    assert_eq!(text(&j, "name"), "Role   With   Spaces");
}

#[test]
fn test_inventory_structure_consistency() {
    let inv1 = build_inventory(vec![], &[], &[]);
    assert!(inv1.get("roles").is_some());
    assert!(inv1.get("live_panel_messages").is_some());
    assert!(inv1.get("unreadable_channels").is_some());

    let inv2 = build_inventory(vec![role_json(1, "R", 0, true)], &strings(&["1"]), &strings(&["2"]));
    assert!(inv2.get("roles").is_some());
    assert!(inv2.get("live_panel_messages").is_some());
    assert!(inv2.get("unreadable_channels").is_some());
}

#[test]
fn test_role_json_with_max_color() {
    assert_eq!(at(&role_json(1, "Test", u32::MAX, true), "color").as_u64(), Some(u32::MAX as u64));
}

#[test]
fn test_role_json_mentionable_false() {
    assert_eq!(at(&role_json(1, "Test", 0, false), "mentionable").as_bool(), Some(false));
}

#[test]
fn test_role_json_mentionable_true() {
    assert_eq!(at(&role_json(1, "Test", 0, true), "mentionable").as_bool(), Some(true));
}

#[test]
fn test_build_inventory_many_roles() {
    let roles: Vec<Json> = (0..10u64).map(|i| role_json(i, &format!("Role{}", i), i as u32, i % 2 == 0)).collect();
    let inv = build_inventory(roles, &[], &[]);
    assert_eq!(arr(&inv, "roles").len(), 10);
}

#[test]
fn test_build_inventory_many_panels() {
    let live: Vec<String> = (0..20).map(|i: i32| i.to_string()).collect();
    let inv = build_inventory(vec![], &live, &[]);
    assert_eq!(arr(&inv, "live_panel_messages").len(), 20);
}

#[test]
fn test_build_inventory_duplicates_preserved() {
    let inv = build_inventory(vec![], &strings(&["1", "1", "2"]), &[]);
    assert_eq!(arr(&inv, "live_panel_messages").len(), 3);
}

#[test]
fn test_role_json_numeric_id_boundaries() {
    for id in [1u64, 10, 100, 1000, 10000] {
        let j = role_json(id, "Test", 0, true);
        assert_eq!(text(&j, "id").parse::<u64>().unwrap(), id);
    }
}

#[test]
fn test_build_inventory_json_structure() {
    let inv = build_inventory(vec![role_json(1, "Test", 0xFF0000, true)], &strings(&["msg1"]), &strings(&["ch1"]));
    assert!(at(&inv, "roles").is_array());
    assert!(at(&inv, "live_panel_messages").is_array());
    assert!(at(&inv, "unreadable_channels").is_array());

    let first_role = &arr(&inv, "roles")[0];
    assert!(at(first_role, "id").is_string());
    assert!(at(first_role, "name").is_string());
    assert!(at(first_role, "color").is_number());
    assert!(at(first_role, "mentionable").is_boolean());
}

#[test]
fn test_role_json_special_characters_in_name() {
    assert_eq!(text(&role_json(1, "Role™ | Spéciâl", 0, true), "name"), "Role™ | Spéciâl");
}

#[test]
fn test_build_inventory_empty_strings_in_arrays() {
    let inv = build_inventory(vec![], &strings(&["", "msg"]), &strings(&[""]));
    assert_eq!(arr(&inv, "live_panel_messages").len(), 2);
    assert_eq!(arr(&inv, "unreadable_channels").len(), 1);
}

#[test]
fn test_role_json_zero_id() {
    assert_eq!(text(&role_json(0, "ZeroRole", 0, true), "id"), "0");
}

#[test]
fn test_build_inventory_mixed_sizes() {
    let roles = vec![role_json(1, "R", 0, true), role_json(2, "R2", 0xFF0000, false)];
    let inv = build_inventory(roles, &strings(&["a", "b", "c"]), &strings(&["x"]));
    assert_eq!(arr(&inv, "roles").len(), 2);
    assert_eq!(arr(&inv, "live_panel_messages").len(), 3);
    assert_eq!(arr(&inv, "unreadable_channels").len(), 1);

    let r = arr(&inv, "roles");
    assert_ne!(at(&r[0], "mentionable").as_bool(), at(&r[1], "mentionable").as_bool());
}

#[test]
fn test_role_json_id_string_format() {
    let j = role_json(12345, "Test", 0, true);
    assert!(at(&j, "id").is_string());
    assert_eq!(text(&j, "id"), "12345");
}

#[test]
fn test_role_json_name_preserved() {
    assert_eq!(text(&role_json(1, "MyRoleName", 0, true), "name"), "MyRoleName");
}

#[test]
fn test_build_inventory_array_types() {
    let inv = build_inventory(vec![], &[], &[]);
    assert!(at(&inv, "roles").is_array());
    assert!(at(&inv, "live_panel_messages").is_array());
    assert!(at(&inv, "unreadable_channels").is_array());
}

#[test]
fn test_role_json_all_fields_present() {
    let j = role_json(5, "Test", 0x123456, false);
    assert!(j.get("id").is_some());
    assert!(j.get("name").is_some());
    assert!(j.get("color").is_some());
    assert!(j.get("mentionable").is_some());
}

#[test]
fn test_build_inventory_roles_array_contains_objects() {
    let inv = build_inventory(vec![role_json(1, "R1", 0, true)], &[], &[]);
    assert!(arr(&inv, "roles")[0].is_object());
}

#[test]
fn test_build_inventory_consistent_structure() {
    let inv1 = build_inventory(vec![], &[], &[]);
    let inv2 = build_inventory(vec![], &[], &[]);
    assert_eq!(arr(&inv1, "roles").len(), 0);
    assert_eq!(arr(&inv2, "roles").len(), 0);
}

#[test]
fn test_role_json_color_value() {
    assert_eq!(at(&role_json(1, "Test", 0xABCDEF, true), "color").as_u64(), Some(0xABCDEF));
}

#[test]
fn test_build_inventory_large_panel_count() {
    let live: Vec<String> = (0..100).map(|i: i32| i.to_string()).collect();
    let inv = build_inventory(vec![], &live, &[]);
    assert_eq!(arr(&inv, "live_panel_messages").len(), 100);
}

#[test]
fn test_role_json_mentionable_bool_type() {
    assert!(at(&role_json(1, "Test", 0, false), "mentionable").is_boolean());
    assert!(at(&role_json(1, "Test", 0, true), "mentionable").is_boolean());
}

#[test]
fn test_build_inventory_preserves_order() {
    let roles = vec![role_json(1, "First", 0, true), role_json(2, "Second", 0, false), role_json(3, "Third", 0, true)];
    let inv = build_inventory(roles, &[], &[]);
    let r = arr(&inv, "roles");
    assert_eq!(text(&r[0], "id"), "1");
    assert_eq!(text(&r[1], "id"), "2");
    assert_eq!(text(&r[2], "id"), "3");
}

#[test]
fn test_role_json_unicode_handling() {
    assert_eq!(text(&role_json(1, "👑 King 👑", 0, true), "name"), "👑 King 👑");
}

#[test]
fn test_build_inventory_mixed_arrays() {
    let inv = build_inventory(vec![role_json(1, "R", 0, true)], &strings(&["msg1", "msg2"]), &strings(&["ch1"]));
    assert_eq!(arr(&inv, "roles").len(), 1);
    assert_eq!(arr(&inv, "live_panel_messages").len(), 2);
    assert_eq!(arr(&inv, "unreadable_channels").len(), 1);
}

#[test]
fn test_role_json_all_color_values() {
    for color in [0x000000u32, 0xFFFFFF, 0xFF0000, 0x00FF00, 0x0000FF] {
        let j = role_json(1, "Test", color, true);
        assert_eq!(at(&j, "color").as_u64(), Some(color as u64));
    }
}

#[test]
fn test_role_json_name_field_exact() {
    for name in ["Simple", "With Spaces", "With-Dashes", "With_Underscores"] {
        assert_eq!(text(&role_json(1, name, 0, true), "name"), name);
    }
}

#[test]
fn test_build_inventory_single_of_each() {
    let inv = build_inventory(vec![role_json(1, "R", 0, true)], &strings(&["m"]), &strings(&["c"]));
    assert_eq!(arr(&inv, "roles").len(), 1);
    assert_eq!(arr(&inv, "live_panel_messages").len(), 1);
    assert_eq!(arr(&inv, "unreadable_channels").len(), 1);
}

#[test]
fn test_role_json_id_boundaries() {
    for id in [0u64, 1, 10, 100, 1000, u64::MAX >> 1, u64::MAX] {
        let j = role_json(id, "Test", 0, true);
        assert_eq!(text(&j, "id").parse::<u64>().unwrap(), id);
    }
}

#[test]
fn test_build_inventory_large_role_count() {
    let roles: Vec<Json> = (0..50u64).map(|i| role_json(i, &format!("R{}", i), i as u32, i % 2 == 0)).collect();
    let inv = build_inventory(roles, &[], &[]);
    assert_eq!(arr(&inv, "roles").len(), 50);
}

#[test]
fn test_role_json_string_id_always() {
    for id in [1u64, 100, 10000, 1000000] {
        assert!(at(&role_json(id, "Test", 0, true), "id").is_string());
    }
}

#[test]
fn test_build_inventory_all_empty_arrays() {
    let inv = build_inventory(vec![], &[], &[]);
    assert_eq!(arr(&inv, "roles").len(), 0);
    assert_eq!(arr(&inv, "live_panel_messages").len(), 0);
    assert_eq!(arr(&inv, "unreadable_channels").len(), 0);
}

#[test]
fn test_role_json_mentionable_consistency() {
    let j_true = role_json(1, "T", 0, true);
    let j_false = role_json(1, "T", 0, false);
    assert_ne!(at(&j_true, "mentionable").as_bool(), at(&j_false, "mentionable").as_bool());
    assert!(at(&j_true, "mentionable").as_bool().unwrap());
    assert!(!at(&j_false, "mentionable").as_bool().unwrap());
}

#[test]
fn test_build_inventory_role_field_structure() {
    let inv = build_inventory(vec![role_json(1, "Test Role", 0xABCDEF, false)], &[], &[]);
    let role = &arr(&inv, "roles")[0];
    assert_eq!(text(role, "id"), "1");
    assert_eq!(text(role, "name"), "Test Role");
    assert_eq!(at(role, "color").as_u64(), Some(0xABCDEF));
    assert_eq!(at(role, "mentionable").as_bool(), Some(false));
}

#[test]
fn test_build_inventory_panel_messages_type() {
    let inv = build_inventory(vec![], &strings(&["123", "456"]), &[]);
    for msg in arr(&inv, "live_panel_messages") {
        assert!(msg.is_string());
    }
}

#[test]
fn test_build_inventory_unreadable_channels_type() {
    let inv = build_inventory(vec![], &[], &strings(&["ch1", "ch2"]));
    for ch in arr(&inv, "unreadable_channels") {
        assert!(ch.is_string());
    }
}

#[test]
fn test_role_json_with_various_mentionable_values() {
    assert!(at(&role_json(1, "T", 0, true), "mentionable").as_bool().unwrap());
    assert!(!at(&role_json(2, "F", 0, false), "mentionable").as_bool().unwrap());
}

#[test]
fn test_build_inventory_maintains_data_integrity() {
    let roles = vec![
        role_json(1, "Admin", 0xFF0000, true),
        role_json(2, "Moderator", 0x00FF00, false),
        role_json(3, "Member", 0x0000FF, true),
    ];
    let inv = build_inventory(roles, &strings(&["msg1", "msg2"]), &strings(&["ch"]));
    let r = arr(&inv, "roles");
    assert_eq!(text(&r[0], "name"), "Admin");
    assert_eq!(text(&r[1], "name"), "Moderator");
    assert_eq!(text(&r[2], "name"), "Member");
}
