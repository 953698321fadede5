use nexus_bot::api_client::{CoussinInventoryItem, CoussinProfileResponse, WalletResponse, WheelSpinResponse};
use nexus_bot::embeds::{
    build_coussin_insurance_embed, build_coussin_inventory_embed, build_coussin_profile_embed,
    build_coussin_purchase_embed, build_error_embed, build_leaderboard_embed, build_result_embed,
    build_spinning_embed, build_transfer_embed, build_wallet_embed, color_for, Embed,
};

fn title(e: &Embed) -> &str {
    e.title.as_deref().unwrap()
}

fn description(e: &Embed) -> &str {
    e.description.as_deref().unwrap()
}

#[test]
fn test_color_for_positive_memorable() {
    assert_eq!(color_for(100, true), 0xf1c40f);
}

#[test]
fn test_color_for_negative_memorable() {
    assert_eq!(color_for(-100, true), 0x8b0000);
}

#[test]
fn test_color_for_positive_normal() {
    assert_eq!(color_for(50, false), 0x2ecc71);
}

#[test]
fn test_color_for_negative_normal() {
    assert_eq!(color_for(-50, false), 0xe74c3c);
}

#[test]
fn test_color_for_zero() {
    assert_eq!(color_for(0, false), 0x95a5a6);
    assert_eq!(color_for(0, true), 0x95a5a6);
}

#[test]
fn test_build_spinning_embed() {
    let embed = build_spinning_embed("Alice");
    assert!(title(&embed).contains("Roue"));
    assert!(description(&embed).contains("Alice"));
    assert_eq!(embed.color, Some(0xf1c40f));
}

#[test]
fn test_build_result_embed_positive() {
    let resp = WheelSpinResponse {
        case_label: "Jackpot".into(),
        payout: 100,
        balance_after: 500,
        is_memorable: false,
    };
    let embed = build_result_embed(&resp, "Bob");
    assert!(title(&embed).contains("Bob"));
    assert!(description(&embed).contains("Jackpot"));
    assert_eq!(embed.color, Some(0x2ecc71));
}

#[test]
fn test_build_result_embed_negative_memorable() {
    let resp = WheelSpinResponse {
        case_label: "Perte".into(),
        payout: -50,
        balance_after: 100,
        is_memorable: true,
    };
    let embed = build_result_embed(&resp, "Charlie");
    assert!(title(&embed).contains("DESTIN PARLE"));
    assert_eq!(embed.color, Some(0x8b0000));
}

#[test]
fn test_build_wallet_embed() {
    let wallet = WalletResponse { user_id: "u1".into(), coins: 500, total_earned: 1000, total_spent: 500 };
    let embed = build_wallet_embed(&wallet, "Alice");
    assert!(title(&embed).contains("Alice"));
    assert_eq!(embed.color, Some(0xf1c40f));
}

#[test]
fn test_build_transfer_embed_with_reason() {
    let embed = build_transfer_embed(100, 200, 50, 450, Some("Gift"));
    assert!(description(&embed).contains("Gift"));
    assert_eq!(embed.color, Some(0x57F287));
}

#[test]
fn test_build_transfer_embed_without_reason() {
    let embed = build_transfer_embed(100, 200, 50, 450, None);
    assert!(!description(&embed).contains("Raison :"));
}

#[test]
fn test_build_leaderboard_embed_empty() {
    let embed = build_leaderboard_embed(&[]);
    assert!(description(&embed).contains("Aucun joueur"));
}

#[test]
fn test_build_leaderboard_embed_with_entries() {
    let entries = vec![WalletResponse { user_id: "u1".into(), coins: 1000, total_earned: 2000, total_spent: 1000 }];
    let embed = build_leaderboard_embed(&entries);
    assert_eq!(embed.color, Some(0xE67E22));
}

#[test]
fn test_build_error_embed() {
    let embed = build_error_embed("API down");
    assert_eq!(embed.description.as_deref(), Some("API down"));
    assert_eq!(embed.color, Some(0xed4245));
}

#[test]
fn test_build_coussin_profile_embed() {
    let profile = CoussinProfileResponse {
        username: "Alice".into(),
        class: "ecraseur".into(),
        level: 5,
        xp: 100,
        atk: 10,
        def: 8,
        hp_current: 50,
        hp_max: 100,
        coins: 200,
        stat_points: 2,
        title: "Squatteur".into(),
        total_wins: 10,
        total_losses: 3,
        total_draws: 1,
        total_stolen: 50,
        cowardice_count: 0,
        chaos_events: 2,
    };
    let embed = build_coussin_profile_embed(&profile, "Écraseur");
    assert!(title(&embed).contains("Alice"));
    assert_eq!(embed.color, Some(0x5865F2));
}

#[test]
fn test_build_coussin_purchase_embed() {
    let embed = build_coussin_purchase_embed("Plume", 450);
    assert!(title(&embed).contains("Planque"));
    assert_eq!(embed.color, Some(0xF39C12));
}

#[test]
fn test_build_coussin_insurance_embed_legitimate() {
    let embed = build_coussin_insurance_embed(false, "demain");
    assert!(title(&embed).contains("anti-tache"));
    assert_eq!(embed.color, Some(0x2ECC71));
}

#[test]
fn test_build_coussin_insurance_embed_scam() {
    let embed = build_coussin_insurance_embed(true, "demain");
    assert!(title(&embed).contains("Garantie signee"));
    assert_eq!(embed.color, Some(0xE67E22));
}

#[test]
fn test_build_coussin_inventory_embed_empty() {
    let embed = build_coussin_inventory_embed(&[], &[]);
    assert!(description(&embed).contains("Rien"));
}

#[test]
fn test_build_coussin_inventory_embed_with_items() {
    let items = vec![CoussinInventoryItem { item_key: "plume".into(), quantity: 2 }];
    let embed = build_coussin_inventory_embed(&items, &["Plume".to_string()]);
    assert!(title(&embed).contains("coussin"));
    assert_eq!(description(&embed), "• **Plume** ×2");
}
