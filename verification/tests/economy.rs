use nexus_bot::api_client::{TransferResponse, WalletResponse, WheelSpinResponse};
use nexus_bot::economy::{
    build_leaderboard_response_embed, build_spin_response_embed, build_transfer_request_payload,
    build_transfer_response_embed, build_wallet_response_embed, format_target_name, validate_donner,
    MSG_DONNER_NEED_AMOUNT, MSG_DONNER_NEED_TARGET, MSG_GUILD_REQUIRED, MSG_GUILD_UNAUTHORIZED,
    MSG_ROUE_NO_DM,
};

fn wallet(user_id: &str, coins: i64, earned: i64, spent: i64) -> WalletResponse {
    WalletResponse { user_id: user_id.into(), coins, total_earned: earned, total_spent: spent }
}

fn title_of(e: &nexus_bot::embeds::Embed) -> &str {
    e.title.as_deref().unwrap()
}

#[test]
fn test_validate_donner() {
    assert!(validate_donner(100, 200, false).is_ok());
    assert_eq!(validate_donner(100, 100, false), Err("Tu ne peux pas te donner a toi-meme !"));
    assert_eq!(validate_donner(100, 200, true), Err("Tu ne peux pas donner a un bot !"));
}

#[test]
fn test_format_target_name() {
    assert_eq!(format_target_name(1, 1, "Alice", None), "Alice");
    assert_eq!(format_target_name(2, 1, "Alice", Some("Bob")), "Bob");
    assert_eq!(format_target_name(2, 1, "Alice", None), "<@2>");

    let req = build_transfer_request_payload(1, "Alice", 2, "Bob", 50, Some("Cadeau".into()));
    assert_eq!(req.from_user_id, "1");
    assert_eq!(req.from_username, "Alice");
    assert_eq!(req.to_user_id, "2");
    assert_eq!(req.to_username, "Bob");
    assert_eq!(req.amount, 50);
    assert_eq!(req.reason, Some("Cadeau".into()));
}

#[test]
fn test_build_embed_helpers() {
    let emb_w = build_wallet_response_embed(&Ok(wallet("u1", 500, 1000, 500)), "Alice");
    assert!(title_of(&emb_w).contains("Alice"));

    let w_err: Result<WalletResponse, String> = Err("Wallet fail".into());
    let emb_w_err = build_wallet_response_embed(&w_err, "Alice");
    assert_eq!(emb_w_err.description.as_deref(), Some("Wallet fail"));

    let t_ok = Ok(TransferResponse { from_balance: 400, amount: 50 });
    let emb_t = build_transfer_response_embed(&t_ok, 1, 2, Some("Gift"));
    assert!(title_of(&emb_t).contains("Don"));

    let t_err: Result<TransferResponse, String> = Err("Transfer fail".into());
    let emb_t_err = build_transfer_response_embed(&t_err, 1, 2, None);
    assert_eq!(emb_t_err.description.as_deref(), Some("Transfer fail"));

    let emb_lb = build_leaderboard_response_embed(&Ok(vec![wallet("u1", 1000, 2000, 1000)]));
    assert!(title_of(&emb_lb).contains("Classement"));

    let lb_err: Result<Vec<WalletResponse>, String> = Err("LB fail".into());
    let emb_lb_err = build_leaderboard_response_embed(&lb_err);
    assert_eq!(emb_lb_err.description.as_deref(), Some("LB fail"));

    let s_ok = Ok(WheelSpinResponse {
        case_label: "Licorne".into(),
        payout: 500,
        balance_after: 1500,
        is_memorable: true,
    });
    let emb_s = build_spin_response_embed(&s_ok, "Alice");
    assert!(title_of(&emb_s).contains("Alice"));

    let s_err: Result<WheelSpinResponse, String> = Err("Spin fail".into());
    let emb_s_err = build_spin_response_embed(&s_err, "Alice");
    assert_eq!(emb_s_err.description.as_deref(), Some("Spin fail"));

    assert!(MSG_GUILD_REQUIRED.contains("sur un serveur"));
    assert!(MSG_GUILD_UNAUTHORIZED.contains("ne sert pas"));
    assert!(MSG_DONNER_NEED_TARGET.contains("membre"));
    assert!(MSG_DONNER_NEED_AMOUNT.contains("montant"));
    assert!(MSG_ROUE_NO_DM.contains("sur un serveur"));
}

#[test]
fn test_validate_donner_all_error_cases() {
    assert_eq!(validate_donner(100, 100, false), Err("Tu ne peux pas te donner a toi-meme !"));
    assert_eq!(validate_donner(100, 200, true), Err("Tu ne peux pas donner a un bot !"));
    assert!(validate_donner(100, 200, false).is_ok());
}

#[test]
fn test_format_target_name_all_cases() {
    assert_eq!(format_target_name(1, 1, "Alice", None), "Alice");
    assert_eq!(format_target_name(2, 1, "Alice", Some("Bob")), "Bob");
    assert_eq!(format_target_name(2, 1, "Alice", None), "<@2>");
    assert_eq!(format_target_name(2, 1, "Alice", Some("Charlie")), "Charlie");
}

#[test]
fn test_build_transfer_request_payload_all_cases() {
    let req1 = build_transfer_request_payload(100, "Alice", 200, "Bob", 50, Some("Gift".into()));
    assert_eq!(req1.from_user_id, "100");
    assert_eq!(req1.from_username, "Alice");
    assert_eq!(req1.to_user_id, "200");
    assert_eq!(req1.to_username, "Bob");
    assert_eq!(req1.amount, 50);
    assert_eq!(req1.reason, Some("Gift".into()));

    let req2 = build_transfer_request_payload(100, "Alice", 200, "Bob", 100, None);
    assert_eq!(req2.reason, None);
    assert_eq!(req2.amount, 100);

    let req3 = build_transfer_request_payload(100, "Alice", 200, "Bob", 1_000_000, None);
    assert_eq!(req3.amount, 1_000_000);
}

#[test]
fn test_build_wallet_response_embed_success() {
    let emb = build_wallet_response_embed(&Ok(wallet("u1", 500, 1000, 500)), "TestUser");
    assert!(title_of(&emb).contains("TestUser"));
}

#[test]
fn test_build_wallet_response_embed_error() {
    let err: Result<WalletResponse, String> = Err("API Error".into());
    let emb = build_wallet_response_embed(&err, "TestUser");
    assert_eq!(emb.description.as_deref(), Some("API Error"));
}

#[test]
fn test_build_transfer_response_embed_success() {
    let ok = Ok(TransferResponse { from_balance: 400, amount: 100 });
    let emb = build_transfer_response_embed(&ok, 1, 2, Some("Reason"));
    assert!(title_of(&emb).contains("Don"));
}

#[test]
fn test_build_transfer_response_embed_error() {
    let err: Result<TransferResponse, String> = Err("Transfer failed".into());
    let emb = build_transfer_response_embed(&err, 1, 2, None);
    assert_eq!(emb.description.as_deref(), Some("Transfer failed"));
}

#[test]
fn test_build_leaderboard_response_embed_empty() {
    let ok: Result<Vec<WalletResponse>, String> = Ok(vec![]);
    let emb = build_leaderboard_response_embed(&ok);
    assert!(title_of(&emb).contains("Classement"));
}

#[test]
fn test_build_leaderboard_response_embed_error() {
    let err: Result<Vec<WalletResponse>, String> = Err("LB Error".into());
    let emb = build_leaderboard_response_embed(&err);
    assert_eq!(emb.description.as_deref(), Some("LB Error"));
}

#[test]
fn test_build_spin_response_embed_success() {
    let ok = Ok(WheelSpinResponse {
        case_label: "Jackpot".into(),
        payout: 500,
        balance_after: 1500,
        is_memorable: true,
    });
    let emb = build_spin_response_embed(&ok, "Player");
    assert!(title_of(&emb).contains("Player"));
}

#[test]
fn test_build_spin_response_embed_error() {
    let err: Result<WheelSpinResponse, String> = Err("Spin failed".into());
    let emb = build_spin_response_embed(&err, "Player");
    assert_eq!(emb.description.as_deref(), Some("Spin failed"));
}

#[test]
fn test_format_target_name_edge_cases() {
    let long_name = "a".repeat(100);
    assert_eq!(format_target_name(1, 1, &long_name, None), long_name);
    assert_eq!(format_target_name(1, 1, "Café ☕", None), "Café ☕");
    assert_eq!(format_target_name(999999999999, 1, "Test", None), "<@999999999999>");
}

#[test]
fn test_build_transfer_request_payload_edge_cases() {
    let req = build_transfer_request_payload(1, "A", 2, "B", 0, None);
    assert_eq!(req.amount, 0);

    let req = build_transfer_request_payload(1, "A", 2, "B", -50, None);
    assert_eq!(req.amount, -50);

    let req = build_transfer_request_payload(1, "A", 2, "B", i64::MAX - 1, None);
    assert_eq!(req.amount, i64::MAX - 1);

    let req = build_transfer_request_payload(1, "Çøsé", 2, "Nördé", 100, Some("Merçi".into()));
    assert_eq!(req.from_username, "Çøsé");
    assert_eq!(req.to_username, "Nördé");
}

#[test]
fn test_build_wallet_response_embed_edge_cases() {
    let emb = build_wallet_response_embed(&Ok(wallet("very_long_id_string", 0, 0, 0)), "");
    assert!(emb.title.is_some());

    let err: Result<WalletResponse, String> = Err("".into());
    let emb = build_wallet_response_embed(&err, "Test");
    assert_eq!(emb.description.as_deref(), Some(""));
}

#[test]
fn test_build_transfer_response_embed_no_reason() {
    let ok = Ok(TransferResponse { from_balance: 0, amount: 1 });
    let emb = build_transfer_response_embed(&ok, 1, 2, None);
    assert!(title_of(&emb).contains("Don"));
}

#[test]
fn test_build_leaderboard_response_embed_multiple_entries() {
    let ok: Result<Vec<WalletResponse>, String> =
        Ok(vec![wallet("u1", 1000, 2000, 1000), wallet("u2", 500, 1000, 500)]);
    let emb = build_leaderboard_response_embed(&ok);
    assert!(title_of(&emb).contains("Classement"));
}

#[test]
fn test_message_constants_completeness() {
    assert!(!MSG_GUILD_REQUIRED.is_empty());
    assert!(!MSG_GUILD_UNAUTHORIZED.is_empty());
    assert!(!MSG_DONNER_NEED_TARGET.is_empty());
    assert!(!MSG_DONNER_NEED_AMOUNT.is_empty());
    assert!(!MSG_ROUE_NO_DM.is_empty());
}

#[test]
fn test_validate_donner_with_different_ids() {
    let ids = [(1u64, 2u64), (100, 200), (u64::MAX - 1, u64::MAX)];
    for (attacker, defender) in ids {
        if attacker != defender {
            assert!(validate_donner(attacker, defender, false).is_ok());
        }
    }
}
