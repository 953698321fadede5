//! Coins (`/solde`, `/donner`, `/classement`, `/roue`): the checks before a
//! gift, the request sent to the API, and the replies.

use vstd::prelude::*;
use vstd::string::*;

use crate::api_client::{TransferRequest, TransferResponse, WalletResponse, WheelSpinResponse};
use crate::embeds::{
    build_error_embed, build_leaderboard_embed, build_result_embed, build_transfer_embed,
    build_wallet_embed, fields_view, Embed,
};
use crate::text::{int_text, nat_text, opt_string, opt_text, owned, push_str, push_u64};

verus! {

/// Reply to a command used outside a guild.
pub const MSG_GUILD_REQUIRED: &'static str = "Cette commande s'utilise sur un serveur, pas en MP.";
/// Reply to a command used in a guild this bot does not serve.
pub const MSG_GUILD_UNAUTHORIZED: &'static str = "Ce bot ne sert pas ce serveur.";
/// Reply to a gift without a member.
pub const MSG_DONNER_NEED_TARGET: &'static str = "Indique le membre a qui donner.";
/// Reply to a gift without an amount.
pub const MSG_DONNER_NEED_AMOUNT: &'static str = "Indique le montant du don.";
/// Reply to a spin outside a guild.
pub const MSG_ROUE_NO_DM: &'static str = "La Roue se tire sur un serveur, pas en MP.";

/// Entries of the leaderboard.
pub const LEADERBOARD_LIMIT: i64 = 10;

/// Name shown for the member a command is about: the caller's own name, the
/// name Discord resolved, else a mention.
pub open spec fn target_name_spec(target_id: u64, user_id: u64, user_name: Seq<char>, resolved: Option<Seq<char>>) -> Seq<char> {
    if target_id == user_id {
        user_name
    } else {
        match resolved {
            Some(n) => n,
            None => "<@"@ + nat_text(target_id as nat) + ">"@,
        }
    }
}

/// Name shown for the member a command is about.
pub fn format_target_name(target_id: u64, user_id: u64, user_display_name: &str, resolved_name: Option<&str>) -> (r: String)
    ensures
        r@ == target_name_spec(target_id, user_id, user_display_name@, opt_text(resolved_name)),
{
    if target_id == user_id {
        owned(user_display_name)
    } else {
        match resolved_name {
            Some(n) => owned(n),
            None => {
                let mut s = owned("<@");
                push_u64(&mut s, target_id);
                push_str(&mut s, ">");
                s
            },
        }
    }
}

/// Refusal of a gift to oneself or to a bot.
pub fn validate_donner(sender_id: u64, target_id: u64, is_target_bot: bool) -> (r: Result<(), &'static str>)
    ensures
        target_id == sender_id ==> (r matches Err(m) && m@ == "Tu ne peux pas te donner a toi-meme !"@),
        target_id != sender_id && is_target_bot ==> (r matches Err(m) && m@ == "Tu ne peux pas donner a un bot !"@),
        target_id != sender_id && !is_target_bot ==> r is Ok,
{
    if target_id == sender_id {
        return Err("Tu ne peux pas te donner a toi-meme !");
    }
    if is_target_bot {
        return Err("Tu ne peux pas donner a un bot !");
    }
    Ok(())
}

/// Body of a gift for the API.
pub fn build_transfer_request_payload(
    user_id: u64,
    user_display_name: &str,
    target_id: u64,
    target_username: &str,
    amount: i64,
    reason: Option<String>,
) -> (r: TransferRequest)
    ensures
        r.from_user_id@ == nat_text(user_id as nat),
        r.from_username@ == user_display_name@,
        r.to_user_id@ == nat_text(target_id as nat),
        r.to_username@ == target_username@,
        r.amount == amount,
        r.reason == reason,
{
    TransferRequest {
        from_user_id: crate::text::u64_text(user_id),
        from_username: owned(user_display_name),
        to_user_id: crate::text::u64_text(target_id),
        to_username: owned(target_username),
        amount,
        reason,
    }
}

/// The embed of an error: the error embed of the wheel around the message.
pub open spec fn is_error_embed(r: Embed, message: Seq<char>) -> bool {
    &&& opt_string(r.description) == Some(message)
    &&& opt_string(r.title) == Some("\u{1f300} Roue du Destin"@)
    &&& r.color == Some(0xed4245u32)
    &&& r.fields@.len() == 0
    &&& r.footer is None
    &&& r.image is None
    &&& r.thumbnail is None
    &&& !r.timestamp
}

/// Reply to `/solde`: the wallet, or the API's error.
pub fn build_wallet_response_embed(response: &Result<WalletResponse, String>, display_name: &str) -> (r: Embed)
    ensures
        response matches Err(e) ==> is_error_embed(r, e@),
        response matches Ok(w) ==> {
            &&& opt_string(r.title) == Some("\u{1fa99} Portefeuille de "@ + display_name@)
            &&& r.description is None
            &&& r.color == Some(0xf1c40fu32)
            &&& fields_view(r.fields@) == seq![
                ("Solde"@, "**"@ + int_text(w.coins as int) + "** coins"@, true),
                ("Total gagne"@, int_text(w.total_earned as int) + " coins"@, true),
                ("Total depense"@, int_text(w.total_spent as int) + " coins"@, true),
            ]
            &&& r.footer is None && r.image is None && r.thumbnail is None && r.timestamp
        },
{
    match response {
        Ok(w) => build_wallet_embed(w, display_name),
        Err(e) => build_error_embed(e.as_str()),
    }
}

/// Reply to `/donner`: the gift, or the API's error.
pub fn build_transfer_response_embed(
    response: &Result<TransferResponse, String>,
    from_user_id: u64,
    to_user_id: u64,
    reason: Option<&str>,
) -> (r: Embed)
    ensures
        response matches Err(e) ==> is_error_embed(r, e@),
        response matches Ok(t) ==> {
            &&& opt_string(r.title) == Some("\u{1f381} Don de coins !"@)
            &&& opt_string(r.description) == Some(
                crate::embeds::transfer_text(from_user_id, to_user_id, t.amount, t.from_balance, opt_text(reason)),
            )
            &&& r.color == Some(0x57F287u32)
            &&& r.fields@.len() == 0
            &&& r.footer is None && r.image is None && r.thumbnail is None && r.timestamp
        },
{
    match response {
        Ok(t) => build_transfer_embed(from_user_id, to_user_id, t.amount, t.from_balance, reason),
        Err(e) => build_error_embed(e.as_str()),
    }
}

/// Reply to `/classement`: the leaderboard, or the API's error.
pub fn build_leaderboard_response_embed(response: &Result<Vec<WalletResponse>, String>) -> (r: Embed)
    ensures
        response matches Err(e) ==> is_error_embed(r, e@),
        response matches Ok(v) ==> {
            &&& opt_string(r.title) == Some("\u{1f3c6} Classement — Les plus riches"@)
            &&& opt_string(r.description) == Some(crate::embeds::leaderboard_body(v@))
            &&& r.color == Some(0xE67E22u32)
            &&& r.fields@.len() == 0
            &&& r.footer is None && r.image is None && r.thumbnail is None && r.timestamp
        },
{
    match response {
        Ok(v) => build_leaderboard_embed(v.as_slice()),
        Err(e) => build_error_embed(e.as_str()),
    }
}

/// Reply to `/roue`: the spin, or the API's error.
pub fn build_spin_response_embed(response: &Result<WheelSpinResponse, String>, username: &str) -> (r: Embed)
    ensures
        response matches Err(e) ==> is_error_embed(r, e@),
        response matches Ok(s) ==> {
            &&& opt_string(r.title) == Some(
                if s.is_memorable {
                    "\u{1f300} "@ + username@ + " a tire... LE DESTIN PARLE !"@
                } else {
                    "\u{1f300} "@ + username@ + " a tire la Roue"@
                },
            )
            &&& opt_string(r.description) == Some("# "@ + s.case_label@)
            &&& r.color == Some(crate::embeds::result_color(s.payout, s.is_memorable))
            &&& fields_view(r.fields@) == seq![
                ("Gain"@, crate::embeds::signed_text(s.payout) + " coins"@, true),
                ("Solde"@, int_text(s.balance_after as int) + " coins"@, true),
            ]
            &&& opt_string(r.footer) == Some(crate::embeds::result_footer(s.is_memorable, s.payout, username@))
            &&& r.image is None && r.thumbnail is None && !r.timestamp
        },
{
    match response {
        Ok(s) => build_result_embed(s, username),
        Err(e) => build_error_embed(e.as_str()),
    }
}

} // verus!
