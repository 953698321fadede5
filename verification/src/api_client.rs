//! What the bot exchanges with the Nexus API: the request and response
//! records (their JSON form lives with the HTTP client of the app), and the
//! encoding of the values that go into a URL path.

use vstd::prelude::*;
use vstd::string::*;

use crate::config::GuildConfig;
use crate::text::{digit_char, push_char};

verus! {

/// Body of a wheel spin.
pub struct WheelSpinRequest {
    pub username: String,
}

/// Outcome of a wheel spin.
pub struct WheelSpinResponse {
    pub case_label: String,
    pub payout: i64,
    pub balance_after: i64,
    pub is_memorable: bool,
}

/// A member's wallet.
pub struct WalletResponse {
    pub user_id: String,
    pub coins: i64,
    pub total_earned: i64,
    pub total_spent: i64,
}

/// Body of a coin transfer.
pub struct TransferRequest {
    pub from_user_id: String,
    pub from_username: String,
    pub to_user_id: String,
    pub to_username: String,
    pub amount: i64,
    pub reason: Option<String>,
}

/// Body of a Grand Salon join.
pub struct GrandSalonJoinRequest {
    pub display_name: String,
}

/// A member's Grand Salon profile.
pub struct GrandSalonProfileResponse {
    pub display_name: String,
    pub rayonnement: i64,
    pub jetons: i64,
    pub reputation: i64,
    pub bons_plans: i64,
    pub reseau: i64,
}

/// Body of a cushion challenge.
pub struct CoussinChallengeRequest {
    pub channel_id: String,
    pub attacker_id: String,
    pub attacker_name: String,
    pub defender_id: String,
    pub defender_name: String,
    pub mise: i64,
}

/// A challenge as the API opened it.
pub struct CoussinChallengeResponse {
    pub id: String,
    pub mise: i64,
}

/// Body naming the defender of a challenge.
pub struct CoussinDefenderRequest {
    pub defender_id: String,
}

/// A member's cushion profile.
pub struct CoussinProfileResponse {
    pub username: String,
    pub class: String,
    pub level: i32,
    pub xp: i64,
    pub atk: i32,
    pub def: i32,
    pub hp_current: i32,
    pub hp_max: i32,
    pub coins: i64,
    pub stat_points: i32,
    pub title: String,
    pub total_wins: i32,
    pub total_losses: i32,
    pub total_draws: i32,
    pub total_stolen: i64,
    pub cowardice_count: i32,
    pub chaos_events: i32,
}

/// Body of a class choice.
pub struct CoussinClassRequest {
    pub username: String,
    pub class: String,
}

/// Body of a training.
pub struct CoussinTrainRequest {
    pub username: String,
    pub stat: String,
}

/// Body of a purchase.
pub struct CoussinBuyItemRequest {
    pub item_key: String,
}

/// Body of a steal attempt; `channel_id` lets the outcome be posted where
/// the attempt was made even after a restart.
pub struct CoussinStealRequest {
    pub thief_name: String,
    pub victim_id: String,
    pub victim_name: String,
    pub channel_id: String,
}

/// A steal attempt the API opened, with the victim's defense window.
pub struct CoussinStealOpened {
    pub attempt_id: String,
    pub defense_window_seconds: i64,
}

/// Outcome of a steal attempt resolved by the victim's click.
pub struct CoussinStealOutcome {
    pub thief_id: String,
    pub success: bool,
    pub amount: i64,
    pub thief_total: i32,
    pub victim_total: i32,
}

/// Body of a bounty.
pub struct CoussinPrimeRequest {
    pub target_id: String,
    pub target_name: String,
    pub placer_name: String,
    pub amount: i64,
}

/// One item under a member's cushion.
pub struct CoussinInventoryItem {
    pub item_key: String,
    pub quantity: i32,
}

/// Body of a bet on a duel.
pub struct CoussinBetRequest {
    pub combat_id: String,
    pub bettor_name: String,
    pub backed_id: String,
    pub amount: i64,
}

/// Outcome of a transfer.
pub struct TransferResponse {
    pub amount: i64,
    pub from_balance: i64,
}

/// A mentionable game of the catalogue.
pub struct Game {
    pub id: String,
    pub game_name: String,
    pub emoji: Option<String>,
    pub category: Option<String>,
    pub role_id: Option<String>,
}

/// A deployed subscription panel.
pub struct GamePanel {
    pub id: String,
    pub channel_id: String,
    pub message_id: String,
    pub category: Option<String>,
}

/// A game server with its settings.
pub struct ServerDetailResponse {
    pub server: GameServer,
    pub config: GuildConfig,
}

/// A game server session.
pub struct GameServer {
    pub id: String,
    pub guild_id: String,
    pub template_id: String,
    pub name: String,
    pub status: String,
    pub owner_user_id: String,
    pub host_port: Option<u16>,
    pub public_host: Option<String>,
    pub ip_reveal_at: Option<String>,
    pub ip_revealed: bool,
    /// What the session announces (`waiting`, `open`, `closed`), as the API
    /// computed it; absent from older answers.
    pub display_state: Option<String>,
    /// When the opening announcement was posted; `None` while it is not.
    pub announcement_posted_at: Option<String>,
    /// The operator's rules for the evening, posted with the announcement.
    pub rules: Option<String>,
    pub channel_name_registration: Option<String>,
    pub channel_name_private: Option<String>,
    pub channel_name_voice: Option<String>,
    pub text_channel_id: Option<String>,
    pub voice_channel_id: Option<String>,
    /// Players last seen by the game console; zero when it cannot be read.
    pub last_player_count: i32,
}

/// A game template.
pub struct GameTemplate {
    pub slug: String,
    pub name: String,
    pub cover_image_url: Option<String>,
    pub config_schema: Vec<TemplateField>,
}

/// One setting of a game, as its template describes it.
pub struct TemplateField {
    pub key: String,
    pub label: String,
    pub group: Option<String>,
}

/// Role to ping for a template in a guild.
pub struct TemplateSettings {
    pub template_slug: String,
    pub discord_role_id: Option<String>,
}

/// A registration to a game server.
pub struct ServerRegistration {
    pub user_id: String,
}

/// Answer to an address reveal request: the delay to announce, and whether
/// the server was started by it.
pub struct RevealRequest {
    pub delay_minutes: i64,
    pub started: bool,
}

/// An achievement of a member.
pub struct AchievementProgress {
    pub name: String,
    pub description: String,
    pub icon_url: Option<String>,
    pub unlocked_at: Option<String>,
}

// ---------------------------------------------------------------------
// Path segments
// ---------------------------------------------------------------------

/// A byte that travels unescaped in a path segment: ASCII letters, digits
/// and `-`, `_`, `.`, `~`.
pub open spec fn unreserved(b: u8) -> bool {
    (65 <= b && b <= 90) || (97 <= b && b <= 122) || (48 <= b && b <= 57) || b == 45 || b == 95
        || b == 46 || b == 126
}

/// Upper-case hexadecimal digit.
pub open spec fn hex_char(n: nat) -> char {
    if n < 10 {
        digit_char(n)
    } else {
        ((n - 10 + 65) as u32) as char
    }
}

/// One byte of a segment: itself if unreserved, else `%` and two upper-case
/// hexadecimal digits.
pub open spec fn encoded_byte(b: u8) -> Seq<char> {
    if unreserved(b) {
        seq![b as char]
    } else {
        seq!['%', hex_char((b / 16) as nat), hex_char((b % 16) as nat)]
    }
}

/// Percent-encoding of a byte string.
pub open spec fn percent_encoded(bs: Seq<u8>) -> Seq<char>
    decreases bs.len(),
{
    if bs.len() == 0 {
        Seq::empty()
    } else {
        percent_encoded(bs.drop_last()) + encoded_byte(bs.last())
    }
}

fn hex_char_exec(n: u8) -> (c: char)
    requires
        n < 16,
    ensures
        c == hex_char(n as nat),
{
    if n < 10 {
        (48 + n) as char
    } else {
        (n - 10 + 65) as char
    }
}

/// URL-encodes a path segment, byte by byte over its UTF-8 encoding, so
/// that a name holding `/` or other special characters can neither break
/// the routing nor inject a path.
pub fn encode_segment(s: &str) -> (r: String)
    ensures
        r@ == percent_encoded(s.spec_bytes()),
{
    let bytes = s.as_bytes();
    let mut out = String::new();
    let mut i: usize = 0;
    assert(bytes@.subrange(0, 0) =~= Seq::<u8>::empty());
    while i < bytes.len()
        invariant
            bytes@ == s.spec_bytes(),
            i <= bytes@.len(),
            out@ == percent_encoded(bytes@.subrange(0, i as int)),
        decreases bytes@.len() - i,
    {
        let b = bytes[i];
        let ghost before = out@;
        assert(bytes@.subrange(0, i + 1).drop_last() =~= bytes@.subrange(0, i as int));
        if (65 <= b && b <= 90) || (97 <= b && b <= 122) || (48 <= b && b <= 57) || b == 45
            || b == 95 || b == 46 || b == 126 {
            push_char(&mut out, b as char);
        } else {
            push_char(&mut out, '%');
            push_char(&mut out, hex_char_exec(b / 16));
            push_char(&mut out, hex_char_exec(b % 16));
        }
        assert(out@ =~= before + encoded_byte(b));
        i = i + 1;
    }
    assert(bytes@.subrange(0, bytes@.len() as int) =~= bytes@);
    out
}

/// Every character of an encoded segment is an unreserved ASCII character,
/// `%`, or an upper-case hexadecimal digit: no `/`, `?`, `#` or space can
/// reach the URL through it.
pub proof fn encoded_segment_is_path_safe(bs: Seq<u8>)
    ensures
        forall|i: int|
            0 <= i < percent_encoded(bs).len() ==> {
                let c = #[trigger] percent_encoded(bs)[i];
                (('A' <= c && c <= 'Z') || ('a' <= c && c <= 'z') || ('0' <= c && c <= '9') || c
                    == '-' || c == '_' || c == '.' || c == '~' || c == '%')
            },
    decreases bs.len(),
{
    if bs.len() > 0 {
        encoded_segment_is_path_safe(bs.drop_last());
        let p = percent_encoded(bs.drop_last());
        let e = encoded_byte(bs.last());
        assert forall|i: int| 0 <= i < (p + e).len() implies {
            let c = #[trigger] (p + e)[i];
            (('A' <= c && c <= 'Z') || ('a' <= c && c <= 'z') || ('0' <= c && c <= '9') || c
                == '-' || c == '_' || c == '.' || c == '~' || c == '%')
        } by {
            if i >= p.len() {
                let b = bs.last();
                if !unreserved(b) {
                    assert(b / 16 < 16 && b % 16 < 16);
                }
            }
        }
    }
}

} // verus!
