//! The Grand Salon (`/salon`): which action is asked for and the replies.

use vstd::prelude::*;
use vstd::string::*;

use crate::api_client::GrandSalonProfileResponse;
use crate::text::{int_text, owned, push_i64, push_str, same_text};

verus! {

/// A member's resources in the Grand Salon.
pub open spec fn profile_text(p: GrandSalonProfileResponse) -> Seq<char> {
    "🛋️ **"@ + p.display_name@ + " — Le Grand Salon**\nRayonnement **"@ + int_text(p.rayonnement as int)
        + "** · Jetons **"@ + int_text(p.jetons as int) + "** · Réputation **"@ + int_text(
        p.reputation as int,
    ) + "** · Bons plans **"@ + int_text(p.bons_plans as int) + "** · Réseau **"@ + int_text(
        p.reseau as int,
    ) + "**"@
}

/// A member's resources in the Grand Salon.
pub fn format_profile(p: &GrandSalonProfileResponse) -> (r: String)
    ensures
        r@ == profile_text(*p),
{
    let mut s = owned("🛋️ **");
    push_str(&mut s, p.display_name.as_str());
    push_str(&mut s, " — Le Grand Salon**\nRayonnement **");
    push_i64(&mut s, p.rayonnement);
    push_str(&mut s, "** · Jetons **");
    push_i64(&mut s, p.jetons);
    push_str(&mut s, "** · Réputation **");
    push_i64(&mut s, p.reputation);
    push_str(&mut s, "** · Bons plans **");
    push_i64(&mut s, p.bons_plans);
    push_str(&mut s, "** · Réseau **");
    push_i64(&mut s, p.reseau);
    push_str(&mut s, "**");
    s
}

/// The action asked for: the sub-command's name, `profil` without one.
pub fn extract_salon_action(first_option_name: Option<&str>) -> (r: &str)
    ensures
        r@ == match first_option_name {
            Some(n) => n@,
            None => "profil"@,
        },
{
    match first_option_name {
        Some(n) => n,
        None => "profil",
    }
}

/// The action joins the Salon (anything else shows the profile).
pub fn is_join_action(action: &str) -> (r: bool)
    ensures
        r == (action@ == "rejoindre"@),
{
    same_text(action, "rejoindre")
}

/// Reply when the Salon cannot be reached.
pub fn format_salon_error(e: &str) -> (r: String)
    ensures
        r@ == "Le Grand Salon est indisponible : "@ + e@,
{
    let mut s = owned("Le Grand Salon est indisponible : ");
    push_str(&mut s, e);
    s
}

/// Reply to `/salon`: the profile, or the error.
pub fn build_salon_response(result: Result<GrandSalonProfileResponse, String>) -> (r: String)
    ensures
        r@ == match result {
            Ok(p) => profile_text(p),
            Err(e) => "Le Grand Salon est indisponible : "@ + e@,
        },
{
    match result {
        Ok(p) => format_profile(&p),
        Err(e) => format_salon_error(e.as_str()),
    }
}

} // verus!
