//! Snapshot of a guild for the consolidation of mentionable games: the roles
//! that really exist and the state of the registered panel messages, in the
//! JSON shape that the API expects.
//!
//! The three lists stay apart on purpose: a panel missing from the live
//! messages and absent from the unreadable channels has really vanished; one
//! whose channel is unreadable is left alone.

use vstd::prelude::*;

use crate::json::{Json, JsonNumber};
use crate::text::{
    is_digit, lemma_nat_text_digits, lemma_nat_text_nonempty, lemma_nat_text_value, nat_text, owned,
    parse_u64_spec, u64_text, unsigned_digits,
};

verus! {

/// `entry` is the member `key` holding the text `value`.
pub open spec fn is_text_member(entry: (String, Json), key: Seq<char>, value: Seq<char>) -> bool {
    &&& entry.0@ == key
    &&& entry.1 matches Json::Str(s) && s@ == value
}

/// `j` is the object `{"id": "<id>", "name": nom, "color": couleur,
/// "mentionable": mentionnable}`, members in that order; the identifier is
/// written as a decimal text so that no digit is lost past 2^53.
pub open spec fn is_role_json(j: Json, id: u64, nom: Seq<char>, couleur: u32, mentionnable: bool) -> bool {
    &&& j matches Json::Object(e)
    &&& e@.len() == 4
    &&& is_text_member(e@[0], "id"@, nat_text(id as nat))
    &&& is_text_member(e@[1], "name"@, nom)
    &&& e@[2].0@ == "color"@
    &&& e@[2].1 == Json::Number(JsonNumber { unsigned: Some(couleur as u64), signed: Some(couleur as i64) })
    &&& e@[3].0@ == "mentionable"@
    &&& e@[3].1 == Json::Bool(mentionnable)
}

/// `j` is an array of the texts `texts`, in order.
pub open spec fn is_text_array(j: Json, texts: Seq<String>) -> bool {
    &&& j matches Json::Array(items)
    &&& items@.len() == texts.len()
    &&& forall|i: int| 0 <= i < texts.len() ==> (#[trigger] items@[i]) == Json::Str(texts[i])
}

/// A role's identifier travels as text and reads back intact: std's
/// `parse::<u64>` of the text written for an identifier gives that
/// identifier, for every identifier (the largest included).
pub proof fn role_id_reads_back(id: u64)
    ensures
        parse_u64_spec(nat_text(id as nat)) == Some(id),
{
    let t = nat_text(id as nat);
    lemma_nat_text_nonempty(id as nat);
    lemma_nat_text_digits(id as nat);
    lemma_nat_text_value(id as nat);
    assert(is_digit(t[0]));
    assert(unsigned_digits(t) == t);
}

/// One role, as the inventory carries it.
pub fn role_json(id: u64, nom: &str, couleur: u32, mentionnable: bool) -> (r: Json)
    ensures
        is_role_json(r, id, nom@, couleur, mentionnable),
{
    let mut e: Vec<(String, Json)> = Vec::new();
    e.push((owned("id"), Json::Str(u64_text(id))));
    e.push((owned("name"), Json::Str(owned(nom))));
    e.push((
        owned("color"),
        Json::Number(JsonNumber { unsigned: Some(couleur as u64), signed: Some(couleur as i64) }),
    ));
    e.push((owned("mentionable"), Json::Bool(mentionnable)));
    Json::Object(e)
}

fn text_array(texts: &[String]) -> (r: Json)
    ensures
        is_text_array(r, texts@),
{
    let mut items: Vec<Json> = Vec::new();
    let mut i: usize = 0;
    while i < texts.len()
        invariant
            i <= texts@.len(),
            items@.len() == i,
            forall|k: int| 0 <= k < i ==> (#[trigger] items@[k]) == Json::Str(texts@[k]),
        decreases texts@.len() - i,
    {
        items.push(Json::Str(texts[i].clone()));
        i = i + 1;
    }
    Json::Array(items)
}

/// The whole snapshot handed to the API: `{"roles": [...],
/// "live_panel_messages": [...], "unreadable_channels": [...]}`, each list
/// kept as given (order and duplicates included), an empty list written as
/// an empty array.
pub fn build_inventory(roles: Vec<Json>, live_panel_messages: &[String], unreadable_channels: &[String]) -> (r: Json)
    ensures
        r matches Json::Object(e) && e@.len() == 3
            && e@[0].0@ == "roles"@ && e@[0].1 == Json::Array(roles)
            && e@[1].0@ == "live_panel_messages"@ && is_text_array(e@[1].1, live_panel_messages@)
            && e@[2].0@ == "unreadable_channels"@ && is_text_array(e@[2].1, unreadable_channels@),
{
    let mut e: Vec<(String, Json)> = Vec::new();
    e.push((owned("roles"), Json::Array(roles)));
    e.push((owned("live_panel_messages"), text_array(live_panel_messages)));
    e.push((owned("unreadable_channels"), text_array(unreadable_channels)));
    Json::Object(e)
}

} // verus!
