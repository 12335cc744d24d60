//! Game accounts bound to users: what is stored of one, and how a binding is
//! decided.

use crate::text::same_text;
use vstd::prelude::*;
use vstd::string::StringSliceAdditionalSpecFns;

verus! {

/// A bound game account as it is listed: its name and its quick password.
#[derive(Debug)]
pub struct Player {
    pub name: String,
    pub password: String,
}

/// What the account service knows of a name: the account's id and the name
/// in its official spelling.
#[derive(Debug)]
pub struct Profile {
    pub id: String,
    pub name: String,
}

/// What is stored when an account is bound: the name, the account's id, and
/// whether the account service knows the account.
#[derive(Debug)]
pub struct Binding {
    pub name: String,
    pub player_id: String,
    pub official: bool,
}

/// The id under which accounts are stored that the account service does not
/// know.
pub open spec fn offline_id() -> Seq<char> {
    "离线玩家"@
}

/// Whether an account with this id is known to the account service: every
/// id but the offline id.
pub fn is_official_id(player_id: &str) -> (official: bool)
    ensures
        official == (player_id@ != offline_id()),
{
    !same_text(player_id, "离线玩家")
}

/// Whether a name is too short to be bound: it has one byte at most.
pub fn player_name_too_short(player_name: &str) -> (short: bool)
    ensures
        short == (player_name.spec_bytes().len() <= 1),
{
    player_name.as_bytes().len() <= 1
}

/// Decides what to store for a requested name: the account service's
/// spelling and id if it knows the name, the name as requested and the
/// offline id if it does not.
pub fn binding_for(player_name: &str, profile: Option<Profile>) -> (binding: Binding)
    ensures
        match profile {
            Some(known) => binding.official && binding.name@ == known.name@ && binding.player_id@
                == known.id@,
            None => !binding.official && binding.name@ == player_name@ && binding.player_id@
                == offline_id(),
        },
{
    match profile {
        Some(known) => Binding { name: known.name, player_id: known.id, official: true },
        None => Binding {
            name: player_name.to_owned(),
            player_id: "离线玩家".to_owned(),
            official: false,
        },
    }
}

} // verus!
