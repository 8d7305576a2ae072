//! Call For Sub: the chat message that asks the community for a substitute player.
use vstd::prelude::*;
use crate::http::HttpStatus;
use crate::text::{dec, owned, u64_to_string};

verus! {

/// A server's request for a substitute for a player.
pub struct CallForSubPayload {
    /// The player's 64-bit Steam ID.
    pub steam_id: u64,
}

/// The 32-bit account number inside a 64-bit Steam ID: its low 32 bits.
pub open spec fn account_id_spec(steam_id: u64) -> u64 {
    (steam_id % 0x1_0000_0000) as u64
}

/// The account number of a Steam ID.
pub fn account_id(steam_id: u64) -> (a: u32)
    ensures
        a == account_id_spec(steam_id),
{
    (steam_id % 0x1_0000_0000) as u32
}

/// The name of the caller from the profile lookup: the first profile's name; no profile
/// is a bad Steam ID; a failed lookup is a server error.
pub fn caller_name(lookup: Result<Vec<String>, String>) -> (r: Result<String, HttpStatus>)
    ensures
        match lookup {
            Ok(names) => if names@.len() > 0 {
                r matches Ok(n) && n@ == names@[0]@
            } else {
                r == Err::<String, HttpStatus>(HttpStatus::BadRequest)
            },
            Err(_) => r == Err::<String, HttpStatus>(HttpStatus::InternalServerError),
        },
{
    match lookup {
        Ok(names) => if names.len() > 0 {
            Ok(names[0].clone())
        } else {
            Err(HttpStatus::BadRequest)
        },
        Err(_) => Err(HttpStatus::InternalServerError),
    }
}

/// The chat message: a mention of the caller, then a mention of everyone online.
pub open spec fn sub_message_spec(steam_id: u64, name: Seq<char>) -> Seq<char> {
    "[mention="@ + dec(account_id_spec(steam_id) as nat) + "]@"@ + name
        + "[/mention] called for a sub, [mention=here]@online[/mention]"@
}

/// The chat message sent for a call for a substitute.
pub fn call_for_sub_message(steam_id: u64, name: &str) -> (m: String)
    ensures
        m@ == sub_message_spec(steam_id, name@),
{
    let acc = u64_to_string(account_id(steam_id) as u64);
    let mut m = owned("[mention=");
    m.append(acc.as_str());
    m.append("]@");
    m.append(name);
    m.append("[/mention] called for a sub, [mention=here]@online[/mention]");
    m
}

/// The whole request: the message to send, or the status that refuses the request.
pub fn call_for_sub_plan(payload: &CallForSubPayload, lookup: Result<Vec<String>, String>) -> (r: Result<
    String,
    HttpStatus,
>)
    ensures
        match lookup {
            Ok(names) => if names@.len() > 0 {
                r matches Ok(m) && m@ == sub_message_spec(payload.steam_id, names@[0]@)
            } else {
                r == Err::<String, HttpStatus>(HttpStatus::BadRequest)
            },
            Err(_) => r == Err::<String, HttpStatus>(HttpStatus::InternalServerError),
        },
{
    let name = caller_name(lookup)?;
    Ok(call_for_sub_message(payload.steam_id, name.as_str()))
}

} // verus!
