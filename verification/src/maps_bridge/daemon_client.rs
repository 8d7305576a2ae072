//! What every request to the daemon carries.
use vstd::prelude::*;
use crate::text::{
    concat, owned, trim, trim_end_char, trim_end_char_chars, trim_str, chars_of, string_from,
};

verus! {

/// The bearer token sent to the daemon: the API key, trimmed, when it is not blank.
pub open spec fn daemon_bearer_spec(api_key: Option<Seq<char>>) -> Option<Seq<char>> {
    match api_key {
        Some(k) => if trim(k).len() > 0 {
            Some(trim(k))
        } else {
            None
        },
        None => None,
    }
}

/// The bearer token sent to the daemon, if any.
pub fn daemon_bearer_token(api_key: Option<&str>) -> (r: Option<String>)
    ensures
        crate::text::opt_string_view(r) == daemon_bearer_spec(
            match api_key {
                Some(k) => Some(k@),
                None => None,
            },
        ),
{
    match api_key {
        Some(k) => {
            let t = trim_str(k);
            if t.as_str().is_empty() {
                None
            } else {
                Some(t)
            }
        },
        None => None,
    }
}

/// A daemon endpoint: the base URL without trailing slashes, then the path.
pub open spec fn endpoint_spec(daemon_url: Seq<char>, path: Seq<char>) -> Seq<char> {
    trim_end_char(daemon_url, '/') + path
}

/// A daemon endpoint URL.
pub fn daemon_endpoint(daemon_url: &str, path: &str) -> (r: String)
    ensures
        r@ == endpoint_spec(daemon_url@, path@),
{
    let v = chars_of(daemon_url);
    let base = trim_end_char_chars(v.as_slice(), '/');
    let b = string_from(base.as_slice());
    concat(b.as_str(), path)
}

} // verus!
