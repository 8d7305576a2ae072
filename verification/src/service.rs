//! The web service's fixed settings: its port, the origins allowed to call it, and
//! where its bare root sends visitors.
use vstd::prelude::*;

verus! {

/// The port the web service listens on.
pub const SERVICE_PORT: u16 = 3001;

/// Where the root path and unknown paths of the community site redirect.
pub const FRONTEND_URL: &'static str = "https://kether.pl";

/// The origins allowed to call the service from a browser, with credentials: local
/// development, the community sites over HTTPS and HTTP, and the game servers that call
/// for substitutes.
pub fn cors_allowed_origins() -> (v: Vec<&'static str>)
    ensures
        v@.len() == 8,
        v@[0]@ == "http://localhost:3000"@,
        v@[1]@ == "http://localhost:80"@,
        v@[2]@ == "https://kether.pl"@,
        v@[3]@ == "http://kether.pl"@,
        v@[4]@ == "https://21370000.xyz"@,
        v@[5]@ == "http://21370000.xyz"@,
        v@[6]@ == "http://54.36.179.182"@,
        v@[7]@ == "http://104.245.245.137"@,
{
    vec![
        "http://localhost:3000",
        "http://localhost:80",
        "https://kether.pl",
        "http://kether.pl",
        "https://21370000.xyz",
        "http://21370000.xyz",
        "http://54.36.179.182",
        "http://104.245.245.137",
    ]
}

} // verus!
