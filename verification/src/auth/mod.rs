//! Website authentication: CSRF checks, one-time exchange codes, session tokens and
//! cookies, and Steam OpenID sign-in.
pub mod csrf;
pub mod exchange;
pub mod openid;
pub mod session;
