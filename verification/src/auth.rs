//! Claims of a signed connection token.
use vstd::prelude::*;

verus! {

pub struct JwtClaims {
    pub sub: String,
    pub tenant: String,
    pub rooms: Vec<String>,
    pub exp: u64,
    pub iat: u64,
    pub iss: String,
    pub watchlist: Vec<String>,
}

} // verus!
