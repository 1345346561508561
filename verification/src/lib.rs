use vstd::prelude::*;

pub mod auth;
pub mod b64;
pub mod claims;
pub mod errors;
pub mod ext;
pub mod ids;
pub mod models;
pub mod num;
pub mod otp;
pub mod store;
pub mod text;
pub mod token;

verus! {

} // verus!
