//! Bodies that describe the identity of a node.

use vstd::prelude::*;

verus! {

/// Response body when a node has created an identity.
pub struct CreateIdentityResponse {
    pub identity_id: String,
}

impl CreateIdentityResponse {
    pub fn new(identity_id: String) -> (r: Self)
        ensures
            r.identity_id@ == identity_id@,
    {
        CreateIdentityResponse { identity_id }
    }
}

/// The exported, durable form of an identity.
pub struct LongIdentityResponse {
    pub identity: Vec<u8>,
}

impl LongIdentityResponse {
    pub fn new(identity: Vec<u8>) -> (r: Self)
        ensures
            r.identity@ == identity@,
    {
        LongIdentityResponse { identity }
    }
}

/// The identifier of an identity.
pub struct ShortIdentityResponse {
    pub identity_id: String,
}

impl ShortIdentityResponse {
    pub fn new(identity_id: String) -> (r: Self)
        ensures
            r.identity_id@ == identity_id@,
    {
        ShortIdentityResponse { identity_id }
    }
}

/// The identity of a node in both forms, each where it could be had.
pub struct IdentityResponse {
    pub short_identity: Option<ShortIdentityResponse>,
    pub long_identity: Option<LongIdentityResponse>,
}

impl IdentityResponse {
    pub fn new(
        short_identity: Option<ShortIdentityResponse>,
        long_identity: Option<LongIdentityResponse>,
    ) -> (r: Self)
        ensures
            r.short_identity == short_identity,
            r.long_identity == long_identity,
    {
        IdentityResponse { short_identity, long_identity }
    }
}

} // verus!
