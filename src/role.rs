use vstd::prelude::*;

verus! {

/// Capability bit: the peer is a full node.
pub const ROLE_FULL: u8 = 1;

/// Capability bit: the peer is a light client.
pub const ROLE_LIGHT: u8 = 2;

/// Capability bit: the peer is an authority.
pub const ROLE_AUTHORITY: u8 = 4;

/// The capability flags a peer declares about itself in its handshake.
#[derive(Clone, Copy, Debug, PartialEq, Eq, Structural)]
pub struct Roles {
    pub bits: u8,
}

/// What this node concludes about the role of a remote peer.
#[derive(Clone, Copy, Debug, PartialEq, Eq, Structural)]
pub enum ObservedRole {
    Authority,
    Full,
    Light,
}

pub open spec fn has_flag(bits: u8, flag: u8) -> bool {
    bits & flag != 0
}

/// The role that a set of declared capability flags stands for: the
/// authority flag wins over the full-node flag, which wins over the rest.
pub open spec fn observed_role_of(roles: Roles) -> ObservedRole {
    if has_flag(roles.bits, ROLE_AUTHORITY) {
        ObservedRole::Authority
    } else if has_flag(roles.bits, ROLE_FULL) {
        ObservedRole::Full
    } else {
        ObservedRole::Light
    }
}

impl Roles {
    pub fn new(bits: u8) -> (r: Roles)
        ensures
            r.bits == bits,
    {
        Roles { bits }
    }

    pub fn is_authority(&self) -> (r: bool)
        ensures
            r == has_flag(self.bits, ROLE_AUTHORITY),
    {
        self.bits & ROLE_AUTHORITY != 0
    }

    /// A full node, or an authority (which is always a full node).
    pub fn is_full(&self) -> (r: bool)
        ensures
            r == (has_flag(self.bits, ROLE_FULL) || has_flag(self.bits, ROLE_AUTHORITY)),
    {
        self.bits & ROLE_FULL != 0 || self.bits & ROLE_AUTHORITY != 0
    }

    pub fn is_light(&self) -> (r: bool)
        ensures
            r == !(has_flag(self.bits, ROLE_FULL) || has_flag(self.bits, ROLE_AUTHORITY)),
    {
        !self.is_full()
    }
}

/// Classifies a peer from the capability flags it reported.
pub fn reported_roles_to_observed_role(roles: Roles) -> (r: ObservedRole)
    ensures
        r == observed_role_of(roles),
{
    if roles.is_authority() {
        ObservedRole::Authority
    } else if roles.is_full() {
        ObservedRole::Full
    } else {
        ObservedRole::Light
    }
}

} // verus!
