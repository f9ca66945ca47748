use vstd::prelude::*;

verus! {

/// An opaque, globally unique actor reference: a caller, a token contract,
/// a deposit recipient, or the treasury account. The gateway only ever
/// compares identities for equality and stores them; it never looks inside
/// one. The hosting environment maps its own principal values onto these
/// handles.
#[derive(Clone, Copy, PartialEq, Eq, Structural, Debug)]
pub struct Identity {
    pub id: u128,
}

impl Identity {
    /// The null sentinel that an unset role slot holds until it is
    /// initialized.
    pub open spec fn anonymous_spec() -> Identity {
        Identity { id: 0 }
    }

    pub fn anonymous() -> (r: Identity)
        ensures
            r == Identity::anonymous_spec(),
    {
        Identity { id: 0 }
    }
}

} // verus!
