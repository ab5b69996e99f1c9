//! The work request that an initiator sends before the data phase.

use vstd::prelude::*;

verus! {

/// What the initiator is going to do in the data phase.
#[derive(Debug, Clone, Copy, PartialEq, Eq, Structural)]
pub enum WorkType {
    Send,
    Recv,
}

/// The record exchanged before the data phase.
#[derive(Debug, Clone, Copy, PartialEq, Eq, Structural)]
pub struct PerfRequest {
    pub work_type: WorkType,
}

impl WorkType {
    /// The role opposite to `self`.
    pub open spec fn spec_complement(self) -> WorkType {
        match self {
            WorkType::Send => WorkType::Recv,
            WorkType::Recv => WorkType::Send,
        }
    }

    /// The role that the peer of a party with role `self` takes.
    pub fn complement(self) -> (r: WorkType)
        ensures
            r == self.spec_complement(),
    {
        match self {
            WorkType::Send => WorkType::Recv,
            WorkType::Recv => WorkType::Send,
        }
    }
}

impl PerfRequest {
    /// The role that a responder adopts on receiving this request: the
    /// complement of what the initiator announced.
    pub fn responder_role(&self) -> (r: WorkType)
        ensures
            r == self.work_type.spec_complement(),
    {
        self.work_type.complement()
    }
}

/// Taking the complement twice gives the role back, and a role never equals
/// its complement.
pub proof fn lemma_complement_involution(w: WorkType)
    ensures
        w.spec_complement().spec_complement() == w,
        w.spec_complement() != w,
{
}

} // verus!
