//! Claim format designations and the per-format payload a party advertises:
//! which algorithms or proof types it supports for each envelope encoding.

use vstd::prelude::*;

verus! {

/// A registered claim format designation: the envelope encoding of a
/// credential or presentation.
#[derive(Debug, Clone, Copy, PartialEq, Eq, Structural)]
pub enum ClaimFormatDesignation {
    Jwt,
    JwtVc,
    JwtVp,
    JwtVcJson,
    JwtVpJson,
    Ldp,
    LdpVc,
    LdpVp,
    AcVc,
    AcVp,
    MsoMdoc,
}

/// What a party supports for one claim format: a list of algorithm
/// identifiers, or a list of proof types.
#[derive(Debug, Clone)]
pub enum ClaimFormatPayload {
    Alg(Vec<String>),
    ProofType(Vec<String>),
}

/// A mapping of claim format designation to payload; a designation appears
/// at most once, a later insertion of the same designation winning.
#[derive(Debug, Clone)]
pub struct ClaimFormatMap {
    pub entries: Vec<(ClaimFormatDesignation, ClaimFormatPayload)>,
}

impl ClaimFormatMap {
    /// The entries as inserted, in order.
    pub open spec fn view(&self) -> Seq<(ClaimFormatDesignation, ClaimFormatPayload)> {
        self.entries@
    }

    /// Whether some entry carries the designation `k`.
    pub open spec fn spec_contains_key(&self, k: ClaimFormatDesignation) -> bool {
        exists|i: int| 0 <= i < self@.len() && (#[trigger] self@[i]).0 == k
    }

    /// Creates an empty format map.
    pub fn new() -> (r: Self)
        ensures
            r@ =~= Seq::<(ClaimFormatDesignation, ClaimFormatPayload)>::empty(),
    {
        Self { entries: Vec::new() }
    }

    /// Inserts a payload for a designation; a later insertion of the same
    /// designation shadows an earlier one.
    pub fn insert(&mut self, k: ClaimFormatDesignation, v: ClaimFormatPayload)
        ensures
            final(self)@ == old(self)@.push((k, v)),
    {
        self.entries.push((k, v));
    }

    /// Whether the map holds a payload for the designation `k`.
    pub fn contains_key(&self, k: ClaimFormatDesignation) -> (r: bool)
        ensures
            r == self.spec_contains_key(k),
    {
        let mut i: usize = 0;
        while i < self.entries.len()
            invariant
                i <= self.entries@.len(),
                forall|j: int| 0 <= j < i ==> (#[trigger] self.entries@[j]).0 != k,
            decreases self.entries@.len() - i,
        {
            if self.entries[i].0 == k {
                proof {
                    assert(self@[i as int].0 == k);
                }
                return true;
            }
            i = i + 1;
        }
        false
    }
}

} // verus!
