//! The record store: one lattice site is a block of five consecutive
//! records, and a whole lattice is one flat, ordered vector of them.

use vstd::prelude::*;
use vstd::string::StringExecFns;

verus! {

/// Records per lattice site: every store's length is a multiple of this.
pub const BLOCK: usize = 5;

/// A three-component double-precision vector, carried as the IEEE-754 bit
/// pattern of each component. The verified core never interprets the bits;
/// it only moves them, so the numeric work can stay outside it.
#[derive(Clone, Copy, Debug, PartialEq, Eq, Structural)]
pub struct Vec3Bits {
    pub x: u64,
    pub y: u64,
    pub z: u64,
}

/// One record: an identifier, a position vector, a moment vector and a state
/// flag. Immutable once loaded, except that extraction renumbers the
/// identifier.
#[derive(Clone, Copy, Debug, PartialEq, Eq, Structural)]
pub struct Element {
    pub id: i32,
    pub pos: Vec3Bits,
    pub m: Vec3Bits,
    pub state: bool,
}

/// An ordered store of records, five per site in row-major site order.
pub struct System(pub Vec<Element>);

impl System {
    /// A well-formed store holds `side * side` sites of `BLOCK` records each.
    pub open spec fn wf(self, side: nat) -> bool {
        self.0@.len() == side * side * BLOCK
    }

    /// The persisted `state=` line: one `'1'` or `'0'` per record, in store
    /// order.
    #[verifier::loop_isolation(false)]
    pub fn state_string(&self) -> (r: String)
        ensures
            r@.len() == self.0@.len(),
            forall|i: int|
                0 <= i < self.0@.len() ==> r@[i] == (if self.0@[i].state {
                    '1'
                } else {
                    '0'
                }),
    {
        proof {
            reveal_strlit("0");
            reveal_strlit("1");
        }
        let mut out = String::new();
        let mut i: usize = 0;
        while i < self.0.len()
            invariant
                i <= self.0@.len(),
                out@.len() == i,
                forall|j: int|
                    0 <= j < i ==> out@[j] == (if self.0@[j].state {
                        '1'
                    } else {
                        '0'
                    }),
            decreases self.0@.len() - i,
        {
            if self.0[i].state {
                out.append("1");
            } else {
                out.append("0");
            }
            i = i + 1;
        }
        out
    }
}

} // verus!
