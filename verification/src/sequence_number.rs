use vstd::prelude::*;

verus! {

/// A 16-bit wire-format sequence number. One value is allocated per round and
/// shared by every address sent in that round; the counter advances by one per
/// round and wraps on overflow.
#[derive(Clone, Copy, Debug, PartialEq, Eq, Structural)]
pub struct SequenceNumber(pub u16);

/// The sequence number a sender uses for its `i`-th round when it started at
/// `start`: the start value advanced `i` times, wrapping modulo 2^16.
pub open spec fn seq_at(start: u16, i: nat) -> u16 {
    ((start + i) % 0x10000) as u16
}

impl SequenceNumber {
    /// The fixed initial value of a fresh sender's counter.
    pub fn start_value() -> (r: SequenceNumber)
        ensures
            r.0 == 0,
    {
        SequenceNumber(0)
    }

    /// Wraps a raw 16-bit value.
    pub fn from(v: u16) -> (r: SequenceNumber)
        ensures
            r.0 == v,
    {
        SequenceNumber(v)
    }

    /// The successor value, wrapping modulo 2^16.
    pub fn next(self) -> (r: SequenceNumber)
        ensures
            r.0 == (self.0 + 1) % 0x10000,
    {
        if self.0 == 0xFFFF {
            SequenceNumber(0)
        } else {
            SequenceNumber(self.0 + 1)
        }
    }
}

/// Advancing the round index by one advances the round's sequence number by
/// exactly one modulo 2^16: numbers are strictly increasing modulo 2^16
/// across consecutive rounds.
pub proof fn lemma_seq_at_step(start: u16, i: nat)
    ensures
        seq_at(start, i + 1) == (seq_at(start, i) + 1) % 0x10000,
{
    let m: int = 0x10000;
    let x: int = start + i;
    vstd::arithmetic::div_mod::lemma_add_mod_noop(x, 1int, m);
    assert(1int % m == 1int);
}

} // verus!
