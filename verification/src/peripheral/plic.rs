//! Platform-Level Interrupt Controller.
//!
//! The PLIC receives interrupt requests from devices, orders those that
//! arrive together by priority, and passes the highest to the CPU. Its
//! registers: a priority per interrupt source (0 to 7, higher first), an
//! enable bit per source for each hart, a priority threshold per hart (only
//! interrupts above it are taken), and a claim/complete register per hart.
//! Source ids run from 1 to 1023; 0 means no interrupt.

use vstd::prelude::*;

verus! {

/// The register windows of the controller, one word per register.
pub struct Handler {
    /// length: 1024
    pub priority: &'static mut [u32],
    pub enable: &'static mut [[u32; 32]],
    pub threshold: &'static mut [u32],
    pub claim_complete: &'static mut [u32],
}

/// Bit `offset` of `word`.
pub open spec fn bit_of(word: u32, offset: int) -> bool {
    word & (1u32 << offset as u32) != 0
}

proof fn lemma_set_clear_bit(w: u32, k: u32, j: u32)
    requires
        k < 32,
        j < 32,
    ensures
        (w | (1u32 << k)) & (1u32 << j) != 0 <==> (j == k || w & (1u32 << j) != 0),
        (w & !(1u32 << k)) & (1u32 << j) != 0 <==> (j != k && w & (1u32 << j) != 0),
{
    assert((w | (1u32 << k)) & (1u32 << j) != 0 <==> (j == k || w & (1u32 << j) != 0)) by (bit_vector)
        requires
            k < 32,
            j < 32,
    ;
    assert((w & !(1u32 << k)) & (1u32 << j) != 0 <==> (j != k && w & (1u32 << j) != 0)) by (bit_vector)
        requires
            k < 32,
            j < 32,
    ;
}

/// The controller is set up; its windows have the registers that
/// `interrupt` and `hart` select.
pub open spec fn ready_for(handler: Option<Handler>, hart: usize, interrupt: usize) -> bool {
    &&& handler is Some
    &&& hart < handler->0.enable@.len()
    &&& interrupt / 32 < 32
}

/// `after` is the enable words `before` with bit `interrupt % 32` of word
/// `interrupt / 32` of `hart` set (`set`) or cleared, and nothing else
/// changed.
pub open spec fn enable_bit_changed(
    before: Seq<[u32; 32]>,
    after: Seq<[u32; 32]>,
    hart: usize,
    interrupt: usize,
    set: bool,
) -> bool {
    let w = (interrupt / 32) as int;
    let m = 1u32 << (interrupt % 32) as u32;
    &&& after.len() == before.len()
    &&& forall|h: int| 0 <= h < before.len() && h != hart ==> #[trigger] after[h] == before[h]
    &&& forall|i: int| 0 <= i < 32 && i != w ==> #[trigger] after[hart as int][i] == before[hart as int][i]
    &&& after[hart as int][w] == if set {
        before[hart as int][w] | m
    } else {
        before[hart as int][w] & !m
    }
}

/// Disabling an interrupt that was off before it was enabled gives back the
/// enable words as they were.
pub proof fn lemma_disable_undoes_enable(
    before: Seq<[u32; 32]>,
    enabled: Seq<[u32; 32]>,
    after: Seq<[u32; 32]>,
    hart: usize,
    interrupt: usize,
)
    requires
        hart < before.len(),
        interrupt / 32 < 32,
        !bit_of(before[hart as int][(interrupt / 32) as int], (interrupt % 32) as int),
        enable_bit_changed(before, enabled, hart, interrupt, true),
        enable_bit_changed(enabled, after, hart, interrupt, false),
    ensures
        after == before,
{
    let w = (interrupt / 32) as int;
    let k = (interrupt % 32) as u32;
    let x = before[hart as int][w];
    assert((x & (1u32 << k)) == 0 ==> ((x | (1u32 << k)) & !(1u32 << k)) == x) by (bit_vector);
    assert(after[hart as int]@ =~= before[hart as int]@);
    assert(after[hart as int] == before[hart as int]);
    assert(after =~= before);
}

impl Handler {
    /// Sets the priority of `interrupt`; the controller must be set up.
    pub fn priority(handler: &mut Option<Handler>, interrupt: usize, priority: u32)
        requires
            *old(handler) is Some,
            interrupt < old(handler)->0.priority@.len(),
        ensures
            *final(handler) is Some,
            final(handler)->0.priority@ == old(handler)->0.priority@.update(interrupt as int, priority),
            final(handler)->0.enable@ == old(handler)->0.enable@,
            final(handler)->0.threshold@ == old(handler)->0.threshold@,
            final(handler)->0.claim_complete@ == old(handler)->0.claim_complete@,
    {
        if let Some(h) = handler {
            h.priority[interrupt] = priority;
        }
    }

    /// Enables `interrupt` for `hart`; the controller must be set up.
    pub fn enable(handler: &mut Option<Handler>, hart: usize, interrupt: usize)
        requires
            ready_for(*old(handler), hart, interrupt),
        ensures
            *final(handler) is Some,
            final(handler)->0.enable@.len() == old(handler)->0.enable@.len(),
            forall|h: int, w: int, b: int|
                0 <= h < old(handler)->0.enable@.len() && 0 <= w < 32 && 0 <= b < 32 ==> #[trigger] bit_of(
                    final(handler)->0.enable@[h][w],
                    b,
                ) == if h == hart && w == interrupt / 32 && b == interrupt % 32 {
                    true
                } else {
                    bit_of(old(handler)->0.enable@[h][w], b)
                },
            enable_bit_changed(old(handler)->0.enable@, final(handler)->0.enable@, hart, interrupt, true),
            final(handler)->0.priority@ == old(handler)->0.priority@,
            final(handler)->0.threshold@ == old(handler)->0.threshold@,
            final(handler)->0.claim_complete@ == old(handler)->0.claim_complete@,
    {
        if let Some(h) = handler {
            let (index, offset) = (interrupt / 32, interrupt % 32);
            let ghost before = h.enable@[hart as int];
            let current = h.enable[hart][index];
            h.enable[hart][index] = current | (1u32 << offset as u32);
            let ghost word = h.enable@[hart as int];
            proof {
                assert forall|w: int, b: int| 0 <= w < 32 && 0 <= b < 32 implies #[trigger] bit_of(word[w], b)
                    == if w == index && b == offset {
                    true
                } else {
                    bit_of(before[w], b)
                } by {
                    if w == index {
                        lemma_set_clear_bit(before[index as int], offset as u32, b as u32);
                    }
                }
            }
        }
    }

    /// Disables `interrupt` for `hart`; the controller must be set up.
    pub fn disable(handler: &mut Option<Handler>, hart: usize, interrupt: usize)
        requires
            ready_for(*old(handler), hart, interrupt),
        ensures
            *final(handler) is Some,
            final(handler)->0.enable@.len() == old(handler)->0.enable@.len(),
            forall|h: int, w: int, b: int|
                0 <= h < old(handler)->0.enable@.len() && 0 <= w < 32 && 0 <= b < 32 ==> #[trigger] bit_of(
                    final(handler)->0.enable@[h][w],
                    b,
                ) == if h == hart && w == interrupt / 32 && b == interrupt % 32 {
                    false
                } else {
                    bit_of(old(handler)->0.enable@[h][w], b)
                },
            enable_bit_changed(old(handler)->0.enable@, final(handler)->0.enable@, hart, interrupt, false),
            final(handler)->0.priority@ == old(handler)->0.priority@,
            final(handler)->0.threshold@ == old(handler)->0.threshold@,
            final(handler)->0.claim_complete@ == old(handler)->0.claim_complete@,
    {
        if let Some(h) = handler {
            let (index, offset) = (interrupt / 32, interrupt % 32);
            let ghost before = h.enable@[hart as int];
            let current = h.enable[hart][index];
            h.enable[hart][index] = current & !(1u32 << offset as u32);
            let ghost word = h.enable@[hart as int];
            proof {
                assert forall|w: int, b: int| 0 <= w < 32 && 0 <= b < 32 implies #[trigger] bit_of(word[w], b)
                    == if w == index && b == offset {
                    false
                } else {
                    bit_of(before[w], b)
                } by {
                    if w == index {
                        lemma_set_clear_bit(before[index as int], offset as u32, b as u32);
                    }
                }
            }
        }
    }

    /// Sets the priority threshold of `hart`, which must lie in `0..=7`;
    /// the controller must be set up.
    pub fn threshold(handler: &mut Option<Handler>, hart: usize, priority: u32)
        requires
            priority < 8,
            *old(handler) is Some,
            hart < old(handler)->0.threshold@.len(),
        ensures
            *final(handler) is Some,
            final(handler)->0.threshold@ == old(handler)->0.threshold@.update(hart as int, priority),
            final(handler)->0.priority@ == old(handler)->0.priority@,
            final(handler)->0.enable@ == old(handler)->0.enable@,
            final(handler)->0.claim_complete@ == old(handler)->0.claim_complete@,
    {
        if let Some(h) = handler {
            h.threshold[hart] = priority;
        }
    }
}

} // verus!
