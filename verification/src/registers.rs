//! The PLIC register file and its operations.
//!
//! [`Plic`] models the register file word for word: the per-source priority
//! array, the packed pending bitmap, the packed per-(context, source) enable
//! bitmap, and each context's threshold, exactly as they sit in device
//! memory. It also carries the one piece of state the hardware keeps behind
//! the claim/completion register: which sources are currently held by a
//! claim and so may not pend again until completed.
//!
//! Every operation is one register transaction of the real device: reads
//! observe one word, writes change one word, and the contracts say precisely
//! which bit or word moves and that everything else stays. The claim
//! operation performs the hardware's own selection: the pending, enabled
//! source of highest priority above the context's threshold.
//!
//! Out-of-range indexes (source id 0 or >= [`COUNT_SOURCE`], context >=
//! [`COUNT_CONTEXT`]) are precondition violations: every operation requires
//! [`valid_source`] and [`valid_context`] of its indexes, so a verified
//! caller can never reach a wrapped or misrouted register address.

use crate::bitmap::bitmap_bit;
use crate::bitmap::lemma_bit32_zero;
use crate::bitmap::lemma_bitmap_clear;
use crate::bitmap::lemma_bitmap_set;
use crate::bitmap::lemma_div_below;
use crate::bitmap::lemma_mod_range;
use crate::layout::COUNT_CONTEXT;
use crate::layout::COUNT_SOURCE;
use crate::layout::ENABLE_WORDS;
use crate::layout::PENDING_WORDS;
use crate::layout::WORD_BITS;
use vstd::pervasive::VecAdditionalExecFns;
use vstd::prelude::*;

verus! {

/// True of a source id the register file addresses: nonzero and below
/// [`COUNT_SOURCE`]. Id 0 is reserved to mean "no interrupt".
pub open spec fn valid_source(source: int) -> bool {
    1 <= source < COUNT_SOURCE as int
}

/// True of a context index the register file addresses.
pub open spec fn valid_context(context: int) -> bool {
    0 <= context < COUNT_CONTEXT as int
}

/// Bit position of the (source, context) pair in the enable bitmap: each
/// context owns one contiguous 1024-bit stripe, source id first.
pub open spec fn enable_pos(source: int, context: int) -> int {
    context * (COUNT_SOURCE as int) + source
}

/// The register-level model of the PLIC.
pub struct Plic {
    priorities: Vec<u32>,
    pending_bits: Vec<u32>,
    enables: Vec<u32>,
    thresholds: Vec<u32>,
    held: Vec<bool>,
}

/// Every priority register reads the same in both states.
pub open spec fn same_priorities(pre: Plic, post: Plic) -> bool {
    forall|s: int|
        #![trigger post.priority_of(s)]
        #![trigger pre.priority_of(s)]
        valid_source(s) ==> post.priority_of(s) == pre.priority_of(s)
}

/// Every pending bit reads the same in both states.
pub open spec fn same_pending(pre: Plic, post: Plic) -> bool {
    forall|s: int|
        #![trigger post.pending(s)]
        #![trigger pre.pending(s)]
        valid_source(s) ==> post.pending(s) == pre.pending(s)
}

/// Every enable bit reads the same in both states.
pub open spec fn same_enables(pre: Plic, post: Plic) -> bool {
    forall|s: int, c: int|
        #![trigger post.enabled(s, c)]
        #![trigger pre.enabled(s, c)]
        valid_source(s) && valid_context(c) ==> post.enabled(s, c) == pre.enabled(s, c)
}

/// Every threshold register reads the same in both states.
pub open spec fn same_thresholds(pre: Plic, post: Plic) -> bool {
    forall|c: int|
        #![trigger post.threshold_of(c)]
        #![trigger pre.threshold_of(c)]
        valid_context(c) ==> post.threshold_of(c) == pre.threshold_of(c)
}

/// Every source is held (claimed, not yet completed) alike in both states.
pub open spec fn same_held(pre: Plic, post: Plic) -> bool {
    forall|s: int|
        #![trigger post.is_held(s)]
        #![trigger pre.is_held(s)]
        valid_source(s) ==> post.is_held(s) == pre.is_held(s)
}

impl Plic {
    /// The blocks have their fixed register counts.
    pub closed spec fn wf(&self) -> bool {
        &&& self.priorities@.len() == COUNT_SOURCE
        &&& self.pending_bits@.len() == PENDING_WORDS
        &&& self.enables@.len() == ENABLE_WORDS
        &&& self.thresholds@.len() == COUNT_CONTEXT
        &&& self.held@.len() == COUNT_SOURCE
    }

    /// Value of the priority register of `source`.
    pub closed spec fn priority_of(&self, source: int) -> u32 {
        self.priorities@[source]
    }

    /// Pending bit of `source`.
    pub closed spec fn pending(&self, source: int) -> bool {
        bitmap_bit(self.pending_bits@, source)
    }

    /// Enable bit of `source` in `context`.
    pub closed spec fn enabled(&self, source: int, context: int) -> bool {
        bitmap_bit(self.enables@, enable_pos(source, context))
    }

    /// Value of the threshold register of `context`.
    pub closed spec fn threshold_of(&self, context: int) -> u32 {
        self.thresholds@[context]
    }

    /// Whether `source` is held by an uncompleted claim, so a new assertion
    /// of its interrupt line cannot pend it yet.
    pub closed spec fn is_held(&self, source: int) -> bool {
        self.held@[source]
    }

    /// Whether a claim in `context` may select `source`: pending, enabled
    /// in that context, and prioritized strictly above its threshold.
    pub open spec fn eligible(&self, source: int, context: int) -> bool {
        &&& valid_source(source)
        &&& self.pending(source)
        &&& self.enabled(source, context)
        &&& self.priority_of(source) > self.threshold_of(context)
    }

    /// A register file in its reset state: every priority, pending bit,
    /// enable bit and threshold zero, and no source held.
    pub fn new() -> (plic: Plic)
        ensures
            plic.wf(),
            forall|s: int| #![trigger plic.priority_of(s)] valid_source(s) ==> plic.priority_of(s) == 0,
            forall|s: int| #![trigger plic.pending(s)] valid_source(s) ==> !plic.pending(s),
            forall|s: int, c: int|
                #![trigger plic.enabled(s, c)]
                valid_source(s) && valid_context(c) ==> !plic.enabled(s, c),
            forall|c: int| #![trigger plic.threshold_of(c)] valid_context(c) ==> plic.threshold_of(c) == 0,
            forall|s: int| #![trigger plic.is_held(s)] valid_source(s) ==> !plic.is_held(s),
    {
        let plic = Plic {
            priorities: zeroed_words(COUNT_SOURCE),
            pending_bits: zeroed_words(PENDING_WORDS),
            enables: zeroed_words(ENABLE_WORDS),
            thresholds: zeroed_words(COUNT_CONTEXT),
            held: cleared_flags(COUNT_SOURCE),
        };
        proof {
            assert forall|s: int| valid_source(s) implies !plic.pending(s) by {
                lemma_div_below(s, 32, PENDING_WORDS as int);
                lemma_mod_range(s, 32);
                lemma_bit32_zero((s % 32) as u32);
            }
            assert forall|s: int, c: int|
                valid_source(s) && valid_context(c) implies !plic.enabled(s, c) by {
                let q: int = enable_pos(s, c);
                assert(0 <= q < ENABLE_WORDS * 32);
                lemma_div_below(q, 32, ENABLE_WORDS as int);
                lemma_mod_range(q, 32);
                lemma_bit32_zero((q % 32) as u32);
            }
        }
        plic
    }

    /// Set the priority register of `source` to `value`.
    ///
    /// Value 0 is reserved for "never interrupt", so writing 0 disables the
    /// source; the lowest active priority is 1.
    pub fn set_priority(&mut self, source: u32, value: u32)
        requires
            old(self).wf(),
            valid_source(source as int),
        ensures
            final(self).wf(),
            final(self).priority_of(source as int) == value,
            forall|s: int|
                #![trigger final(self).priority_of(s)]
                #![trigger old(self).priority_of(s)]
                valid_source(s) && s != source as int ==> final(self).priority_of(s) == old(
                    self,
                ).priority_of(s),
            same_pending(*old(self), *final(self)),
            same_enables(*old(self), *final(self)),
            same_thresholds(*old(self), *final(self)),
            same_held(*old(self), *final(self)),
    {
        self.priorities.set(source as usize, value);
    }

    /// Read the priority register of `source`.
    pub fn get_priority(&self, source: u32) -> (value: u32)
        requires
            self.wf(),
            valid_source(source as int),
        ensures
            value == self.priority_of(source as int),
    {
        self.priorities[source as usize]
    }

    /// Disable `source` by setting its priority to 0, the reserved "never
    /// interrupt" value.
    pub fn disable_source(&mut self, source: u32)
        requires
            old(self).wf(),
            valid_source(source as int),
        ensures
            final(self).wf(),
            final(self).priority_of(source as int) == 0,
            forall|s: int|
                #![trigger final(self).priority_of(s)]
                #![trigger old(self).priority_of(s)]
                valid_source(s) && s != source as int ==> final(self).priority_of(s) == old(
                    self,
                ).priority_of(s),
            same_pending(*old(self), *final(self)),
            same_enables(*old(self), *final(self)),
            same_thresholds(*old(self), *final(self)),
            same_held(*old(self), *final(self)),
    {
        self.set_priority(source, 0);
    }

    /// Probe which priority bits `source`'s register implements: write all
    /// ones, read back the bits that stuck.
    ///
    /// The model implements every bit, so the probe returns the full mask.
    /// The probe leaves the register at the returned mask (the maximum
    /// representable priority): a caller that relied on the prior value must
    /// restore it.
    pub fn probe_priority_bits(&mut self, source: u32) -> (mask: u32)
        requires
            old(self).wf(),
            valid_source(source as int),
        ensures
            final(self).wf(),
            mask == u32::MAX,
            final(self).priority_of(source as int) == mask,
            forall|s: int|
                #![trigger final(self).priority_of(s)]
                #![trigger old(self).priority_of(s)]
                valid_source(s) && s != source as int ==> final(self).priority_of(s) == old(
                    self,
                ).priority_of(s),
            same_pending(*old(self), *final(self)),
            same_enables(*old(self), *final(self)),
            same_thresholds(*old(self), *final(self)),
            same_held(*old(self), *final(self)),
    {
        self.priorities.set(source as usize, u32::MAX);
        self.priorities[source as usize]
    }

    /// Read the pending bit of `source`.
    ///
    /// Pending bits are read-only through the register file: hardware sets
    /// them as interrupt lines assert and clears them on claim. No register
    /// operation writes them directly.
    pub fn is_pending(&self, source: u32) -> (pend: bool)
        requires
            self.wf(),
            valid_source(source as int),
        ensures
            pend == self.pending(source as int),
    {
        let group: usize = source as usize / WORD_BITS;
        let index: u32 = source % 32;
        proof {
            lemma_div_below(source as int, 32, PENDING_WORDS as int);
            lemma_mod_range(source as int, 32);
        }
        let word: u32 = self.pending_bits[group];
        (word & (1u32 << index)) != 0
    }

    /// Set the enable bit of `source` in `context`.
    ///
    /// One read-modify-write of the word holding the bit: exactly the
    /// addressed bit becomes set, every other (source, context) pair keeps
    /// its enable bit, and no other block moves.
    pub fn enable(&mut self, source: u32, context: usize)
        requires
            old(self).wf(),
            valid_source(source as int),
            valid_context(context as int),
        ensures
            final(self).wf(),
            forall|s: int, c: int|
                #![trigger final(self).enabled(s, c)]
                #![trigger old(self).enabled(s, c)]
                valid_source(s) && valid_context(c) ==> final(self).enabled(s, c) == ((s == source
                    as int && c == context as int) || old(self).enabled(s, c)),
            same_priorities(*old(self), *final(self)),
            same_pending(*old(self), *final(self)),
            same_thresholds(*old(self), *final(self)),
            same_held(*old(self), *final(self)),
    {
        let pos: usize = context * COUNT_SOURCE + source as usize;
        let group: usize = pos / WORD_BITS;
        let index: u32 = (pos % WORD_BITS) as u32;
        proof {
            lemma_enable_pos_in_range(source as int, context as int);
            lemma_div_below(pos as int, 32, ENABLE_WORDS as int);
            lemma_mod_range(pos as int, 32);
        }
        let word: u32 = self.enables[group];
        self.enables.set(group, word | (1u32 << index));
        proof {
            assert forall|s: int, c: int| valid_source(s) && valid_context(c) implies self.enabled(
                s,
                c,
            ) == ((s == source as int && c == context as int) || old(self).enabled(s, c)) by {
                lemma_enable_pos_in_range(s, c);
                lemma_bitmap_set(old(self).enables@, pos as int, enable_pos(s, c));
                if enable_pos(s, c) == pos as int {
                    lemma_enable_pos_injective(s, c, source as int, context as int);
                }
            }
        }
    }

    /// Clear the enable bit of `source` in `context`.
    ///
    /// One read-modify-write of the word holding the bit: exactly the
    /// addressed bit becomes clear, every other (source, context) pair keeps
    /// its enable bit, and no other block moves.
    pub fn disable(&mut self, source: u32, context: usize)
        requires
            old(self).wf(),
            valid_source(source as int),
            valid_context(context as int),
        ensures
            final(self).wf(),
            forall|s: int, c: int|
                #![trigger final(self).enabled(s, c)]
                #![trigger old(self).enabled(s, c)]
                valid_source(s) && valid_context(c) ==> final(self).enabled(s, c) == (!(s == source
                    as int && c == context as int) && old(self).enabled(s, c)),
            same_priorities(*old(self), *final(self)),
            same_pending(*old(self), *final(self)),
            same_thresholds(*old(self), *final(self)),
            same_held(*old(self), *final(self)),
    {
        let pos: usize = context * COUNT_SOURCE + source as usize;
        let group: usize = pos / WORD_BITS;
        let index: u32 = (pos % WORD_BITS) as u32;
        proof {
            lemma_enable_pos_in_range(source as int, context as int);
            lemma_div_below(pos as int, 32, ENABLE_WORDS as int);
            lemma_mod_range(pos as int, 32);
        }
        let word: u32 = self.enables[group];
        self.enables.set(group, word & !(1u32 << index));
        proof {
            assert forall|s: int, c: int| valid_source(s) && valid_context(c) implies self.enabled(
                s,
                c,
            ) == (!(s == source as int && c == context as int) && old(self).enabled(s, c)) by {
                lemma_enable_pos_in_range(s, c);
                lemma_bitmap_clear(old(self).enables@, pos as int, enable_pos(s, c));
                if enable_pos(s, c) == pos as int {
                    lemma_enable_pos_injective(s, c, source as int, context as int);
                }
            }
        }
    }

    /// Read the enable bit of `source` in `context`.
    pub fn is_enabled(&self, source: u32, context: usize) -> (on: bool)
        requires
            self.wf(),
            valid_source(source as int),
            valid_context(context as int),
        ensures
            on == self.enabled(source as int, context as int),
    {
        let pos: usize = context * COUNT_SOURCE + source as usize;
        let group: usize = pos / WORD_BITS;
        let index: u32 = (pos % WORD_BITS) as u32;
        proof {
            lemma_enable_pos_in_range(source as int, context as int);
            lemma_div_below(pos as int, 32, ENABLE_WORDS as int);
            lemma_mod_range(pos as int, 32);
        }
        let word: u32 = self.enables[group];
        (word & (1u32 << index)) != 0
    }

    /// Read the priority threshold register of `context`.
    pub fn get_threshold(&self, context: usize) -> (value: u32)
        requires
            self.wf(),
            valid_context(context as int),
        ensures
            value == self.threshold_of(context as int),
    {
        self.thresholds[context]
    }

    /// Set the priority threshold of `context` to `value`.
    ///
    /// Only sources with priority strictly above the threshold are claimable
    /// in the context; raising it to a source's priority or beyond makes
    /// that source ineligible without touching its enable bit or pending
    /// state.
    pub fn set_threshold(&mut self, context: usize, value: u32)
        requires
            old(self).wf(),
            valid_context(context as int),
        ensures
            final(self).wf(),
            final(self).threshold_of(context as int) == value,
            forall|c: int|
                #![trigger final(self).threshold_of(c)]
                #![trigger old(self).threshold_of(c)]
                valid_context(c) && c != context as int ==> final(self).threshold_of(c) == old(
                    self,
                ).threshold_of(c),
            same_priorities(*old(self), *final(self)),
            same_pending(*old(self), *final(self)),
            same_enables(*old(self), *final(self)),
            same_held(*old(self), *final(self)),
    {
        self.thresholds.set(context, value);
    }

    /// Probe which threshold bits `context`'s register implements: write all
    /// ones, read back the bits that stuck.
    ///
    /// The model implements every bit, so the probe returns the full mask
    /// and leaves the threshold at it (no source is claimable until the
    /// caller lowers it again).
    pub fn probe_threshold_bits(&mut self, context: usize) -> (mask: u32)
        requires
            old(self).wf(),
            valid_context(context as int),
        ensures
            final(self).wf(),
            mask == u32::MAX,
            final(self).threshold_of(context as int) == mask,
            forall|c: int|
                #![trigger final(self).threshold_of(c)]
                #![trigger old(self).threshold_of(c)]
                valid_context(c) && c != context as int ==> final(self).threshold_of(c) == old(
                    self,
                ).threshold_of(c),
            same_priorities(*old(self), *final(self)),
            same_pending(*old(self), *final(self)),
            same_enables(*old(self), *final(self)),
            same_held(*old(self), *final(self)),
    {
        self.thresholds.set(context, u32::MAX);
        self.thresholds[context]
    }
    /// Model the device side: the interrupt line of `source` asserts.
    ///
    /// This is not a register operation — hardware alone sets pending bits —
    /// but the model needs the stimulus to drive its state machine. The
    /// source pends unless it is still held by an uncompleted claim, in
    /// which case the assertion is absorbed until [`Plic::complete`] runs.
    pub fn raise_interrupt(&mut self, source: u32)
        requires
            old(self).wf(),
            valid_source(source as int),
        ensures
            final(self).wf(),
            same_priorities(*old(self), *final(self)),
            same_enables(*old(self), *final(self)),
            same_thresholds(*old(self), *final(self)),
            same_held(*old(self), *final(self)),
            old(self).is_held(source as int) ==> same_pending(*old(self), *final(self)),
            !old(self).is_held(source as int) ==> final(self).pending(source as int) && (forall|
                s: int,
            |
                #![trigger final(self).pending(s)]
                #![trigger old(self).pending(s)]
                valid_source(s) && s != source as int ==> final(self).pending(s) == old(
                    self,
                ).pending(s)),
    {
        if !self.held[source as usize] {
            let group: usize = source as usize / WORD_BITS;
            let index: u32 = source % 32;
            proof {
                lemma_div_below(source as int, 32, PENDING_WORDS as int);
                lemma_mod_range(source as int, 32);
            }
            let word: u32 = self.pending_bits[group];
            self.pending_bits.set(group, word | (1u32 << index));
            proof {
                assert forall|s: int| valid_source(s) implies self.pending(s) == ((s == source
                    as int) || old(self).pending(s)) by {
                    lemma_bitmap_set(old(self).pending_bits@, source as int, s);
                }
            }
        }
    }

    /// Claim an interrupt in `context`: read the claim/completion register.
    ///
    /// The hardware selects the eligible source (pending, enabled in this
    /// context, priority strictly above the context's threshold) of highest
    /// priority — on a tie, the lowest id — returns its id, and atomically
    /// clears its pending bit while holding the source until completion.
    /// Returns `None` (raw register value 0) when no source is eligible.
    ///
    /// A claim is always legal, whatever the context's notification state:
    /// a hart may poll by claiming even with its threshold at maximum.
    pub fn claim(&mut self, context: usize) -> (claimed: Option<u32>)
        requires
            old(self).wf(),
            valid_context(context as int),
        ensures
            final(self).wf(),
            same_priorities(*old(self), *final(self)),
            same_enables(*old(self), *final(self)),
            same_thresholds(*old(self), *final(self)),
            match claimed {
                Option::None => {
                    &&& forall|s: int| !#[trigger] old(self).eligible(s, context as int)
                    &&& same_pending(*old(self), *final(self))
                    &&& same_held(*old(self), *final(self))
                },
                Option::Some(id) => {
                    &&& old(self).eligible(id as int, context as int)
                    &&& forall|s: int|
                        #[trigger] old(self).eligible(s, context as int) ==> old(self).priority_of(
                            s,
                        ) <= old(self).priority_of(id as int)
                    &&& forall|s: int|
                        #[trigger] old(self).eligible(s, context as int) && old(self).priority_of(
                            s,
                        ) == old(self).priority_of(id as int) ==> id as int <= s
                    &&& !final(self).pending(id as int)
                    &&& forall|s: int|
                        #![trigger final(self).pending(s)]
                        #![trigger old(self).pending(s)]
                        valid_source(s) && s != id as int ==> final(self).pending(s) == old(
                            self,
                        ).pending(s)
                    &&& final(self).is_held(id as int)
                    &&& forall|s: int|
                        #![trigger final(self).is_held(s)]
                        #![trigger old(self).is_held(s)]
                        valid_source(s) && s != id as int ==> final(self).is_held(s) == old(
                            self,
                        ).is_held(s)
                },
            },
    {
        let threshold: u32 = self.thresholds[context];
        let mut best: u32 = 0;
        let mut s: u32 = 1;
        while s < 1024
            invariant
                self.wf(),
                valid_context(context as int),
                threshold == self.threshold_of(context as int),
                1 <= s <= 1024,
                best < s,
                best != 0 ==> self.eligible(best as int, context as int),
                best == 0 ==> forall|t: int| 1 <= t < s ==> !self.eligible(t, context as int),
                best != 0 ==> forall|t: int|
                    1 <= t < s && self.eligible(t, context as int) ==> self.priority_of(t)
                        <= self.priority_of(best as int),
                best != 0 ==> forall|t: int|
                    1 <= t < s && self.eligible(t, context as int) && self.priority_of(t)
                        == self.priority_of(best as int) ==> best as int <= t,
            decreases 1024 - s,
        {
            let prio: u32 = self.priorities[s as usize];
            if self.is_pending(s) && self.is_enabled(s, context) && prio > threshold {
                if best == 0 || prio > self.priorities[best as usize] {
                    best = s;
                }
            }
            s = s + 1;
        }
        if best == 0 {
            None
        } else {
            let group: usize = best as usize / WORD_BITS;
            let index: u32 = best % 32;
            proof {
                lemma_div_below(best as int, 32, PENDING_WORDS as int);
                lemma_mod_range(best as int, 32);
            }
            let word: u32 = self.pending_bits[group];
            self.pending_bits.set(group, word & !(1u32 << index));
            self.held.set(best as usize, true);
            proof {
                assert forall|t: int| valid_source(t) implies self.pending(t) == (t != best
                    as int && old(self).pending(t)) by {
                    lemma_bitmap_clear(old(self).pending_bits@, best as int, t);
                }
            }
            Some(best)
        }
    }

    /// Complete a claimed interrupt: write `source` to the claim/completion
    /// register of `context`.
    ///
    /// Completion releases the source, making it eligible to pend and be
    /// claimed again. Whether `source` was really the id last claimed in
    /// `context` is not validated here — the register file is a passthrough
    /// and pairing claims with completions is the caller's protocol duty.
    pub fn complete(&mut self, context: usize, source: u32)
        requires
            old(self).wf(),
            valid_context(context as int),
            valid_source(source as int),
        ensures
            final(self).wf(),
            !final(self).is_held(source as int),
            forall|s: int|
                #![trigger final(self).is_held(s)]
                #![trigger old(self).is_held(s)]
                valid_source(s) && s != source as int ==> final(self).is_held(s) == old(
                    self,
                ).is_held(s),
            same_priorities(*old(self), *final(self)),
            same_pending(*old(self), *final(self)),
            same_enables(*old(self), *final(self)),
            same_thresholds(*old(self), *final(self)),
    {
        self.held.set(source as usize, false);
    }
}

/// Threshold gating: a source whose priority sits at or below a context's
/// threshold is never eligible for claim in that context, whatever its
/// pending and enable state.
pub proof fn lemma_threshold_gates_claim(plic: Plic, source: int, context: int)
    requires
        plic.priority_of(source) <= plic.threshold_of(context),
    ensures
        !plic.eligible(source, context),
{
}

/// A source with priority 0 — the reserved "never interrupt" value, which
/// [`Plic::disable_source`] writes — is never eligible in any context.
pub proof fn lemma_priority_zero_never_eligible(plic: Plic, source: int, context: int)
    requires
        plic.priority_of(source) == 0,
    ensures
        !plic.eligible(source, context),
{
}

proof fn lemma_enable_pos_injective(s1: int, c1: int, s2: int, c2: int)
    by (nonlinear_arith)
    requires
        0 <= s1 < 1024,
        0 <= s2 < 1024,
        0 <= c1,
        0 <= c2,
        c1 * 1024 + s1 == c2 * 1024 + s2,
    ensures
        s1 == s2 && c1 == c2,
{
}

proof fn lemma_enable_pos_in_range(s: int, c: int)
    by (nonlinear_arith)
    requires
        0 <= s < 1024,
        0 <= c < 15872,
    ensures
        0 <= c * 1024 + s < 507904 * 32,
{
}

fn zeroed_words(n: usize) -> (words: Vec<u32>)
    ensures
        words@.len() == n,
        forall|i: int| 0 <= i < n ==> words@[i] == 0u32,
{
    let mut words: Vec<u32> = Vec::new();
    while words.len() < n
        invariant
            words@.len() <= n,
            forall|i: int| 0 <= i < words@.len() ==> words@[i] == 0u32,
        decreases n - words.len(),
    {
        words.push(0);
    }
    words
}

fn cleared_flags(n: usize) -> (flags: Vec<bool>)
    ensures
        flags@.len() == n,
        forall|i: int| 0 <= i < n ==> flags@[i] == false,
{
    let mut flags: Vec<bool> = Vec::new();
    while flags.len() < n
        invariant
            flags@.len() <= n,
            forall|i: int| 0 <= i < flags@.len() ==> flags@[i] == false,
        decreases n - flags.len(),
    {
        flags.push(false);
    }
    flags
}

} // verus!
