//! Live button decoding from a mouse's HID input reports. Motion bytes vary
//! continuously (many distinct values, and signed deltas dip to 0xFF/0xFE);
//! button bytes take a small set (rest + a few small masks). Each report
//! adds its bytes to the values seen at each position; positions that look
//! like motion are masked out of the report's signature, so only button
//! changes change it. After a warm-up, the button byte is the first position
//! that varies within a small range and is not motion.

use std::collections::HashSet;
use vstd::prelude::*;
use crate::onboard::slices_equal;

verus! {

broadcast use vstd::std_specs::hash::group_hash_axioms;

/// Distinct values at a position from which it counts as motion (and after
/// which no more are recorded).
pub const MOTION_DISTINCT: usize = 12;

/// Reports observed per device before decoding, so motion bytes classify
/// themselves.
pub const WARMUP: u32 = 24;

/// A position is motion if it took many values, or a high one (the high
/// byte of a negative delta) that a small button mask never would.
pub open spec fn is_motion(values: Set<u8>) -> bool {
    values.len() >= MOTION_DISTINCT || exists|v: u8| values.contains(v) && v >= 0xF0
}

/// A position that varies within a small range and is not motion.
pub open spec fn is_button_position(values: Set<u8>) -> bool {
    2 <= values.len() && values.len() < MOTION_DISTINCT && !is_motion(values)
}

/// The per-position value sets, extended with empty sets up to `n`
/// positions.
pub open spec fn padded(seen: Seq<Set<u8>>, n: nat) -> Seq<Set<u8>> {
    if seen.len() < n {
        seen + Seq::new((n - seen.len()) as nat, |i: int| Set::<u8>::empty())
    } else {
        seen
    }
}

/// A value set after observing `b`: recorded while the set is small.
pub open spec fn noted(values: Set<u8>, b: u8) -> Set<u8> {
    if values.len() < MOTION_DISTINCT {
        values.insert(b)
    } else {
        values
    }
}

/// The value sets after observing a report.
pub open spec fn seen_after(seen: Seq<Set<u8>>, report: Seq<u8>) -> Seq<Set<u8>> {
    let p = padded(seen, report.len());
    Seq::new(
        p.len(),
        |i: int|
            if i < report.len() {
                noted(p[i], report[i])
            } else {
                p[i]
            },
    )
}

/// A report with its motion positions zeroed.
pub open spec fn signature(seen: Seq<Set<u8>>, report: Seq<u8>) -> Seq<u8> {
    Seq::new(
        report.len(),
        |i: int|
            if is_motion(seen[i]) {
                0u8
            } else {
                report[i]
            },
    )
}

/// The first button position among the first `k`.
pub open spec fn first_button(seen: Seq<Set<u8>>, k: nat) -> Option<int>
    decreases k,
{
    if k == 0 {
        None
    } else {
        match first_button(seen, (k - 1) as nat) {
            Some(i) => Some(i),
            None => if is_button_position(seen[k - 1]) {
                Some(k - 1)
            } else {
                None
            },
        }
    }
}

/// What one report means.
pub struct WatchEvent {
    /// The signature changed (a raw dump shows such reports).
    pub changed: bool,
    /// The button byte, once warmed up, when the signature changed.
    pub button: Option<u8>,
}

/// The decoding state of one mouse interface.
pub struct WatchState {
    /// the signature of the last report that changed it
    pub prev_sig: Vec<u8>,
    /// the distinct values seen at each position (at most 12 kept)
    pub seen: Vec<HashSet<u8>>,
    /// reports observed
    pub count: u32,
}

impl WatchState {
    /// The value sets.
    pub open spec fn seen_view(&self) -> Seq<Set<u8>> {
        self.seen@.map_values(|h: HashSet<u8>| h@)
    }

    /// A state before any report.
    pub fn new() -> (w: WatchState)
        ensures
            w.prev_sig@ == Seq::<u8>::empty(),
            w.seen_view() == Seq::<Set<u8>>::empty(),
            w.count == 0,
    {
        let w = WatchState { prev_sig: Vec::new(), seen: Vec::new(), count: 0 };
        assert(w.seen_view() =~= Seq::<Set<u8>>::empty());
        w
    }

    /// Observes one input report.
    pub fn observe(&mut self, report: &[u8]) -> (ev: WatchEvent)
        ensures
            final(self).count == if old(self).count < u32::MAX {
                (old(self).count + 1) as u32
            } else {
                old(self).count
            },
            final(self).seen_view() == seen_after(old(self).seen_view(), report@),
            ev.changed == (signature(final(self).seen_view(), report@) != old(self).prev_sig@),
            final(self).prev_sig@ == signature(final(self).seen_view(), report@),
            ev.button == if ev.changed && final(self).count >= WARMUP {
                match first_button(final(self).seen_view(), report.len() as nat) {
                    Some(i) => Some(signature(final(self).seen_view(), report@)[i]),
                    None => None::<u8>,
                }
            } else {
                None::<u8>
            },
    {
        if self.count < u32::MAX {
            self.count = self.count + 1;
        }
        let n = report.len();
        let ghost old_seen = self.seen_view();
        let ghost target = seen_after(old_seen, report@);
        let ghost pad = padded(old_seen, n as nat);
        let old_len = self.seen.len();
        let total = if old_len < n {
            n
        } else {
            old_len
        };
        assert(pad.len() == total);
        // Record the report's values position by position, moving each set
        // out of the old list into the new one.
        let mut rest: Vec<HashSet<u8>> = Vec::new();
        std::mem::swap(&mut rest, &mut self.seen);
        let mut next: Vec<HashSet<u8>> = Vec::new();
        let mut i: usize = 0;
        while i < total
            invariant
                i <= total,
                total == pad.len(),
                n == report.len(),
                old_len == old_seen.len(),
                pad == padded(old_seen, n as nat),
                target == seen_after(old_seen, report@),
                i <= old_len ==> rest@.len() == old_len - i,
                i <= old_len ==> forall|j: int| 0 <= j < rest@.len() ==> (#[trigger] rest@[j])@ == old_seen[i + j],
                i > old_len ==> rest@.len() == 0,
                next@.len() == i,
                forall|j: int| 0 <= j < i ==> (#[trigger] next@[j])@ == target[j],
            decreases total - i,
        {
            let mut set: HashSet<u8> = if i < old_len {
                rest.remove(0)
            } else {
                HashSet::new()
            };
            assert(set@ == pad[i as int]);
            if i < n && set.len() < MOTION_DISTINCT {
                set.insert(report[i]);
            }
            next.push(set);
            i = i + 1;
        }
        self.seen = next;
        assert(self.seen_view() =~= target);
        // The signature: motion positions zeroed.
        let mut sig: Vec<u8> = Vec::new();
        let mut j: usize = 0;
        while j < n
            invariant
                j <= n == report.len(),
                self.seen_view() == target,
                target.len() >= n,
                sig@ == signature(target, report@).take(j as int),
            decreases n - j,
        {
            let m = self.motion_at(j);
            sig.push(if m {
                0
            } else {
                report[j]
            });
            j = j + 1;
            assert(sig@ =~= signature(target, report@).take(j as int));
        }
        assert(sig@ =~= signature(target, report@));
        let changed = !slices_equal(sig.as_slice(), self.prev_sig.as_slice());
        if !changed {
            return WatchEvent { changed: false, button: None };
        }
        let mut button: Option<u8> = None;
        if self.count >= WARMUP {
            let mut k: usize = 0;
            while k < n
                invariant_except_break
                    first_button(target, k as nat) is None,
                    button is None,
                invariant
                    k <= n == report.len(),
                    self.seen_view() == target,
                    target.len() >= n,
                    sig@ == signature(target, report@),
                ensures
                    button is None ==> first_button(target, n as nat) is None,
                    button is Some ==> (first_button(target, n as nat) matches Some(f) && 0 <= f
                        < n && button == Some(sig@[f])),
                decreases n - k,
            {
                let len = self.seen[k].len();
                assert(self.seen@[k as int]@ == target[k as int]);
                if 2 <= len && len < MOTION_DISTINCT && !self.motion_at(k) {
                    proof {
                        assert(first_button(target, (k + 1) as nat) == Some(k as int));
                        lemma_first_button_extends(target, (k + 1) as nat, n as nat);
                    }
                    button = Some(sig[k]);
                    break;
                }
                k = k + 1;
            }
        }
        self.prev_sig = sig;
        WatchEvent { changed: true, button }
    }

    /// Whether the values seen at position `i` look like motion.
    fn motion_at(&self, i: usize) -> (r: bool)
        requires
            i < self.seen@.len(),
        ensures
            r == is_motion(self.seen@[i as int]@),
    {
        let set = &self.seen[i];
        if set.len() >= MOTION_DISTINCT {
            return true;
        }
        let mut v: u16 = 0xF0;
        while v <= 0xFF
            invariant
                0xF0 <= v <= 0x100,
                set@ == self.seen@[i as int]@,
                set@.len() < MOTION_DISTINCT,
                forall|w: u8| 0xF0 <= w < v ==> !set@.contains(w),
            decreases 0x100 - v,
        {
            if set.contains(&(v as u8)) {
                return true;
            }
            v = v + 1;
        }
        false
    }
}

proof fn lemma_first_button_extends(seen: Seq<Set<u8>>, k: nat, n: nat)
    requires
        k <= n,
        first_button(seen, k) is Some,
    ensures
        first_button(seen, n) == first_button(seen, k),
    decreases n - k,
{
    if k < n {
        lemma_first_button_extends(seen, k, (n - 1) as nat);
    }
}

/// Reports that differ only at motion positions have the same signature:
/// movement alone never looks like a button change.
pub proof fn law_motion_does_not_change_signature(seen: Seq<Set<u8>>, r1: Seq<u8>, r2: Seq<u8>)
    requires
        r1.len() == r2.len(),
        r1.len() <= seen.len(),
        forall|i: int| 0 <= i < r1.len() && !is_motion(seen[i]) ==> r1[i] == r2[i],
    ensures
        signature(seen, r1) == signature(seen, r2),
{
    assert(signature(seen, r1) =~= signature(seen, r2));
}

} // verus!
