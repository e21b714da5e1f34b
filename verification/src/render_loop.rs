//! Decisions of the render loop: when a drawable size is stable enough to be
//! published, and whether a frame's damage covers the whole frame.

use vstd::prelude::*;
use crate::protocol::Rect;

verus! {

/// Frames a new drawable size must stay unchanged before it is published.
pub const SIZE_DEBOUNCE: u32 = 15;

/// A drawable size: width, height and backing scale factor.
pub type DrawableSize = (u32, u32, u32);

/// Debounces drawable-size changes.
#[derive(Debug, Clone, Copy)]
pub struct SizeDebouncer {
    pub last_size: DrawableSize,
    pub stable_frames: u32,
}

/// State after observing `cur`, and the size to publish, if any: a nonzero
/// width that differs from the last size restarts the count; otherwise the
/// count advances up to `SIZE_DEBOUNCE`, and the observed size is published
/// when it gets there.
pub open spec fn spec_observe(s: SizeDebouncer, cur: DrawableSize) -> (SizeDebouncer, Option<DrawableSize>) {
    if cur.0 > 0 && cur != s.last_size {
        (SizeDebouncer { last_size: cur, stable_frames: 0 }, None)
    } else if s.stable_frames < SIZE_DEBOUNCE {
        let n = (s.stable_frames + 1) as u32;
        (SizeDebouncer { last_size: s.last_size, stable_frames: n },
            if n == SIZE_DEBOUNCE { Some(cur) } else { None })
    } else {
        (s, None)
    }
}

/// State and number of publications after observing `cur` `n` times in a row.
pub open spec fn observe_repeatedly(s: SizeDebouncer, cur: DrawableSize, n: nat) -> (SizeDebouncer, nat)
    decreases n,
{
    if n == 0 {
        (s, 0)
    } else {
        let (s1, k) = observe_repeatedly(s, cur, (n - 1) as nat);
        let (s2, out) = spec_observe(s1, cur);
        (s2, if out is Some { k + 1 } else { k })
    }
}

impl SizeDebouncer {
    /// A debouncer that treats `initial` as already published.
    pub fn new(initial: DrawableSize) -> (d: Self)
        ensures
            d.last_size == initial,
            d.stable_frames == SIZE_DEBOUNCE,
    {
        Self { last_size: initial, stable_frames: SIZE_DEBOUNCE }
    }

    /// Observes the current drawable size; returns the size to publish, if any.
    pub fn observe(&mut self, cur: DrawableSize) -> (r: Option<DrawableSize>)
        ensures
            (*final(self), r) == spec_observe(*old(self), cur),
    {
        let changed = cur.0 != self.last_size.0 || cur.1 != self.last_size.1 || cur.2 != self.last_size.2;
        if cur.0 > 0 && changed {
            self.last_size = cur;
            self.stable_frames = 0;
            None
        } else if self.stable_frames < SIZE_DEBOUNCE {
            self.stable_frames = self.stable_frames + 1;
            if self.stable_frames == SIZE_DEBOUNCE {
                Some(cur)
            } else {
                None
            }
        } else {
            None
        }
    }
}

/// Observing the last recorded size over and over publishes it exactly once
/// if the count has not yet reached `SIZE_DEBOUNCE` and enough frames pass,
/// and never otherwise; the count never exceeds `SIZE_DEBOUNCE`.
pub proof fn lemma_stable_size_published_once(s: SizeDebouncer, n: nat)
    requires
        s.stable_frames <= SIZE_DEBOUNCE,
    ensures
        observe_repeatedly(s, s.last_size, n).1 == (
            if s.stable_frames < SIZE_DEBOUNCE && n >= SIZE_DEBOUNCE - s.stable_frames { 1nat } else { 0nat }),
        observe_repeatedly(s, s.last_size, n).0.last_size == s.last_size,
        observe_repeatedly(s, s.last_size, n).0.stable_frames
            == if s.stable_frames + n >= SIZE_DEBOUNCE { SIZE_DEBOUNCE as int } else { s.stable_frames + n },
    decreases n,
{
    if n > 0 {
        lemma_stable_size_published_once(s, (n - 1) as nat);
    }
}

/// Whether a damage rectangle covers a whole `width` x `height` frame.
pub open spec fn spec_is_full_damage(damage: Rect, width: u32, height: u32) -> bool {
    damage.x == 0 && damage.y == 0 && damage.w == width && damage.h == height
}

/// Decides whether a frame's damage covers the whole frame.
pub fn is_full_damage(damage: Rect, width: u32, height: u32) -> (b: bool)
    ensures
        b == spec_is_full_damage(damage, width, height),
{
    damage.x == 0 && damage.y == 0 && damage.w as u32 == width && damage.h as u32 == height
}

} // verus!
