//! The replacer: which frame is given up when the pool is full.
//!
//! The policy is least recently used. Every pin and every unpin stamps the
//! frame with the reading of a logical clock; the victim is the evictable
//! frame with the oldest stamp, and among equal stamps the one with the
//! lowest index. A frame that is not evictable is never chosen.

use vstd::prelude::*;
use crate::frame_table::FrameId;

verus! {

/// Eviction state of the frames of a pool.
pub struct Replacer {
    evictable: Vec<bool>,
    stamps: Vec<u64>,
    clock: u64,
}

/// Mathematical value of a replacer.
pub struct ReplacerView {
    /// For every frame, whether it may be given up.
    pub evictable: Seq<bool>,
    /// For every frame, the clock reading of its last access.
    pub stamps: Seq<u64>,
    /// The reading of the last access recorded.
    pub clock: u64,
}

/// The clock reading that follows `clock`. The clock stops at its largest
/// value: accesses from then on share one stamp and rank by frame index.
pub open spec fn tick(clock: u64) -> u64 {
    if clock < u64::MAX {
        (clock + 1) as u64
    } else {
        clock
    }
}

impl ReplacerView {
    /// Number of frames covered.
    pub open spec fn capacity(self) -> int {
        self.evictable.len() as int
    }

    pub open spec fn wf(self) -> bool {
        self.evictable.len() == self.stamps.len()
    }

    /// A replacer over `capacity` frames, none evictable, none accessed.
    pub open spec fn fresh(capacity: nat) -> ReplacerView {
        ReplacerView {
            evictable: Seq::new(capacity, |f: int| false),
            stamps: Seq::new(capacity, |f: int| 0u64),
            clock: 0,
        }
    }

    /// The state after an access to frame `f` that leaves it evictable or
    /// not, as `evictable` says. A frame outside the pool changes nothing.
    pub open spec fn accessed(self, f: int, evictable: bool) -> ReplacerView {
        if 0 <= f < self.capacity() {
            ReplacerView {
                evictable: self.evictable.update(f, evictable),
                stamps: self.stamps.update(f, tick(self.clock)),
                clock: tick(self.clock),
            }
        } else {
            self
        }
    }

    /// The state after frame `f` has been pinned.
    pub open spec fn pinned(self, f: int) -> ReplacerView {
        self.accessed(f, false)
    }

    /// The state after frame `f` has been released by its last holder.
    pub open spec fn unpinned(self, f: int) -> ReplacerView {
        self.accessed(f, true)
    }

    /// The state after frame `f` has been taken out as the victim.
    pub open spec fn removed(self, f: int) -> ReplacerView {
        ReplacerView { evictable: self.evictable.update(f, false), ..self }
    }

    /// Whether frame `f` is given up no later than frame `g`: its stamp is
    /// older, or as old with `f` the lower index.
    pub open spec fn precedes(self, f: int, g: int) -> bool {
        self.stamps[f] < self.stamps[g] || (self.stamps[f] == self.stamps[g] && f <= g)
    }

    /// Whether frame `f` is the one to give up: evictable, and before every
    /// other evictable frame.
    pub open spec fn is_victim(self, f: int) -> bool {
        &&& 0 <= f < self.capacity()
        &&& self.evictable[f]
        &&& forall|g: int|
            0 <= g < self.capacity() && #[trigger] self.evictable[g] ==> self.precedes(f, g)
    }

    /// Whether no frame is evictable.
    pub open spec fn all_held(self) -> bool {
        forall|g: int| 0 <= g < self.capacity() ==> !#[trigger] self.evictable[g]
    }

    /// Whether frame `f` is evictable and before every evictable frame
    /// among the first `n`.
    pub open spec fn leads(self, f: int, n: int) -> bool {
        &&& 0 <= f < n
        &&& self.evictable[f]
        &&& forall|g: int| 0 <= g < n && #[trigger] self.evictable[g] ==> self.precedes(f, g)
    }

    /// Among the first `n` frames, one leads unless none is evictable.
    pub proof fn lemma_leader_exists(self, n: int)
        requires
            self.wf(),
            0 <= n <= self.capacity(),
        ensures
            (exists|f: int| self.leads(f, n)) || (forall|g: int|
                0 <= g < n ==> !#[trigger] self.evictable[g]),
        decreases n,
    {
        if n > 0 {
            let m = n - 1;
            self.lemma_leader_exists(m);
            if exists|f: int| self.leads(f, m) {
                let b = choose|f: int| self.leads(f, m);
                if self.evictable[m] && !self.precedes(b, m) {
                    assert(self.leads(m, n));
                } else {
                    assert(self.leads(b, n));
                }
            } else if self.evictable[m] {
                assert(self.leads(m, n));
            }
        }
    }

    /// A victim exists exactly when some frame is evictable.
    pub proof fn lemma_victim_exists(self)
        requires
            self.wf(),
        ensures
            (exists|f: int| self.is_victim(f)) <==> !self.all_held(),
    {
        self.lemma_leader_exists(self.capacity());
        if exists|f: int| self.leads(f, self.capacity()) {
            let b = choose|f: int| self.leads(f, self.capacity());
            assert(self.is_victim(b));
        }
    }

    /// The victim is evictable: a frame that is pinned, and so not
    /// evictable, is never chosen.
    pub proof fn lemma_victim_is_evictable(self, f: int)
        requires
            self.is_victim(f),
        ensures
            0 <= f < self.capacity(),
            self.evictable[f],
    {
    }

    /// There is at most one victim.
    pub proof fn lemma_victim_unique(self, f: int, g: int)
        requires
            self.is_victim(f),
            self.is_victim(g),
        ensures
            f == g,
    {
    }
}

impl View for Replacer {
    type V = ReplacerView;

    closed spec fn view(&self) -> ReplacerView {
        ReplacerView { evictable: self.evictable@, stamps: self.stamps@, clock: self.clock }
    }
}

impl Replacer {
    pub open spec fn wf(&self) -> bool {
        self@.wf()
    }

    /// A replacer over `capacity` frames, none of them evictable.
    pub fn new(capacity: usize) -> (r: Self)
        ensures
            r.wf(),
            r@ == ReplacerView::fresh(capacity as nat),
    {
        let mut evictable: Vec<bool> = Vec::new();
        let mut stamps: Vec<u64> = Vec::new();
        let mut i: usize = 0;
        while i < capacity
            invariant
                i <= capacity,
                evictable@.len() == i,
                stamps@.len() == i,
                forall|f: int| 0 <= f < i ==> evictable@[f] == false,
                forall|f: int| 0 <= f < i ==> stamps@[f] == 0u64,
            decreases capacity - i,
        {
            evictable.push(false);
            stamps.push(0);
            i += 1;
        }
        assert(evictable@ =~= ReplacerView::fresh(capacity as nat).evictable);
        assert(stamps@ =~= ReplacerView::fresh(capacity as nat).stamps);
        Replacer { evictable, stamps, clock: 0 }
    }

    /// Number of frames covered.
    pub fn capacity(&self) -> (r: usize)
        ensures
            r == self@.capacity(),
    {
        self.evictable.len()
    }

    /// Whether `frame_id` may be given up.
    pub fn is_evictable(&self, frame_id: FrameId) -> (r: bool)
        ensures
            r == (frame_id < self@.capacity() && self@.evictable[frame_id as int]),
    {
        frame_id < self.evictable.len() && self.evictable[frame_id]
    }

    fn touch(&mut self, frame_id: FrameId, evictable: bool)
        requires
            old(self).wf(),
        ensures
            final(self).wf(),
            final(self)@ == old(self)@.accessed(frame_id as int, evictable),
    {
        if frame_id < self.evictable.len() {
            if self.clock < u64::MAX {
                self.clock = self.clock + 1;
            }
            self.evictable[frame_id] = evictable;
            self.stamps[frame_id] = self.clock;
        }
    }

    /// Takes `frame_id` out of the frames that may be given up, and records
    /// the access.
    pub fn pin(&mut self, frame_id: FrameId)
        requires
            old(self).wf(),
        ensures
            final(self).wf(),
            final(self)@ == old(self)@.pinned(frame_id as int),
    {
        self.touch(frame_id, false);
    }

    /// Makes `frame_id` a frame that may be given up, and records the
    /// access. For the caller to invoke when the last holder lets go.
    pub fn unpin(&mut self, frame_id: FrameId)
        requires
            old(self).wf(),
        ensures
            final(self).wf(),
            final(self)@ == old(self)@.unpinned(frame_id as int),
    {
        self.touch(frame_id, true);
    }

    /// Chooses the frame to give up and takes it out of the evictable
    /// frames, or returns `None` if no frame is evictable.
    pub fn victim(&mut self) -> (r: Option<FrameId>)
        requires
            old(self).wf(),
        ensures
            final(self).wf(),
            match r {
                Some(f) => old(self)@.is_victim(f as int) && final(self)@ == old(self)@.removed(
                    f as int,
                ),
                None => old(self)@.all_held() && final(self)@ == old(self)@,
            },
    {
        let n: usize = self.evictable.len();
        let mut best: Option<usize> = None;
        let mut i: usize = 0;
        while i < n
            invariant
                i <= n,
                n == self@.capacity(),
                self.wf(),
                self@ == old(self)@,
                match best {
                    Some(b) => b < i && self@.evictable[b as int] && forall|g: int|
                        0 <= g < i && #[trigger] self@.evictable[g] ==> self@.precedes(
                            b as int,
                            g,
                        ),
                    None => forall|g: int| 0 <= g < i ==> !#[trigger] self@.evictable[g],
                },
            decreases n - i,
        {
            if self.evictable[i] {
                match best {
                    Some(b) => {
                        if self.stamps[i] < self.stamps[b] {
                            best = Some(i);
                        }
                    },
                    None => {
                        best = Some(i);
                    },
                }
            }
            i += 1;
        }
        match best {
            Some(b) => {
                self.evictable[b] = false;
            },
            None => {},
        }
        best
    }
}

} // verus!
