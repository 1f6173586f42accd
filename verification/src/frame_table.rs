//! The frame table: which frame holds which page, kept in both directions.

use vstd::prelude::*;
use std::collections::HashMap;
use crate::page::PageId;

verus! {

/// Index of a frame, a fixed slot of the pool.
pub type FrameId = usize;

/// Mapping from page to frame together with, for every frame, the page it
/// holds. No two pages share a frame.
pub struct FrameTable {
    frames: HashMap<PageId, FrameId>,
    holders: Vec<Option<PageId>>,
}

/// Whether `holders` is the reverse of `frames`: a page maps to a frame
/// exactly when that frame names the page as its holder.
pub open spec fn mirrored(frames: Map<PageId, FrameId>, holders: Seq<Option<PageId>>) -> bool {
    &&& forall|p: PageId| #[trigger]
        frames.contains_key(p) ==> frames[p] < holders.len() && holders[frames[p] as int] == Some(
            p,
        )
    &&& forall|f: int|
        0 <= f < holders.len() ==> match #[trigger] holders[f] {
            Some(p) => frames.contains_key(p) && frames[p] == f,
            None => true,
        }
}

/// The mapping after `page_id` has been bound to `frame_id`: a page that the
/// frame held before gives way.
pub open spec fn bound_frames(
    frames: Map<PageId, FrameId>,
    holders: Seq<Option<PageId>>,
    page_id: PageId,
    frame_id: FrameId,
) -> Map<PageId, FrameId> {
    match holders[frame_id as int] {
        Some(q) => frames.remove(q).insert(page_id, frame_id),
        None => frames.insert(page_id, frame_id),
    }
}

/// The holders after `page_id` has been bound to `frame_id`: a frame that
/// held the page before is left empty.
pub open spec fn bound_holders(
    frames: Map<PageId, FrameId>,
    holders: Seq<Option<PageId>>,
    page_id: PageId,
    frame_id: FrameId,
) -> Seq<Option<PageId>> {
    if frames.contains_key(page_id) {
        holders.update(frames[page_id] as int, None).update(frame_id as int, Some(page_id))
    } else {
        holders.update(frame_id as int, Some(page_id))
    }
}

/// The holders after `page_id` has been unbound.
pub open spec fn unbound_holders(
    frames: Map<PageId, FrameId>,
    holders: Seq<Option<PageId>>,
    page_id: PageId,
) -> Seq<Option<PageId>> {
    if frames.contains_key(page_id) {
        holders.update(frames[page_id] as int, None)
    } else {
        holders
    }
}

impl View for FrameTable {
    type V = Map<PageId, FrameId>;

    closed spec fn view(&self) -> Map<PageId, FrameId> {
        self.frames@
    }
}

impl FrameTable {
    /// For every frame, the page it holds.
    pub closed spec fn holders(&self) -> Seq<Option<PageId>> {
        self.holders@
    }

    /// The two directions agree.
    pub open spec fn wf(&self) -> bool {
        mirrored(self@, self.holders())
    }

    /// The mapping is injective: two pages in one frame are one page.
    pub proof fn lemma_injective(&self, p: PageId, q: PageId)
        requires
            self.wf(),
            self@.contains_key(p),
            self@.contains_key(q),
            self@[p] == self@[q],
        ensures
            p == q,
    {
    }

    /// A table over `capacity` frames that hold nothing.
    pub fn new(capacity: usize) -> (r: Self)
        ensures
            r.wf(),
            r@ == Map::<PageId, FrameId>::empty(),
            r.holders() == Seq::new(capacity as nat, |f: int| None::<PageId>),
    {
        let mut holders: Vec<Option<PageId>> = Vec::new();
        let mut i: usize = 0;
        while i < capacity
            invariant
                i <= capacity,
                holders@.len() == i,
                forall|f: int| 0 <= f < i ==> holders@[f] == None::<PageId>,
            decreases capacity - i,
        {
            holders.push(None);
            i += 1;
        }
        assert(holders@ =~= Seq::new(capacity as nat, |f: int| None::<PageId>));
        FrameTable { frames: HashMap::new(), holders }
    }

    /// Number of frames that the table covers.
    pub fn capacity(&self) -> (r: usize)
        ensures
            r == self.holders().len(),
    {
        self.holders.len()
    }

    /// The frame that holds `page_id`, if one does.
    pub fn lookup(&self, page_id: PageId) -> (r: Option<FrameId>)
        ensures
            r == if self@.contains_key(page_id) {
                Some(self@[page_id])
            } else {
                None
            },
    {
        match self.frames.get(&page_id) {
            Some(f) => Some(*f),
            None => None,
        }
    }

    /// The page that `frame_id` holds, if it holds one.
    pub fn page_in(&self, frame_id: FrameId) -> (r: Option<PageId>)
        ensures
            r == if frame_id < self.holders().len() {
                self.holders()[frame_id as int]
            } else {
                None
            },
    {
        if frame_id < self.holders.len() {
            self.holders[frame_id]
        } else {
            None
        }
    }

    /// Binds `page_id` to `frame_id`. A binding that either of them had
    /// before is given up, so that the mapping stays injective.
    pub fn insert(&mut self, page_id: PageId, frame_id: FrameId)
        requires
            old(self).wf(),
            frame_id < old(self).holders().len(),
        ensures
            final(self).wf(),
            final(self)@ == bound_frames(old(self)@, old(self).holders(), page_id, frame_id),
            final(self).holders() == bound_holders(
                old(self)@,
                old(self).holders(),
                page_id,
                frame_id,
            ),
            final(self)@.contains_key(page_id),
            final(self)@[page_id] == frame_id,
    {
        match self.holders[frame_id] {
            Some(q) => {
                self.frames.remove(&q);
            },
            None => {},
        }
        match self.frames.get(&page_id) {
            Some(g) => {
                let g: usize = *g;
                self.holders[g] = None;
            },
            None => {},
        }
        self.frames.insert(page_id, frame_id);
        self.holders[frame_id] = Some(page_id);
        assert(self.frames@ =~= bound_frames(
            old(self)@,
            old(self).holders(),
            page_id,
            frame_id,
        ));
        assert(self.holders@ =~= bound_holders(
            old(self)@,
            old(self).holders(),
            page_id,
            frame_id,
        ));
    }

    /// Unbinds `page_id` and returns the frame that held it, if one did.
    pub fn remove(&mut self, page_id: PageId) -> (r: Option<FrameId>)
        requires
            old(self).wf(),
        ensures
            final(self).wf(),
            final(self)@ == old(self)@.remove(page_id),
            final(self).holders() == unbound_holders(old(self)@, old(self).holders(), page_id),
            r == if old(self)@.contains_key(page_id) {
                Some(old(self)@[page_id])
            } else {
                None
            },
    {
        match self.frames.remove(&page_id) {
            Some(f) => {
                self.holders[f] = None;
                Some(f)
            },
            None => None,
        }
    }
}

} // verus!
