//! The buffer pool manager: a fixed set of frames, the frame table and the
//! replacer, and the operations that fetch, create, release and flush
//! pages.
//!
//! The pool never touches storage. Where a page's bytes have to be read or
//! written, the operation says so in its answer and leaves the frame in a
//! state of transit (`Loading`, `Evicting`); the caller performs the
//! transfer and reports how it ended.

use vstd::prelude::*;
use crate::frame_table::{FrameId, FrameTable};
use crate::model::{payloads, Entry, Fetch, FrameState, FrameView, Handle, PoolError, PoolView};
use crate::page::{Page, PageId, PageInner, PageView, PAGE_SIZE};
use crate::replacer::Replacer;

verus! {

/// The page that a frame in `state` holding `page` stands for, if any.
pub open spec fn holder(state: FrameState, page: PageView) -> Option<PageId> {
    if state is Free {
        None
    } else {
        Some(page.id)
    }
}

/// The state of a pool of `SIZE` frames.
pub struct PageCacheInner<const SIZE: usize> {
    page_table: FrameTable,
    replacer: Replacer,
    pages: Vec<Page>,
    states: Vec<FrameState>,
}

/// How the search for a frame ended.
enum Acquired {
    /// This frame is free now.
    Frame(FrameId),
    /// This frame holds this dirty page with these bytes, and has started
    /// its way to storage.
    WriteBack(FrameId, PageId, [u8; PAGE_SIZE]),
    /// No frame can be had.
    Exhausted,
}

impl<const SIZE: usize> View for PageCacheInner<SIZE> {
    type V = PoolView;

    closed spec fn view(&self) -> PoolView {
        PoolView {
            frames: Seq::new(
                self.states@.len(),
                |f: int| FrameView { state: self.states@[f], page: self.pages@[f]@ },
            ),
            table: self.page_table@,
            replacer: self.replacer@,
        }
    }
}

impl<const SIZE: usize> PageCacheInner<SIZE> {
    /// The parts fit together: one page and one state per frame, and a
    /// frame table that names for every frame the page in it.
    pub closed spec fn inv(&self) -> bool {
        &&& self.pages@.len() == SIZE
        &&& self.states@.len() == SIZE
        &&& self.page_table.wf()
        &&& self.page_table.holders() =~= Seq::new(
            SIZE as nat,
            |f: int| holder(self.states@[f], self.pages@[f]@),
        )
        &&& self.replacer.wf()
    }

    /// The pool is well-formed and has `SIZE` frames.
    pub open spec fn wf(&self) -> bool {
        &&& self.inv()
        &&& self@.wf()
        &&& self@.capacity() == SIZE
    }

    /// A pool of `SIZE` free frames.
    pub fn new() -> (r: Self)
        ensures
            r.wf(),
            r@.table == Map::<PageId, FrameId>::empty(),
            r@.replacer == crate::replacer::ReplacerView::fresh(SIZE as nat),
            forall|f: int|
                0 <= f < SIZE ==> #[trigger] r@.frames[f] == (FrameView {
                    state: FrameState::Free,
                    page: crate::page::blank(),
                }),
    {
        let mut pages: Vec<Page> = Vec::new();
        let mut states: Vec<FrameState> = Vec::new();
        let mut i: usize = 0;
        while i < SIZE
            invariant
                i <= SIZE,
                pages@.len() == i,
                states@.len() == i,
                forall|f: int| 0 <= f < i ==> (#[trigger] pages@[f])@ == crate::page::blank(),
                forall|f: int| 0 <= f < i ==> #[trigger] states@[f] == FrameState::Free,
            decreases SIZE - i,
        {
            pages.push(Page::default());
            states.push(FrameState::Free);
            i += 1;
        }
        let r = PageCacheInner {
            page_table: FrameTable::new(SIZE),
            replacer: Replacer::new(SIZE),
            pages,
            states,
        };
        assert(r@.frames.len() == SIZE);
        r
    }

    /// The free frame with the lowest index, if a frame is free.
    fn first_free(&self) -> (r: Option<FrameId>)
        requires
            self.wf(),
        ensures
            match r {
                Some(f) => self@.is_first_free(f as int),
                None => self@.none_free(),
            },
    {
        let mut i: usize = 0;
        while i < SIZE
            invariant
                i <= SIZE,
                self.wf(),
                forall|g: int| 0 <= g < i ==> !((#[trigger] self@.frames[g]).state is Free),
            decreases SIZE - i,
        {
            match self.states[i] {
                FrameState::Free => {
                    return Some(i);
                },
                _ => {},
            }
            i += 1;
        }
        None
    }

    /// Finds the frame for a page that enters the pool. A free frame is
    /// taken as it is; a clean victim gives up its page at once; a dirty
    /// victim starts its way to storage.
    fn acquire(&mut self) -> (r: Acquired)
        requires
            old(self).wf(),
        ensures
            final(self).wf(),
            match r {
                Acquired::Frame(f) => {
                    &&& old(self)@.is_target(f as int)
                    &&& !old(self)@.needs_write_back(f as int)
                    &&& final(self)@ == old(self)@.cleared(f as int)
                },
                Acquired::WriteBack(f, victim, bytes) => {
                    &&& old(self)@.is_target(f as int)
                    &&& old(self)@.needs_write_back(f as int)
                    &&& victim == old(self)@.frames[f as int].page.id
                    &&& bytes@ == old(self)@.frames[f as int].page.bytes
                    &&& final(self)@ == old(self)@.begin_eviction(f as int)
                },
                Acquired::Exhausted => old(self)@.exhausted() && final(self)@ == old(self)@,
            },
    {
        match self.first_free() {
            Some(f) => Acquired::Frame(f),
            None => match self.replacer.victim() {
                None => Acquired::Exhausted,
                Some(f) => {
                    let page = self.pages[f].read();
                    let victim: PageId = page.id();
                    if page.is_dirty() {
                        let bytes: [u8; PAGE_SIZE] = *page.bytes();
                        self.states[f] = FrameState::Evicting;
                        proof {
                            assert(self@.frames =~= old(self)@.begin_eviction(f as int).frames);
                            old(self)@.lemma_begin_eviction_wf(f as int);
                        }
                        Acquired::WriteBack(f, victim, bytes)
                    } else {
                        self.page_table.remove(victim);
                        self.pages[f].write().reset();
                        self.states[f] = FrameState::Free;
                        proof {
                            assert(self@.frames =~= old(self)@.vacate(f as int).frames);
                            old(self)@.lemma_vacate_wf(f as int);
                        }
                        Acquired::Frame(f)
                    }
                },
            },
        }
    }

    /// Asks for `page_id`, pinned.
    ///
    /// A page at rest in the pool is pinned once more and handed out. A
    /// page in transit has the caller ask again. For a page outside the
    /// pool a frame is found: the first free one, else the replacer's
    /// victim. With neither the call fails at once. A dirty victim is first
    /// to be written out; any other frame is set aside for the page, whose
    /// bytes the caller is to read.
    pub fn fetch_page(&mut self, page_id: PageId) -> (r: Result<Fetch, PoolError>)
        requires
            old(self).wf(),
        ensures
            final(self).wf(),
            old(self)@.fetches(page_id, final(self)@, r),
    {
        match self.page_table.lookup(page_id) {
            Some(f) => {
                let count: u64 = match self.states[f] {
                    FrameState::Pinned(n) => n,
                    FrameState::Unpinned => 0,
                    _ => u64::MAX,
                };
                if count < u64::MAX {
                    self.states[f] = FrameState::Pinned(count + 1);
                    self.replacer.pin(f);
                    proof {
                        assert(self@.frames =~= old(self)@.pin(f as int).frames);
                        old(self)@.lemma_pin_wf(f as int);
                    }
                    Ok(Fetch::Ready(Handle { frame_id: f, page_id }))
                } else {
                    Ok(Fetch::Busy)
                }
            },
            None => match self.acquire() {
                Acquired::Frame(f) => {
                    let ghost mid = self@;
                    proof {
                        old(self)@.lemma_cleared_wf(f as int);
                    }
                    self.page_table.insert(page_id, f);
                    self.pages[f].write().set_id(page_id);
                    self.states[f] = FrameState::Loading;
                    proof {
                        assert(self@.frames =~= mid.reserve(f as int, page_id).frames);
                        mid.lemma_reserve_wf(f as int, page_id);
                    }
                    Ok(Fetch::Load(Handle { frame_id: f, page_id }))
                },
                Acquired::WriteBack(f, victim, bytes) => Ok(
                    Fetch::WriteBack { frame_id: f, page_id: victim, bytes },
                ),
                Acquired::Exhausted => Err(PoolError::PoolExhausted),
            },
        }
    }

    /// Takes in the new page `page_id`, zeroed and pinned once. The id is
    /// one that storage has just allocated, so the pool does not hold it.
    ///
    /// The frame is found as for a page that is fetched from outside the
    /// pool. With none to be had the call fails at once; a dirty victim is
    /// first to be written out, after which the call can be made again.
    pub fn new_page(&mut self, page_id: PageId) -> (r: Result<Fetch, PoolError>)
        requires
            old(self).wf(),
            !old(self)@.resident(page_id),
        ensures
            final(self).wf(),
            old(self)@.admits(page_id, Entry::Fresh, final(self)@, r),
    {
        match self.acquire() {
            Acquired::Frame(f) => {
                let ghost mid = self@;
                proof {
                    old(self)@.lemma_cleared_wf(f as int);
                }
                self.page_table.insert(page_id, f);
                self.pages[f].write().set_id(page_id);
                self.states[f] = FrameState::Pinned(1);
                self.replacer.pin(f);
                proof {
                    assert(self@.frames =~= mid.install(f as int, page_id).frames);
                    mid.lemma_install_wf(f as int, page_id);
                }
                Ok(Fetch::Ready(Handle { frame_id: f, page_id }))
            },
            Acquired::WriteBack(f, victim, bytes) => Ok(
                Fetch::WriteBack { frame_id: f, page_id: victim, bytes },
            ),
            Acquired::Exhausted => Err(PoolError::PoolExhausted),
        }
    }

    /// Puts the zeroed page `page_id` into frame `frame_id` with no holder
    /// and without a transfer, if the frame exists and is free and the
    /// pool does not hold the page. Returns whether it did.
    pub fn set_page(&mut self, frame_id: FrameId, page_id: PageId) -> (placed: bool)
        requires
            old(self).wf(),
        ensures
            final(self).wf(),
            placed <==> frame_id < SIZE && old(self)@.frames[frame_id as int].state is Free
                && !old(self)@.resident(page_id),
            final(self)@ == if placed {
                old(self)@.place(frame_id as int, page_id)
            } else {
                old(self)@
            },
    {
        if frame_id >= SIZE {
            return false;
        }
        match self.states[frame_id] {
            FrameState::Free => {},
            _ => {
                return false;
            },
        }
        if self.page_table.lookup(page_id).is_some() {
            return false;
        }
        self.page_table.insert(page_id, frame_id);
        self.pages[frame_id].write().set_id(page_id);
        self.states[frame_id] = FrameState::Unpinned;
        self.replacer.unpin(frame_id);
        proof {
            assert(self@.frames =~= old(self)@.place(frame_id as int, page_id).frames);
            old(self)@.lemma_place_wf(frame_id as int, page_id);
        }
        true
    }

    /// Releases one hold on `page_id`, and marks the page dirty if the
    /// holder says it wrote. When the last holder lets go, the frame
    /// becomes evictable. A page that the pool does not hold is not found.
    ///
    /// A page in the pool must have a holder: to release a page more often
    /// than it was fetched is an error of the caller.
    pub fn unpin_page(&mut self, page_id: PageId, is_dirty: bool) -> (r: Result<(), PoolError>)
        requires
            old(self).wf(),
            old(self)@.resident(page_id) ==> old(self)@.pin_count(page_id) > 0,
        ensures
            final(self).wf(),
            old(self)@.unpins(page_id, is_dirty, final(self)@, r),
    {
        match self.page_table.lookup(page_id) {
            None => Err(PoolError::PageNotFound),
            Some(f) => {
                if is_dirty {
                    self.pages[f].write().set_dirty(true);
                }
                match self.states[f] {
                    FrameState::Pinned(n) => {
                        if n > 1 {
                            self.states[f] = FrameState::Pinned(n - 1);
                        } else {
                            self.states[f] = FrameState::Unpinned;
                            self.replacer.unpin(f);
                        }
                    },
                    _ => {},
                }
                proof {
                    assert(self@.frames =~= old(self)@.unpin(f as int, is_dirty).frames);
                    old(self)@.lemma_unpin_wf(f as int, is_dirty);
                }
                Ok(())
            },
        }
    }

    /// Whether `handle` names a pinned frame and the page in it.
    pub fn holds(&self, handle: &Handle) -> (r: bool)
        requires
            self.wf(),
        ensures
            r == self@.holds(*handle),
    {
        if handle.frame_id >= SIZE {
            return false;
        }
        match self.states[handle.frame_id] {
            FrameState::Pinned(_) => self.pages[handle.frame_id].read().id() == handle.page_id,
            _ => false,
        }
    }

    /// Whether `handle` names a frame that waits for the bytes of its page.
    pub fn is_loading(&self, handle: &Handle) -> (r: bool)
        requires
            self.wf(),
        ensures
            r == self@.loading(*handle),
    {
        if handle.frame_id >= SIZE {
            return false;
        }
        match self.states[handle.frame_id] {
            FrameState::Loading => self.pages[handle.frame_id].read().id() == handle.page_id,
            _ => false,
        }
    }

    /// Whether `frame_id` is on its way to storage.
    pub fn is_evicting(&self, frame_id: FrameId) -> (r: bool)
        requires
            self.wf(),
        ensures
            r == self@.evicting(frame_id as int),
    {
        if frame_id >= SIZE {
            return false;
        }
        match self.states[frame_id] {
            FrameState::Evicting => true,
            _ => false,
        }
    }

    /// Hands over the bytes read from storage for the page that `handle`
    /// awaits: the page is clean and pinned once. Returns whether the
    /// handle named such a load; if not, nothing changes.
    pub fn finish_load(&mut self, handle: &Handle, bytes: &[u8; PAGE_SIZE]) -> (done: bool)
        requires
            old(self).wf(),
        ensures
            final(self).wf(),
            done <==> old(self)@.loading(*handle),
            final(self)@ == if done {
                old(self)@.loaded(handle.frame_id as int, bytes@)
            } else {
                old(self)@
            },
    {
        if !self.is_loading(handle) {
            return false;
        }
        let f: usize = handle.frame_id;
        self.pages[f].write().load(bytes);
        self.states[f] = FrameState::Pinned(1);
        self.replacer.pin(f);
        proof {
            assert(self@.frames =~= old(self)@.loaded(f as int, bytes@).frames);
            old(self)@.lemma_loaded_wf(f as int, bytes@);
        }
        true
    }

    /// Calls off the load that `handle` names, after storage failed to
    /// deliver the page: the frame is free again and the page outside the
    /// pool. Returns whether the handle named such a load.
    pub fn abort_load(&mut self, handle: &Handle) -> (done: bool)
        requires
            old(self).wf(),
        ensures
            final(self).wf(),
            done <==> old(self)@.loading(*handle),
            final(self)@ == if done {
                old(self)@.vacate(handle.frame_id as int)
            } else {
                old(self)@
            },
    {
        if !self.is_loading(handle) {
            return false;
        }
        self.release(handle.frame_id);
        true
    }

    /// Reports that the bytes of `frame_id` have reached storage: the
    /// frame is free and its page outside the pool. Returns whether the
    /// frame was on its way to storage.
    pub fn finish_write_back(&mut self, frame_id: FrameId) -> (done: bool)
        requires
            old(self).wf(),
        ensures
            final(self).wf(),
            done <==> old(self)@.evicting(frame_id as int),
            final(self)@ == if done {
                old(self)@.vacate(frame_id as int)
            } else {
                old(self)@
            },
    {
        if !self.is_evicting(frame_id) {
            return false;
        }
        self.release(frame_id);
        true
    }

    /// Reports that storage failed to take the bytes of `frame_id`: the
    /// page stays in the pool, dirty and evictable. Returns whether the
    /// frame was on its way to storage.
    pub fn abort_write_back(&mut self, frame_id: FrameId) -> (done: bool)
        requires
            old(self).wf(),
        ensures
            final(self).wf(),
            done <==> old(self)@.evicting(frame_id as int),
            final(self)@ == if done {
                old(self)@.cancel_eviction(frame_id as int)
            } else {
                old(self)@
            },
    {
        if !self.is_evicting(frame_id) {
            return false;
        }
        self.states[frame_id] = FrameState::Unpinned;
        self.replacer.unpin(frame_id);
        proof {
            assert(self@.frames =~= old(self)@.cancel_eviction(frame_id as int).frames);
            old(self)@.lemma_cancel_eviction_wf(frame_id as int);
        }
        true
    }

    /// Frees a frame in transit and takes its page out of the table.
    fn release(&mut self, frame_id: FrameId)
        requires
            old(self).wf(),
            frame_id < SIZE,
            old(self)@.frames[frame_id as int].state is Loading || old(self)@.frames[frame_id as int].state is Evicting,
        ensures
            final(self).wf(),
            final(self)@ == old(self)@.vacate(frame_id as int),
    {
        let page_id: PageId = self.pages[frame_id].read().id();
        self.page_table.remove(page_id);
        self.pages[frame_id].write().reset();
        self.states[frame_id] = FrameState::Free;
        proof {
            assert(self@.frames =~= old(self)@.vacate(frame_id as int).frames);
            assert(self@.replacer.evictable =~= old(self)@.vacate(frame_id as int).replacer.evictable);
            old(self)@.lemma_vacate_wf(frame_id as int);
        }
    }

    /// The frame that holds `page_id`, if the pool holds the page.
    pub fn lookup(&self, page_id: PageId) -> (r: Option<FrameId>)
        requires
            self.wf(),
        ensures
            r == if self@.resident(page_id) {
                Some(self@.table[page_id])
            } else {
                None
            },
    {
        self.page_table.lookup(page_id)
    }

    /// The state of `frame_id`, if there is such a frame.
    pub fn frame_state(&self, frame_id: FrameId) -> (r: Option<FrameState>)
        requires
            self.wf(),
        ensures
            r == if frame_id < SIZE {
                Some(self@.frames[frame_id as int].state)
            } else {
                None
            },
    {
        if frame_id < SIZE {
            Some(self.states[frame_id])
        } else {
            None
        }
    }

    /// Number of holders of `page_id`.
    pub fn pin_count(&self, page_id: PageId) -> (r: u64)
        requires
            self.wf(),
        ensures
            r == self@.pin_count(page_id),
    {
        match self.page_table.lookup(page_id) {
            Some(f) => match self.states[f] {
                FrameState::Pinned(n) => n,
                _ => 0,
            },
            None => 0,
        }
    }

    /// Whether `post` is this pool but for the bytes of the page in frame
    /// `f`.
    spec fn rewritten(self, post: Self, f: int) -> bool {
        &&& post.page_table == self.page_table
        &&& post.replacer == self.replacer
        &&& post.states == self.states
        &&& post.pages@.len() == self.pages@.len()
        &&& forall|g: int|
            0 <= g < self.pages@.len() && g != f ==> #[trigger] post.pages@[g] == self.pages@[g]
        &&& post.pages@[f]@.id == self.pages@[f]@.id
        &&& post.pages@[f]@.dirty == self.pages@[f]@.dirty
        &&& post.pages@[f]@.bytes.len() == PAGE_SIZE
    }

    proof fn lemma_rewritten(self, post: Self, f: int)
        requires
            self.wf(),
            0 <= f < SIZE,
            self@.frames[f].state is Pinned,
            self.rewritten(post, f),
        ensures
            post.wf(),
            post@ == self@.with_bytes(f, post.pages@[f]@.bytes),
    {
        assert(post@.frames =~= self@.with_bytes(f, post.pages@[f]@.bytes).frames);
        self@.lemma_with_bytes_wf(f, post.pages@[f]@.bytes);
    }

    /// The page that `handle` pins, for reading; `None` for a handle that
    /// pins nothing.
    pub fn read(&self, handle: &Handle) -> (r: Option<&PageInner>)
        requires
            self.wf(),
        ensures
            match r {
                Some(page) => self@.holds(*handle) && page@ == self@.frames[handle.frame_id as int].page,
                None => !self@.holds(*handle),
            },
    {
        if self.holds(handle) {
            Some(self.pages[handle.frame_id].read())
        } else {
            None
        }
    }

    /// The bytes of the page that `handle` pins, for writing; `None` for a
    /// handle that pins nothing. What the writer leaves in them is what the
    /// page holds afterwards; nothing else changes.
    pub fn write(&mut self, handle: &Handle) -> (r: Option<&mut [u8; PAGE_SIZE]>)
        requires
            old(self).wf(),
        ensures
            final(self).wf(),
            match r {
                Some(bytes) => {
                    &&& old(self)@.holds(*handle)
                    &&& bytes@ == old(self)@.frames[handle.frame_id as int].page.bytes
                    &&& final(self)@ == old(self)@.with_bytes(
                        handle.frame_id as int,
                        final(bytes)@,
                    )
                },
                None => !old(self)@.holds(*handle) && final(self)@ == old(self)@,
            },
    {
        if self.holds(handle) {
            let ghost pre = *self;
            proof {
                assert forall|post: Self| #![trigger post@]
                    pre.rewritten(post, handle.frame_id as int) implies post.wf() && post@
                    == pre@.with_bytes(
                    handle.frame_id as int,
                    post.pages@[handle.frame_id as int]@.bytes,
                ) by {
                    pre.lemma_rewritten(post, handle.frame_id as int);
                }
            }
            Some(self.pages[handle.frame_id].write().bytes_mut())
        } else {
            None
        }
    }

    /// Number of frames.
    pub fn capacity(&self) -> (r: usize)
        ensures
            r == SIZE,
    {
        SIZE
    }

    /// Whether `frame_id` holds a page at rest that is dirty.
    fn is_flushable(&self, frame_id: FrameId) -> (r: bool)
        requires
            self.wf(),
            frame_id < SIZE,
        ensures
            r == self@.flushable(frame_id as int),
    {
        match self.states[frame_id] {
            FrameState::Pinned(_) => self.pages[frame_id].read().is_dirty(),
            FrameState::Unpinned => self.pages[frame_id].read().is_dirty(),
            _ => false,
        }
    }

    /// The bytes that are to be written to storage for `page_id`: those of
    /// the page if it is at rest in the pool and dirty, and `None` if there
    /// is nothing to write. The page stays dirty until `finish_flush` says
    /// that the bytes have arrived; pin count and evictability are not
    /// touched.
    pub fn flush_page(&self, page_id: PageId) -> (r: Option<[u8; PAGE_SIZE]>)
        requires
            self.wf(),
        ensures
            match r {
                Some(bytes) => {
                    &&& self@.resident(page_id)
                    &&& self@.flushable(self@.frame_of(page_id))
                    &&& bytes@ == self@.frames[self@.frame_of(page_id)].page.bytes
                },
                None => !(self@.resident(page_id) && self@.flushable(self@.frame_of(page_id))),
            },
    {
        match self.page_table.lookup(page_id) {
            Some(f) => {
                if self.is_flushable(f) {
                    Some(*self.pages[f].read().bytes())
                } else {
                    None
                }
            },
            None => None,
        }
    }

    /// Reports that `written` has reached storage as the bytes of
    /// `page_id`. The page is clean from then on if it is at rest in the
    /// pool and still holds exactly these bytes; a page that was written
    /// to in the meantime stays dirty. Returns whether the page is clean
    /// on account of this call.
    pub fn finish_flush(&mut self, page_id: PageId, written: &[u8; PAGE_SIZE]) -> (done: bool)
        requires
            old(self).wf(),
        ensures
            final(self).wf(),
            done <==> {
                &&& old(self)@.resident(page_id)
                &&& old(self)@.settled(old(self)@.frame_of(page_id))
                &&& old(self)@.frames[old(self)@.frame_of(page_id)].page.bytes == written@
            },
            final(self)@ == if done {
                old(self)@.cleaned(old(self)@.frame_of(page_id))
            } else {
                old(self)@
            },
    {
        match self.page_table.lookup(page_id) {
            Some(f) => {
                let settled: bool = match self.states[f] {
                    FrameState::Pinned(_) => true,
                    FrameState::Unpinned => true,
                    _ => false,
                };
                if settled && self.pages[f].read().holds_bytes(written) {
                    self.pages[f].write().set_dirty(false);
                    proof {
                        assert(self@.frames =~= old(self)@.cleaned(f as int).frames);
                        old(self)@.lemma_cleaned_wf(f as int);
                    }
                    true
                } else {
                    false
                }
            },
            None => false,
        }
    }

    /// The writes that bring storage up to date: id and bytes of every
    /// dirty page at rest in the pool, in the order of the frames. Each
    /// page stays dirty until `finish_flush` reports its write.
    pub fn flush_all(&self) -> (r: Vec<(PageId, [u8; PAGE_SIZE])>)
        requires
            self.wf(),
        ensures
            payloads(r@) == self@.dirty_pages(SIZE as int),
    {
        let mut out: Vec<(PageId, [u8; PAGE_SIZE])> = Vec::new();
        let mut i: usize = 0;
        while i < SIZE
            invariant
                i <= SIZE,
                self.wf(),
                payloads(out@) == self@.dirty_pages(i as int),
            decreases SIZE - i,
        {
            if self.is_flushable(i) {
                let page = self.pages[i].read();
                out.push((page.id(), *page.bytes()));
            }
            assert(payloads(out@) =~= self@.dirty_pages(i + 1));
            i += 1;
        }
        out
    }
}

/// A buffer pool of `SIZE` frames.
pub struct PageCache<const SIZE: usize>(PageCacheInner<SIZE>);

impl<const SIZE: usize> View for PageCache<SIZE> {
    type V = PoolView;

    open spec fn view(&self) -> PoolView {
        self.inner()@
    }
}

impl<const SIZE: usize> PageCache<SIZE> {
    /// The state of the pool.
    pub closed spec fn inner(&self) -> PageCacheInner<SIZE> {
        self.0
    }

    /// The pool is well-formed and has `SIZE` frames.
    pub open spec fn wf(&self) -> bool {
        self.inner().wf()
    }

    /// A pool of `SIZE` free frames.
    pub fn new() -> (r: Self)
        ensures
            r.wf(),
            r@.table == Map::<PageId, FrameId>::empty(),
            r@.replacer == crate::replacer::ReplacerView::fresh(SIZE as nat),
            forall|f: int|
                0 <= f < SIZE ==> #[trigger] r@.frames[f] == (FrameView {
                    state: FrameState::Free,
                    page: crate::page::blank(),
                }),
    {
        PageCache(PageCacheInner::new())
    }

    /// Asks for `page_id`, pinned: see `PoolView::fetches` for the answer.
    pub fn fetch_page(&mut self, page_id: PageId) -> (r: Result<Fetch, PoolError>)
        requires
            old(self).wf(),
        ensures
            final(self).wf(),
            old(self)@.fetches(page_id, final(self)@, r),
    {
        self.0.fetch_page(page_id)
    }

    /// Takes in the new page `page_id`, which storage has just allocated,
    /// zeroed and pinned once: see `PoolView::admits` for the answer.
    pub fn new_page(&mut self, page_id: PageId) -> (r: Result<Fetch, PoolError>)
        requires
            old(self).wf(),
            !old(self)@.resident(page_id),
        ensures
            final(self).wf(),
            old(self)@.admits(page_id, Entry::Fresh, final(self)@, r),
    {
        self.0.new_page(page_id)
    }

    /// Puts the zeroed page `page_id` into the free frame `frame_id` with
    /// no holder and without a transfer. Returns whether it did.
    pub fn set_page(&mut self, frame_id: FrameId, page_id: PageId) -> (placed: bool)
        requires
            old(self).wf(),
        ensures
            final(self).wf(),
            placed <==> frame_id < SIZE && old(self)@.frames[frame_id as int].state is Free
                && !old(self)@.resident(page_id),
            final(self)@ == if placed {
                old(self)@.place(frame_id as int, page_id)
            } else {
                old(self)@
            },
    {
        self.0.set_page(frame_id, page_id)
    }

    /// Releases one hold on `page_id`, and marks the page dirty if the
    /// holder says it wrote. A page in the pool must have a holder.
    pub fn unpin_page(&mut self, page_id: PageId, is_dirty: bool) -> (r: Result<(), PoolError>)
        requires
            old(self).wf(),
            old(self)@.resident(page_id) ==> old(self)@.pin_count(page_id) > 0,
        ensures
            final(self).wf(),
            old(self)@.unpins(page_id, is_dirty, final(self)@, r),
    {
        self.0.unpin_page(page_id, is_dirty)
    }

    /// Hands over the bytes read from storage for the page that `handle`
    /// awaits. Returns whether the handle named such a load.
    pub fn finish_load(&mut self, handle: &Handle, bytes: &[u8; PAGE_SIZE]) -> (done: bool)
        requires
            old(self).wf(),
        ensures
            final(self).wf(),
            done <==> old(self)@.loading(*handle),
            final(self)@ == if done {
                old(self)@.loaded(handle.frame_id as int, bytes@)
            } else {
                old(self)@
            },
    {
        self.0.finish_load(handle, bytes)
    }

    /// Calls off the load that `handle` names. Returns whether the handle
    /// named such a load.
    pub fn abort_load(&mut self, handle: &Handle) -> (done: bool)
        requires
            old(self).wf(),
        ensures
            final(self).wf(),
            done <==> old(self)@.loading(*handle),
            final(self)@ == if done {
                old(self)@.vacate(handle.frame_id as int)
            } else {
                old(self)@
            },
    {
        self.0.abort_load(handle)
    }

    /// Reports that the bytes of `frame_id` have reached storage. Returns
    /// whether the frame was on its way to storage.
    pub fn finish_write_back(&mut self, frame_id: FrameId) -> (done: bool)
        requires
            old(self).wf(),
        ensures
            final(self).wf(),
            done <==> old(self)@.evicting(frame_id as int),
            final(self)@ == if done {
                old(self)@.vacate(frame_id as int)
            } else {
                old(self)@
            },
    {
        self.0.finish_write_back(frame_id)
    }

    /// Reports that storage failed to take the bytes of `frame_id`.
    /// Returns whether the frame was on its way to storage.
    pub fn abort_write_back(&mut self, frame_id: FrameId) -> (done: bool)
        requires
            old(self).wf(),
        ensures
            final(self).wf(),
            done <==> old(self)@.evicting(frame_id as int),
            final(self)@ == if done {
                old(self)@.cancel_eviction(frame_id as int)
            } else {
                old(self)@
            },
    {
        self.0.abort_write_back(frame_id)
    }

    /// The bytes that are to be written to storage for `page_id`, or
    /// `None` if there is nothing to write.
    pub fn flush_page(&self, page_id: PageId) -> (r: Option<[u8; PAGE_SIZE]>)
        requires
            self.wf(),
        ensures
            match r {
                Some(bytes) => {
                    &&& self@.resident(page_id)
                    &&& self@.flushable(self@.frame_of(page_id))
                    &&& bytes@ == self@.frames[self@.frame_of(page_id)].page.bytes
                },
                None => !(self@.resident(page_id) && self@.flushable(self@.frame_of(page_id))),
            },
    {
        self.0.flush_page(page_id)
    }

    /// Reports that `written` has reached storage as the bytes of
    /// `page_id`. Returns whether the page is clean on account of it.
    pub fn finish_flush(&mut self, page_id: PageId, written: &[u8; PAGE_SIZE]) -> (done: bool)
        requires
            old(self).wf(),
        ensures
            final(self).wf(),
            done <==> {
                &&& old(self)@.resident(page_id)
                &&& old(self)@.settled(old(self)@.frame_of(page_id))
                &&& old(self)@.frames[old(self)@.frame_of(page_id)].page.bytes == written@
            },
            final(self)@ == if done {
                old(self)@.cleaned(old(self)@.frame_of(page_id))
            } else {
                old(self)@
            },
    {
        self.0.finish_flush(page_id, written)
    }

    /// Id and bytes of every dirty page at rest in the pool, in the order
    /// of the frames.
    pub fn flush_all(&self) -> (r: Vec<(PageId, [u8; PAGE_SIZE])>)
        requires
            self.wf(),
        ensures
            payloads(r@) == self@.dirty_pages(SIZE as int),
    {
        self.0.flush_all()
    }

    /// Whether `handle` names a pinned frame and the page in it.
    pub fn holds(&self, handle: &Handle) -> (r: bool)
        requires
            self.wf(),
        ensures
            r == self@.holds(*handle),
    {
        self.0.holds(handle)
    }

    /// The page that `handle` pins, for reading.
    pub fn read(&self, handle: &Handle) -> (r: Option<&PageInner>)
        requires
            self.wf(),
        ensures
            match r {
                Some(page) => self@.holds(*handle) && page@ == self@.frames[handle.frame_id as int].page,
                None => !self@.holds(*handle),
            },
    {
        self.0.read(handle)
    }

    /// The bytes of the page that `handle` pins, for writing.
    pub fn write(&mut self, handle: &Handle) -> (r: Option<&mut [u8; PAGE_SIZE]>)
        requires
            old(self).wf(),
        ensures
            final(self).wf(),
            match r {
                Some(bytes) => {
                    &&& old(self)@.holds(*handle)
                    &&& bytes@ == old(self)@.frames[handle.frame_id as int].page.bytes
                    &&& final(self)@ == old(self)@.with_bytes(
                        handle.frame_id as int,
                        final(bytes)@,
                    )
                },
                None => !old(self)@.holds(*handle) && final(self)@ == old(self)@,
            },
    {
        self.0.write(handle)
    }

    /// The frame that holds `page_id`, if the pool holds the page.
    pub fn lookup(&self, page_id: PageId) -> (r: Option<FrameId>)
        requires
            self.wf(),
        ensures
            r == if self@.resident(page_id) {
                Some(self@.table[page_id])
            } else {
                None
            },
    {
        self.0.lookup(page_id)
    }

    /// The state of `frame_id`, if there is such a frame.
    pub fn frame_state(&self, frame_id: FrameId) -> (r: Option<FrameState>)
        requires
            self.wf(),
        ensures
            r == if frame_id < SIZE {
                Some(self@.frames[frame_id as int].state)
            } else {
                None
            },
    {
        self.0.frame_state(frame_id)
    }

    /// Number of holders of `page_id`.
    pub fn pin_count(&self, page_id: PageId) -> (r: u64)
        requires
            self.wf(),
        ensures
            r == self@.pin_count(page_id),
    {
        self.0.pin_count(page_id)
    }

    /// Number of frames.
    pub fn capacity(&self) -> (r: usize)
        ensures
            r == SIZE,
    {
        SIZE
    }
}

} // verus!
