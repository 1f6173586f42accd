//! The pool as a mathematical value: its frames, its frame table and its
//! replacer, the invariant that ties them together, and the transitions
//! that the pool's operations perform on it.

use vstd::prelude::*;
use crate::frame_table::FrameId;
use crate::page::{blank, PageId, PageView, PAGE_SIZE};
use crate::replacer::ReplacerView;

verus! {

/// Where a frame stands in its life.
#[derive(Clone, Copy, Debug, PartialEq, Eq)]
pub enum FrameState {
    /// Holds no page.
    Free,
    /// Set aside for a page whose bytes are on their way from storage.
    Loading,
    /// Holds a page that has this many holders, at least one.
    Pinned(u64),
    /// Holds a page that nobody holds: it may be given up.
    Unpinned,
    /// Holds a dirty page whose bytes are on their way to storage, after
    /// which the frame is free.
    Evicting,
}

/// A frame: its state and the page in it.
pub struct FrameView {
    pub state: FrameState,
    pub page: PageView,
}

/// What a successful fetch hands out: the frame and the page pinned in it.
#[derive(Clone, Copy, Debug, PartialEq, Eq)]
pub struct Handle {
    pub frame_id: FrameId,
    pub page_id: PageId,
}

/// Why the pool turns a request down.
#[derive(Clone, Copy, Debug, PartialEq, Eq)]
pub enum PoolError {
    /// No frame is free and none may be given up.
    PoolExhausted,
    /// The pool holds no such page.
    PageNotFound,
}

/// How the pool answers a request for a page.
#[derive(Clone, Copy, Debug, PartialEq, Eq)]
pub enum Fetch {
    /// The page is in the pool and pinned once more.
    Ready(Handle),
    /// A frame is set aside for the page. Its bytes are to be read from
    /// storage and handed over, or the load called off.
    Load(Handle),
    /// The frame to reuse holds a dirty page. These bytes are to be written
    /// to storage under this page id and the outcome reported; then the
    /// request can be made again.
    WriteBack { frame_id: FrameId, page_id: PageId, bytes: [u8; PAGE_SIZE] },
    /// The page is in transit, or cannot take another holder: the request
    /// can be made again later.
    Busy,
}

/// How a page comes into the pool.
pub enum Entry {
    /// An existing page, whose bytes are read from storage.
    Stored,
    /// A new page, which starts zeroed.
    Fresh,
}

/// Page ids and page bytes as mathematical values.
pub open spec fn payloads(pages: Seq<(PageId, [u8; PAGE_SIZE])>) -> Seq<(PageId, Seq<u8>)> {
    Seq::new(pages.len(), |i: int| (pages[i].0, pages[i].1@))
}

/// Number of holders that a frame in `state` has.
pub open spec fn pins(state: FrameState) -> nat {
    match state {
        FrameState::Pinned(n) => n as nat,
        _ => 0,
    }
}

/// Mathematical value of a pool.
pub struct PoolView {
    /// The frames, by index.
    pub frames: Seq<FrameView>,
    /// The frame that holds each page in the pool.
    pub table: Map<PageId, FrameId>,
    /// The eviction state.
    pub replacer: ReplacerView,
}

impl PoolView {
    /// Number of frames.
    pub open spec fn capacity(self) -> int {
        self.frames.len() as int
    }

    /// The invariant of a pool. A page is in the table exactly when a frame
    /// holds it, and then the table names that frame; a free frame is
    /// blank; a frame is evictable exactly when it is unpinned; a pinned
    /// frame has at least one holder.
    pub open spec fn wf(self) -> bool {
        &&& self.replacer.wf()
        &&& self.replacer.capacity() == self.capacity()
        &&& self.capacity() <= usize::MAX
        &&& forall|p: PageId| #[trigger]
            self.table.contains_key(p) ==> {
                &&& self.table[p] < self.capacity()
                &&& !(self.frames[self.table[p] as int].state is Free)
                &&& self.frames[self.table[p] as int].page.id == p
            }
        &&& forall|f: int|
            0 <= f < self.capacity() && !((#[trigger] self.frames[f]).state is Free) ==> {
                &&& self.table.contains_key(self.frames[f].page.id)
                &&& self.table[self.frames[f].page.id] == f
            }
        &&& forall|f: int|
            0 <= f < self.capacity() && (#[trigger] self.frames[f]).state is Free
                ==> self.frames[f].page == blank()
        &&& forall|f: int|
            0 <= f < self.capacity() ==> (#[trigger] self.frames[f]).page.bytes.len() == PAGE_SIZE
        &&& forall|f: int|
            #![trigger self.frames[f]]
            #![trigger self.replacer.evictable[f]]
            0 <= f < self.capacity() ==> (self.replacer.evictable[f]
                <==> self.frames[f].state is Unpinned)
        &&& forall|f: int|
            0 <= f < self.capacity() ==> ((#[trigger] self.frames[f]).state matches FrameState::Pinned(n)
                ==> n > 0)
    }

    /// Whether the pool holds `page_id`, in whatever state.
    pub open spec fn resident(self, page_id: PageId) -> bool {
        self.table.contains_key(page_id)
    }

    /// The frame that holds `page_id`.
    pub open spec fn frame_of(self, page_id: PageId) -> int
        recommends
            self.resident(page_id),
    {
        self.table[page_id] as int
    }

    /// Number of holders of `page_id`; none for a page outside the pool.
    pub open spec fn pin_count(self, page_id: PageId) -> nat {
        if self.resident(page_id) {
            pins(self.frames[self.frame_of(page_id)].state)
        } else {
            0
        }
    }

    /// Whether frame `f` holds a page that is at rest: neither being loaded
    /// nor being written out.
    pub open spec fn settled(self, f: int) -> bool {
        &&& 0 <= f < self.capacity()
        &&& (self.frames[f].state is Pinned || self.frames[f].state is Unpinned)
    }

    /// Whether the page in frame `f` can take one more holder.
    pub open spec fn can_pin(self, f: int) -> bool {
        &&& self.settled(f)
        &&& pins(self.frames[f].state) < u64::MAX
    }

    /// Whether `handle` names a pinned frame and the page in it.
    pub open spec fn holds(self, handle: Handle) -> bool {
        &&& handle.frame_id < self.capacity()
        &&& self.frames[handle.frame_id as int].state is Pinned
        &&& self.frames[handle.frame_id as int].page.id == handle.page_id
    }

    /// Whether `handle` names a frame set aside for the page and waiting
    /// for its bytes.
    pub open spec fn loading(self, handle: Handle) -> bool {
        &&& handle.frame_id < self.capacity()
        &&& self.frames[handle.frame_id as int].state is Loading
        &&& self.frames[handle.frame_id as int].page.id == handle.page_id
    }

    /// Whether frame `f` is being written out.
    pub open spec fn evicting(self, f: int) -> bool {
        &&& 0 <= f < self.capacity()
        &&& self.frames[f].state is Evicting
    }

    /// Whether frame `f` holds a page at rest whose bytes differ from the
    /// durable copy.
    pub open spec fn flushable(self, f: int) -> bool {
        self.settled(f) && self.frames[f].page.dirty
    }

    /// Whether frame `f` is the free frame with the lowest index.
    pub open spec fn is_first_free(self, f: int) -> bool {
        &&& 0 <= f < self.capacity()
        &&& self.frames[f].state is Free
        &&& forall|g: int| 0 <= g < f ==> !((#[trigger] self.frames[g]).state is Free)
    }

    /// Whether no frame is free.
    pub open spec fn none_free(self) -> bool {
        forall|g: int| 0 <= g < self.capacity() ==> !((#[trigger] self.frames[g]).state is Free)
    }

    /// Whether frame `f` is the one that the next new page goes to: the
    /// first free frame, or with no frame free the replacer's victim.
    pub open spec fn is_target(self, f: int) -> bool {
        self.is_first_free(f) || (self.none_free() && self.replacer.is_victim(f))
    }

    /// Whether no frame can be had: none is free and none evictable.
    pub open spec fn exhausted(self) -> bool {
        self.none_free() && self.replacer.all_held()
    }

    /// Whether frame `f` has to be written out before it can be reused.
    pub open spec fn needs_write_back(self, f: int) -> bool {
        self.frames[f].state is Unpinned && self.frames[f].page.dirty
    }

    /// The pool with one more holder on the page in frame `f`.
    pub open spec fn pin(self, f: int) -> PoolView {
        PoolView {
            frames: self.frames.update(
                f,
                FrameView {
                    state: FrameState::Pinned((pins(self.frames[f].state) + 1) as u64),
                    page: self.frames[f].page,
                },
            ),
            replacer: self.replacer.pinned(f),
            ..self
        }
    }

    /// The pool with one holder fewer on the page in frame `f`, the page
    /// dirty if it was or if the holder says so. When the last holder lets
    /// go the frame becomes evictable.
    pub open spec fn unpin(self, f: int, is_dirty: bool) -> PoolView {
        let page = PageView { dirty: self.frames[f].page.dirty || is_dirty, ..self.frames[f].page };
        if pins(self.frames[f].state) > 1 {
            PoolView {
                frames: self.frames.update(
                    f,
                    FrameView {
                        state: FrameState::Pinned((pins(self.frames[f].state) - 1) as u64),
                        page,
                    },
                ),
                ..self
            }
        } else {
            PoolView {
                frames: self.frames.update(f, FrameView { state: FrameState::Unpinned, page }),
                replacer: self.replacer.unpinned(f),
                ..self
            }
        }
    }

    /// The pool after frame `f` has given up its page: the frame is free
    /// and blank, and the page is out of the table.
    pub open spec fn vacate(self, f: int) -> PoolView {
        PoolView {
            frames: self.frames.update(f, FrameView { state: FrameState::Free, page: blank() }),
            table: self.table.remove(self.frames[f].page.id),
            replacer: self.replacer.removed(f),
        }
    }

    /// The pool with frame `f` free: as it is if the frame was free, and
    /// else after the frame has given up its page.
    pub open spec fn cleared(self, f: int) -> PoolView {
        if self.frames[f].state is Free {
            self
        } else {
            self.vacate(f)
        }
    }

    /// The pool after the free frame `f` has been set aside for `page_id`.
    pub open spec fn reserve(self, f: int, page_id: PageId) -> PoolView {
        PoolView {
            frames: self.frames.update(
                f,
                FrameView { state: FrameState::Loading, page: PageView { id: page_id, ..blank() } },
            ),
            table: self.table.insert(page_id, f as usize),
            ..self
        }
    }

    /// The pool after the new, zeroed page `page_id` has been put into the
    /// free frame `f` and pinned once.
    pub open spec fn install(self, f: int, page_id: PageId) -> PoolView {
        PoolView {
            frames: self.frames.update(
                f,
                FrameView {
                    state: FrameState::Pinned(1),
                    page: PageView { id: page_id, ..blank() },
                },
            ),
            table: self.table.insert(page_id, f as usize),
            replacer: self.replacer.pinned(f),
        }
    }

    /// The pool after the zeroed page `page_id` has been put into the free
    /// frame `f` with no holder.
    pub open spec fn place(self, f: int, page_id: PageId) -> PoolView {
        PoolView {
            frames: self.frames.update(
                f,
                FrameView { state: FrameState::Unpinned, page: PageView { id: page_id, ..blank() } },
            ),
            table: self.table.insert(page_id, f as usize),
            replacer: self.replacer.unpinned(f),
        }
    }

    /// The pool after the bytes for the page awaited in frame `f` have
    /// arrived: the page is clean and has its first holder.
    pub open spec fn loaded(self, f: int, bytes: Seq<u8>) -> PoolView {
        PoolView {
            frames: self.frames.update(
                f,
                FrameView {
                    state: FrameState::Pinned(1),
                    page: PageView { dirty: false, bytes, ..self.frames[f].page },
                },
            ),
            replacer: self.replacer.pinned(f),
            ..self
        }
    }

    /// The pool after the unpinned frame `f` has been taken out to be
    /// written to storage.
    pub open spec fn begin_eviction(self, f: int) -> PoolView {
        PoolView {
            frames: self.frames.update(
                f,
                FrameView { state: FrameState::Evicting, page: self.frames[f].page },
            ),
            replacer: self.replacer.removed(f),
            ..self
        }
    }

    /// The pool after the write of frame `f` to storage has failed: the
    /// page stays, dirty and unpinned.
    pub open spec fn cancel_eviction(self, f: int) -> PoolView {
        PoolView {
            frames: self.frames.update(
                f,
                FrameView { state: FrameState::Unpinned, page: self.frames[f].page },
            ),
            replacer: self.replacer.unpinned(f),
            ..self
        }
    }

    /// The pool with the page in frame `f` clean.
    pub open spec fn cleaned(self, f: int) -> PoolView {
        PoolView {
            frames: self.frames.update(
                f,
                FrameView {
                    state: self.frames[f].state,
                    page: PageView { dirty: false, ..self.frames[f].page },
                },
            ),
            ..self
        }
    }

    /// The pool with `bytes` as the bytes of the page in frame `f`.
    pub open spec fn with_bytes(self, f: int, bytes: Seq<u8>) -> PoolView {
        PoolView {
            frames: self.frames.update(
                f,
                FrameView {
                    state: self.frames[f].state,
                    page: PageView { bytes, ..self.frames[f].page },
                },
            ),
            ..self
        }
    }

    /// The dirty pages at rest in the first `n` frames, in the order of
    /// their frames: of each its id and its bytes.
    pub open spec fn dirty_pages(self, n: int) -> Seq<(PageId, Seq<u8>)>
        decreases n,
    {
        if n <= 0 {
            Seq::empty()
        } else if self.flushable(n - 1) {
            self.dirty_pages(n - 1).push(
                (self.frames[n - 1].page.id, self.frames[n - 1].page.bytes),
            )
        } else {
            self.dirty_pages(n - 1)
        }
    }

    /// What a request for a frame for `page_id` comes to, on a pool that
    /// does not hold the page: `post` and `r` are the pool and the answer
    /// after it. The request fails exactly when the pool is exhausted.
    /// Otherwise the frame is the target: a dirty target starts its way to
    /// storage; any other target is cleared and takes the page, awaiting
    /// its bytes or, for a new page, zeroed and pinned.
    pub open spec fn admits(
        self,
        page_id: PageId,
        entry: Entry,
        post: PoolView,
        r: Result<Fetch, PoolError>,
    ) -> bool {
        &&& r is Err <==> self.exhausted()
        &&& match r {
            Err(e) => e == PoolError::PoolExhausted && post == self,
            Ok(Fetch::WriteBack { frame_id, page_id: victim, bytes }) => {
                &&& self.is_target(frame_id as int)
                &&& self.needs_write_back(frame_id as int)
                &&& victim == self.frames[frame_id as int].page.id
                &&& bytes@ == self.frames[frame_id as int].page.bytes
                &&& post == self.begin_eviction(frame_id as int)
            },
            Ok(Fetch::Load(handle)) => {
                &&& entry is Stored
                &&& handle.page_id == page_id
                &&& self.is_target(handle.frame_id as int)
                &&& !self.needs_write_back(handle.frame_id as int)
                &&& post == self.cleared(handle.frame_id as int).reserve(
                    handle.frame_id as int,
                    page_id,
                )
            },
            Ok(Fetch::Ready(handle)) => {
                &&& entry is Fresh
                &&& handle.page_id == page_id
                &&& self.is_target(handle.frame_id as int)
                &&& !self.needs_write_back(handle.frame_id as int)
                &&& post == self.cleared(handle.frame_id as int).install(
                    handle.frame_id as int,
                    page_id,
                )
            },
            Ok(Fetch::Busy) => false,
        }
    }

    /// What `fetch_page(page_id)` comes to. A page at rest in the pool is
    /// pinned once more; a page in transit, or with as many holders as can
    /// be counted, has the caller ask again; a page outside the pool is
    /// admitted.
    pub open spec fn fetches(
        self,
        page_id: PageId,
        post: PoolView,
        r: Result<Fetch, PoolError>,
    ) -> bool {
        if self.resident(page_id) {
            if self.can_pin(self.frame_of(page_id)) {
                &&& r == Ok::<Fetch, PoolError>(
                    Fetch::Ready(Handle { frame_id: self.table[page_id], page_id }),
                )
                &&& post == self.pin(self.frame_of(page_id))
            } else {
                r == Ok::<Fetch, PoolError>(Fetch::Busy) && post == self
            }
        } else {
            self.admits(page_id, Entry::Stored, post, r)
        }
    }

    /// What `unpin_page(page_id, is_dirty)` comes to. A page outside the
    /// pool is not found; a pinned page loses a holder.
    pub open spec fn unpins(
        self,
        page_id: PageId,
        is_dirty: bool,
        post: PoolView,
        r: Result<(), PoolError>,
    ) -> bool {
        if self.resident(page_id) {
            r == Ok::<(), PoolError>(()) && post == self.unpin(self.frame_of(page_id), is_dirty)
        } else {
            r == Err::<(), PoolError>(PoolError::PageNotFound) && post == self
        }
    }
}


/// Every transition leaves a well-formed pool well-formed.
impl PoolView {
    pub proof fn lemma_pin_wf(self, f: int)
        requires
            self.wf(),
            self.can_pin(f),
        ensures
            self.pin(f).wf(),
            self.pin(f).capacity() == self.capacity(),
    {
    }

    pub proof fn lemma_unpin_wf(self, f: int, is_dirty: bool)
        requires
            self.wf(),
            0 <= f < self.capacity(),
            self.frames[f].state is Pinned,
        ensures
            self.unpin(f, is_dirty).wf(),
            self.unpin(f, is_dirty).capacity() == self.capacity(),
    {
    }

    pub proof fn lemma_vacate_wf(self, f: int)
        requires
            self.wf(),
            0 <= f < self.capacity(),
            !(self.frames[f].state is Free),
        ensures
            self.vacate(f).wf(),
            self.vacate(f).capacity() == self.capacity(),
            self.vacate(f).frames[f].state is Free,
            forall|p: PageId|
                self.vacate(f).resident(p) <==> self.resident(p) && p != self.frames[f].page.id,
    {
        let post = self.vacate(f);
        assert forall|p: PageId| #[trigger] post.table.contains_key(p) implies {
            &&& post.table[p] < post.capacity()
            &&& !(post.frames[post.table[p] as int].state is Free)
            &&& post.frames[post.table[p] as int].page.id == p
        } by {
            assert(self.table.contains_key(p));
        }
    }

    pub proof fn lemma_cleared_wf(self, f: int)
        requires
            self.wf(),
            0 <= f < self.capacity(),
        ensures
            self.cleared(f).wf(),
            self.cleared(f).capacity() == self.capacity(),
            self.cleared(f).frames[f].state is Free,
            forall|p: PageId| self.cleared(f).resident(p) ==> self.resident(p),
    {
        if !(self.frames[f].state is Free) {
            self.lemma_vacate_wf(f);
        }
    }

    pub proof fn lemma_reserve_wf(self, f: int, page_id: PageId)
        requires
            self.wf(),
            0 <= f < self.capacity(),
            self.frames[f].state is Free,
            !self.resident(page_id),
        ensures
            self.reserve(f, page_id).wf(),
            self.reserve(f, page_id).capacity() == self.capacity(),
    {
        let post = self.reserve(f, page_id);
        assert(post.frames[f].page.bytes.len() == PAGE_SIZE);
        assert forall|p: PageId| #[trigger] post.table.contains_key(p) implies {
            &&& post.table[p] < post.capacity()
            &&& !(post.frames[post.table[p] as int].state is Free)
            &&& post.frames[post.table[p] as int].page.id == p
        } by {
            if p != page_id {
                assert(self.table.contains_key(p));
            }
        }
    }

    pub proof fn lemma_install_wf(self, f: int, page_id: PageId)
        requires
            self.wf(),
            0 <= f < self.capacity(),
            self.frames[f].state is Free,
            !self.resident(page_id),
        ensures
            self.install(f, page_id).wf(),
            self.install(f, page_id).capacity() == self.capacity(),
    {
        let post = self.install(f, page_id);
        assert(post.frames[f].page.bytes.len() == PAGE_SIZE);
        assert forall|p: PageId| #[trigger] post.table.contains_key(p) implies {
            &&& post.table[p] < post.capacity()
            &&& !(post.frames[post.table[p] as int].state is Free)
            &&& post.frames[post.table[p] as int].page.id == p
        } by {
            if p != page_id {
                assert(self.table.contains_key(p));
            }
        }
    }

    pub proof fn lemma_place_wf(self, f: int, page_id: PageId)
        requires
            self.wf(),
            0 <= f < self.capacity(),
            self.frames[f].state is Free,
            !self.resident(page_id),
        ensures
            self.place(f, page_id).wf(),
            self.place(f, page_id).capacity() == self.capacity(),
    {
        let post = self.place(f, page_id);
        assert(post.frames[f].page.bytes.len() == PAGE_SIZE);
        assert forall|p: PageId| #[trigger] post.table.contains_key(p) implies {
            &&& post.table[p] < post.capacity()
            &&& !(post.frames[post.table[p] as int].state is Free)
            &&& post.frames[post.table[p] as int].page.id == p
        } by {
            if p != page_id {
                assert(self.table.contains_key(p));
            }
        }
    }

    pub proof fn lemma_loaded_wf(self, f: int, bytes: Seq<u8>)
        requires
            self.wf(),
            0 <= f < self.capacity(),
            self.frames[f].state is Loading,
            bytes.len() == PAGE_SIZE,
        ensures
            self.loaded(f, bytes).wf(),
            self.loaded(f, bytes).capacity() == self.capacity(),
    {
    }

    pub proof fn lemma_begin_eviction_wf(self, f: int)
        requires
            self.wf(),
            0 <= f < self.capacity(),
            self.frames[f].state is Unpinned,
        ensures
            self.begin_eviction(f).wf(),
            self.begin_eviction(f).capacity() == self.capacity(),
    {
    }

    pub proof fn lemma_cancel_eviction_wf(self, f: int)
        requires
            self.wf(),
            self.evicting(f),
        ensures
            self.cancel_eviction(f).wf(),
            self.cancel_eviction(f).capacity() == self.capacity(),
    {
    }

    pub proof fn lemma_cleaned_wf(self, f: int)
        requires
            self.wf(),
            self.settled(f),
        ensures
            self.cleaned(f).wf(),
            self.cleaned(f).capacity() == self.capacity(),
    {
    }

    pub proof fn lemma_with_bytes_wf(self, f: int, bytes: Seq<u8>)
        requires
            self.wf(),
            0 <= f < self.capacity(),
            self.frames[f].state is Pinned,
            bytes.len() == PAGE_SIZE,
        ensures
            self.with_bytes(f, bytes).wf(),
            self.with_bytes(f, bytes).capacity() == self.capacity(),
    {
    }
}

/// One call on a page in the pool: a fetch, or an unpin that says whether
/// the holder wrote.
pub enum PinOp {
    Fetch,
    Unpin(bool),
}

/// Number of fetches in `ops` less the number of unpins.
pub open spec fn balance(ops: Seq<PinOp>) -> int
    decreases ops.len(),
{
    if ops.len() == 0 {
        0
    } else {
        balance(ops.drop_last()) + match ops.last() {
            PinOp::Fetch => 1int,
            PinOp::Unpin(_) => -1int,
        }
    }
}

/// Which frame the next page goes to, and when there is none.
impl PoolView {
    /// There is at most one target.
    pub proof fn lemma_target_unique(self, f: int, g: int)
        requires
            self.is_target(f),
            self.is_target(g),
        ensures
            f == g,
    {
        if self.is_first_free(f) || self.is_first_free(g) {
            assert(self.is_first_free(f) && self.is_first_free(g)) by {
                if self.is_first_free(f) {
                    assert(self.frames[f].state is Free);
                } else {
                    assert(self.frames[g].state is Free);
                }
            }
        } else {
            self.replacer.lemma_victim_unique(f, g);
        }
    }

    /// Among the first `n` frames, one is the first free frame unless none
    /// is free.
    pub proof fn lemma_first_free_exists(self, n: int)
        requires
            0 <= n <= self.capacity(),
        ensures
            (exists|f: int| 0 <= f < n && self.is_first_free(f)) || (forall|g: int|
                0 <= g < n ==> !((#[trigger] self.frames[g]).state is Free)),
        decreases n,
    {
        if n > 0 {
            self.lemma_first_free_exists(n - 1);
            if !(exists|f: int| 0 <= f < n - 1 && self.is_first_free(f)) {
                if self.frames[n - 1].state is Free {
                    assert(self.is_first_free(n - 1));
                }
            }
        }
    }

    /// A pool has a target exactly when it is not exhausted: a request for
    /// a frame fails only if every frame is in use.
    pub proof fn lemma_target_exists(self)
        requires
            self.wf(),
        ensures
            (exists|f: int| self.is_target(f)) <==> !self.exhausted(),
    {
        self.lemma_first_free_exists(self.capacity());
        self.replacer.lemma_victim_exists();
        if exists|f: int| self.is_target(f) {
            let f = choose|f: int| self.is_target(f);
            if self.is_first_free(f) {
                assert(self.frames[f].state is Free);
            } else {
                assert(self.replacer.evictable[f]);
            }
        }
        if !self.exhausted() {
            if self.none_free() {
                let v = choose|f: int| self.replacer.is_victim(f);
                assert(self.is_target(v));
            } else {
                let f = choose|f: int| 0 <= f < self.capacity() && self.is_first_free(f);
                assert(self.is_target(f));
            }
        }
    }

    /// The target has no holder: a frame with a pin count above zero is
    /// never chosen for reuse.
    pub proof fn lemma_target_not_pinned(self, f: int)
        requires
            self.wf(),
            self.is_target(f),
        ensures
            0 <= f < self.capacity(),
            self.frames[f].state is Free || self.frames[f].state is Unpinned,
            pins(self.frames[f].state) == 0,
    {
        if !self.is_first_free(f) {
            assert(self.replacer.evictable[f]);
        }
    }

    /// A pool whose frames are all pinned is exhausted: the next request
    /// for a frame fails.
    pub proof fn lemma_all_pinned_exhausted(self)
        requires
            self.wf(),
            forall|f: int| 0 <= f < self.capacity() ==> (#[trigger] self.frames[f]).state is Pinned,
        ensures
            self.exhausted(),
    {
        assert forall|g: int| 0 <= g < self.replacer.capacity() implies !#[trigger] self.replacer.evictable[g] by {
            assert(self.frames[g].state is Pinned);
        }
    }

    /// The request of a page outside the pool has one answer and one
    /// outcome.
    pub proof fn lemma_admits_once(
        self,
        page_id: PageId,
        entry: Entry,
        post1: PoolView,
        r1: Result<Fetch, PoolError>,
        post2: PoolView,
        r2: Result<Fetch, PoolError>,
    )
        requires
            self.admits(page_id, entry, post1, r1),
            self.admits(page_id, entry, post2, r2),
        ensures
            post1 == post2,
            r1 == r2,
    {
        match (r1, r2) {
            (Ok(Fetch::WriteBack { frame_id: f1, page_id: v1, bytes: b1 }), Ok(Fetch::WriteBack { frame_id: f2, page_id: v2, bytes: b2 })) => {
                self.lemma_target_unique(f1 as int, f2 as int);
                assert(b1 =~= b2);
            },
            (Ok(Fetch::WriteBack { frame_id: f1, .. }), Ok(Fetch::Load(h))) => {
                self.lemma_target_unique(f1 as int, h.frame_id as int);
            },
            (Ok(Fetch::WriteBack { frame_id: f1, .. }), Ok(Fetch::Ready(h))) => {
                self.lemma_target_unique(f1 as int, h.frame_id as int);
            },
            (Ok(Fetch::Load(h)), Ok(Fetch::WriteBack { frame_id: f2, .. })) => {
                self.lemma_target_unique(f2 as int, h.frame_id as int);
            },
            (Ok(Fetch::Ready(h)), Ok(Fetch::WriteBack { frame_id: f2, .. })) => {
                self.lemma_target_unique(f2 as int, h.frame_id as int);
            },
            (Ok(Fetch::Load(h1)), Ok(Fetch::Load(h2))) => {
                self.lemma_target_unique(h1.frame_id as int, h2.frame_id as int);
            },
            (Ok(Fetch::Ready(h1)), Ok(Fetch::Ready(h2))) => {
                self.lemma_target_unique(h1.frame_id as int, h2.frame_id as int);
            },
            _ => {},
        }
    }

    /// A fetch has one answer and one outcome.
    pub proof fn lemma_fetches_once(
        self,
        page_id: PageId,
        post1: PoolView,
        r1: Result<Fetch, PoolError>,
        post2: PoolView,
        r2: Result<Fetch, PoolError>,
    )
        requires
            self.fetches(page_id, post1, r1),
            self.fetches(page_id, post2, r2),
        ensures
            post1 == post2,
            r1 == r2,
    {
        if !self.resident(page_id) {
            self.lemma_admits_once(page_id, Entry::Stored, post1, r1, post2, r2);
        }
    }
}

/// Pin counts over a run of fetches and unpins of one page.
impl PoolView {
    /// Whether `op` on `page_id` goes through: the page is at rest in the
    /// pool, and can take a holder or has one to lose.
    pub open spec fn enabled(self, page_id: PageId, op: PinOp) -> bool {
        &&& self.resident(page_id)
        &&& match op {
            PinOp::Fetch => self.can_pin(self.frame_of(page_id)),
            PinOp::Unpin(_) => self.frames[self.frame_of(page_id)].state is Pinned,
        }
    }

    /// The pool after `op` on `page_id` went through: what `fetch_page`
    /// and `unpin_page` leave behind.
    pub open spec fn apply(self, page_id: PageId, op: PinOp) -> PoolView {
        match op {
            PinOp::Fetch => self.pin(self.frame_of(page_id)),
            PinOp::Unpin(is_dirty) => self.unpin(self.frame_of(page_id), is_dirty),
        }
    }

    /// The pool after the calls `ops` on `page_id`, one after the other.
    pub open spec fn replay(self, page_id: PageId, ops: Seq<PinOp>) -> PoolView
        decreases ops.len(),
    {
        if ops.len() == 0 {
            self
        } else {
            self.replay(page_id, ops.drop_last()).apply(page_id, ops.last())
        }
    }

    /// Whether each of the calls `ops` on `page_id` goes through in the
    /// pool that the calls before it leave behind.
    pub open spec fn replayable(self, page_id: PageId, ops: Seq<PinOp>) -> bool
        decreases ops.len(),
    {
        ops.len() == 0 || (self.replayable(page_id, ops.drop_last()) && self.replay(
            page_id,
            ops.drop_last(),
        ).enabled(page_id, ops.last()))
    }

    /// A fetch that finds the page at rest is the transition `apply` of
    /// `PinOp::Fetch`, and a successful unpin that of `PinOp::Unpin`.
    pub proof fn lemma_calls_apply(
        self,
        page_id: PageId,
        is_dirty: bool,
        fetched: PoolView,
        answer: Result<Fetch, PoolError>,
        unpinned: PoolView,
        released: Result<(), PoolError>,
    )
        requires
            self.fetches(page_id, fetched, answer),
            self.unpins(page_id, is_dirty, unpinned, released),
        ensures
            self.enabled(page_id, PinOp::Fetch) ==> fetched == self.apply(page_id, PinOp::Fetch)
                && answer is Ok,
            self.resident(page_id) ==> unpinned == self.apply(page_id, PinOp::Unpin(is_dirty))
                && released is Ok,
    {
    }

    /// After any run of fetches and unpins of one page, each of which
    /// went through, the pin count is what it was plus the number of
    /// fetches less the number of unpins. The page has stayed in its frame
    /// and the pool well-formed.
    pub proof fn lemma_pin_balance(self, page_id: PageId, ops: Seq<PinOp>)
        requires
            self.wf(),
            self.replayable(page_id, ops),
        ensures
            self.replay(page_id, ops).wf(),
            self.replay(page_id, ops).table == self.table,
            self.replay(page_id, ops).pin_count(page_id) == self.pin_count(page_id) + balance(ops),
            self.pin_count(page_id) + balance(ops) >= 0,
        decreases ops.len(),
    {
        if ops.len() > 0 {
            let before = self.replay(page_id, ops.drop_last());
            self.lemma_pin_balance(page_id, ops.drop_last());
            let f = before.frame_of(page_id);
            match ops.last() {
                PinOp::Fetch => {
                    before.lemma_pin_wf(f);
                },
                PinOp::Unpin(is_dirty) => {
                    before.lemma_unpin_wf(f, is_dirty);
                },
            }
        }
    }
}

/// What a holder can rely on while it holds a page.
impl PoolView {
    /// Whether every frame pinned here, but for frame `except`, is pinned
    /// in `post` too, with no holder fewer, the same page id and the same
    /// bytes.
    pub open spec fn keeps_pinned(self, post: PoolView, except: int) -> bool {
        forall|f: int|
            0 <= f < self.capacity() && f != except && (#[trigger] self.frames[f]).state is Pinned
                ==> {
                &&& pins(post.frames[f].state) >= pins(self.frames[f].state)
                &&& post.frames[f].page.id == self.frames[f].page.id
                &&& post.frames[f].page.bytes == self.frames[f].page.bytes
                &&& post.table.contains_key(self.frames[f].page.id)
                &&& post.table[self.frames[f].page.id] == f
            }
    }

    /// No fetch and no new page takes a pinned frame away or changes the
    /// page in it: every pinned frame stays pinned, bound to its page and
    /// with its bytes, and loses no holder.
    pub proof fn lemma_requests_keep_pinned(
        self,
        page_id: PageId,
        entry: Entry,
        post: PoolView,
        r: Result<Fetch, PoolError>,
    )
        requires
            self.wf(),
            self.fetches(page_id, post, r) || (!self.resident(page_id) && self.admits(
                page_id,
                entry,
                post,
                r,
            )),
        ensures
            self.keeps_pinned(post, -1),
    {
        match r {
            Ok(Fetch::WriteBack { frame_id, .. }) => {
                self.lemma_target_not_pinned(frame_id as int);
            },
            Ok(Fetch::Load(h)) => {
                self.lemma_target_not_pinned(h.frame_id as int);
            },
            Ok(Fetch::Ready(h)) => {
                if !self.resident(page_id) {
                    self.lemma_target_not_pinned(h.frame_id as int);
                }
            },
            _ => {},
        }
    }

    /// An unpin touches no pinned frame but its own. Its own loses one
    /// holder and keeps its page: the frame stays bound to the page at
    /// least until the last holder has let go.
    pub proof fn lemma_unpin_keeps_pinned(self, f: int, is_dirty: bool)
        requires
            self.wf(),
            0 <= f < self.capacity(),
            self.frames[f].state is Pinned,
        ensures
            self.keeps_pinned(self.unpin(f, is_dirty), f),
            pins(self.unpin(f, is_dirty).frames[f].state) == pins(self.frames[f].state) - 1,
            self.unpin(f, is_dirty).frames[f].page.id == self.frames[f].page.id,
            self.unpin(f, is_dirty).frames[f].page.bytes == self.frames[f].page.bytes,
            self.unpin(f, is_dirty).table == self.table,
    {
    }

    /// While a page is on its way into the pool, a second request for it
    /// neither gets the page nor a second frame: it is told to ask again,
    /// and the pool stays as it is.
    pub proof fn lemma_second_miss_waits(
        self,
        page_id: PageId,
        handle: Handle,
        post: PoolView,
        after: PoolView,
        r: Result<Fetch, PoolError>,
    )
        requires
            self.wf(),
            self.fetches(page_id, post, Ok(Fetch::Load(handle))),
            post.fetches(page_id, after, r),
        ensures
            r == Ok::<Fetch, PoolError>(Fetch::Busy),
            after == post,
    {
    }

    /// The end of a transfer, a flush and the placing of a page touch no
    /// pinned frame.
    pub proof fn lemma_transfers_keep_pinned(self, f: int, page_id: PageId, bytes: Seq<u8>)
        requires
            self.wf(),
            0 <= f < self.capacity(),
        ensures
            self.frames[f].state is Loading ==> self.keeps_pinned(self.loaded(f, bytes), -1),
            self.frames[f].state is Loading || self.frames[f].state is Evicting
                ==> self.keeps_pinned(self.vacate(f), -1),
            self.frames[f].state is Evicting ==> self.keeps_pinned(self.cancel_eviction(f), -1),
            self.frames[f].state is Free && !self.resident(page_id) ==> self.keeps_pinned(
                self.place(f, page_id),
                -1,
            ),
            self.keeps_pinned(self.cleaned(f), -1),
    {
    }

    /// A write through a handle changes the bytes of its own page and
    /// nothing else.
    pub proof fn lemma_write_keeps_pinned(self, f: int, bytes: Seq<u8>)
        requires
            self.wf(),
            0 <= f < self.capacity(),
        ensures
            self.keeps_pinned(self.with_bytes(f, bytes), f),
            self.with_bytes(f, bytes).frames[f].state == self.frames[f].state,
            self.with_bytes(f, bytes).frames[f].page.id == self.frames[f].page.id,
            self.with_bytes(f, bytes).table == self.table,
    {
    }
}

} // verus!
