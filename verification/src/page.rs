//! Pages: a fixed-size block of bytes together with the identity of the
//! logical page that the block currently stands for and its dirty flag.

use vstd::prelude::*;

verus! {

/// Number of bytes in every page.
pub const PAGE_SIZE: usize = 4096;

/// Stable logical identifier of a page; the key under which durable storage
/// addresses it.
pub type PageId = u32;

/// The contents of a page: identity, dirty flag and bytes.
pub struct PageInner {
    id: PageId,
    dirty: bool,
    pub data: [u8; PAGE_SIZE],
}

/// Mathematical value of a page.
pub struct PageView {
    pub id: PageId,
    pub dirty: bool,
    pub bytes: Seq<u8>,
}

/// The block of `PAGE_SIZE` zero bytes.
pub open spec fn zeroed() -> Seq<u8> {
    Seq::new(PAGE_SIZE as nat, |i: int| 0u8)
}

/// The page that a frame holds while it stands for no logical page.
pub open spec fn blank() -> PageView {
    PageView { id: 0, dirty: false, bytes: zeroed() }
}

/// `bytes` with `src` laid over it from position `offset` on.
pub open spec fn spliced(bytes: Seq<u8>, offset: int, src: Seq<u8>) -> Seq<u8> {
    Seq::new(
        bytes.len(),
        |i: int|
            if offset <= i < offset + src.len() {
                src[i - offset]
            } else {
                bytes[i]
            },
    )
}

impl View for PageInner {
    type V = PageView;

    open spec fn view(&self) -> PageView {
        PageView { id: self.spec_id(), dirty: self.spec_is_dirty(), bytes: self.spec_bytes() }
    }
}

impl Default for PageInner {
    fn default() -> (r: Self)
        ensures
            r@ == blank(),
    {
        let r = Self { id: 0, dirty: false, data: [0u8; PAGE_SIZE] };
        assert(r.data@ =~= zeroed());
        r
    }
}

impl PageInner {
    pub closed spec fn spec_id(&self) -> PageId {
        self.id
    }

    pub closed spec fn spec_is_dirty(&self) -> bool {
        self.dirty
    }

    pub closed spec fn spec_bytes(&self) -> Seq<u8> {
        self.data@
    }

    /// Every page has exactly `PAGE_SIZE` bytes.
    pub proof fn lemma_len(&self)
        ensures
            self@.bytes.len() == PAGE_SIZE,
    {
    }

    /// Identity of the logical page held.
    #[verifier::when_used_as_spec(spec_id)]
    pub fn id(&self) -> (r: PageId)
        ensures
            r == self@.id,
    {
        self.id
    }

    /// Whether the bytes differ from the durable copy.
    #[verifier::when_used_as_spec(spec_is_dirty)]
    pub fn is_dirty(&self) -> (r: bool)
        ensures
            r == self@.dirty,
    {
        self.dirty
    }

    /// The bytes, for reading.
    pub fn bytes(&self) -> (r: &[u8; PAGE_SIZE])
        ensures
            r@ == self@.bytes,
    {
        &self.data
    }

    /// The bytes, for writing. Identity and dirty flag stay as they are.
    pub fn bytes_mut(&mut self) -> (r: &mut [u8; PAGE_SIZE])
        ensures
            r@ == old(self)@.bytes,
            final(self)@ == (PageView { bytes: final(r)@, ..old(self)@ }),
    {
        &mut self.data
    }

    /// Zeroes the bytes and clears identity and dirty flag.
    pub fn reset(&mut self)
        ensures
            final(self)@ == blank(),
    {
        self.id = 0;
        self.dirty = false;
        let mut i: usize = 0;
        while i < PAGE_SIZE
            invariant
                i <= PAGE_SIZE,
                self.id == 0,
                !self.dirty,
                forall|j: int| 0 <= j < i ==> self.data@[j] == 0u8,
            decreases PAGE_SIZE - i,
        {
            self.data[i] = 0;
            i += 1;
        }
        assert(self.data@ =~= zeroed());
    }

    /// Lays `src` over the bytes from `offset` on, if it fits in the page.
    /// Returns whether it did; a block that does not fit changes nothing.
    pub fn write_at(&mut self, offset: usize, src: &[u8]) -> (done: bool)
        ensures
            done <==> offset + src@.len() <= PAGE_SIZE,
            done ==> final(self)@ == (PageView {
                bytes: spliced(old(self)@.bytes, offset as int, src@),
                ..old(self)@
            }),
            !done ==> final(self)@ == old(self)@,
    {
        if offset > PAGE_SIZE || src.len() > PAGE_SIZE - offset {
            return false;
        }
        let n: usize = src.len();
        let mut i: usize = 0;
        while i < n
            invariant
                i <= n,
                n == src@.len(),
                offset + n <= PAGE_SIZE,
                self.id == old(self).id,
                self.dirty == old(self).dirty,
                forall|j: int|
                    0 <= j < PAGE_SIZE ==> self.data@[j] == if offset <= j < offset + i {
                        src@[j - offset]
                    } else {
                        old(self).data@[j]
                    },
            decreases n - i,
        {
            self.data[offset + i] = src[i];
            i += 1;
        }
        assert(self.data@ =~= spliced(old(self).data@, offset as int, src@));
        true
    }

    /// Whether the bytes are exactly `other`.
    pub fn holds_bytes(&self, other: &[u8; PAGE_SIZE]) -> (r: bool)
        ensures
            r == (self@.bytes == other@),
    {
        let mut i: usize = 0;
        while i < PAGE_SIZE
            invariant
                i <= PAGE_SIZE,
                forall|j: int| 0 <= j < i ==> self.data@[j] == other@[j],
            decreases PAGE_SIZE - i,
        {
            if self.data[i] != other[i] {
                return false;
            }
            i += 1;
        }
        assert(self.data@ =~= other@);
        true
    }

    /// Makes the page stand for `id`, keeping bytes and dirty flag.
    pub(crate) fn set_id(&mut self, id: PageId)
        ensures
            final(self)@ == (PageView { id, ..old(self)@ }),
    {
        self.id = id;
    }

    /// Sets the dirty flag.
    pub(crate) fn set_dirty(&mut self, dirty: bool)
        ensures
            final(self)@ == (PageView { dirty, ..old(self)@ }),
    {
        self.dirty = dirty;
    }

    /// Replaces the bytes by `src`, as read from durable storage: the page
    /// is clean afterwards.
    pub(crate) fn load(&mut self, src: &[u8; PAGE_SIZE])
        ensures
            final(self)@ == (PageView { dirty: false, bytes: src@, ..old(self)@ }),
    {
        self.data = *src;
        self.dirty = false;
    }
}

/// Writes to two ranges of a page that do not overlap give the same bytes in
/// either order: neither disturbs what the other wrote.
pub proof fn lemma_disjoint_writes_commute(
    bytes: Seq<u8>,
    first_at: int,
    first: Seq<u8>,
    second_at: int,
    second: Seq<u8>,
)
    requires
        0 <= first_at,
        0 <= second_at,
        first_at + first.len() <= second_at || second_at + second.len() <= first_at,
    ensures
        spliced(spliced(bytes, first_at, first), second_at, second) == spliced(
            spliced(bytes, second_at, second),
            first_at,
            first,
        ),
{
    assert(spliced(spliced(bytes, first_at, first), second_at, second) =~= spliced(
        spliced(bytes, second_at, second),
        first_at,
        first,
    ));
}

/// Writing a first half and a second half that together cover the block
/// leaves exactly the first followed by the second.
pub proof fn lemma_halves_concatenate(bytes: Seq<u8>, first: Seq<u8>, second: Seq<u8>)
    requires
        first.len() + second.len() == bytes.len(),
    ensures
        spliced(spliced(bytes, 0, first), first.len() as int, second) == first + second,
        spliced(spliced(bytes, first.len() as int, second), 0, first) == first + second,
{
    assert(spliced(spliced(bytes, 0, first), first.len() as int, second) =~= first + second);
    assert(spliced(spliced(bytes, first.len() as int, second), 0, first) =~= first + second);
}

/// A frame's worth of page: where the contents live, read through a shared
/// borrow by many or written through an exclusive borrow by one.
pub struct Page(PageInner);

impl View for Page {
    type V = PageView;

    open spec fn view(&self) -> PageView {
        self.inner()@
    }
}

impl Page {
    /// The contents of the page.
    pub closed spec fn inner(&self) -> PageInner {
        self.0
    }

    /// Shared access to the contents.
    pub fn read(&self) -> (r: &PageInner)
        ensures
            *r == self.inner(),
    {
        &self.0
    }

    /// Exclusive access to the contents. What the holder leaves behind is
    /// what the page holds afterwards.
    pub fn write(&mut self) -> (r: &mut PageInner)
        ensures
            *r == old(self).inner(),
            final(self).inner() == *final(r),
    {
        &mut self.0
    }
}

impl Default for Page {
    fn default() -> (r: Self)
        ensures
            r@ == blank(),
    {
        Page(PageInner::default())
    }
}

} // verus!
