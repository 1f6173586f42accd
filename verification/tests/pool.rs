use std::collections::HashMap;

use buffer_pool::model::{Fetch, FrameState, Handle, PoolError};
use buffer_pool::page::{PageId, PAGE_SIZE};
use buffer_pool::page_cache::{PageCache, PageCacheInner};

const DEFAULT_CACHE_SIZE: usize = 8;

/// Storage that lives in memory and records every write.
struct Disk {
    pages: HashMap<PageId, [u8; PAGE_SIZE]>,
    writes: Vec<(PageId, [u8; PAGE_SIZE])>,
    next_id: PageId,
}

fn disk() -> Disk {
    Disk { pages: HashMap::new(), writes: Vec::new(), next_id: 1 }
}

fn write_out(disk: &mut Disk, page_id: PageId, bytes: [u8; PAGE_SIZE]) {
    disk.pages.insert(page_id, bytes);
    disk.writes.push((page_id, bytes));
}

fn allocate(disk: &mut Disk) -> PageId {
    let id = disk.next_id;
    disk.next_id += 1;
    id
}

fn fetch<const N: usize>(
    pool: &mut PageCache<N>,
    disk: &mut Disk,
    page_id: PageId,
) -> Result<Handle, PoolError> {
    loop {
        match pool.fetch_page(page_id)? {
            Fetch::Ready(handle) => return Ok(handle),
            Fetch::Load(handle) => match disk.pages.get(&page_id) {
                Some(bytes) => {
                    assert!(pool.finish_load(&handle, bytes));
                    return Ok(handle);
                }
                None => {
                    assert!(pool.abort_load(&handle));
                    return Err(PoolError::PageNotFound);
                }
            },
            Fetch::WriteBack { frame_id, page_id, bytes } => {
                write_out(disk, page_id, bytes);
                assert!(pool.finish_write_back(frame_id));
            }
            Fetch::Busy => panic!("page in transit"),
        }
    }
}

fn create<const N: usize>(pool: &mut PageCache<N>, disk: &mut Disk) -> Result<Handle, PoolError> {
    let page_id = allocate(disk);
    loop {
        match pool.new_page(page_id)? {
            Fetch::Ready(handle) => return Ok(handle),
            Fetch::WriteBack { frame_id, page_id, bytes } => {
                write_out(disk, page_id, bytes);
                assert!(pool.finish_write_back(frame_id));
            }
            other => panic!("unexpected answer {:?}", other.clone()),
        }
    }
}

fn flush<const N: usize>(pool: &mut PageCache<N>, disk: &mut Disk, page_id: PageId) {
    if let Some(bytes) = pool.flush_page(page_id) {
        write_out(disk, page_id, bytes);
        assert!(pool.finish_flush(page_id, &bytes));
    }
}

#[test]
fn test_disjoint_half_page_writes() {
    let mut pc = PageCache::<DEFAULT_CACHE_SIZE>::new();
    assert!(pc.set_page(0, 1));

    const HALF_PAGE: usize = PAGE_SIZE / 2;

    let first = match pc.fetch_page(1) {
        Ok(Fetch::Ready(handle)) => handle,
        other => panic!("unexpected answer {:?}", other),
    };
    {
        let page_w = pc.write(&first).unwrap();
        let data = [1; HALF_PAGE];
        page_w[..HALF_PAGE].copy_from_slice(&data);
    }

    let second = match pc.fetch_page(1) {
        Ok(Fetch::Ready(handle)) => handle,
        other => panic!("unexpected answer {:?}", other),
    };
    {
        let page_w = pc.write(&second).unwrap();
        let data = [2; HALF_PAGE];
        page_w[HALF_PAGE..].copy_from_slice(&data);
    }

    let third = match pc.fetch_page(1) {
        Ok(Fetch::Ready(handle)) => handle,
        other => panic!("unexpected answer {:?}", other),
    };
    let page_r = pc.read(&third).unwrap();

    let mut expected = vec![1; HALF_PAGE];
    expected.extend_from_slice(&[2; HALF_PAGE]);

    assert!(expected.as_slice() == page_r.data);
}

#[test]
fn new_pool_is_empty() {
    let pc = PageCache::<4>::new();
    assert_eq!(pc.capacity(), 4);
    for f in 0..4 {
        assert_eq!(pc.frame_state(f), Some(FrameState::Free));
    }
    assert_eq!(pc.frame_state(4), None);
    assert_eq!(pc.lookup(1), None);
    assert_eq!(pc.pin_count(1), 0);
    assert_eq!(pc.flush_all().len(), 0);
}

#[test]
fn set_page_places_an_unpinned_page() {
    let mut pc = PageCache::<4>::new();
    assert!(pc.set_page(2, 9));
    assert_eq!(pc.lookup(9), Some(2));
    assert_eq!(pc.frame_state(2), Some(FrameState::Unpinned));
    assert_eq!(pc.pin_count(9), 0);
}

#[test]
fn set_page_refuses_what_would_break_the_table() {
    let mut pc = PageCache::<4>::new();
    assert!(pc.set_page(2, 9));
    assert!(!pc.set_page(4, 10));
    assert!(!pc.set_page(2, 10));
    assert!(!pc.set_page(3, 9));
    assert_eq!(pc.lookup(9), Some(2));
    assert_eq!(pc.lookup(10), None);
    assert_eq!(pc.frame_state(3), Some(FrameState::Free));
}

#[test]
fn pin_count_is_fetches_minus_unpins() {
    let mut pc = PageCache::<4>::new();
    assert!(pc.set_page(0, 5));
    assert_eq!(pc.pin_count(5), 0);
    for expected in 1..=3u64 {
        assert_eq!(
            pc.fetch_page(5),
            Ok(Fetch::Ready(Handle { frame_id: 0, page_id: 5 }))
        );
        assert_eq!(pc.pin_count(5), expected);
    }
    assert_eq!(pc.frame_state(0), Some(FrameState::Pinned(3)));
    assert_eq!(pc.unpin_page(5, false), Ok(()));
    assert_eq!(pc.pin_count(5), 2);
    assert_eq!(pc.fetch_page(5), Ok(Fetch::Ready(Handle { frame_id: 0, page_id: 5 })));
    assert_eq!(pc.pin_count(5), 3);
    assert_eq!(pc.unpin_page(5, false), Ok(()));
    assert_eq!(pc.unpin_page(5, false), Ok(()));
    assert_eq!(pc.unpin_page(5, false), Ok(()));
    assert_eq!(pc.pin_count(5), 0);
    assert_eq!(pc.frame_state(0), Some(FrameState::Unpinned));
}

#[test]
fn unpin_of_unknown_page_is_not_found() {
    let mut pc = PageCache::<4>::new();
    assert_eq!(pc.unpin_page(77, true), Err(PoolError::PageNotFound));
}

#[test]
fn fetch_miss_sets_a_frame_aside() {
    let mut pc = PageCache::<4>::new();
    let handle = Handle { frame_id: 0, page_id: 42 };
    assert_eq!(pc.fetch_page(42), Ok(Fetch::Load(handle)));
    assert_eq!(pc.frame_state(0), Some(FrameState::Loading));
    assert_eq!(pc.lookup(42), Some(0));
    assert_eq!(pc.pin_count(42), 0);
    // A second request for the page waits for the first.
    assert_eq!(pc.fetch_page(42), Ok(Fetch::Busy));
    assert!(pc.read(&handle).is_none());

    let bytes = [3u8; PAGE_SIZE];
    assert!(pc.finish_load(&handle, &bytes));
    assert_eq!(pc.frame_state(0), Some(FrameState::Pinned(1)));
    assert_eq!(pc.read(&handle).unwrap().data, bytes);
    assert_eq!(pc.read(&handle).unwrap().id(), 42);
    assert!(!pc.read(&handle).unwrap().is_dirty());
    // The load is over: it cannot be finished or called off again.
    assert!(!pc.finish_load(&handle, &bytes));
    assert!(!pc.abort_load(&handle));
    assert_eq!(pc.fetch_page(42), Ok(Fetch::Ready(handle)));
    assert_eq!(pc.pin_count(42), 2);
}

#[test]
fn aborted_load_frees_the_frame() {
    let mut pc = PageCache::<2>::new();
    let handle = Handle { frame_id: 0, page_id: 42 };
    assert_eq!(pc.fetch_page(42), Ok(Fetch::Load(handle)));
    assert!(!pc.abort_load(&Handle { frame_id: 0, page_id: 43 }));
    assert!(!pc.abort_load(&Handle { frame_id: 1, page_id: 42 }));
    assert!(!pc.abort_load(&Handle { frame_id: 2, page_id: 42 }));
    assert!(pc.abort_load(&handle));
    assert_eq!(pc.frame_state(0), Some(FrameState::Free));
    assert_eq!(pc.lookup(42), None);
    assert_eq!(pc.fetch_page(43), Ok(Fetch::Load(Handle { frame_id: 0, page_id: 43 })));
}

#[test]
fn page_missing_from_storage_is_not_found() {
    let mut pc = PageCache::<2>::new();
    let mut disk = disk();
    assert_eq!(fetch(&mut pc, &mut disk, 5), Err(PoolError::PageNotFound));
    assert_eq!(pc.lookup(5), None);
    assert_eq!(pc.frame_state(0), Some(FrameState::Free));
}

#[test]
fn free_frames_are_taken_in_order() {
    let mut pc = PageCache::<3>::new();
    assert_eq!(pc.new_page(10), Ok(Fetch::Ready(Handle { frame_id: 0, page_id: 10 })));
    assert_eq!(pc.new_page(11), Ok(Fetch::Ready(Handle { frame_id: 1, page_id: 11 })));
    assert_eq!(pc.new_page(12), Ok(Fetch::Ready(Handle { frame_id: 2, page_id: 12 })));
    assert_eq!(pc.pin_count(11), 1);
    let handle = Handle { frame_id: 1, page_id: 11 };
    assert_eq!(pc.read(&handle).unwrap().data, [0u8; PAGE_SIZE]);
    assert_eq!(pc.read(&handle).unwrap().id(), 11);
}

#[test]
fn all_frames_pinned_exhausts_the_pool() {
    let mut pc = PageCache::<5>::new();
    for id in 0..5u32 {
        assert_eq!(
            pc.new_page(100 + id),
            Ok(Fetch::Ready(Handle { frame_id: id as usize, page_id: 100 + id }))
        );
    }
    assert_eq!(pc.new_page(200), Err(PoolError::PoolExhausted));
    assert_eq!(pc.fetch_page(201), Err(PoolError::PoolExhausted));
    // Nothing moved: every page is where it was, pinned once.
    for id in 0..5u32 {
        assert_eq!(pc.lookup(100 + id), Some(id as usize));
        assert_eq!(pc.frame_state(id as usize), Some(FrameState::Pinned(1)));
    }
    assert_eq!(pc.lookup(200), None);
    // A page in the pool can still be fetched.
    assert_eq!(pc.fetch_page(102), Ok(Fetch::Ready(Handle { frame_id: 2, page_id: 102 })));
}

#[test]
fn exhaustion_then_retry_after_unpin() {
    let mut pc = PageCache::<DEFAULT_CACHE_SIZE>::new();
    let mut disk = disk();
    let mut handles = Vec::new();
    for _ in 0..8 {
        handles.push(create(&mut pc, &mut disk).unwrap());
    }
    let ninth = allocate(&mut disk);
    assert_eq!(pc.new_page(ninth), Err(PoolError::PoolExhausted));
    assert_eq!(pc.unpin_page(handles[3].page_id, false), Ok(()));
    assert_eq!(
        pc.new_page(ninth),
        Ok(Fetch::Ready(Handle { frame_id: handles[3].frame_id, page_id: ninth }))
    );
    assert_eq!(pc.lookup(handles[3].page_id), None);
    assert_eq!(pc.new_page(ninth + 1), Err(PoolError::PoolExhausted));
}

#[test]
fn round_trip_through_eviction() {
    let mut pc = PageCache::<DEFAULT_CACHE_SIZE>::new();
    let mut disk = disk();

    let handle = create(&mut pc, &mut disk).unwrap();
    let p = handle.page_id;
    let mut b = [0u8; PAGE_SIZE];
    for (i, byte) in b.iter_mut().enumerate() {
        *byte = (i % 251) as u8;
    }
    pc.write(&handle).unwrap().copy_from_slice(&b);
    assert_eq!(pc.unpin_page(p, true), Ok(()));

    // Fill the pool so that `p` has to leave.
    let mut others = Vec::new();
    for _ in 0..8 {
        others.push(create(&mut pc, &mut disk).unwrap());
    }
    assert_eq!(pc.lookup(p), None);
    assert_eq!(disk.writes, vec![(p, b)]);

    assert_eq!(pc.fetch_page(p), Err(PoolError::PoolExhausted));
    assert_eq!(pc.unpin_page(others[0].page_id, false), Ok(()));
    let again = fetch(&mut pc, &mut disk, p).unwrap();
    assert_eq!(again.page_id, p);
    assert_eq!(pc.read(&again).unwrap().data, b);
    assert!(!pc.read(&again).unwrap().is_dirty());
    assert_eq!(pc.pin_count(p), 1);
}

#[test]
fn dirty_victim_is_written_before_reuse() {
    let mut pc = PageCache::<1>::new();
    assert_eq!(pc.new_page(7), Ok(Fetch::Ready(Handle { frame_id: 0, page_id: 7 })));
    let handle = Handle { frame_id: 0, page_id: 7 };
    pc.write(&handle).unwrap()[0] = 0xEE;
    assert_eq!(pc.unpin_page(7, true), Ok(()));

    let mut expected = [0u8; PAGE_SIZE];
    expected[0] = 0xEE;
    assert_eq!(
        pc.fetch_page(8),
        Ok(Fetch::WriteBack { frame_id: 0, page_id: 7, bytes: expected })
    );
    assert_eq!(pc.frame_state(0), Some(FrameState::Evicting));
    // While the bytes travel the page can be neither fetched nor flushed,
    // and the frame cannot be taken.
    assert_eq!(pc.fetch_page(7), Ok(Fetch::Busy));
    assert_eq!(pc.flush_page(7), None);
    assert_eq!(pc.fetch_page(8), Err(PoolError::PoolExhausted));
    assert!(!pc.finish_write_back(1));
    assert!(pc.finish_write_back(0));
    assert!(!pc.finish_write_back(0));
    assert_eq!(pc.frame_state(0), Some(FrameState::Free));
    assert_eq!(pc.lookup(7), None);
    assert_eq!(pc.fetch_page(8), Ok(Fetch::Load(Handle { frame_id: 0, page_id: 8 })));
}

#[test]
fn failed_write_back_keeps_the_page() {
    let mut pc = PageCache::<1>::new();
    assert_eq!(pc.new_page(7), Ok(Fetch::Ready(Handle { frame_id: 0, page_id: 7 })));
    assert_eq!(pc.unpin_page(7, true), Ok(()));
    assert!(!pc.abort_write_back(0));
    assert!(matches!(pc.new_page(8), Ok(Fetch::WriteBack { frame_id: 0, page_id: 7, .. })));
    assert!(pc.abort_write_back(0));
    assert_eq!(pc.frame_state(0), Some(FrameState::Unpinned));
    assert_eq!(pc.lookup(7), Some(0));
    assert_eq!(pc.flush_page(7), Some([0u8; PAGE_SIZE]));
    assert_eq!(pc.fetch_page(7), Ok(Fetch::Ready(Handle { frame_id: 0, page_id: 7 })));
}

#[test]
fn clean_victim_leaves_without_a_write() {
    let mut pc = PageCache::<2>::new();
    let mut disk = disk();
    let first = create(&mut pc, &mut disk).unwrap();
    let second = create(&mut pc, &mut disk).unwrap();
    assert_eq!(pc.unpin_page(second.page_id, false), Ok(()));
    assert_eq!(pc.unpin_page(first.page_id, false), Ok(()));
    // `second` was released first: it is the least recently used.
    let third = create(&mut pc, &mut disk).unwrap();
    assert_eq!(third.frame_id, second.frame_id);
    assert_eq!(pc.lookup(second.page_id), None);
    assert_eq!(pc.lookup(first.page_id), Some(first.frame_id));
    assert!(disk.writes.is_empty());
}

#[test]
fn victims_leave_least_recently_used_first() {
    let mut pc = PageCache::<3>::new();
    assert!(pc.set_page(0, 10));
    assert!(pc.set_page(1, 11));
    assert!(pc.set_page(2, 12));
    // Touch page 10: it becomes the most recently used.
    assert_eq!(pc.fetch_page(10), Ok(Fetch::Ready(Handle { frame_id: 0, page_id: 10 })));
    assert_eq!(pc.unpin_page(10, false), Ok(()));
    assert_eq!(pc.new_page(20), Ok(Fetch::Ready(Handle { frame_id: 1, page_id: 20 })));
    assert_eq!(pc.new_page(21), Ok(Fetch::Ready(Handle { frame_id: 2, page_id: 21 })));
    assert_eq!(pc.new_page(22), Ok(Fetch::Ready(Handle { frame_id: 0, page_id: 22 })));
    assert_eq!(pc.new_page(23), Err(PoolError::PoolExhausted));
}

#[test]
fn flush_emits_last_committed_bytes() {
    let mut pc = PageCache::<4>::new();
    let mut disk = disk();
    let handle = create(&mut pc, &mut disk).unwrap();
    let q = handle.page_id;
    let c = [0x5Au8; PAGE_SIZE];
    pc.write(&handle).unwrap().copy_from_slice(&c);
    assert_eq!(pc.unpin_page(q, true), Ok(()));

    flush(&mut pc, &mut disk, q);
    assert_eq!(disk.writes, vec![(q, c)]);
    // The page is clean now: a second flush writes nothing, and neither
    // pin count nor evictability changed.
    assert_eq!(pc.flush_page(q), None);
    flush(&mut pc, &mut disk, q);
    assert_eq!(disk.writes.len(), 1);
    assert_eq!(pc.pin_count(q), 0);
    assert_eq!(pc.frame_state(handle.frame_id), Some(FrameState::Unpinned));
}

#[test]
fn flush_of_clean_or_unknown_page_writes_nothing() {
    let mut pc = PageCache::<4>::new();
    assert_eq!(pc.flush_page(3), None);
    assert_eq!(pc.new_page(3), Ok(Fetch::Ready(Handle { frame_id: 0, page_id: 3 })));
    assert_eq!(pc.flush_page(3), None);
    assert_eq!(pc.unpin_page(3, false), Ok(()));
    assert_eq!(pc.flush_page(3), None);
    assert!(!pc.finish_flush(4, &[0u8; PAGE_SIZE]));
}

#[test]
fn page_written_during_flush_stays_dirty() {
    let mut pc = PageCache::<4>::new();
    assert_eq!(pc.new_page(3), Ok(Fetch::Ready(Handle { frame_id: 0, page_id: 3 })));
    let handle = Handle { frame_id: 0, page_id: 3 };
    pc.write(&handle).unwrap()[1] = 1;
    assert_eq!(pc.fetch_page(3), Ok(Fetch::Ready(handle)));
    assert_eq!(pc.unpin_page(3, true), Ok(()));
    let snapshot = pc.flush_page(3).unwrap();
    pc.write(&handle).unwrap()[2] = 2;
    assert!(!pc.finish_flush(3, &snapshot));
    assert!(pc.read(&handle).unwrap().is_dirty());
    let latest = pc.flush_page(3).unwrap();
    assert_eq!(latest[1], 1);
    assert_eq!(latest[2], 2);
    assert!(pc.finish_flush(3, &latest));
    assert!(!pc.read(&handle).unwrap().is_dirty());
}

#[test]
fn flush_all_lists_dirty_pages_in_frame_order() {
    let mut pc = PageCache::<4>::new();
    for id in 0..4u32 {
        assert_eq!(
            pc.new_page(10 + id),
            Ok(Fetch::Ready(Handle { frame_id: id as usize, page_id: 10 + id }))
        );
        pc.write(&Handle { frame_id: id as usize, page_id: 10 + id }).unwrap()[0] = id as u8 + 1;
    }
    assert_eq!(pc.unpin_page(13, true), Ok(()));
    assert_eq!(pc.unpin_page(11, true), Ok(()));
    assert_eq!(pc.unpin_page(12, false), Ok(()));
    // Page 10 stays pinned and clean.
    let mut b11 = [0u8; PAGE_SIZE];
    b11[0] = 2;
    let mut b13 = [0u8; PAGE_SIZE];
    b13[0] = 4;
    assert_eq!(pc.flush_all(), vec![(11, b11), (13, b13)]);
    assert!(pc.finish_flush(11, &b11));
    assert_eq!(pc.flush_all(), vec![(13, b13)]);
    assert!(pc.finish_flush(13, &b13));
    assert_eq!(pc.flush_all(), vec![]);
}

#[test]
fn dirty_flag_is_kept_once_set() {
    let mut pc = PageCache::<2>::new();
    let handle = Handle { frame_id: 0, page_id: 1 };
    assert_eq!(pc.new_page(1), Ok(Fetch::Ready(handle)));
    assert_eq!(pc.fetch_page(1), Ok(Fetch::Ready(handle)));
    assert_eq!(pc.unpin_page(1, true), Ok(()));
    assert_eq!(pc.unpin_page(1, false), Ok(()));
    assert_eq!(pc.flush_page(1), Some([0u8; PAGE_SIZE]));
}

#[test]
fn stale_handle_gives_no_access() {
    let mut pc = PageCache::<2>::new();
    let handle = Handle { frame_id: 0, page_id: 1 };
    assert_eq!(pc.new_page(1), Ok(Fetch::Ready(handle)));
    assert!(pc.holds(&handle));
    assert!(pc.write(&Handle { frame_id: 0, page_id: 2 }).is_none());
    assert!(pc.write(&Handle { frame_id: 1, page_id: 1 }).is_none());
    assert!(pc.read(&Handle { frame_id: 2, page_id: 1 }).is_none());
    assert_eq!(pc.unpin_page(1, false), Ok(()));
    assert!(!pc.holds(&handle));
    assert!(pc.read(&handle).is_none());
    assert!(pc.write(&handle).is_none());
}

#[test]
fn pool_without_frames_is_always_exhausted() {
    let mut pc = PageCache::<0>::new();
    assert_eq!(pc.fetch_page(1), Err(PoolError::PoolExhausted));
    assert_eq!(pc.new_page(1), Err(PoolError::PoolExhausted));
    assert!(!pc.set_page(0, 1));
    assert_eq!(pc.unpin_page(1, false), Err(PoolError::PageNotFound));
}

#[test]
fn inner_pool_serves_the_same_requests() {
    let mut inner = PageCacheInner::<2>::new();
    assert_eq!(inner.capacity(), 2);
    assert_eq!(inner.new_page(1), Ok(Fetch::Ready(Handle { frame_id: 0, page_id: 1 })));
    assert_eq!(inner.fetch_page(2), Ok(Fetch::Load(Handle { frame_id: 1, page_id: 2 })));
    assert!(inner.is_loading(&Handle { frame_id: 1, page_id: 2 }));
    assert!(inner.finish_load(&Handle { frame_id: 1, page_id: 2 }, &[9u8; PAGE_SIZE]));
    assert_eq!(inner.fetch_page(3), Err(PoolError::PoolExhausted));
    assert_eq!(inner.unpin_page(2, true), Ok(()));
    assert_eq!(
        inner.fetch_page(3),
        Ok(Fetch::WriteBack { frame_id: 1, page_id: 2, bytes: [9u8; PAGE_SIZE] })
    );
    assert!(inner.is_evicting(1));
    assert!(inner.finish_write_back(1));
    assert_eq!(inner.lookup(2), None);
    assert_eq!(inner.pin_count(1), 1);
}
