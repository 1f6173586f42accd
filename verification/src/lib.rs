//! An in-memory buffer pool for a disk-backed storage engine.
//!
//! The pool caches fixed-size pages in a bounded set of frames. It decides
//! which frame holds which page, which frame is given up when the pool is
//! full, and when a page's bytes have to travel to or from durable storage.
//! The storage itself stays outside: the pool answers a request with the
//! transfer that its caller has to perform, and is told when it is done.

pub mod frame_table;
pub mod model;
pub mod page;
pub mod page_cache;
pub mod replacer;
