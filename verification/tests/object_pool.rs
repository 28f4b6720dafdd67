use mill_io::object_pool::{ObjectPool, IO_BUFFER_SIZE};

#[test]
fn test_pool_reuse() {
    let mut pool = ObjectPool::new(1, || vec![0u8; 1024]);

    let obj1 = pool.acquire();
    let ptr1 = obj1.as_ptr();
    pool.release(obj1);

    let obj2 = pool.acquire();
    let ptr2 = obj2.as_ptr();

    assert_eq!(ptr1, ptr2, "Pool should reuse the same allocation");
}

#[test]
fn test_pool_fifo_order() {
    let mut pool = ObjectPool::new(0, || vec![0u8; 1024]);

    let obj1 = pool.acquire();
    let ptr1 = obj1.as_ptr();
    pool.release(obj1);

    let obj2 = pool.acquire();
    pool.release(obj2);

    // a pool created empty keeps what is handed back: obj1's buffer comes out again
    let obj3 = pool.acquire();
    assert_eq!(obj3.as_ptr(), ptr1, "Should get first returned object");
}

#[test]
fn test_pool_grows() {
    let mut pool = ObjectPool::new(1, || vec![0u8; 1024]);

    // hold more objects than initial size
    let _obj1 = pool.acquire();
    let _obj2 = pool.acquire();
    let _obj3 = pool.acquire();

    // should not panic. creates new objects as needed
}

#[test]
fn test_pool_capacity_limit() {
    let mut pool = ObjectPool::new(2, || vec![0u8; 1024]);

    let obj1 = pool.acquire();
    let obj2 = pool.acquire();
    let obj3 = pool.acquire();

    assert_eq!(pool.available(), 0);

    pool.release(obj1);
    pool.release(obj2);
    pool.release(obj3);

    assert_eq!(pool.available(), 2, "Pool should respect capacity limit");
}

#[test]
fn test_pool_available() {
    let mut pool = ObjectPool::new(5, || vec![0u8; 1024]);
    assert_eq!(pool.available(), 5);

    let _obj1 = pool.acquire();
    assert_eq!(pool.available(), 4);

    let _obj2 = pool.acquire();
    assert_eq!(pool.available(), 3);
}

#[test]
fn test_pooled_object_take() {
    let mut pool = ObjectPool::new(1, || vec![0u8; 1024]);

    let obj = pool.acquire();
    let _vec = obj.take();

    assert_eq!(pool.available(), 0);
}

#[test]
fn released_objects_come_back_in_release_order() {
    let mut pool = ObjectPool::new(3, || 0u32);
    let mut a = pool.acquire();
    let mut b = pool.acquire();
    let mut c = pool.acquire();
    *a.as_mut() = 1;
    *b.as_mut() = 2;
    *c.as_mut() = 3;
    pool.release(b);
    pool.release(c);
    pool.release(a);
    assert_eq!(pool.acquire().take(), 2);
    assert_eq!(pool.acquire().take(), 3);
    assert_eq!(pool.acquire().take(), 1);
    assert_eq!(pool.available(), 0);
}

#[test]
fn release_to_full_pool_drops_object() {
    let mut pool = ObjectPool::new(1, || 7u8);
    let mut extra = pool.acquire();
    let first = pool.acquire();
    *extra.as_mut() = 9;
    pool.release(first);
    assert_eq!(pool.available(), 1);
    pool.release(extra);
    assert_eq!(pool.available(), 1);
    assert_eq!(*pool.acquire(), 7);
}

#[test]
fn empty_pool_keeps_every_returned_object() {
    let mut pool = ObjectPool::new(0, || String::from("fresh"));
    assert_eq!(pool.capacity(), usize::MAX);
    let a = pool.acquire();
    let b = pool.acquire();
    let c = pool.acquire();
    assert_eq!(a.as_ref(), "fresh");
    pool.release(a);
    pool.release(b);
    pool.release(c);
    assert_eq!(pool.available(), 3);
}

#[test]
fn unbounded_pool_starts_filled_and_keeps_everything() {
    let mut pool = ObjectPool::unbounded(2, || 5u8);
    assert_eq!(pool.available(), 2);
    assert_eq!(pool.capacity(), usize::MAX);
    let a = pool.acquire();
    let b = pool.acquire();
    let c = pool.acquire();
    pool.release(a);
    pool.release(b);
    pool.release(c);
    assert_eq!(pool.available(), 3);
}

#[test]
fn byte_buffers_come_out_cleared() {
    let mut pool = ObjectPool::new(1, || vec![7u8; 10]);
    let buffer = pool.acquire_buffer();
    assert_eq!(buffer.len(), IO_BUFFER_SIZE);
    assert!(buffer.iter().all(|b| *b == 0));
    assert_eq!(IO_BUFFER_SIZE, 8192);
    let mut used = buffer;
    used.as_mut()[0] = 42;
    pool.release(used);
    let again = pool.acquire_buffer();
    assert_eq!(*again, vec![0u8; 8192]);
    assert_eq!(pool.available(), 0);
}
