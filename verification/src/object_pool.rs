use vstd::prelude::*;

verus! {

/// Length of the byte buffers handed out by [`ObjectPool::acquire_buffer`].
pub const IO_BUFFER_SIZE: usize = 8192;

/// A cleared I/O buffer: `IO_BUFFER_SIZE` zero bytes.
pub open spec fn cleared_io_buffer() -> Seq<u8> {
    Seq::new(IO_BUFFER_SIZE as nat, |i: int| 0u8)
}

/// The capacity of a pool created with `initial_size` objects: that many,
/// or no limit (`usize::MAX`) for a pool created empty.
pub open spec fn capacity_for(initial_size: usize) -> usize {
    if initial_size == 0 {
        usize::MAX
    } else {
        initial_size
    }
}

/// The abstract state of an [`ObjectPool`]: the idle objects, front first,
/// and the largest number of idle objects the pool keeps.
pub struct PoolView<T> {
    pub idle: Seq<T>,
    pub capacity: nat,
}

/// The pool after an object is handed back: it joins the back of the idle
/// queue when there is room, and is discarded otherwise.
pub open spec fn pool_after_release<T>(v: PoolView<T>, object: T) -> PoolView<T> {
    if v.idle.len() < v.capacity {
        PoolView { idle: v.idle.push(object), capacity: v.capacity }
    } else {
        v
    }
}

/// The pool after an acquisition: the front idle object leaves the queue,
/// if there is one.
pub open spec fn pool_after_acquire<T>(v: PoolView<T>) -> PoolView<T> {
    if v.idle.len() > 0 {
        PoolView { idle: v.idle.drop_first(), capacity: v.capacity }
    } else {
        v
    }
}

/// The pool after `objects` are handed back one after another.
pub open spec fn pool_after_releases<T>(v: PoolView<T>, objects: Seq<T>) -> PoolView<T>
    decreases objects.len(),
{
    if objects.len() == 0 {
        v
    } else {
        pool_after_release(pool_after_releases(v, objects.drop_last()), objects.last())
    }
}

/// A pool never holds more idle objects than its capacity: handing an
/// object back keeps the bound.
pub proof fn law_release_within_capacity<T>(v: PoolView<T>, object: T)
    requires
        v.idle.len() <= v.capacity,
    ensures
        pool_after_release(v, object).idle.len() <= v.capacity,
        pool_after_release(v, object).capacity == v.capacity,
{
}

/// An object handed back to a pool with no idle object and room for one is
/// the next object handed out.
pub proof fn law_release_then_acquire_reuses<T>(v: PoolView<T>, object: T)
    requires
        v.idle.len() == 0,
        v.capacity > 0,
    ensures
        pool_after_release(v, object).idle.len() > 0,
        pool_after_release(v, object).idle[0] == object,
        pool_after_acquire(pool_after_release(v, object)) == v,
{
    assert(pool_after_release(v, object).idle.drop_first() =~= v.idle);
}

/// Objects handed back to a pool that has room for all of them queue up
/// behind the idle ones in the order they were handed back, so they are
/// handed out again in that order.
pub proof fn law_releases_are_first_in_first_out<T>(v: PoolView<T>, objects: Seq<T>)
    requires
        v.idle.len() + objects.len() <= v.capacity,
    ensures
        pool_after_releases(v, objects).idle == v.idle + objects,
        pool_after_releases(v, objects).capacity == v.capacity,
    decreases objects.len(),
{
    if objects.len() > 0 {
        law_releases_are_first_in_first_out(v, objects.drop_last());
        assert((v.idle + objects.drop_last()).push(objects.last()) =~= v.idle + objects);
    } else {
        assert(v.idle + objects =~= v.idle);
    }
}

/// The pool after `n` acquisitions in a row.
pub open spec fn pool_after_acquisitions<T>(v: PoolView<T>, n: nat) -> PoolView<T>
    decreases n,
{
    if n == 0 {
        v
    } else {
        pool_after_acquire(pool_after_acquisitions(v, (n - 1) as nat))
    }
}

/// An acquisition takes the front idle object and leaves the others idle in
/// the same order; with nothing idle it leaves the pool as it was.
pub proof fn law_acquire_takes_front<T>(v: PoolView<T>)
    ensures
        v.idle.len() > 0 ==> pool_after_acquire(v).idle == v.idle.subrange(1, v.idle.len() as int),
        v.idle.len() > 0 ==> pool_after_acquire(v).idle.len() == v.idle.len() - 1,
        v.idle.len() == 0 ==> pool_after_acquire(v) == v,
        pool_after_acquire(v).capacity == v.capacity,
{
    if v.idle.len() > 0 {
        assert(v.idle.drop_first() =~= v.idle.subrange(1, v.idle.len() as int));
    }
}

/// Acquisitions hand idle objects out in queue order: after `n`
/// acquisitions the idle queue is what followed its first `n` objects.
pub proof fn law_acquisitions_in_queue_order<T>(v: PoolView<T>, n: nat)
    requires
        n <= v.idle.len(),
    ensures
        pool_after_acquisitions(v, n).idle == v.idle.subrange(n as int, v.idle.len() as int),
        pool_after_acquisitions(v, n).capacity == v.capacity,
    decreases n,
{
    if n == 0 {
        assert(v.idle.subrange(0, v.idle.len() as int) =~= v.idle);
    } else {
        law_acquisitions_in_queue_order(v, (n - 1) as nat);
        let w = pool_after_acquisitions(v, (n - 1) as nat);
        assert(w.idle.drop_first() =~= v.idle.subrange(n as int, v.idle.len() as int));
    }
}

/// Objects handed back to a pool with nothing idle and room for all of them
/// are handed out again in the order they were handed back: after `i`
/// acquisitions, the next object handed out is the `i`-th one returned.
pub proof fn law_handed_out_in_release_order<T>(v: PoolView<T>, objects: Seq<T>, i: nat)
    requires
        v.idle.len() == 0,
        objects.len() <= v.capacity,
        i < objects.len(),
    ensures
        ({
            let w = pool_after_acquisitions(pool_after_releases(v, objects), i);
            w.idle.len() > 0 && w.idle[0] == objects[i as int]
        }),
{
    law_releases_are_first_in_first_out(v, objects);
    assert(v.idle + objects =~= objects);
    law_acquisitions_in_queue_order(pool_after_releases(v, objects), i);
}

/// A pool created with `initial_size` objects keeps at most that many idle;
/// a pool created empty keeps every object handed back.
pub proof fn law_capacity_is_initial_size(initial_size: usize)
    ensures
        initial_size > 0 ==> capacity_for(initial_size) == initial_size,
        initial_size == 0 ==> capacity_for(initial_size) == usize::MAX,
{
}

/// Objects handed back to a full pool are dropped: the pool is unchanged.
pub proof fn law_release_to_full_pool_drops<T>(v: PoolView<T>, object: T)
    requires
        v.idle.len() >= v.capacity,
    ensures
        pool_after_release(v, object) == v,
{
}

/// A pool of reusable objects.
///
/// Objects are handed out front first; objects handed back join the back of
/// the idle queue while fewer than `capacity` objects are idle. When no idle
/// object is left, a new one is made with the pool's creation function.
///
/// A pool created with `initial_size` objects keeps at most that many idle
/// objects; a pool created empty, and a pool made with
/// [`ObjectPool::unbounded`], keep every object handed back.
pub struct ObjectPool<T, F> {
    pool: std::collections::VecDeque<T>,
    create_fn: F,
    capacity: usize,
}

/// An object taken out of an [`ObjectPool`]; hand it back with
/// [`ObjectPool::release`], or keep it with [`PooledObject::take`].
pub struct PooledObject<T> {
    object: T,
}

impl<T> PooledObject<T> {
    pub closed spec fn value(&self) -> T {
        self.object
    }

    /// Takes ownership of the inner object, so that it never returns to the pool.
    pub fn take(self) -> (object: T)
        ensures
            object == self.value(),
    {
        self.object
    }
}

impl<T> std::ops::Deref for PooledObject<T> {
    type Target = T;

    fn deref(&self) -> (r: &T)
        ensures
            *r == self.value(),
    {
        &self.object
    }
}

impl<T> AsRef<T> for PooledObject<T> {
    fn as_ref(&self) -> (r: &T)
        ensures
            *r == self.value(),
    {
        &self.object
    }
}

impl<T> AsMut<T> for PooledObject<T> {
    fn as_mut(&mut self) -> (r: &mut T)
        ensures
            *r == old(self).value(),
            final(self).value() == *final(r),
    {
        &mut self.object
    }
}

impl<T, F: Fn() -> T> ObjectPool<T, F> {
    pub closed spec fn view(&self) -> PoolView<T> {
        PoolView { idle: self.pool@, capacity: self.capacity as nat }
    }

    pub closed spec fn creator(&self) -> F {
        self.create_fn
    }

    /// The pool is well formed: it holds no more idle objects than its
    /// capacity, and its creation function can always be called.
    pub open spec fn wf(&self) -> bool {
        &&& self.view().idle.len() <= self.view().capacity
        &&& self.creator().requires(())
    }

    /// Creates a pool that holds `initial_size` fresh objects and keeps at
    /// most `initial_size` idle objects, or every object handed back when
    /// `initial_size` is 0.
    pub fn new(initial_size: usize, create_fn: F) -> (pool: Self)
        requires
            create_fn.requires(()),
        ensures
            pool.wf(),
            pool.creator() == create_fn,
            pool.view().capacity == capacity_for(initial_size),
            initial_size > 0 ==> pool.view().capacity == initial_size,
            initial_size == 0 ==> pool.view().capacity == usize::MAX,
            pool.view().idle.len() == initial_size,
            forall|i: int|
                0 <= i < initial_size ==> create_fn.ensures((), #[trigger] pool.view().idle[i]),
    {
        let capacity = if initial_size == 0 {
            usize::MAX
        } else {
            initial_size
        };
        Self::filled(initial_size, capacity, create_fn)
    }

    /// Creates a pool that holds `initial_size` fresh objects and keeps
    /// every object handed back.
    pub fn unbounded(initial_size: usize, create_fn: F) -> (pool: Self)
        requires
            create_fn.requires(()),
        ensures
            pool.wf(),
            pool.creator() == create_fn,
            pool.view().capacity == usize::MAX,
            pool.view().idle.len() == initial_size,
            forall|i: int|
                0 <= i < initial_size ==> create_fn.ensures((), #[trigger] pool.view().idle[i]),
    {
        Self::filled(initial_size, usize::MAX, create_fn)
    }

    fn filled(initial_size: usize, capacity: usize, create_fn: F) -> (pool: Self)
        requires
            create_fn.requires(()),
            initial_size <= capacity,
        ensures
            pool.wf(),
            pool.creator() == create_fn,
            pool.view().capacity == capacity,
            pool.view().idle.len() == initial_size,
            forall|i: int|
                0 <= i < initial_size ==> create_fn.ensures((), #[trigger] pool.view().idle[i]),
    {
        let mut pool: std::collections::VecDeque<T> = std::collections::VecDeque::with_capacity(
            initial_size,
        );
        let mut i: usize = 0;
        while i < initial_size
            invariant
                i <= initial_size,
                pool@.len() == i,
                create_fn.requires(()),
                forall|j: int| 0 <= j < i ==> create_fn.ensures((), #[trigger] pool@[j]),
            decreases initial_size - i,
        {
            let object = create_fn();
            pool.push_back(object);
            i = i + 1;
        }
        ObjectPool { pool, create_fn, capacity }
    }

    /// Hands out the front idle object, or a freshly made one when no
    /// object is idle.
    pub fn acquire(&mut self) -> (object: PooledObject<T>)
        requires
            old(self).wf(),
        ensures
            final(self).wf(),
            final(self).creator() == old(self).creator(),
            final(self).view() == pool_after_acquire(old(self).view()),
            final(self).view().capacity == old(self).view().capacity,
            old(self).view().idle.len() > 0 ==> final(self).view().idle == old(
                self,
            ).view().idle.drop_first(),
            old(self).view().idle.len() == 0 ==> final(self).view().idle == old(self).view().idle,
            old(self).view().idle.len() > 0 ==> object.value() == old(self).view().idle[0],
            old(self).view().idle.len() == 0 ==> old(self).creator().ensures((), object.value()),
    {
        let popped = self.pool.pop_front();
        let object = match popped {
            Some(o) => o,
            None => (self.create_fn)(),
        };
        PooledObject { object }
    }

    /// The number of idle objects in the pool.
    pub fn available(&self) -> (n: usize)
        ensures
            n == self.view().idle.len(),
    {
        self.pool.len()
    }

    /// The largest number of idle objects the pool keeps.
    pub fn capacity(&self) -> (n: usize)
        ensures
            n == self.view().capacity,
    {
        self.capacity
    }

    /// Hands an object back: it becomes idle again when fewer than
    /// `capacity` objects are idle, and is dropped otherwise.
    pub fn release(&mut self, object: PooledObject<T>)
        requires
            old(self).wf(),
        ensures
            final(self).wf(),
            final(self).creator() == old(self).creator(),
            final(self).view() == pool_after_release(old(self).view(), object.value()),
    {
        if self.pool.len() < self.capacity {
            self.pool.push_back(object.object);
        }
    }
}

impl<F: Fn() -> Vec<u8>> ObjectPool<Vec<u8>, F> {
    /// Hands out an I/O buffer as [`ObjectPool::acquire`] does, cleared and
    /// resized to `IO_BUFFER_SIZE` zero bytes.
    pub fn acquire_buffer(&mut self) -> (buffer: PooledObject<Vec<u8>>)
        requires
            old(self).wf(),
        ensures
            final(self).wf(),
            final(self).creator() == old(self).creator(),
            final(self).view() == pool_after_acquire(old(self).view()),
            buffer.value()@ == cleared_io_buffer(),
    {
        let mut buffer = self.acquire();
        buffer.object.clear();
        buffer.object.resize(IO_BUFFER_SIZE, 0u8);
        proof {
            assert forall|i: int| 0 <= i < IO_BUFFER_SIZE implies buffer.object@[i] == 0u8 by {
                assert(cloned::<u8>(0u8, buffer.object@[i]));
            }
            assert(buffer.object@ =~= cleared_io_buffer());
        }
        buffer
    }
}

} // verus!
