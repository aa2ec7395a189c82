use vstd::prelude::*;

verus! {

/// `n` is a power of two.
pub open spec fn is_power_of_two(n: nat) -> bool
    decreases n,
{
    if n == 0 {
        false
    } else if n == 1 {
        true
    } else {
        n % 2 == 0 && is_power_of_two(n / 2)
    }
}

proof fn lemma_wrap(x: int, cap: int)
    requires
        0 <= x < 2 * cap,
        cap > 0,
    ensures
        x % cap == (if x < cap {
            x
        } else {
            x - cap
        }),
{
    if x < cap {
        vstd::arithmetic::div_mod::lemma_small_mod(x as nat, cap as nat);
    } else {
        vstd::arithmetic::div_mod::lemma_small_mod((x - cap) as nat, cap as nat);
        vstd::arithmetic::div_mod::lemma_mod_add_multiples_vanish(x - cap, cap);
    }
}

/// The smallest power of two that is at least `n` (`usize::next_power_of_two`).
pub fn next_power_of_two(n: usize) -> (p: usize)
    requires
        1 <= n <= usize::MAX / 2 + 1,
    ensures
        is_power_of_two(p as nat),
        n <= p,
        p < 2 * n,
{
    let mut p: usize = 1;
    while p < n
        invariant
            is_power_of_two(p as nat),
            1 <= p,
            n <= usize::MAX / 2 + 1,
            p < 2 * n,
        decreases usize::MAX - p,
    {
        assert(is_power_of_two((2 * p) as nat)) by {
            assert((2 * p) as nat / 2 == p as nat);
        }
        p = p * 2;
    }
    p
}

/// What `push(value)` does to ring `a`, giving ring `b` and returning
/// `evicted`. Below capacity the value is written at the write position and
/// nothing is returned; at capacity it replaces the oldest item, which is
/// returned, and the write position stays where it was.
pub open spec fn push_effect<T: Copy + Default>(
    a: LockFreeRingBuffer<T>,
    b: LockFreeRingBuffer<T>,
    value: T,
    evicted: Option<T>,
) -> bool {
    &&& b.wf()
    &&& b.cap() == a.cap()
    &&& a.held() >= a.cap() ==> {
        &&& evicted == Some(a.items()[0])
        &&& b.slots() == a.slots().update(a.head_slot() as int, value)
        &&& b.head_slot() == (a.head_slot() + 1) % a.cap()
        &&& b.tail_slot() == a.tail_slot()
        &&& b.held() == a.held()
        &&& b.items() == a.items().drop_first().push(value)
    }
    &&& a.held() < a.cap() ==> {
        &&& evicted is None
        &&& b.slots() == a.slots().update(a.tail_slot() as int, value)
        &&& b.head_slot() == a.head_slot()
        &&& b.tail_slot() == (a.tail_slot() + 1) % a.cap()
        &&& b.held() == a.held() + 1
        &&& a.in_step() ==> b.in_step() && b.items() == a.items().push(value)
    }
}

/// What `pop()` does to ring `a`, giving ring `b` and returning `r`: the
/// oldest item is taken, or `None` is returned when the ring is empty.
pub open spec fn pop_effect<T: Copy + Default>(
    a: LockFreeRingBuffer<T>,
    b: LockFreeRingBuffer<T>,
    r: Option<T>,
) -> bool {
    &&& b.wf()
    &&& b.cap() == a.cap()
    &&& b.slots() == a.slots()
    &&& b.tail_slot() == a.tail_slot()
    &&& a.held() == 0 ==> r is None && b == a
    &&& a.held() > 0 ==> {
        &&& r == Some(a.items()[0])
        &&& b.items() == a.items().drop_first()
        &&& b.head_slot() == (a.head_slot() + 1) % a.cap()
        &&& b.held() == a.held() - 1
        &&& a.in_step() ==> b.in_step()
    }
}

/// What `clear()` does to ring `a`, giving ring `b`: it is emptied and both
/// positions go back to the first slot.
pub open spec fn clear_effect<T: Copy + Default>(a: LockFreeRingBuffer<T>, b: LockFreeRingBuffer<T>) -> bool {
    &&& b.wf()
    &&& b.cap() == a.cap()
    &&& b.slots() == a.slots()
    &&& b.items() == Seq::<T>::empty()
    &&& b.head_slot() == 0
    &&& b.tail_slot() == 0
    &&& b.in_step()
}

/// A fixed-capacity ring of slots, read from `head` and written at `tail`.
/// When full, a push overwrites the oldest slot at `head` and moves `head`
/// on, leaving `tail` where it was.
pub struct LockFreeRingBuffer<T: Copy + Default> {
    buffer: Vec<T>,
    capacity: usize,
    head: usize,
    tail: usize,
    count: usize,
}

impl<T: Copy + Default> LockFreeRingBuffer<T> {
    /// The ring is well formed: every position lies within the slots.
    pub closed spec fn wf(self) -> bool {
        &&& self.buffer@.len() == self.capacity
        &&& 0 < self.capacity
        &&& self.head < self.capacity
        &&& self.tail < self.capacity
        &&& self.count <= self.capacity
    }

    /// The slots of the ring.
    pub closed spec fn slots(self) -> Seq<T> {
        self.buffer@
    }

    /// Number of slots (a power of two).
    pub closed spec fn cap(self) -> nat {
        self.capacity as nat
    }

    /// Slot that the next read takes.
    pub closed spec fn head_slot(self) -> nat {
        self.head as nat
    }

    /// Slot that the next non-overwriting push writes.
    pub closed spec fn tail_slot(self) -> nat {
        self.tail as nat
    }

    /// Number of items held.
    pub closed spec fn held(self) -> nat {
        self.count as nat
    }

    /// The items held, oldest first: `held` slots starting at `head`.
    pub open spec fn items(self) -> Seq<T> {
        Seq::new(self.held(), |i: int| self.slots()[(self.head_slot() + i) % (self.cap() as int)])
    }

    /// The write position follows the held items, as it does until a push
    /// overwrites the oldest item.
    pub open spec fn in_step(self) -> bool {
        self.tail_slot() == (self.head_slot() + self.held()) % self.cap()
    }

    /// A well-formed ring holds at most its capacity, which fits a `usize`.
    pub proof fn lemma_bounds(&self)
        requires
            self.wf(),
        ensures
            self.held() <= self.cap() <= usize::MAX,
            0 < self.cap(),
    {
    }

    /// `(i + 1) mod cap`
    fn advance(&self, i: usize) -> (r: usize)
        requires
            i < self.cap(),
            self.cap() > 0,
            self.capacity == self.cap(),
        ensures
            r == (i + 1) % (self.cap() as int),
    {
        proof {
            lemma_wrap(i + 1, self.capacity as int);
        }
        if i + 1 == self.capacity {
            0
        } else {
            i + 1
        }
    }

    pub fn new(capacity: usize) -> (rb: Self)
        requires
            0 < capacity <= usize::MAX / 2 + 1,
        ensures
            rb.wf(),
            rb.cap() >= capacity,
            rb.cap() < 2 * capacity,
            is_power_of_two(rb.cap()),
            rb.items() == Seq::<T>::empty(),
            rb.head_slot() == 0,
            rb.tail_slot() == 0,
            rb.in_step(),
    {
        let actual_cap = next_power_of_two(capacity);
        let mut buf: Vec<T> = Vec::with_capacity(actual_cap);
        let fill = T::default();
        while buf.len() < actual_cap
            invariant
                buf@.len() <= actual_cap,
            decreases actual_cap - buf@.len(),
        {
            buf.push(fill);
        }
        let rb = LockFreeRingBuffer { buffer: buf, capacity: actual_cap, head: 0, tail: 0, count: 0 };
        proof {
            lemma_wrap(0, actual_cap as int);
        }
        assert(rb.items() =~= Seq::<T>::empty());
        rb
    }

    /// Adds `value`. Below capacity it is written at the write position and
    /// `None` is returned; at capacity it replaces the oldest item, which is
    /// returned.
    pub fn push(&mut self, value: T) -> (evicted: Option<T>)
        requires
            old(self).wf(),
        ensures
            push_effect(*old(self), *final(self), value, evicted),
    {
        let ghost before = *self;
        if self.count >= self.capacity {
            let idx = self.head;
            let oldest = self.buffer[idx];
            self.buffer.set(idx, value);
            self.head = self.advance(idx);
            proof {
                let cap = before.capacity as int;
                let h = before.head as int;
                lemma_wrap(h + 1, cap);
                lemma_wrap(h, cap);
                assert(before.items()[0] == oldest);
                assert(self.items() =~= before.items().drop_first().push(value)) by {
                    assert forall|i: int| 0 <= i < self.count implies #[trigger] self.items()[i]
                        == before.items().drop_first().push(value)[i] by {
                        lemma_wrap(self.head as int + i, cap);
                        lemma_wrap(h + 1 + i, cap);
                        lemma_wrap(h + i, cap);
                    }
                }
            }
            return Some(oldest);
        }
        let idx = self.tail;
        self.buffer.set(idx, value);
        self.tail = self.advance(idx);
        self.count = self.count + 1;
        proof {
            let cap = before.capacity as int;
            let h = before.head as int;
            let c = before.count as int;
            lemma_wrap(before.tail as int + 1, cap);
            if before.in_step() {
                lemma_wrap(h + c, cap);
                lemma_wrap(h + c + 1, cap);
                assert(self.items() =~= before.items().push(value)) by {
                    assert forall|i: int| 0 <= i < self.count implies #[trigger] self.items()[i]
                        == before.items().push(value)[i] by {
                        lemma_wrap(h + i, cap);
                    }
                }
            }
        }
        None
    }

    /// Takes the oldest item, or `None` when empty.
    pub fn pop(&mut self) -> (r: Option<T>)
        requires
            old(self).wf(),
        ensures
            pop_effect(*old(self), *final(self), r),
    {
        let ghost before = *self;
        if self.count == 0 {
            return None;
        }
        self.count = self.count - 1;
        let idx = self.head;
        let val = self.buffer[idx];
        self.head = self.advance(idx);
        proof {
            let cap = before.capacity as int;
            let h = before.head as int;
            let c = before.count as int;
            lemma_wrap(h + 1, cap);
            lemma_wrap(h, cap);
            assert(before.items()[0] == val);
            assert forall|i: int| 0 <= i < self.count implies #[trigger] self.items()[i]
                == before.items().drop_first()[i] by {
                lemma_wrap(self.head as int + i, cap);
                lemma_wrap(h + 1 + i, cap);
            }
            assert(self.items() =~= before.items().drop_first());
            if before.in_step() {
                lemma_wrap(h + c, cap);
                lemma_wrap(self.head as int + c - 1, cap);
            }
        }
        Some(val)
    }

    pub fn len(&self) -> (r: usize)
        ensures
            r == self.items().len(),
    {
        self.count
    }

    pub fn is_empty(&self) -> (r: bool)
        ensures
            r == (self.items().len() == 0),
    {
        self.len() == 0
    }

    pub fn capacity(&self) -> (r: usize)
        ensures
            r == self.cap(),
    {
        self.capacity
    }

    /// The items held, oldest first.
    pub fn snapshot(&self) -> (v: Vec<T>)
        requires
            self.wf(),
        ensures
            v@ == self.items(),
    {
        let head = self.head;
        let count = self.count;
        let mut result: Vec<T> = Vec::with_capacity(count);
        for i in 0..count
            invariant
                head == self.head,
                count == self.count,
                result@ =~= self.items().take(i as int),
                self.buffer@.len() == self.capacity,
                0 < self.capacity,
                self.head < self.capacity,
                self.count <= self.capacity,
        {
            proof {
                lemma_wrap(head + i, self.capacity as int);
            }
            let idx = if i < self.capacity - head {
                head + i
            } else {
                i - (self.capacity - head)
            };
            result.push(self.buffer[idx]);
        }
        assert(self.items().take(count as int) =~= self.items());
        result
    }

    /// Empties the ring: both positions go back to the first slot.
    pub fn clear(&mut self)
        requires
            old(self).wf(),
        ensures
            clear_effect(*old(self), *final(self)),
    {
        self.head = 0;
        self.tail = 0;
        self.count = 0;
        proof {
            lemma_wrap(0, self.capacity as int);
        }
        assert(self.items() =~= Seq::<T>::empty());
    }
}

// ---------------------------------------------------------------------------
// The ring as a queue
// ---------------------------------------------------------------------------

/// An operation on a ring, with what it returned.
pub enum RingOp<T> {
    /// `push(value)`, which returned the evicted item.
    Push(T, Option<T>),
    /// `pop()`, which returned the item.
    Pop(Option<T>),
    /// `clear()`.
    Clear,
}

/// Ring `b` is ring `a` after the operation `op`.
pub open spec fn ring_step<T: Copy + Default>(
    a: LockFreeRingBuffer<T>,
    b: LockFreeRingBuffer<T>,
    op: RingOp<T>,
) -> bool {
    match op {
        RingOp::Push(v, e) => push_effect(a, b, v, e),
        RingOp::Pop(r) => pop_effect(a, b, r),
        RingOp::Clear => clear_effect(a, b),
    }
}

/// A queue of at most `cap` items after `op`: a push onto a full queue
/// drops its front first, a pop drops the front, a clear empties it.
pub open spec fn queue_step<T>(q: Seq<T>, cap: nat, op: RingOp<T>) -> Seq<T> {
    match op {
        RingOp::Push(v, _) => if q.len() >= cap {
            q.drop_first().push(v)
        } else {
            q.push(v)
        },
        RingOp::Pop(_) => if q.len() == 0 {
            q
        } else {
            q.drop_first()
        },
        RingOp::Clear => Seq::empty(),
    }
}

/// The queue after `ops`, starting from `q`.
pub open spec fn queue_after<T>(q: Seq<T>, cap: nat, ops: Seq<RingOp<T>>) -> Seq<T>
    decreases ops.len(),
{
    if ops.len() == 0 {
        q
    } else {
        queue_step(queue_after(q, cap, ops.drop_last()), cap, ops.last())
    }
}

/// What a queue operation returns: a push onto a full queue its front, a
/// pop the front of a non-empty queue, else nothing.
pub open spec fn queue_returns<T>(q: Seq<T>, cap: nat, op: RingOp<T>) -> bool {
    match op {
        RingOp::Push(_, e) => e == (if q.len() >= cap {
            Some(q[0])
        } else {
            None
        }),
        RingOp::Pop(r) => r == (if q.len() == 0 {
            None
        } else {
            Some(q[0])
        }),
        RingOp::Clear => true,
    }
}

/// The pushes onto a full queue among `ops` since the last clear.
pub open spec fn overwrites_after<T>(q: Seq<T>, cap: nat, ops: Seq<RingOp<T>>) -> nat
    decreases ops.len(),
{
    if ops.len() == 0 {
        0
    } else {
        let k = overwrites_after(q, cap, ops.drop_last());
        match ops.last() {
            RingOp::Push(_, _) => if queue_after(q, cap, ops.drop_last()).len() >= cap {
                k + 1
            } else {
                k
            },
            RingOp::Pop(_) => k,
            RingOp::Clear => 0,
        }
    }
}

/// Used by one owner, a ring is a queue of at most `cap()` items: after
/// each operation it holds what the queue holds, and push and pop return
/// what the queue drops. `rings[i + 1]` is `rings[i]` after `ops[i]`, and
/// `rings[0]` is in step, as `new` and `clear` leave it. This holds as long
/// as every push onto a ring that is not full comes when the overwriting
/// pushes since the last clear number a multiple of the capacity; otherwise
/// that push writes at the write position an overwriting push left behind.
pub proof fn law_ring_is_a_queue<T: Copy + Default>(
    rings: Seq<LockFreeRingBuffer<T>>,
    ops: Seq<RingOp<T>>,
)
    requires
        rings.len() == ops.len() + 1,
        rings[0].wf(),
        rings[0].in_step(),
        forall|i: int| 0 <= i < ops.len() ==> ring_step(rings[i], rings[i + 1], #[trigger] ops[i]),
        forall|i: int|
            0 <= i < ops.len() && #[trigger] ops[i] is Push && queue_after(
                rings[0].items(),
                rings[0].cap(),
                ops.take(i),
            ).len() < rings[0].cap() ==> overwrites_after(rings[0].items(), rings[0].cap(), ops.take(i))
                % rings[0].cap() == 0,
    ensures
        forall|j: int|
            0 <= j <= ops.len() ==> #[trigger] rings[j].items() == queue_after(
                rings[0].items(),
                rings[0].cap(),
                ops.take(j),
            ),
        forall|i: int|
            0 <= i < ops.len() ==> queue_returns(
                queue_after(rings[0].items(), rings[0].cap(), ops.take(i)),
                rings[0].cap(),
                #[trigger] ops[i],
            ),
{
    assert forall|j: int| 0 <= j <= ops.len() implies #[trigger] rings[j].items() == queue_after(
        rings[0].items(),
        rings[0].cap(),
        ops.take(j),
    ) by {
        lemma_ring_prefix(rings, ops, j);
    }
    assert forall|i: int| 0 <= i < ops.len() implies queue_returns(
        queue_after(rings[0].items(), rings[0].cap(), ops.take(i)),
        rings[0].cap(),
        #[trigger] ops[i],
    ) by {
        lemma_ring_prefix(rings, ops, i);
        lemma_ring_step(rings[i], rings[i + 1], ops[i], overwrites_after(
            rings[0].items(),
            rings[0].cap(),
            ops.take(i),
        ));
    }
}

/// The write position of a ring lies `k` slots before where the held items
/// end.
pub open spec fn offset_by<T: Copy + Default>(a: LockFreeRingBuffer<T>, k: nat) -> bool {
    (a.tail_slot() as int + k) % (a.cap() as int) == (a.head_slot() as int + a.held()) % (a.cap() as int)
}

proof fn lemma_ring_step<T: Copy + Default>(
    a: LockFreeRingBuffer<T>,
    b: LockFreeRingBuffer<T>,
    op: RingOp<T>,
    k: nat,
)
    requires
        a.wf(),
        offset_by(a, k),
        ring_step(a, b, op),
        op is Push && a.held() < a.cap() ==> k % a.cap() == 0,
    ensures
        b.wf(),
        b.cap() == a.cap(),
        b.items() == queue_step(a.items(), a.cap(), op),
        queue_returns(a.items(), a.cap(), op),
        offset_by(
            b,
            match op {
                RingOp::Push(_, _) => if a.held() >= a.cap() {
                    k + 1
                } else {
                    k
                },
                RingOp::Pop(_) => k,
                RingOp::Clear => 0,
            },
        ),
{
    a.lemma_bounds();
    let cap = a.cap() as int;
    let t = a.tail_slot() as int;
    let h = a.head_slot() as int;
    let c = a.held() as int;
    assert(a.items().len() == c);
    match op {
        RingOp::Push(v, e) => {
            if a.held() >= a.cap() {
                // (t + k + 1) % cap == ((h + 1) % cap + c) % cap
                lemma_add_mod_noop_right(1, t + k, cap);
                lemma_add_mod_noop_right(1, h + c, cap);
                lemma_add_mod_noop_right(c, h + 1, cap);
                assert((t + (k + 1)) % cap == (b.head_slot() as int + b.held()) % cap);
            } else {
                // The ring is in step: k is a multiple of the capacity.
                lemma_add_mod_noop_right(t, k as int, cap);
                assert((k as int) % cap == 0);
                vstd::arithmetic::div_mod::lemma_small_mod(t as nat, cap as nat);
                assert(a.in_step());
                lemma_add_mod_noop_right(k as int, t + 1, cap);
                lemma_add_mod_noop_right(1, t + k, cap);
                lemma_add_mod_noop_right(1, h + c, cap);
                assert((b.tail_slot() as int + k) % cap == (b.head_slot() as int + b.held()) % cap);
            }
        },
        RingOp::Pop(r) => {
            if a.held() > 0 {
                lemma_add_mod_noop_right(c - 1, h + 1, cap);
                assert((b.tail_slot() as int + k) % cap == (b.head_slot() as int + b.held()) % cap);
            }
        },
        RingOp::Clear => {
            vstd::arithmetic::div_mod::lemma_small_mod(0, cap as nat);
        },
    }
}

/// `(x + y % m) % m == (x + y) % m`
proof fn lemma_add_mod_noop_right(x: int, y: int, m: int)
    requires
        0 < m,
    ensures
        (x + y % m) % m == (x + y) % m,
{
    vstd::arithmetic::div_mod::lemma_add_mod_noop_right(x, y, m);
}

proof fn lemma_ring_prefix<T: Copy + Default>(
    rings: Seq<LockFreeRingBuffer<T>>,
    ops: Seq<RingOp<T>>,
    j: int,
)
    requires
        rings.len() == ops.len() + 1,
        rings[0].wf(),
        rings[0].in_step(),
        forall|i: int| 0 <= i < ops.len() ==> ring_step(rings[i], rings[i + 1], #[trigger] ops[i]),
        forall|i: int|
            0 <= i < ops.len() && #[trigger] ops[i] is Push && queue_after(
                rings[0].items(),
                rings[0].cap(),
                ops.take(i),
            ).len() < rings[0].cap() ==> overwrites_after(rings[0].items(), rings[0].cap(), ops.take(i))
                % rings[0].cap() == 0,
        0 <= j <= ops.len(),
    ensures
        rings[j].wf(),
        rings[j].cap() == rings[0].cap(),
        rings[j].items() == queue_after(rings[0].items(), rings[0].cap(), ops.take(j)),
        offset_by(rings[j], overwrites_after(rings[0].items(), rings[0].cap(), ops.take(j))),
    decreases j,
{
    let q0 = rings[0].items();
    let cap = rings[0].cap();
    if j == 0 {
        assert(ops.take(0) =~= Seq::<RingOp<T>>::empty());
        rings[0].lemma_bounds();
        vstd::arithmetic::div_mod::lemma_small_mod(rings[0].tail_slot(), cap);
    } else {
        lemma_ring_prefix(rings, ops, j - 1);
        let a = rings[j - 1];
        let op = ops[j - 1];
        let k = overwrites_after(q0, cap, ops.take(j - 1));
        assert(ops.take(j).drop_last() =~= ops.take(j - 1));
        assert(ops.take(j).last() == op);
        assert(ring_step(a, rings[j], op));
        lemma_ring_step(a, rings[j], op, k);
        assert(a.items().len() == a.held());
        assert(overwrites_after(q0, cap, ops.take(j)) == (match op {
            RingOp::Push(_, _) => if a.held() >= a.cap() {
                k + 1
            } else {
                k
            },
            RingOp::Pop(_) => k,
            RingOp::Clear => 0,
        }));
    }
}

} // verus!
