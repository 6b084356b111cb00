//! Fixed-capacity FIFO of keyboard scancodes, filled by the keyboard
//! interrupt and drained by foreground polling code.
use vstd::prelude::*;

verus! {

/// Number of slots; one slot always stays empty so that a full buffer can be
/// told apart from an empty one.
pub const BUFFER_SIZE: usize = 32;

/// The most events the buffer holds at once.
pub open spec fn max_pending() -> nat {
    (BUFFER_SIZE - 1) as nat
}

/// Pending events after a push of `x`: appended, or dropped when full.
pub open spec fn pushed(q: Seq<u8>, x: u8) -> Seq<u8> {
    if q.len() < max_pending() {
        q.push(x)
    } else {
        q
    }
}

/// What a pop returns on the pending events `q`.
pub open spec fn front(q: Seq<u8>) -> Option<u8> {
    if q.len() == 0 {
        None
    } else {
        Some(q[0])
    }
}

/// Pending events after a flush.
pub open spec fn flushed(q: Seq<u8>) -> Seq<u8> {
    Seq::empty()
}

/// Pending events after a pop.
pub open spec fn popped(q: Seq<u8>) -> Seq<u8> {
    if q.len() == 0 {
        q
    } else {
        q.drop_first()
    }
}

pub struct ScancodeBuffer {
    buf: [u8; BUFFER_SIZE],
    head: usize,
    tail: usize,
}

impl View for ScancodeBuffer {
    type V = Seq<u8>;

    /// The pending events, oldest first.
    closed spec fn view(&self) -> Seq<u8> {
        let n = BUFFER_SIZE as int;
        let len = (self.head as int - self.tail as int + n) % n;
        Seq::new(len as nat, |k: int| self.buf@[(self.tail as int + k) % n])
    }
}

impl ScancodeBuffer {
    pub closed spec fn wf(&self) -> bool {
        self.head < BUFFER_SIZE && self.tail < BUFFER_SIZE
    }

    pub fn new() -> (r: Self)
        ensures
            r.wf(),
            r@ == Seq::<u8>::empty(),
    {
        let r = ScancodeBuffer { buf: [0u8; BUFFER_SIZE], head: 0, tail: 0 };
        assert(r@ =~= Seq::<u8>::empty());
        r
    }

    /// Producer side: appends `scancode` unless the buffer is full, in which
    /// case the new event is dropped.
    pub fn push(&mut self, scancode: u8)
        requires
            old(self).wf(),
        ensures
            final(self).wf(),
            final(self)@ == pushed(old(self)@, scancode),
    {
        let next_head: usize = if self.head + 1 == BUFFER_SIZE { 0 } else { self.head + 1 };
        if next_head != self.tail {
            let ghost q = self@;
            self.buf[self.head] = scancode;
            self.head = next_head;
            assert(self@ =~= q.push(scancode));
        }
    }

    /// Consumer side: takes the oldest pending event, if any.
    pub fn pop(&mut self) -> (r: Option<u8>)
        requires
            old(self).wf(),
        ensures
            final(self).wf(),
            r == front(old(self)@),
            final(self)@ == popped(old(self)@),
    {
        if self.head == self.tail {
            None
        } else {
            let ghost q = self@;
            let scancode = self.buf[self.tail];
            self.tail = if self.tail + 1 == BUFFER_SIZE { 0 } else { self.tail + 1 };
            assert(self@ =~= q.drop_first());
            Some(scancode)
        }
    }

    /// Discards every pending event.
    pub fn flush(&mut self)
        requires
            old(self).wf(),
        ensures
            final(self).wf(),
            final(self)@ == flushed(old(self)@),
    {
        self.head = 0;
        self.tail = 0;
        assert(self@ =~= Seq::<u8>::empty());
    }
}

/// One call on the buffer, for stating laws over sequences of calls.
pub enum BufferOp {
    Push(u8),
    Pop,
}

/// Pending events and delivered events (as a sequence) after one call.
pub open spec fn step(q: Seq<u8>, op: BufferOp) -> (Seq<u8>, Seq<u8>) {
    match op {
        BufferOp::Push(x) => (pushed(q, x), Seq::empty()),
        BufferOp::Pop => (
            popped(q),
            match front(q) {
                Some(x) => seq![x],
                None => Seq::empty(),
            },
        ),
    }
}

/// Pending events, and every event handed out by a pop in order, after
/// running `ops` from the pending events `q`.
pub open spec fn run_ops(q: Seq<u8>, ops: Seq<BufferOp>) -> (Seq<u8>, Seq<u8>)
    decreases ops.len(),
{
    if ops.len() == 0 {
        (q, Seq::empty())
    } else {
        let (q1, out1) = step(q, ops[0]);
        let (q2, out2) = run_ops(q1, ops.drop_first());
        (q2, out1 + out2)
    }
}

/// The values pushed by `ops`, in order.
pub open spec fn pushes_of(ops: Seq<BufferOp>) -> Seq<u8>
    decreases ops.len(),
{
    if ops.len() == 0 {
        Seq::empty()
    } else {
        match ops[0] {
            BufferOp::Push(x) => seq![x] + pushes_of(ops.drop_first()),
            BufferOp::Pop => pushes_of(ops.drop_first()),
        }
    }
}

/// Every push in `ops`, run from `q`, finds room in the buffer.
pub open spec fn never_full(q: Seq<u8>, ops: Seq<BufferOp>) -> bool
    decreases ops.len(),
{
    if ops.len() == 0 {
        true
    } else {
        &&& (ops[0] is Push ==> q.len() < max_pending())
        &&& never_full(step(q, ops[0]).0, ops.drop_first())
    }
}

/// A push of each value of `xs`, in order.
pub open spec fn push_ops(xs: Seq<u8>) -> Seq<BufferOp> {
    xs.map_values(|x: u8| BufferOp::Push(x))
}

/// `k` pops.
pub open spec fn pop_ops(k: nat) -> Seq<BufferOp> {
    Seq::new(k, |i: int| BufferOp::Pop)
}

/// First-in first-out: as long as no push meets a full buffer, what the pops
/// hand out, followed by what is still pending, is exactly what was pending
/// at the start followed by everything pushed, in order. Nothing is lost,
/// duplicated or reordered.
pub proof fn lemma_fifo(q: Seq<u8>, ops: Seq<BufferOp>)
    requires
        never_full(q, ops),
    ensures
        run_ops(q, ops).1 + run_ops(q, ops).0 == q + pushes_of(ops),
    decreases ops.len(),
{
    if ops.len() > 0 {
        let (q1, out1) = step(q, ops[0]);
        lemma_fifo(q1, ops.drop_first());
        match ops[0] {
            BufferOp::Push(x) => {
                assert(q1 == q.push(x));
                assert(q1 + pushes_of(ops.drop_first()) =~= q + pushes_of(ops));
            },
            BufferOp::Pop => {
                if q.len() > 0 {
                    assert(out1 + q1 =~= q);
                }
            },
        }
        let (q2, out2) = run_ops(q1, ops.drop_first());
        assert(out1 + out2 + q2 =~= out1 + (out2 + q2));
        if q.len() == 0 {
            assert(out1 + (out2 + q2) =~= out2 + q2);
        } else {
            assert(out1 + (q1 + pushes_of(ops.drop_first())) =~= (out1 + q1) + pushes_of(ops.drop_first()));
        }
    }
}

/// Running `a` then `b` is running their concatenation.
pub proof fn lemma_run_ops_append(q: Seq<u8>, a: Seq<BufferOp>, b: Seq<BufferOp>)
    ensures
        run_ops(q, a + b) == ({
            let (q1, o1) = run_ops(q, a);
            let (q2, o2) = run_ops(q1, b);
            (q2, o1 + o2)
        }),
    decreases a.len(),
{
    if a.len() == 0 {
        assert(a + b =~= b);
        assert(Seq::<u8>::empty() + run_ops(q, b).1 =~= run_ops(q, b).1);
    } else {
        let (q1, o1) = step(q, a[0]);
        assert((a + b).drop_first() =~= a.drop_first() + b);
        lemma_run_ops_append(q1, a.drop_first(), b);
        let (qa, oa) = run_ops(q1, a.drop_first());
        let (qb, ob) = run_ops(qa, b);
        assert(o1 + (oa + ob) =~= (o1 + oa) + ob);
    }
}

proof fn lemma_run_pushes(q: Seq<u8>, xs: Seq<u8>)
    ensures
        run_ops(q, push_ops(xs)).1 == Seq::<u8>::empty(),
        run_ops(q, push_ops(xs)).0 == (if q.len() + xs.len() <= max_pending() {
            q + xs
        } else if q.len() >= max_pending() {
            q
        } else {
            q + xs.take(max_pending() - q.len())
        }),
    decreases xs.len(),
{
    if xs.len() > 0 {
        let q1 = pushed(q, xs[0]);
        assert(push_ops(xs).drop_first() =~= push_ops(xs.drop_first()));
        lemma_run_pushes(q1, xs.drop_first());
        if q.len() < max_pending() {
            assert(q1 == q.push(xs[0]));
            if q.len() + xs.len() <= max_pending() {
                assert(q1 + xs.drop_first() =~= q + xs);
            } else if q1.len() >= max_pending() {
                assert(q1 =~= q + xs.take(max_pending() - q.len()));
            } else {
                assert(q1 + xs.drop_first().take(max_pending() - q1.len()) =~= q + xs.take(
                    max_pending() - q.len(),
                ));
            }
        }
        assert(Seq::<u8>::empty() + Seq::<u8>::empty() =~= Seq::<u8>::empty());
    } else {
        assert(q + xs =~= q);
    }
}

proof fn lemma_run_pops(q: Seq<u8>, k: nat)
    requires
        k >= q.len(),
    ensures
        run_ops(q, pop_ops(k)) == (Seq::<u8>::empty(), q),
    decreases k,
{
    if k > 0 {
        assert(pop_ops(k).drop_first() =~= pop_ops((k - 1) as nat));
        lemma_run_pops(popped(q), (k - 1) as nat);
        if q.len() == 0 {
            assert(Seq::<u8>::empty() + q =~= q);
        } else {
            assert(seq![q[0]] + q.drop_first() =~= q);
        }
    } else {
        assert(q.len() == 0);
        assert(q =~= Seq::<u8>::empty());
    }
}

/// Overflow drops the newest: pushing any values into an empty buffer and
/// then draining it hands out the oldest `BUFFER_SIZE - 1` of them (all of
/// them when there are fewer), in order.
pub proof fn lemma_overflow_keeps_oldest(xs: Seq<u8>, k: nat)
    requires
        k >= max_pending(),
    ensures
        run_ops(Seq::empty(), push_ops(xs) + pop_ops(k)) == (
            Seq::<u8>::empty(),
            xs.take(if xs.len() <= max_pending() { xs.len() as int } else { max_pending() as int }),
        ),
{
    let e = Seq::<u8>::empty();
    lemma_run_ops_append(e, push_ops(xs), pop_ops(k));
    lemma_run_pushes(e, xs);
    let q1 = run_ops(e, push_ops(xs)).0;
    assert(e + xs =~= xs);
    assert(e + xs.take(max_pending() as int) =~= xs.take(max_pending() as int));
    assert(xs.take(xs.len() as int) =~= xs);
    lemma_run_pops(q1, k);
    assert(e + q1 =~= q1);
}

/// Flushing empties the buffer, a second flush changes nothing, and a pop
/// right after a flush hands out nothing.
pub proof fn lemma_flush(q: Seq<u8>)
    ensures
        flushed(q).len() == 0,
        flushed(flushed(q)) == flushed(q),
        front(flushed(q)) == None::<u8>,
        q.len() == 0 ==> flushed(q) == q,
{
    if q.len() == 0 {
        assert(q =~= Seq::<u8>::empty());
    }
}

} // verus!
