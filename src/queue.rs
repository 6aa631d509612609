use vstd::prelude::*;

verus! {

/// A fixed-capacity FIFO ring buffer holding at most `N` values.
pub struct Queue<T: Copy, const N: usize> {
    buf: [T; N],
    read_pos: usize,
    write_pos: usize,
    count: usize,
}

impl<T: Copy, const N: usize> View for Queue<T, N> {
    type V = Seq<T>;

    /// The stored values, oldest first.
    closed spec fn view(&self) -> Seq<T> {
        Seq::new(self.count as nat, |i: int| self.buf@[(self.read_pos + i) % (N as int)])
    }
}

impl<T: Copy, const N: usize> Queue<T, N> {
    /// Ring-buffer bookkeeping: the positions stay inside the buffer and the
    /// write position sits `count` slots after the read position.
    pub closed spec fn wf(&self) -> bool {
        &&& self.count <= N
        &&& N == 0 ==> self.read_pos == 0 && self.write_pos == 0
        &&& N > 0 ==> {
            &&& self.read_pos < N
            &&& self.write_pos < N
            &&& self.write_pos == (self.read_pos + self.count) % (N as int)
        }
    }

    /// A queue never holds more than its capacity.
    pub proof fn lemma_len_bounded(&self)
        requires
            self.wf(),
        ensures
            self@.len() <= N,
    {
    }

    /// An empty queue whose slots are all filled with `initial_val`.
    pub fn new(initial_val: T) -> (r: Self)
        ensures
            r.wf(),
            r@ == Seq::<T>::empty(),
    {
        let r = Queue { buf: [initial_val; N], read_pos: 0, write_pos: 0, count: 0 };
        proof {
            if N > 0 {
                vstd::arithmetic::div_mod::lemma_small_mod(0, N as nat);
            }
            assert(r@ =~= Seq::<T>::empty());
        }
        r
    }

    pub fn is_empty(&self) -> (r: bool)
        requires
            self.wf(),
        ensures
            r == (self@.len() == 0),
    {
        self.count == 0
    }

    pub fn is_full(&self) -> (r: bool)
        requires
            self.wf(),
        ensures
            r == (self@.len() == N),
    {
        self.count == N
    }

    /// Removes and returns the oldest value, or `None` when the queue is empty.
    pub fn pop(&mut self) -> (r: Option<T>)
        requires
            old(self).wf(),
        ensures
            final(self).wf(),
            old(self)@.len() == 0 ==> r == None::<T> && final(self)@ == old(self)@,
            old(self)@.len() > 0 ==> r == Some(old(self)@[0]) && final(self)@ == old(self)@.drop_first(),
    {
        if self.is_empty() {
            return None;
        }
        let val = self.buf[self.read_pos];
        let ghost prev = self@;
        proof {
            vstd::arithmetic::div_mod::lemma_small_mod(self.read_pos as nat, N as nat);
        }
        self.read_pos = (self.read_pos + 1) % N;
        self.count = self.count - 1;
        proof {
            assert forall|i: int| 0 <= i < self.count implies #[trigger] self@[i] == prev[i + 1] by {
                lemma_mod_step(old(self).read_pos as int, i, N as int);
            }
            assert(self@ =~= prev.drop_first());
            lemma_mod_step(old(self).read_pos as int, self.count as int, N as int);
        }
        Some(val)
    }

    /// Appends `val` at the back; when the queue is full it is handed back in
    /// `Err` and nothing changes.
    pub fn push(&mut self, val: T) -> (r: Result<(), T>)
        requires
            old(self).wf(),
        ensures
            final(self).wf(),
            old(self)@.len() == N ==> r == Err::<(), T>(val) && final(self)@ == old(self)@,
            old(self)@.len() < N ==> r == Ok::<(), T>(()) && final(self)@ == old(self)@.push(val),
    {
        if self.is_full() {
            return Err(val);
        }
        let ghost prev = self@;
        self.buf[self.write_pos] = val;
        self.write_pos = (self.write_pos + 1) % N;
        self.count = self.count + 1;
        proof {
            assert forall|i: int| 0 <= i < self.count implies #[trigger] self@[i] == prev.push(val)[i] by {
                if i < self.count - 1 {
                    lemma_mod_distinct(self.read_pos as int, i, self.count - 1, N as int);
                }
            }
            assert(self@ =~= prev.push(val));
            lemma_mod_add_one(self.read_pos + old(self).count, N as int);
        }
        Ok(())
    }
}

impl<T: Copy + Default, const N: usize> Default for Queue<T, N> {
    fn default() -> (r: Self)
        ensures
            r.wf(),
            r@ == Seq::<T>::empty(),
    {
        Self::new(T::default())
    }
}

/// One operation on a queue.
pub enum QueueOp<T> {
    Push(T),
    Pop,
}

/// Runs `ops` on a queue of capacity `cap` that holds `q`, each step as
/// `push` and `pop` specify it. Yields the final contents, the values that
/// pushes accepted, and the values that pops returned, each in order.
pub open spec fn run_ops<T>(q: Seq<T>, ops: Seq<QueueOp<T>>, cap: nat) -> (Seq<T>, Seq<T>, Seq<T>)
    decreases ops.len(),
{
    if ops.len() == 0 {
        (q, Seq::empty(), Seq::empty())
    } else {
        let (contents, accepted, popped) = run_ops(q, ops.drop_last(), cap);
        match ops.last() {
            QueueOp::Push(x) => if contents.len() < cap {
                (contents.push(x), accepted.push(x), popped)
            } else {
                (contents, accepted, popped)
            },
            QueueOp::Pop => if contents.len() > 0 {
                (contents.drop_first(), accepted, popped.push(contents[0]))
            } else {
                (contents, accepted, popped)
            },
        }
    }
}

/// First in, first out, within the capacity: over any sequence of pushes
/// and pops the queue never holds more than its capacity, and what it held
/// at the start followed by every accepted value equals every popped value
/// followed by what it holds at the end. So values come out in the order
/// they went in, and a pop right after a push into an empty queue returns
/// the pushed value.
pub proof fn lemma_queue_fifo<T>(q: Seq<T>, ops: Seq<QueueOp<T>>, cap: nat)
    requires
        q.len() <= cap,
    ensures
        run_ops(q, ops, cap).0.len() <= cap,
        q + run_ops(q, ops, cap).1 == run_ops(q, ops, cap).2 + run_ops(q, ops, cap).0,
    decreases ops.len(),
{
    if ops.len() > 0 {
        lemma_queue_fifo(q, ops.drop_last(), cap);
        let (c, a, p) = run_ops(q, ops.drop_last(), cap);
        match ops.last() {
            QueueOp::Push(x) => {
                assert(q + a.push(x) =~= (q + a).push(x));
                assert(p + c.push(x) =~= (p + c).push(x));
            },
            QueueOp::Pop => {
                if c.len() > 0 {
                    assert(p.push(c[0]) + c.drop_first() =~= p + c);
                }
            },
        }
    } else {
        assert(q + Seq::<T>::empty() =~= Seq::<T>::empty() + q);
    }
}

/// The operations that push each of `xs` in turn.
pub open spec fn pushes<T>(xs: Seq<T>) -> Seq<QueueOp<T>> {
    xs.map_values(|x: T| QueueOp::Push(x))
}

/// Overflow: pushing one value more than the capacity into an empty queue
/// accepts the first `cap` values and rejects the last, and the queue then
/// holds exactly the first `cap` values in push order. (`push` hands the
/// rejected value back unchanged.)
pub proof fn lemma_push_beyond_capacity<T>(xs: Seq<T>, cap: nat)
    requires
        xs.len() == cap + 1,
    ensures
        run_ops(Seq::empty(), pushes(xs), cap).0 == xs.take(cap as int),
        run_ops(Seq::empty(), pushes(xs), cap).1 == xs.take(cap as int),
        run_ops(Seq::empty(), pushes(xs), cap).2 == Seq::<T>::empty(),
{
    lemma_pushes_within_capacity(xs, cap, cap);
    assert(pushes(xs).drop_last() =~= pushes(xs.take(cap as int)));
    assert(pushes(xs).last() == QueueOp::Push(xs.last()));
}

proof fn lemma_pushes_within_capacity<T>(xs: Seq<T>, k: nat, cap: nat)
    requires
        k <= cap,
        k <= xs.len(),
    ensures
        run_ops(Seq::empty(), pushes(xs.take(k as int)), cap) == (
            xs.take(k as int),
            xs.take(k as int),
            Seq::<T>::empty(),
        ),
    decreases k,
{
    if k == 0 {
        assert(pushes(xs.take(0)) =~= Seq::<QueueOp<T>>::empty());
        assert(xs.take(0) =~= Seq::<T>::empty());
    } else {
        lemma_pushes_within_capacity(xs, (k - 1) as nat, cap);
        let ops = pushes(xs.take(k as int));
        assert(ops.drop_last() =~= pushes(xs.take(k - 1)));
        assert(ops.last() == QueueOp::Push(xs[k - 1]));
        assert(xs.take(k - 1).push(xs[k - 1]) =~= xs.take(k as int));
    }
}

proof fn lemma_mod_step(a: int, i: int, n: int)
    requires
        0 <= a,
        0 <= i,
        n > 0,
    ensures
        ((a + 1) % n + i) % n == (a + (i + 1)) % n,
{
    vstd::arithmetic::div_mod::lemma_add_mod_noop(a + 1, i, n);
    vstd::arithmetic::div_mod::lemma_add_mod_noop((a + 1) % n, i, n);
    vstd::arithmetic::div_mod::lemma_mod_twice(a + 1, n);
}

proof fn lemma_mod_add_one(x: int, n: int)
    requires
        0 <= x,
        n > 0,
    ensures
        (x % n + 1) % n == (x + 1) % n,
{
    vstd::arithmetic::div_mod::lemma_add_mod_noop(x, 1, n);
    vstd::arithmetic::div_mod::lemma_add_mod_noop(x % n, 1, n);
    vstd::arithmetic::div_mod::lemma_mod_twice(x, n);
}

proof fn lemma_mod_distinct(a: int, i: int, j: int, n: int)
    requires
        0 <= a,
        0 <= i < j < n,
    ensures
        (a + i) % n != (a + j) % n,
{
    if (a + i) % n == (a + j) % n {
        vstd::arithmetic::div_mod::lemma_fundamental_div_mod(a + i, n);
        vstd::arithmetic::div_mod::lemma_fundamental_div_mod(a + j, n);
        assert((a + j) - (a + i) == n * ((a + j) / n - (a + i) / n)) by (nonlinear_arith)
            requires
                a + i == n * ((a + i) / n) + (a + i) % n,
                a + j == n * ((a + j) / n) + (a + j) % n,
                (a + i) % n == (a + j) % n,
        ;
        let d = (a + j) / n - (a + i) / n;
        assert(j - i == n * d);
        if d <= 0 {
            assert(n * d <= 0) by (nonlinear_arith)
                requires
                    n > 0,
                    d <= 0,
            ;
        } else {
            assert(n * d >= n) by (nonlinear_arith)
                requires
                    n > 0,
                    d >= 1,
            ;
        }
    }
}

} // verus!
