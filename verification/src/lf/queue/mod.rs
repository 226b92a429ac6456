use crate::lf::hazard_ptr::manager::Manager;
use crate::lf::hazard_ptr::mutator::Mutator;
use vstd::prelude::*;

verus! {

/// A cell of the queue. `val` is empty in the dummy cell at the head.
struct Node<T> {
    val: Option<T>,
    next: Option<usize>,
}

/// A first-in first-out queue kept as a linked chain of cells, headed by a
/// dummy cell: `head` is the dummy, each cell links to the next one and
/// `tail` is the last cell. Cells that leave the chain are retired through a
/// hazard-pointer domain and reused once it reclaims them.
pub struct LockFreeQueue<T> {
    head: usize,
    tail: usize,
    nodes: Vec<Node<T>>,
    free: Vec<usize>,
    manager: Manager,
    chain: Ghost<Seq<usize>>,
}

impl<T> View for LockFreeQueue<T> {
    type V = Seq<T>;

    /// The values in the queue, oldest first.
    closed spec fn view(&self) -> Seq<T> {
        Seq::new(
            (self.chain@.len() - 1) as nat,
            |i: int| self.nodes@[self.chain@[i + 1] as int].val->0,
        )
    }
}

impl<T> LockFreeQueue<T> {
    /// The chain starts at `head`, ends at `tail`, visits no cell twice and
    /// follows the links; every cell after the dummy holds a value; the cells
    /// ready for reuse lie outside the chain; the hazard domain has the one
    /// record this queue uses and nothing retired.
    pub closed spec fn inv(&self) -> bool {
        let c = self.chain@;
        let n = self.nodes@;
        &&& self.manager.wf()
        &&& self.manager.is_quiescent()
        &&& self.manager.threads() == 1
        &&& c.len() >= 1
        &&& c[0] == self.head
        &&& c.last() == self.tail
        &&& c.no_duplicates()
        &&& forall|i: int| 0 <= i < c.len() ==> #[trigger] c[i] < n.len()
        &&& forall|i: int| 0 <= i < c.len() - 1 ==> n[#[trigger] c[i] as int].next == Some(c[i + 1])
        &&& n[self.tail as int].next == None::<usize>
        &&& forall|i: int| 1 <= i < c.len() ==> n[#[trigger] c[i] as int].val is Some
        &&& self.free@.no_duplicates()
        &&& forall|j: int|
            0 <= j < self.free@.len() ==> #[trigger] self.free@[j] < n.len() && !c.contains(
                self.free@[j],
            )
    }

    /// The number of cells allocated so far.
    pub closed spec fn cells(&self) -> nat {
        self.nodes@.len()
    }

    /// The number of cells allocated so far.
    pub fn allocated_cells(&self) -> (n: usize)
        ensures
            n == self.cells(),
    {
        self.nodes.len()
    }

    /// An empty queue: a lone dummy cell.
    pub fn new() -> (q: Self)
        ensures
            q.inv(),
            q.cells() == 1,
            q@ == Seq::<T>::empty(),
    {
        let mut nodes: Vec<Node<T>> = Vec::new();
        nodes.push(Node { val: None, next: None });
        let mut manager = Manager::new();
        let _ = manager.make_mutator(None);
        let ghost c = seq![0usize];
        let q = LockFreeQueue {
            head: 0,
            tail: 0,
            nodes,
            free: Vec::new(),
            manager,
            chain: Ghost(c),
        };
        assert(q@ =~= Seq::<T>::empty());
        q
    }

    /// Appends `value` at the back of the queue.
    pub fn push(&mut self, value: T)
        requires
            old(self).inv(),
            old(self).cells() < usize::MAX,
        ensures
            final(self).inv(),
            final(self)@ == old(self)@.push(value),
            final(self).cells() <= old(self).cells() + 1,
    {
        let mutator = self.manager.make_mutator(Some(0));
        let top_guard = mutator.get_hazard_ptr(0);
        let ghost m0 = self.manager;
        let ghost c = self.chain@;
        let ghost old_view = self@;
        // Take a cell for the new value: a reclaimed one when there is one.
        let new_node = Node { val: Some(value), next: None };
        let idx = match self.free.pop() {
            Some(i) => {
                assert(old(self).free@.contains(i));
                self.nodes[i] = new_node;
                i
            },
            None => {
                self.nodes.push(new_node);
                self.nodes.len() - 1
            },
        };
        assert(!c.contains(idx));
        // Link it after the tail, which is the last cell, and move the tail.
        let curr = top_guard.protect(&mut self.manager.thread_states[0], Some(self.tail));
        let t = curr.unwrap();
        {
            let node = &mut self.nodes[t];
            node.next = Some(idx);
        }
        self.tail = idx;
        top_guard.reset(&mut self.manager.thread_states[0]);
        proof {
            assert(old(self).manager.state(0).retired_ptrs@.len() == 0);
            assert(m0.state(0) == old(self).manager.state(0));
            assert forall|i: int| 0 <= i < self.manager.threads() implies (
            #[trigger] self.manager.state(i)).retired_ptrs@.len() == 0 by {
                assert(i == 0);
            }
            let c2 = c.push(idx);
            self.chain@ = c2;
            assert forall|i: int| 0 <= i < c2.len() - 1 implies self.nodes@[#[trigger] c2[i] as int].next
                == Some(c2[i + 1]) by {
                if i < c.len() - 1 {
                    assert(c[i] != t);
                    assert(c[i] != idx);
                }
            }
            assert forall|i: int| 1 <= i < c2.len() implies self.nodes@[#[trigger] c2[i] as int].val is Some by {
                if i < c.len() {
                    assert(c[i] != idx);
                }
            }
            assert forall|j: int| 0 <= j < self.free@.len() implies #[trigger] self.free@[j]
                < self.nodes@.len() && !c2.contains(self.free@[j]) by {
                assert(old(self).free@[j] == self.free@[j]);
                if self.free@[j] == idx {
                    assert(old(self).free@[old(self).free@.len() - 1] == idx);
                }
            }
            assert(self@ =~= old_view.push(value));
        }
    }

    /// Removes and returns the value at the front of the queue; `None` when
    /// the queue is empty. The cell that stops being the dummy is retired.
    pub fn try_pop(&mut self) -> (r: Option<T>)
        requires
            old(self).inv(),
        ensures
            final(self).inv(),
            final(self).cells() == old(self).cells(),
            old(self)@.len() == 0 ==> r.is_none() && final(self)@ == old(self)@,
            old(self)@.len() > 0 ==> r == Some(old(self)@[0]) && final(self)@ == old(
                self,
            )@.drop_first(),
            (final(self)@, r) == pop_front(old(self)@),
    {
        let mutator = self.manager.make_mutator(Some(0));
        let top_guard = mutator.get_hazard_ptr(0);
        let back_guard = mutator.get_hazard_ptr(1);
        let ghost m0 = self.manager;
        let ghost c = self.chain@;
        let ghost old_view = self@;
        proof {
            assert(old(self).manager.state(0).retired_ptrs@.len() == 0);
            assert(m0.state(0) == old(self).manager.state(0));
        }
        let h = back_guard.protect(&mut self.manager.thread_states[0], Some(self.head)).unwrap();
        let next_h = top_guard.protect(&mut self.manager.thread_states[0], self.nodes[h].next);
        match next_h {
            None => {
                back_guard.reset(&mut self.manager.thread_states[0]);
                top_guard.reset(&mut self.manager.thread_states[0]);
                proof {
                    assert(self.manager.state(0).retired_ptrs@.len() == 0);
                    assert forall|i: int| 0 <= i < self.manager.threads() implies (
                    #[trigger] self.manager.state(i)).retired_ptrs@.len() == 0 by {
                        assert(i == 0);
                    }
                    assert(c.len() == 1);
                    assert(self@ =~= old_view);
                }
                None
            },
            Some(n) => {
                proof {
                    assert(c.len() > 1);
                    assert(n == c[1]);
                }
                // The next cell becomes the dummy; its value leaves the queue.
                self.head = n;
                let v = {
                    let node = &mut self.nodes[n];
                    node.val.take()
                };
                back_guard.reset(&mut self.manager.thread_states[0]);
                top_guard.reset(&mut self.manager.thread_states[0]);
                proof {
                    assert(self.manager.state(0).retired_ptrs@.len() == 0);
                    assert(!Mutator::defers(self.manager, 0, h));
                }
                let freed = mutator.retire(&mut self.manager, h);
                proof {
                    assert(freed@ =~= seq![h]);
                }
                let ghost free_before = self.free@;
                let ghost m2 = self.manager;
                let ghost nodes2 = self.nodes@;
                let mut i: usize = 0;
                while i < freed.len()
                    invariant
                        self.manager == m2,
                        self.nodes@ == nodes2,
                        self.head == n,
                        self.tail == old(self).tail,
                        self.chain == old(self).chain,
                        i <= freed@.len(),
                        freed@ == seq![h],
                        self.free@ == free_before + freed@.subrange(0, i as int),
                    decreases freed@.len() - i,
                {
                    self.free.push(freed[i]);
                    i = i + 1;
                }
                proof {
                    let c2 = c.drop_first();
                    self.chain@ = c2;
                    assert(self.free@ =~= free_before.push(h));
                    assert(c2[0] == n);
                    assert forall|k: int| 0 <= k < self.manager.threads() implies (
                    #[trigger] self.manager.state(k)).retired_ptrs@.len() == 0 by {
                        assert(k == 0);
                    }
                    assert forall|k: int| 0 <= k < c2.len() implies #[trigger] c2[k] < self.nodes@.len() by {
                        assert(c2[k] == c[k + 1]);
                    }
                    assert forall|k: int| 0 <= k < c2.len() - 1 implies self.nodes@[#[trigger] c2[k] as int].next
                        == Some(c2[k + 1]) by {
                        assert(c2[k] == c[k + 1]);
                    }
                    assert forall|k: int| 1 <= k < c2.len() implies self.nodes@[#[trigger] c2[k] as int].val is Some by {
                        assert(c2[k] == c[k + 1]);
                        assert(c[k + 1] != n);
                    }
                    assert(!c2.contains(h)) by {
                        if c2.contains(h) {
                            let k = choose|k: int| 0 <= k < c2.len() && c2[k] == h;
                            assert(c[k + 1] == c[0]);
                        }
                    }
                    assert forall|j: int| 0 <= j < self.free@.len() implies #[trigger] self.free@[j]
                        < self.nodes@.len() && !c2.contains(self.free@[j]) by {
                        if j < free_before.len() {
                            assert(old(self).free@[j] == self.free@[j]);
                            assert(!c.contains(self.free@[j]));
                            if c2.contains(self.free@[j]) {
                                let k = choose|k: int| 0 <= k < c2.len() && c2[k] == self.free@[j];
                                assert(c[k + 1] == self.free@[j]);
                            }
                        }
                    }
                    assert(!free_before.contains(h)) by {
                        if free_before.contains(h) {
                            let j = choose|j: int| 0 <= j < free_before.len() && free_before[j] == h;
                            assert(old(self).free@[j] == h);
                            assert(c.contains(h));
                        }
                    }
                    assert(self.free@.no_duplicates());
                    assert(self@ =~= old_view.drop_first());
                }
                v
            },
        }
    }
}

/// Removing the front of a queue holding `q`: what is left and what was
/// removed.
pub open spec fn pop_front<T>(q: Seq<T>) -> (Seq<T>, Option<T>) {
    if q.len() == 0 {
        (q, None)
    } else {
        (q.drop_first(), Some(q[0]))
    }
}

/// Appending the values of `xs` one at a time, first to last.
pub open spec fn push_each<T>(q: Seq<T>, xs: Seq<T>) -> Seq<T>
    decreases xs.len(),
{
    if xs.len() == 0 {
        q
    } else {
        push_each(q.push(xs[0]), xs.drop_first())
    }
}

/// `n` removals in a row: what is left and the removed values in order.
pub open spec fn pop_n<T>(q: Seq<T>, n: nat) -> (Seq<T>, Seq<Option<T>>)
    decreases n,
{
    if n == 0 {
        (q, Seq::empty())
    } else {
        let (rest, r) = pop_front(q);
        let (left, rs) = pop_n(rest, (n - 1) as nat);
        (left, seq![r] + rs)
    }
}

proof fn lemma_push_each_appends<T>(q: Seq<T>, xs: Seq<T>)
    ensures
        push_each(q, xs) == q + xs,
    decreases xs.len(),
{
    if xs.len() > 0 {
        lemma_push_each_appends(q.push(xs[0]), xs.drop_first());
        assert(q.push(xs[0]) + xs.drop_first() =~= q + xs);
    } else {
        assert(q + xs =~= q);
    }
}

proof fn lemma_pop_n_takes_prefix<T>(q: Seq<T>, n: nat)
    requires
        n <= q.len(),
    ensures
        pop_n(q, n).0 == q.skip(n as int),
        pop_n(q, n).1 == q.take(n as int).map_values(|x: T| Some(x)),
    decreases n,
{
    if n == 0 {
        assert(q.skip(0) =~= q);
        assert(q.take(0).map_values(|x: T| Some(x)) =~= Seq::<Option<T>>::empty());
    } else {
        lemma_pop_n_takes_prefix(q.drop_first(), (n - 1) as nat);
        assert(q.drop_first().skip(n - 1) =~= q.skip(n as int));
        assert(seq![Some(q[0])] + q.drop_first().take(n - 1).map_values(|x: T| Some(x))
            =~= q.take(n as int).map_values(|x: T| Some(x)));
    }
}

/// First in, first out: after the values of `xs` are pushed one at a time
/// onto an empty queue, as many pops return them in the order they were
/// pushed and leave the queue empty.
pub proof fn lemma_fifo<T>(xs: Seq<T>)
    ensures
        pop_n(push_each(Seq::<T>::empty(), xs), xs.len()).1 == xs.map_values(|x: T| Some(x)),
        pop_n(push_each(Seq::<T>::empty(), xs), xs.len()).0 == Seq::<T>::empty(),
{
    lemma_push_each_appends(Seq::<T>::empty(), xs);
    assert(Seq::<T>::empty() + xs =~= xs);
    lemma_pop_n_takes_prefix(xs, xs.len());
    assert(xs.take(xs.len() as int) =~= xs);
    assert(xs.skip(xs.len() as int) =~= Seq::<T>::empty());
}

/// A pop from an empty queue returns nothing and changes nothing.
pub proof fn lemma_pop_empty<T>()
    ensures
        pop_front(Seq::<T>::empty()) == (Seq::<T>::empty(), None::<T>),
{
}

/// A push does not change which value comes out next from a non-empty
/// queue, and into an empty queue the pushed value is the next one out.
pub proof fn lemma_push_keeps_front<T>(q: Seq<T>, x: T)
    ensures
        q.len() > 0 ==> pop_front(q.push(x)) == (pop_front(q).0.push(x), pop_front(q).1),
        q.len() == 0 ==> pop_front(q.push(x)) == (q, Some(x)),
{
    if q.len() > 0 {
        assert(q.push(x).drop_first() =~= q.drop_first().push(x));
    } else {
        assert(q.push(x).drop_first() =~= q);
    }
}

/// The values pushed by `ops`, in order: `Some(x)` pushes `x`, `None` pops.
pub open spec fn pushed<T>(ops: Seq<Option<T>>) -> Seq<T>
    decreases ops.len(),
{
    if ops.len() == 0 {
        Seq::empty()
    } else {
        match ops[0] {
            Some(x) => seq![x] + pushed(ops.drop_first()),
            None => pushed(ops.drop_first()),
        }
    }
}

/// Running `ops` on a queue holding `q`: what the queue holds afterwards and
/// the values the pops returned, in order.
pub open spec fn run<T>(q: Seq<T>, ops: Seq<Option<T>>) -> (Seq<T>, Seq<T>)
    decreases ops.len(),
{
    if ops.len() == 0 {
        (q, Seq::empty())
    } else {
        match ops[0] {
            Some(x) => run(q.push(x), ops.drop_first()),
            None => {
                let (rest, r) = pop_front(q);
                let (left, outs) = run(rest, ops.drop_first());
                match r {
                    Some(v) => (left, seq![v] + outs),
                    None => (left, outs),
                }
            },
        }
    }
}

/// First in, first out under any mix of pushes and pops: what the pops
/// return, followed by what is left, is what the queue held followed by
/// what was pushed, in order. From an empty queue the returned values are
/// therefore the pushed values in push order, up to some point: a value
/// pushed before another is returned by an earlier pop.
pub proof fn lemma_fifo_interleaved<T>(q: Seq<T>, ops: Seq<Option<T>>)
    ensures
        run(q, ops).1 + run(q, ops).0 == q + pushed(ops),
        pushed(ops).len() + q.len() == run(q, ops).1.len() + run(q, ops).0.len(),
        forall|i: int| 0 <= i < run(Seq::<T>::empty(), ops).1.len() ==> #[trigger] run(Seq::<T>::empty(), ops).1[i] == pushed(ops)[i],
{
    lemma_fifo_concat(q, ops);
    assert((run(q, ops).1 + run(q, ops).0).len() == (q + pushed(ops)).len());
    lemma_fifo_interleaved_empty(ops);
}

proof fn lemma_fifo_interleaved_empty<T>(ops: Seq<Option<T>>)
    ensures
        forall|i: int| 0 <= i < run(Seq::<T>::empty(), ops).1.len() ==> #[trigger] run(Seq::<T>::empty(), ops).1[i] == pushed(ops)[i],
{
    lemma_fifo_concat(Seq::<T>::empty(), ops);
    let r = run(Seq::<T>::empty(), ops);
    assert(Seq::<T>::empty() + pushed(ops) =~= pushed(ops));
    assert forall|i: int| 0 <= i < r.1.len() implies #[trigger] r.1[i] == pushed(ops)[i] by {
        assert((r.1 + r.0)[i] == r.1[i]);
    }
}

proof fn lemma_fifo_concat<T>(q: Seq<T>, ops: Seq<Option<T>>)
    ensures
        run(q, ops).1 + run(q, ops).0 == q + pushed(ops),
    decreases ops.len(),
{
    if ops.len() > 0 {
        match ops[0] {
            Some(x) => {
                lemma_fifo_concat(q.push(x), ops.drop_first());
                assert(q.push(x) + pushed(ops.drop_first()) =~= q + pushed(ops));
            },
            None => {
                let (rest, r) = pop_front(q);
                lemma_fifo_concat(rest, ops.drop_first());
                if q.len() > 0 {
                    assert(seq![q[0]] + (rest + pushed(ops.drop_first())) =~= q + pushed(ops));
                    assert(seq![q[0]] + run(rest, ops.drop_first()).1 + run(rest, ops.drop_first()).0
                        =~= seq![q[0]] + (run(rest, ops.drop_first()).1 + run(rest, ops.drop_first()).0));
                } else {
                    assert(rest =~= q);
                }
            },
        }
    } else {
        assert(q + pushed(ops) =~= q);
        assert(run(q, ops).1 + run(q, ops).0 =~= q);
    }
}

} // verus!
