use vstd::prelude::*;

verus! {

/// A cell of the stack: its value and the position of the cell below it.
pub struct Node<T> {
    pub value: T,
    pub next: Option<usize>,
}

/// A last-in first-out stack. Cell `i` lies on cell `i - 1`; the last cell
/// is the top.
pub struct LockFreeStack<T> {
    nodes: Vec<Node<T>>,
}

/// The position of the cell below position `i`.
pub open spec fn below(i: int) -> Option<usize> {
    if i <= 0 {
        None
    } else {
        Some((i - 1) as usize)
    }
}

impl<T> View for LockFreeStack<T> {
    type V = Seq<T>;

    /// The values from the bottom of the stack to its top.
    closed spec fn view(&self) -> Seq<T> {
        self.nodes@.map_values(|n: Node<T>| n.value)
    }
}

impl<T> LockFreeStack<T> {
    /// Every cell links to the one below it.
    pub closed spec fn wf(&self) -> bool {
        forall|i: int| 0 <= i < self.nodes@.len() ==> #[trigger] self.nodes@[i].next == below(i)
    }

    /// An empty stack.
    pub fn new() -> (s: Self)
        ensures
            s.wf(),
            s@ == Seq::<T>::empty(),
    {
        LockFreeStack { nodes: Vec::new() }
    }

    /// Puts `val` on top of the stack.
    pub fn push(&mut self, val: T)
        requires
            old(self).wf(),
        ensures
            final(self).wf(),
            final(self)@ == old(self)@.push(val),
    {
        let next = if self.nodes.len() == 0 {
            None
        } else {
            Some(self.nodes.len() - 1)
        };
        let ghost old_nodes = self.nodes@;
        self.nodes.push(Node { value: val, next });
        assert(self.nodes@.map_values(|n: Node<T>| n.value) =~= old_nodes.map_values(
            |n: Node<T>| n.value,
        ).push(val));
    }

    /// Takes the top cell off the stack; `None` when the stack is empty. The
    /// cell's `next` names the position of the new top.
    pub fn try_pop(&mut self) -> (r: Option<Node<T>>)
        requires
            old(self).wf(),
        ensures
            final(self).wf(),
            old(self)@.len() == 0 ==> r.is_none() && final(self)@ == old(self)@,
            old(self)@.len() > 0 ==> {
                &&& r.is_some()
                &&& r.unwrap().value == old(self)@.last()
                &&& r.unwrap().next == below(old(self)@.len() - 1)
                &&& final(self)@ == old(self)@.drop_last()
            },
            (final(self)@, popped_value(r)) == pop_top(old(self)@),
    {
        let ghost old_nodes = self.nodes@;
        let r = self.nodes.pop();
        proof {
            if old_nodes.len() > 0 {
                assert(self.nodes@.map_values(|n: Node<T>| n.value) =~= old_nodes.map_values(
                    |n: Node<T>| n.value,
                ).drop_last());
                assert(old_nodes[old_nodes.len() - 1].next == below(old_nodes.len() - 1));
            }
        }
        r
    }

    /// The number of values on the stack.
    pub fn len(&self) -> (n: usize)
        ensures
            n == self@.len(),
    {
        self.nodes.len()
    }

    /// The value at position `i`, counted from the bottom.
    pub fn get(&self, i: usize) -> (v: &T)
        requires
            i < self@.len(),
        ensures
            *v == self@[i as int],
    {
        &self.nodes[i].value
    }

    /// The position of the cell below position `i`, as linked.
    pub fn next_of(&self, i: usize) -> (n: Option<usize>)
        requires
            self.wf(),
            i < self@.len(),
        ensures
            n == below(i as int),
    {
        self.nodes[i].next
    }
}

/// The value of a popped cell, if any.
pub open spec fn popped_value<T>(r: Option<Node<T>>) -> Option<T> {
    match r {
        Some(n) => Some(n.value),
        None => None,
    }
}

/// Removing the top of a stack holding `s` (bottom first): what is left and
/// what was removed.
pub open spec fn pop_top<T>(s: Seq<T>) -> (Seq<T>, Option<T>) {
    if s.len() == 0 {
        (s, None)
    } else {
        (s.drop_last(), Some(s.last()))
    }
}

/// Pushing the values of `xs` one at a time, first to last.
pub open spec fn push_each<T>(s: Seq<T>, xs: Seq<T>) -> Seq<T>
    decreases xs.len(),
{
    if xs.len() == 0 {
        s
    } else {
        push_each(s.push(xs[0]), xs.drop_first())
    }
}

/// `n` pops in a row: what is left and the popped values in order.
pub open spec fn pop_n<T>(s: Seq<T>, n: nat) -> (Seq<T>, Seq<Option<T>>)
    decreases n,
{
    if n == 0 {
        (s, Seq::empty())
    } else {
        let (rest, r) = pop_top(s);
        let (left, rs) = pop_n(rest, (n - 1) as nat);
        (left, seq![r] + rs)
    }
}

proof fn lemma_push_each_appends<T>(s: Seq<T>, xs: Seq<T>)
    ensures
        push_each(s, xs) == s + xs,
    decreases xs.len(),
{
    if xs.len() > 0 {
        lemma_push_each_appends(s.push(xs[0]), xs.drop_first());
        assert(s.push(xs[0]) + xs.drop_first() =~= s + xs);
    } else {
        assert(s + xs =~= s);
    }
}

proof fn lemma_pop_n_takes_suffix<T>(s: Seq<T>, n: nat)
    requires
        n <= s.len(),
    ensures
        pop_n(s, n).0 == s.take(s.len() - n),
        pop_n(s, n).1 == s.skip(s.len() - n).reverse().map_values(|x: T| Some(x)),
    decreases n,
{
    if n == 0 {
        assert(s.take(s.len() as int) =~= s);
        assert(s.skip(s.len() as int).reverse().map_values(|x: T| Some(x)) =~= Seq::<
            Option<T>,
        >::empty());
    } else {
        lemma_pop_n_takes_suffix(s.drop_last(), (n - 1) as nat);
        assert(s.drop_last().take(s.len() - 1 - (n - 1)) =~= s.take(s.len() - n));
        assert(seq![Some(s.last())] + s.drop_last().skip(s.len() - 1 - (n - 1)).reverse().map_values(
            |x: T| Some(x),
        ) =~= s.skip(s.len() - n).reverse().map_values(|x: T| Some(x)));
    }
}

/// Last in, first out: after the values of `xs` are pushed one at a time
/// onto an empty stack, as many pops return them in the reverse order and
/// leave the stack empty.
pub proof fn lemma_lifo<T>(xs: Seq<T>)
    ensures
        pop_n(push_each(Seq::<T>::empty(), xs), xs.len()).1 == xs.reverse().map_values(
            |x: T| Some(x),
        ),
        pop_n(push_each(Seq::<T>::empty(), xs), xs.len()).0 == Seq::<T>::empty(),
{
    lemma_push_each_appends(Seq::<T>::empty(), xs);
    assert(Seq::<T>::empty() + xs =~= xs);
    lemma_pop_n_takes_suffix(xs, xs.len());
    assert(xs.skip(0) =~= xs);
    assert(xs.take(0) =~= Seq::<T>::empty());
}

/// A pop right after a push returns the pushed value and restores the
/// stack.
pub proof fn lemma_push_pop<T>(s: Seq<T>, x: T)
    ensures
        pop_top(s.push(x)) == (s, Some(x)),
{
    assert(s.push(x).drop_last() =~= s);
}

} // verus!
