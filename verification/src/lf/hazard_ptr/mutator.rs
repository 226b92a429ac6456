use crate::lf::hazard_ptr::guard::PtrGuard;
use crate::lf::hazard_ptr::manager::Manager;
use crate::lf::hazard_ptr::stack::pop_top;
use crate::lf::hazard_ptr::thread_state::ThreadState;
use crate::lf::hazard_ptr::MAX_HAZARD_PTRS;
use vstd::prelude::*;

verus! {

/// Sorts addresses in ascending order.
///
/// Calls `<[usize]>::sort`; claims that the result is sorted and holds the
/// same addresses as before, as its documentation states.
#[verifier::external_body]
fn sort_addresses(v: &mut Vec<usize>)
    ensures
        final(v)@.to_multiset() == old(v)@.to_multiset(),
        forall|i: int, j: int| 0 <= i <= j < final(v)@.len() ==> final(v)@[i] <= final(v)@[j],
{
    v.sort();
}

/// Searches a sorted list of addresses.
///
/// Calls `<[usize]>::binary_search`; claims, as its documentation states for
/// sorted input, that `Ok(i)` names a position holding `x` and that `Err(i)`
/// means `x` does not occur and `i` is where it would be inserted.
#[verifier::external_body]
fn search_addresses(v: &Vec<usize>, x: usize) -> (r: Result<usize, usize>)
    requires
        forall|i: int, j: int| 0 <= i <= j < v@.len() ==> v@[i] <= v@[j],
    ensures
        r matches Ok(i) ==> i < v@.len() && v@[i as int] == x,
        r matches Err(i) ==> i <= v@.len() && !v@.contains(x),
{
    v.binary_search(&x)
}

/// The addresses published in `slots`, empty slots left out, in slot order.
pub open spec fn published(slots: Seq<Option<usize>>) -> Seq<usize>
    decreases slots.len(),
{
    if slots.len() == 0 {
        Seq::empty()
    } else {
        published(slots.drop_last()) + match slots.last() {
            Some(p) => seq![p],
            None => Seq::empty(),
        }
    }
}

/// A thread's handle on a hazard-pointer domain.
pub struct Mutator {
    pub thread: usize,
}

impl Mutator {
    /// A handle for the thread whose record is at position `thread`.
    pub fn new(thread: usize) -> (m: Self)
        ensures
            m.thread == thread,
    {
        Mutator { thread }
    }

    /// The guard of hazard slot `index` of this thread.
    pub fn get_hazard_ptr(&self, index: usize) -> (g: PtrGuard)
        requires
            index < MAX_HAZARD_PTRS,
        ensures
            g.slot == index,
    {
        PtrGuard { slot: index }
    }

    /// Appends the non-empty hazard slots of `state` to `plist`, in slot
    /// order.
    fn gather(state: &ThreadState, plist: &mut Vec<usize>)
        ensures
            final(plist)@ == old(plist)@ + published(state.slots@),
    {
        let mut s: usize = 0;
        while s < MAX_HAZARD_PTRS
            invariant
                s <= MAX_HAZARD_PTRS,
                state.slots@.len() == MAX_HAZARD_PTRS,
                plist@ == old(plist)@ + published(state.slots@.take(s as int)),
            decreases MAX_HAZARD_PTRS - s,
        {
            proof {
                assert(state.slots@.take(s + 1).drop_last() =~= state.slots@.take(s as int));
                assert(state.slots@.take(s + 1).last() == state.slots@[s as int]);
            }
            if let Some(p) = state.slots[s] {
                plist.push(p);
            }
            s = s + 1;
        }
        proof {
            assert(state.slots@.take(MAX_HAZARD_PTRS as int) =~= state.slots@);
        }
    }

    /// Whether a retire of `obj` by thread `t` in domain `m` stops before
    /// scanning: the thread holds fewer retired addresses than the threshold,
    /// or another reclamation is running.
    pub open spec fn defers(m: Manager, t: int, obj: usize) -> bool {
        m.state(t).retired_ptrs@.push(obj).len() < m.size * MAX_HAZARD_PTRS || m.is_retiring
    }

    /// Retires `obj`: adds it to this thread's retired addresses and, unless
    /// the retire is deferred, runs a reclamation pass and returns the
    /// addresses it reclaims.
    ///
    /// A pass gathers the published hazards of every thread and sorts them;
    /// it then keeps a retired address only when it already occurs among the
    /// addresses kept by this pass. That list starts empty, so a pass
    /// reclaims every retired address of the thread.
    pub fn retire(&self, manager: &mut Manager, obj: usize) -> (freed: Vec<usize>)
        requires
            old(manager).wf(),
            self.thread < old(manager).threads(),
        ensures
            final(manager).wf(),
            final(manager).size == old(manager).size,
            final(manager).threads() == old(manager).threads(),
            forall|j: int|
                0 <= j < old(manager).threads() && j != self.thread ==> final(manager).state(j)
                    == old(manager).state(j),
            final(manager).state(self.thread as int).slots == old(manager).state(
                self.thread as int,
            ).slots,
            final(manager).is_retiring == old(manager).is_retiring,
            old(manager).is_retiring ==> {
                &&& freed@ == Seq::<usize>::empty()
                &&& final(manager).state(self.thread as int).retired_ptrs@ == old(manager).state(
                    self.thread as int,
                ).retired_ptrs@.push(obj)
                &&& final(manager).thread_state_stack@ == old(manager).thread_state_stack@
            },
            Self::defers(*old(manager), self.thread as int, obj) ==> {
                &&& freed@ == Seq::<usize>::empty()
                &&& final(manager).state(self.thread as int).retired_ptrs@ == old(manager).state(
                    self.thread as int,
                ).retired_ptrs@.push(obj)
                &&& final(manager).thread_state_stack@ == old(manager).thread_state_stack@
            },
            !Self::defers(*old(manager), self.thread as int, obj) ==> {
                &&& freed@ == old(manager).state(self.thread as int).retired_ptrs@.push(obj)
                &&& final(manager).state(self.thread as int).retired_ptrs@ == Seq::<
                    usize,
                >::empty()
                &&& final(manager).thread_state_stack@ == pop_top(
                    old(manager).thread_state_stack@,
                ).0
            },
    {
        let t = self.thread;
        let threshold = manager.size * MAX_HAZARD_PTRS;
        let n;
        {
            let state = &mut manager.thread_states[t];
            state.retired_ptrs.push(obj);
            n = state.retired_ptrs.len();
        }
        if n < threshold {
            return Vec::new();
        }
        let was_retiring = manager.is_retiring;
        manager.is_retiring = true;
        if was_retiring {
            return Vec::new();
        }
        // Take the top record position off the stack, then gather the
        // published hazards of every record from it down the stack.

        let mut plist: Vec<usize> = Vec::new();
        let head = manager.thread_state_stack.try_pop();
        let mut cur: Option<usize> = match head {
            Some(node) => {
                let p = node.value;
                if p < manager.thread_states.len() {
                    Self::gather(&manager.thread_states[p], &mut plist);
                }
                node.next
            },
            None => None,
        };
        while cur.is_some()
            invariant
                manager.thread_state_stack.wf(),
                cur matches Some(p) ==> p < manager.thread_state_stack@.len(),
            decreases
                match cur {
                    Some(p) => p + 1,
                    None => 0,
                },
        {
            let p = cur.unwrap();
            let rec = *manager.thread_state_stack.get(p);
            if rec < manager.thread_states.len() {
                Self::gather(&manager.thread_states[rec], &mut plist);
            }
            cur = manager.thread_state_stack.next_of(p);
        }
        sort_addresses(&mut plist);
        // Split the retired addresses into those kept and those reclaimed.

        let mut tmp_list: Vec<usize> = Vec::new();
        let mut freed: Vec<usize> = Vec::new();
        let state = &mut manager.thread_states[t];
        let len = state.retired_ptrs.len();
        let mut i: usize = 0;
        while i < len
            invariant
                i <= len,
                len == state.retired_ptrs@.len(),
                tmp_list@ == Seq::<usize>::empty(),
                freed@ == state.retired_ptrs@.subrange(0, i as int),
            decreases len - i,
        {
            let x = state.retired_ptrs[i];
            match search_addresses(&tmp_list, x) {
                Ok(_) => {
                    tmp_list.push(x);
                },
                Err(_) => {
                    freed.push(x);
                },
            }
            i = i + 1;
        }
        proof {
            assert(state.retired_ptrs@.subrange(0, len as int) =~= state.retired_ptrs@);
        }
        state.retired_ptrs = tmp_list;
        manager.is_retiring = false;
        freed
    }
}

/// While a reclamation pass runs, a retire reclaims nothing: whatever the
/// threshold, it is deferred.
pub proof fn lemma_retire_during_pass_defers(m: Manager, t: int, obj: usize)
    requires
        m.is_retiring,
    ensures
        Mutator::defers(m, t, obj),
{
}

/// A retire runs a pass exactly when no pass is running and the thread then
/// holds at least the threshold of retired addresses.
pub proof fn lemma_retire_reclaims_exactly_when(m: Manager, t: int, obj: usize)
    ensures
        !Mutator::defers(m, t, obj) <==> (!m.is_retiring && m.state(t).retired_ptrs@.len() + 1
            >= m.size * MAX_HAZARD_PTRS),
{
}

} // verus!
