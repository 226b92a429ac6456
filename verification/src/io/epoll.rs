use std::collections::HashMap;
use std::task::Waker;
use vstd::prelude::*;

verus! {

broadcast use vstd::std_specs::hash::group_hash_axioms;

/// Calls for `libc::EPOLLIN`, whose value in libc's Linux definitions is 1.
#[verifier::external_body]
fn epoll_in() -> (r: i32)
    ensures
        r == 0x1,
{
    libc::EPOLLIN
}

/// Calls for `libc::EPOLLOUT`, whose value in libc's Linux definitions is 4.
#[verifier::external_body]
fn epoll_out() -> (r: i32)
    ensures
        r == 0x4,
{
    libc::EPOLLOUT
}

/// Calls for `libc::EPOLLONESHOT`, whose value in libc's Linux definitions
/// is `0x40000000`.
#[verifier::external_body]
fn epoll_oneshot() -> (r: i32)
    ensures
        r == 0x40000000,
{
    libc::EPOLLONESHOT
}

/// Calls for `libc::EPOLL_CTL_ADD`, whose value in libc's Linux definitions
/// is 1.
#[verifier::external_body]
fn epoll_ctl_add() -> (r: i32)
    ensures
        r == 1,
{
    libc::EPOLL_CTL_ADD
}

/// Calls for `libc::EPOLL_CTL_MOD`, whose value in libc's Linux definitions
/// is 3.
#[verifier::external_body]
fn epoll_ctl_mod() -> (r: i32)
    ensures
        r == 3,
{
    libc::EPOLL_CTL_MOD
}

/// The readiness a task waits for.
#[derive(PartialEq, Eq, Structural, Debug, Clone, Copy)]
pub enum Event {
    Read,
    Write,
}

/// The epoll event mask of `e`: readable or writable, reported once.
pub open spec fn event_mask(e: Event) -> i32 {
    match e {
        Event::Read => 0x40000001,
        Event::Write => 0x40000004,
    }
}

impl Event {
    /// The epoll event mask for this readiness, one-shot.
    pub fn to_epoll(&self) -> (r: i32)
        ensures
            r == event_mask(*self),
    {
        let oneshot = epoll_oneshot();
        match self {
            Event::Read => {
                let m = epoll_in();
                assert(m | oneshot == 0x40000001) by (bit_vector)
                    requires
                        m == 0x1i32,
                        oneshot == 0x40000000i32,
                ;
                m | oneshot
            },
            Event::Write => {
                let m = epoll_out();
                assert(m | oneshot == 0x40000004) by (bit_vector)
                    requires
                        m == 0x4i32,
                        oneshot == 0x40000000i32,
                ;
                m | oneshot
            },
        }
    }
}

/// An `epoll_ctl` call to make: the operation, the descriptor, the event
/// mask and the data word that comes back with the event.
#[derive(PartialEq, Eq, Structural, Debug, Clone, Copy)]
pub struct EpollRequest {
    pub op: i32,
    pub fd: i32,
    pub events: u32,
    pub data: u64,
}

/// The registry of an epoll instance: the descriptor of the instance and,
/// for each registered descriptor, the waker of the task waiting on it.
pub struct MiniEpoll {
    epollfd: i32,
    map: HashMap<i32, Waker>,
}

impl View for MiniEpoll {
    type V = Map<i32, Waker>;

    closed spec fn view(&self) -> Map<i32, Waker> {
        self.map@
    }
}

impl MiniEpoll {
    /// The descriptor of the epoll instance.
    pub closed spec fn fd(&self) -> i32 {
        self.epollfd
    }

    /// The descriptor of the epoll instance.
    pub fn epoll_fd(&self) -> (fd: i32)
        ensures
            fd == self.fd(),
    {
        self.epollfd
    }

    /// A registry for the epoll instance `epollfd`, with nothing registered.
    pub fn new(epollfd: i32) -> (e: Self)
        ensures
            e.fd() == epollfd,
            e@ == Map::<i32, Waker>::empty(),
    {
        MiniEpoll { epollfd, map: HashMap::new() }
    }

    /// Registers `waker` for `event` on `fd`, replacing any earlier waker of
    /// `fd`, and returns the `epoll_ctl` call that arms the descriptor: an add
    /// the first time the descriptor is seen, a modify afterwards.
    pub fn accept(&mut self, fd: i32, waker: Waker, event: Event) -> (req: EpollRequest)
        ensures
            final(self).fd() == old(self).fd(),
            final(self)@ == old(self)@.insert(fd, waker),
            req.op == if old(self)@.contains_key(fd) { 3i32 } else { 1i32 },
            req.fd == fd,
            req.events == event_mask(event) as u32,
            req.data == fd as u64,
    {
        let flag = match self.map.insert(fd, waker) {
            None => epoll_ctl_add(),
            Some(_) => epoll_ctl_mod(),
        };
        EpollRequest { op: flag, fd, events: event.to_epoll() as u32, data: fd as u64 }
    }

    /// The waker to wake for an event whose data word is `data`: the one
    /// registered for the descriptor `data` names, if any.
    pub fn waker_for(&self, data: u64) -> (w: Option<&Waker>)
        ensures
            self@.contains_key(data as i32) ==> w == Some(&self@[data as i32]),
            !self@.contains_key(data as i32) ==> w.is_none(),
    {
        let key = data as i32;
        if !self.map.contains_key(&key) {
            return None;
        }
        self.map.get(&key)
    }
}

/// What a registration gives back: an event carrying the data word of a
/// registration of `fd` finds the waker that registration stored, whatever
/// was registered before.
pub proof fn lemma_event_finds_registration(m: Map<i32, Waker>, fd: i32, w: Waker)
    ensures
        m.insert(fd, w).contains_key((fd as u64) as i32),
        m.insert(fd, w)[(fd as u64) as i32] == w,
{
    assert((fd as u64) as i32 == fd) by (bit_vector);
}

} // verus!
