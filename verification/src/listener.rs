//! Listening sockets: creation of one bound, listening stream socket per
//! service, and the registry that caches each descriptor for the
//! supervisor's lifetime so that a reload never closes an accept queue.

use vstd::prelude::*;

use crate::addr::{IpAddr, Ipv6Segments};
use crate::config::{ServiceSpec, ServiceSpecV};

verus! {

/// A socket, set-option, bind or listen call failed; carries the OS
/// error number.
#[derive(Debug, Clone, Copy, PartialEq, Eq, Structural)]
pub enum ListenerError {
    ListenFailed(i32),
}

/// Relies on nix::sys::socket::socket with AF_INET and SOCK_STREAM: on
/// success the result is a fresh, non-negative file descriptor; on
/// failure the OS error number is returned.
#[verifier::external_body]
fn sys_socket_v4() -> (r: Result<i32, i32>)
    ensures
        r is Ok ==> r->Ok_0 >= 0,
{
    match nix::sys::socket::socket(
        nix::sys::socket::AddressFamily::Inet,
        nix::sys::socket::SockType::Stream,
        nix::sys::socket::SockFlag::empty(),
        None,
    ) {
        Ok(fd) => Ok(fd),
        Err(e) => Err(e as i32),
    }
}

/// Relies on nix::sys::socket::socket with AF_INET6 and SOCK_STREAM: on
/// success the result is a fresh, non-negative file descriptor; on
/// failure the OS error number is returned.
#[verifier::external_body]
fn sys_socket_v6() -> (r: Result<i32, i32>)
    ensures
        r is Ok ==> r->Ok_0 >= 0,
{
    match nix::sys::socket::socket(
        nix::sys::socket::AddressFamily::Inet6,
        nix::sys::socket::SockType::Stream,
        nix::sys::socket::SockFlag::empty(),
        None,
    ) {
        Ok(fd) => Ok(fd),
        Err(e) => Err(e as i32),
    }
}

/// Relies on nix::sys::socket::setsockopt with sockopt::ReuseAddr: turns
/// SO_REUSEADDR on so an immediate rebind after a supervisor restart
/// does not collide with a lingering socket.
#[verifier::external_body]
fn sys_set_reuse_addr(fd: i32) -> (r: Result<(), i32>) {
    match nix::sys::socket::setsockopt(fd, nix::sys::socket::sockopt::ReuseAddr, &true) {
        Ok(()) => Ok(()),
        Err(e) => Err(e as i32),
    }
}

/// Relies on nix::sys::socket::bind with an IPv4 socket address built by
/// nix from the four octets and the port.
#[allow(deprecated)]
#[verifier::external_body]
fn sys_bind_v4(fd: i32, a: u8, b: u8, c: u8, d: u8, port: u16) -> (r: Result<(), i32>) {
    let addr = nix::sys::socket::InetAddr::new(
        nix::sys::socket::IpAddr::new_v4(a, b, c, d),
        port,
    );
    match nix::sys::socket::bind(fd, &nix::sys::socket::SockAddr::new_inet(addr)) {
        Ok(()) => Ok(()),
        Err(e) => Err(e as i32),
    }
}

/// Relies on nix::sys::socket::bind with an IPv6 socket address built by
/// nix from the eight groups and the port.
#[allow(deprecated)]
#[verifier::external_body]
fn sys_bind_v6(fd: i32, segs: &Ipv6Segments, port: u16) -> (r: Result<(), i32>) {
    let addr = nix::sys::socket::InetAddr::new(
        nix::sys::socket::IpAddr::new_v6(
            segs.s0, segs.s1, segs.s2, segs.s3, segs.s4, segs.s5, segs.s6, segs.s7,
        ),
        port,
    );
    match nix::sys::socket::bind(fd, &nix::sys::socket::SockAddr::new_inet(addr)) {
        Ok(()) => Ok(()),
        Err(e) => Err(e as i32),
    }
}

/// Relies on nix::sys::socket::listen: marks the socket as accepting
/// connections with the given backlog.
#[verifier::external_body]
fn sys_listen(fd: i32, backlog: usize) -> (r: Result<(), i32>) {
    match nix::sys::socket::listen(fd, backlog) {
        Ok(()) => Ok(()),
        Err(e) => Err(e as i32),
    }
}

/// Creation of a listening socket, one syscall sequence per call.
pub struct Listener;

impl Listener {
    /// Create a stream socket of the service's address family, set
    /// SO_REUSEADDR, bind the service's address and start listening
    /// with the service's backlog. Whether the OS grants this cannot be
    /// promised; on success the descriptor is non-negative, and any
    /// failure carries the first failing call's error number.
    pub fn listen(spec: &ServiceSpec) -> (r: Result<i32, ListenerError>)
        ensures
            r is Ok ==> r->Ok_0 >= 0,
    {
        let sock = if spec.addr.is_ipv4() {
            sys_socket_v4()
        } else {
            sys_socket_v6()
        };
        let fd = match sock {
            Ok(fd) => fd,
            Err(e) => {
                return Err(ListenerError::ListenFailed(e));
            },
        };
        if let Err(e) = sys_set_reuse_addr(fd) {
            return Err(ListenerError::ListenFailed(e));
        }
        let bound = match spec.addr.ip {
            IpAddr::V4 { a, b, c, d } => sys_bind_v4(fd, a, b, c, d, spec.addr.port),
            IpAddr::V6 { segs } => sys_bind_v6(fd, &segs, spec.addr.port),
        };
        if let Err(e) = bound {
            return Err(ListenerError::ListenFailed(e));
        }
        if let Err(e) = sys_listen(fd, spec.backlog) {
            return Err(ListenerError::ListenFailed(e));
        }
        Ok(fd)
    }
}

/// The finite map denoted by a sequence of cache entries, later entries
/// winning (the registry keeps keys distinct, so order never matters).
pub open spec fn map_of(s: Seq<(ServiceSpecV, int)>) -> Map<ServiceSpecV, int>
    decreases s.len(),
{
    if s.len() == 0 {
        Map::empty()
    } else {
        map_of(s.drop_last()).insert(s.last().0, s.last().1)
    }
}

/// With pairwise-distinct keys, `map_of` holds exactly the entries.
pub proof fn lemma_map_of(s: Seq<(ServiceSpecV, int)>)
    requires
        forall|i: int, j: int| 0 <= i < j < s.len() ==> (#[trigger] s[i]).0 != (#[trigger] s[j]).0,
    ensures
        forall|k: ServiceSpecV| #[trigger]
            map_of(s).dom().contains(k) ==> exists|i: int| 0 <= i < s.len() && (#[trigger] s[i]).0
                == k,
        forall|i: int|
            0 <= i < s.len() ==> map_of(s).dom().contains((#[trigger] s[i]).0) && map_of(s)[s[i].0]
                == s[i].1,
    decreases s.len(),
{
    if s.len() > 0 {
        let t = s.drop_last();
        lemma_map_of(t);
        assert(forall|i: int| 0 <= i < t.len() ==> s[i] == t[i]);
        assert forall|k: ServiceSpecV| #[trigger] map_of(s).dom().contains(k) implies exists|i: int|
            0 <= i < s.len() && (#[trigger] s[i]).0 == k by {
            if k == s.last().0 {
                assert(0 <= s.len() - 1 < s.len() && s[s.len() - 1].0 == k);
            } else {
                assert(map_of(t).dom().contains(k));
                let i = choose|i: int| 0 <= i < t.len() && (#[trigger] t[i]).0 == k;
                assert(0 <= i < s.len() && s[i].0 == k);
            }
        }
    }
}

/// One bound, listening socket per service, created lazily on first
/// need, cached for the life of the supervisor and never closed or
/// re-bound. The ghost log records the spec of every bind+listen
/// sequence ever issued, in order.
pub struct ListenerRegistry {
    entries: Vec<(ServiceSpec, i32)>,
    bound: Ghost<Seq<ServiceSpecV>>,
}

impl ListenerRegistry {
    /// The cache's entries as mathematical values.
    pub closed spec fn entries_view(&self) -> Seq<(ServiceSpecV, int)> {
        self.entries@.map_values(|e: (ServiceSpec, i32)| (e.0@, e.1 as int))
    }

    /// The specs for which a bind+listen syscall sequence was issued,
    /// in order of issue.
    pub closed spec fn bind_log(&self) -> Seq<ServiceSpecV> {
        self.bound@
    }

    /// The cache as a map from service spec to descriptor.
    pub closed spec fn view(&self) -> Map<ServiceSpecV, int> {
        map_of(self.entries_view())
    }

    /// Cached specs are pairwise distinct, the bind log lists exactly
    /// the cached specs in insertion order, and descriptors are valid.
    pub closed spec fn wf(&self) -> bool {
        &&& forall|i: int, j: int|
            0 <= i < j < self.entries_view().len() ==> (#[trigger] self.entries_view()[i]).0 != (
            #[trigger] self.entries_view()[j]).0
        &&& self.bind_log() =~= self.entries_view().map_values(|e: (ServiceSpecV, int)| e.0)
        &&& forall|i: int|
            0 <= i < self.entries_view().len() ==> (#[trigger] self.entries_view()[i]).1 >= 0
    }

    /// An empty cache: nothing bound yet.
    pub fn new() -> (r: ListenerRegistry)
        ensures
            r.wf(),
            r@ == Map::<ServiceSpecV, int>::empty(),
            r.bind_log() == Seq::<ServiceSpecV>::empty(),
    {
        let r = ListenerRegistry { entries: Vec::new(), bound: Ghost(Seq::empty()) };
        proof {
            assert(r.entries_view() =~= Seq::<(ServiceSpecV, int)>::empty());
            assert(r.bind_log() =~= r.entries_view().map_values(|e: (ServiceSpecV, int)| e.0));
        }
        r
    }

    /// Number of distinct specs ever bound.
    pub fn bound_count(&self) -> (n: usize)
        requires
            self.wf(),
        ensures
            n == self.bind_log().len(),
    {
        proof {
            assert(self.bind_log().len() == self.entries_view().len());
        }
        self.entries.len()
    }

    /// Return the cached descriptor for this exact spec, creating,
    /// binding and listening only if the spec was never seen: a second
    /// call with an equal spec is a pure cache hit that issues no
    /// syscall, returns the identical descriptor and is owed success.
    /// Nothing already cached is ever changed or dropped, and a failure
    /// caches nothing, so a later retry is possible.
    pub fn ensure_listening(&mut self, spec: &ServiceSpec) -> (r: Result<i32, ListenerError>)
        requires
            old(self).wf(),
        ensures
            final(self).wf(),
            forall|k: ServiceSpecV| #[trigger]
                old(self)@.dom().contains(k) ==> final(self)@.dom().contains(k)
                    && final(self)@[k] == old(self)@[k],
            match r {
                Ok(fd) => {
                    &&& fd >= 0
                    &&& final(self)@.dom().contains(spec@)
                    &&& final(self)@[spec@] == fd
                    &&& (old(self)@.dom().contains(spec@) ==> final(self)@ == old(self)@
                        && final(self).bind_log() == old(self).bind_log()
                        && fd == old(self)@[spec@])
                    &&& (!old(self)@.dom().contains(spec@) ==> final(self)@ == old(self)@.insert(
                        spec@,
                        fd as int,
                    ) && final(self).bind_log() == old(self).bind_log().push(spec@))
                },
                Err(_) => final(self)@ == old(self)@
                    && final(self).bind_log() == old(self).bind_log(),
            },
            old(self)@.dom().contains(spec@) ==> r is Ok,
    {
        proof {
            lemma_map_of(self.entries_view());
        }
        let n = self.entries.len();
        let mut i: usize = 0;
        while i < n
            invariant
                0 <= i <= n,
                n == self.entries_view().len(),
                self.wf(),
                forall|j: int| 0 <= j < i ==> (#[trigger] self.entries_view()[j]).0 != spec@,
                forall|k: ServiceSpecV| #[trigger]
                    self@.dom().contains(k) ==> exists|j: int|
                        0 <= j < n && (#[trigger] self.entries_view()[j]).0 == k,
                forall|j: int|
                    0 <= j < n ==> self@.dom().contains((#[trigger] self.entries_view()[j]).0)
                        && self@[self.entries_view()[j].0] == self.entries_view()[j].1,
            decreases n - i,
        {
            if self.entries[i].0.same_spec(spec) {
                proof {
                    assert(self.entries_view()[i as int] == (
                        self.entries@[i as int].0@,
                        self.entries@[i as int].1 as int,
                    ));
                    assert(self.entries_view()[i as int].0 == spec@);
                    assert(self@.dom().contains(spec@));
                    assert(self@[spec@] == self.entries@[i as int].1 as int);
                }
                return Ok(self.entries[i].1);
            }
            i = i + 1;
        }
        assert(!self@.dom().contains(spec@));
        match Listener::listen(spec) {
            Ok(fd) => {
                let ghost pre = self.entries_view();
                self.entries.push((spec.duplicate(), fd));
                proof {
                    self.bound@ = self.bound@.push(spec@);
                    assert(self.entries_view() =~= pre.push((spec@, fd as int)));
                    assert(self.entries_view().drop_last() =~= pre);
                    assert(self@ == map_of(pre).insert(spec@, fd as int));
                    assert(self.bind_log() =~= self.entries_view().map_values(
                        |e: (ServiceSpecV, int)| e.0,
                    ));
                }
                Ok(fd)
            },
            Err(e) => Err(e),
        }
    }
}

/// Once a spec is cached, every later successful `ensure_listening` for
/// it yields the same descriptor: the cache only ever grows, pointwise
/// unchanged, so the descriptor seen by one worker generation is the
/// descriptor seen by the next.
pub proof fn lemma_descriptor_stable(
    m0: Map<ServiceSpecV, int>,
    m1: Map<ServiceSpecV, int>,
    m2: Map<ServiceSpecV, int>,
    k: ServiceSpecV,
)
    requires
        forall|x: ServiceSpecV| #[trigger] m0.dom().contains(x) ==> m1.dom().contains(x) && m1[x]
            == m0[x],
        forall|x: ServiceSpecV| #[trigger] m1.dom().contains(x) ==> m2.dom().contains(x) && m2[x]
            == m1[x],
        m0.dom().contains(k),
    ensures
        m2.dom().contains(k) && m2[k] == m0[k] && m1[k] == m0[k],
{
}

/// At most one bind+listen syscall sequence is ever issued per spec: the
/// bind log of a well-formed registry never repeats a spec.
pub proof fn lemma_bind_at_most_once(reg: &ListenerRegistry)
    requires
        reg.wf(),
    ensures
        forall|i: int, j: int|
            0 <= i < j < reg.bind_log().len() ==> reg.bind_log()[i] != reg.bind_log()[j],
{
}

} // verus!
