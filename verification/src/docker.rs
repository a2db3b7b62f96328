//! Docker support: port allocation across worktrees and docker-compose command building.
use vstd::prelude::*;
use crate::config::{DockerConfig, default_base_ports};
use crate::error::HnError;
use crate::paths::{path_join, spec_path_join};
use crate::strmap::{StringMap, key_views, sorted_strict};
use crate::text::{chars_of, concat2, concat3, decimal, spec_decimal, string_of};

verus! {

/// The port maps that a map of string-keyed port maps stands for.
pub open spec fn alloc_view(m: Map<Seq<char>, StringMap<u16>>) -> Map<
    Seq<char>,
    Map<Seq<char>, u16>,
> {
    m.map_values(|s: StringMap<u16>| s.view())
}

/// Some worktree has some service on port `p`.
pub open spec fn port_used(a: Map<Seq<char>, Map<Seq<char>, u16>>, p: int) -> bool {
    exists|w: Seq<char>, s: Seq<char>|
        #![trigger a[w][s]]
        a.dom().contains(w) && a[w].dom().contains(s) && a[w][s] == p
}

/// No service of `m` is on port `p`.
pub open spec fn port_absent(m: Map<Seq<char>, u16>, p: int) -> bool {
    forall|s: Seq<char>| #[trigger] m.dom().contains(s) ==> m[s] != p
}

/// The first port from `p` up to `end` that no worktree uses.
pub open spec fn free_port_from(a: Map<Seq<char>, Map<Seq<char>, u16>>, p: int, end: int) -> Option<
    int,
>
    decreases end + 1 - p,
{
    if p > end {
        None
    } else if !port_used(a, p) {
        Some(p)
    } else {
        free_port_from(a, p + 1, end)
    }
}

/// Where the search for a port for service `s` starts: its base port, or 3000.
pub open spec fn base_port_for(bp: Map<Seq<char>, u16>, s: Seq<char>) -> int {
    if bp.dom().contains(s) {
        bp[s] as int
    } else {
        3000
    }
}

/// Where the search for a port for service `s` starts: its base port (3000 for a service
/// without one), but never below the start of the range.
pub open spec fn search_start(bp: Map<Seq<char>, u16>, range_start: int, s: Seq<char>) -> int {
    if base_port_for(bp, s) < range_start {
        range_start
    } else {
        base_port_for(bp, s)
    }
}

/// The port that service `s` gets while worktree `w` is being given ports and `m` holds
/// those already given in the same request: the first port from the search start to the
/// end of the range that neither another worktree nor `m` uses.
pub open spec fn call_port(
    a: Map<Seq<char>, Map<Seq<char>, u16>>,
    w: Seq<char>,
    m: Map<Seq<char>, u16>,
    bp: Map<Seq<char>, u16>,
    start: int,
    end: int,
    s: Seq<char>,
) -> Option<int> {
    free_port_from(a.insert(w, m), search_start(bp, start, s), end)
}

/// The ports that worktree `w` gets for the services `ss`, given in order; `None` when
/// some service finds no free port.
pub open spec fn call_ports(
    a: Map<Seq<char>, Map<Seq<char>, u16>>,
    w: Seq<char>,
    bp: Map<Seq<char>, u16>,
    start: int,
    end: int,
    ss: Seq<&str>,
) -> Option<Map<Seq<char>, u16>>
    decreases ss.len(),
{
    if ss.len() == 0 {
        Some(Map::empty())
    } else {
        match call_ports(a, w, bp, start, end, ss.drop_last()) {
            None => None,
            Some(m) => match call_port(a, w, m, bp, start, end, ss.last()@) {
                None => None,
                Some(p) => Some(m.insert(ss.last()@, p as u16)),
            },
        }
    }
}

/// The next-port hints after the services `ss` were given ports, in order.
pub open spec fn call_next(
    n: Map<Seq<char>, u16>,
    a: Map<Seq<char>, Map<Seq<char>, u16>>,
    w: Seq<char>,
    bp: Map<Seq<char>, u16>,
    start: int,
    end: int,
    ss: Seq<&str>,
) -> Map<Seq<char>, u16>
    decreases ss.len(),
{
    if ss.len() == 0 {
        n
    } else {
        let prev = call_next(n, a, w, bp, start, end, ss.drop_last());
        match call_ports(a, w, bp, start, end, ss.drop_last()) {
            Some(m) => match call_port(a, w, m, bp, start, end, ss.last()@) {
                Some(p) => prev.insert(ss.last()@, (p + 1) as u16),
                None => prev,
            },
            None => prev,
        }
    }
}

/// The port given to service `s` after `prefix` is below 65535, so that the hint after it
/// is a port too.
pub open spec fn step_in_bounds(
    a: Map<Seq<char>, Map<Seq<char>, u16>>,
    w: Seq<char>,
    bp: Map<Seq<char>, u16>,
    start: int,
    end: int,
    prefix: Seq<&str>,
    s: Seq<char>,
) -> bool {
    match call_ports(a, w, bp, start, end, prefix) {
        Some(m) => match call_port(a, w, m, bp, start, end, s) {
            Some(p) => p < 65535,
            None => true,
        },
        None => true,
    }
}

/// Every port given for `ss` is below 65535.
pub open spec fn call_in_bounds(
    a: Map<Seq<char>, Map<Seq<char>, u16>>,
    w: Seq<char>,
    bp: Map<Seq<char>, u16>,
    start: int,
    end: int,
    ss: Seq<&str>,
) -> bool {
    forall|k: int| 0 <= k < ss.len() ==> step_in_bounds(a, w, bp, start, end, ss.take(k), #[trigger] ss[k]@)
}

/// No two services of `m` share a port.
pub open spec fn values_distinct(m: Map<Seq<char>, u16>) -> bool {
    forall|s1: Seq<char>, s2: Seq<char>|
        #![trigger m[s1], m[s2]]
        m.dom().contains(s1) && m.dom().contains(s2) && s1 != s2 ==> m[s1] != m[s2]
}

/// Whether some service of `taken` is on `port`.
fn port_taken(taken: &StringMap<u16>, port: u16) -> (r: bool)
    ensures
        r == !port_absent(taken.view(), port as int),
{
    let n = taken.entry_count();
    let mut k: usize = 0;
    while k < n
        invariant
            k <= n,
            n == taken.key_order().len(),
            forall|x: Seq<char>| taken.view().dom().contains(x) <==> #[trigger] taken.key_order().contains(x),
            forall|j: int| 0 <= j < k ==> taken.view()[#[trigger] taken.key_order()[j]] != port,
        decreases n - k,
    {
        let (s, p) = taken.entry(k);
        if *p == port {
            assert(taken.view().dom().contains(s@) && taken.view()[s@] == port);
            return true;
        }
        k = k + 1;
    }
    assert forall|x: Seq<char>| #[trigger] taken.view().dom().contains(x) implies taken.view()[x] != port by {
        assert(taken.key_order().contains(x));
        let j = choose|j: int| 0 <= j < n && taken.key_order()[j] == x;
    }
    false
}

/// The error text when no port is left for service `s`.
pub open spec fn exhausted_message(s: Seq<char>, start: u16, end: u16) -> Seq<char> {
    "Port exhausted for service '"@ + s + "': no available ports in range "@ + spec_decimal(
        start as nat,
    ) + "-"@ + spec_decimal(end as nat)
}

/// Two different worktrees never share a port.
pub open spec fn ports_disjoint(a: Map<Seq<char>, Map<Seq<char>, u16>>) -> bool {
    forall|w1: Seq<char>, w2: Seq<char>, s1: Seq<char>, s2: Seq<char>|
        #![trigger a[w1][s1], a[w2][s2]]
        a.dom().contains(w1) && a.dom().contains(w2) && w1 != w2 && a[w1].dom().contains(s1)
            && a[w2].dom().contains(s2) ==> a[w1][s1] != a[w2][s2]
}

/// A port found by the search lies in the searched range and is unused.
pub proof fn lemma_free_port(a: Map<Seq<char>, Map<Seq<char>, u16>>, p: int, end: int)
    ensures
        free_port_from(a, p, end) matches Some(q) ==> p <= q <= end && !port_used(a, q),
    decreases end + 1 - p,
{
    if p <= end && port_used(a, p) {
        lemma_free_port(a, p + 1, end);
    }
}

/// Releasing forgets exactly the released worktree: looking it up fails afterwards, every
/// other worktree keeps its ports, and no two worktrees come to share a port.
pub proof fn law_release_forgets_only_the_released(
    a: Map<Seq<char>, Map<Seq<char>, u16>>,
    w: Seq<char>,
)
    ensures
        !a.remove(w).dom().contains(w),
        forall|x: Seq<char>|
            x != w ==> (#[trigger] a.remove(w).dom().contains(x) == a.dom().contains(x)) && (
            a.dom().contains(x) ==> a.remove(w)[x] == a[x]),
        ports_disjoint(a) ==> ports_disjoint(a.remove(w)),
{
    if ports_disjoint(a) {
        let b = a.remove(w);
        assert forall|w1: Seq<char>, w2: Seq<char>, s1: Seq<char>, s2: Seq<char>|
            b.dom().contains(w1) && b.dom().contains(w2) && w1 != w2 && b[w1].dom().contains(s1)
                && b[w2].dom().contains(s2) implies #[trigger] b[w1][s1] != #[trigger] b[w2][s2] by {
            assert(b[w1] == a[w1] && b[w2] == a[w2]);
            assert(a[w1][s1] != a[w2][s2]);
        }
    }
}

/// A port that a request may use is not used by another worktree, and not by the ports
/// given earlier in the request.
proof fn lemma_used_in_call(
    a: Map<Seq<char>, Map<Seq<char>, u16>>,
    w: Seq<char>,
    m: Map<Seq<char>, u16>,
    p: int,
)
    requires
        !a.dom().contains(w),
    ensures
        port_used(a.insert(w, m), p) == (port_used(a, p) || !port_absent(m, p)),
{
    let b = a.insert(w, m);
    if port_used(b, p) {
        let (x, s) = choose|x: Seq<char>, s: Seq<char>|
            #![trigger b[x][s]]
            b.dom().contains(x) && b[x].dom().contains(s) && b[x][s] == p;
        if x == w {
            assert(m.dom().contains(s) && m[s] == p);
        } else {
            assert(a[x][s] == p);
        }
    }
    if port_used(a, p) {
        let (x, s) = choose|x: Seq<char>, s: Seq<char>|
            #![trigger a[x][s]]
            a.dom().contains(x) && a[x].dom().contains(s) && a[x][s] == p;
        assert(b[x][s] == p);
    }
    if !port_absent(m, p) {
        let s = choose|s: Seq<char>| #[trigger] m.dom().contains(s) && m[s] == p;
        assert(b[w][s] == p);
    }
}

/// The ports given in one request are distinct, lie in the range, and are used by no other
/// worktree.
proof fn lemma_call_ports(
    a: Map<Seq<char>, Map<Seq<char>, u16>>,
    w: Seq<char>,
    bp: Map<Seq<char>, u16>,
    start: int,
    end: int,
    ss: Seq<&str>,
)
    requires
        !a.dom().contains(w),
        0 <= start,
        end <= 65535,
    ensures
        call_ports(a, w, bp, start, end, ss) matches Some(m) ==> {
            &&& values_distinct(m)
            &&& forall|s: Seq<char>|
                #[trigger] m.dom().contains(s) ==> start <= m[s] <= end && !port_used(a, m[s] as int)
        },
    decreases ss.len(),
{
    if ss.len() > 0 {
        lemma_call_ports(a, w, bp, start, end, ss.drop_last());
        match call_ports(a, w, bp, start, end, ss.drop_last()) {
            Some(m) => {
                let s = ss.last()@;
                match call_port(a, w, m, bp, start, end, s) {
                    Some(p) => {
                        lemma_free_port(a.insert(w, m), search_start(bp, start, s), end);
                        lemma_used_in_call(a, w, m, p);
                        assert(start <= search_start(bp, start, s) <= p <= end);
                        assert((p as u16) as int == p);
                        let m2 = m.insert(s, p as u16);
                        assert forall|s1: Seq<char>, s2: Seq<char>|
                            m2.dom().contains(s1) && m2.dom().contains(s2) && s1 != s2 implies #[trigger] m2[s1]
                            != #[trigger] m2[s2] by {
                            if s1 != s && s2 != s {
                                assert(m2[s1] == m[s1] && m2[s2] == m[s2]);
                            } else if s1 == s {
                                assert(m.dom().contains(s2) && m[s2] != p);
                            } else {
                                assert(m.dom().contains(s1) && m[s1] != p);
                            }
                        }
                    },
                    None => {},
                }
            },
            None => {},
        }
    }
}

/// A request that fails for a first part of the services fails for all of them.
proof fn lemma_call_none(
    a: Map<Seq<char>, Map<Seq<char>, u16>>,
    w: Seq<char>,
    bp: Map<Seq<char>, u16>,
    start: int,
    end: int,
    ss: Seq<&str>,
    k: int,
)
    requires
        0 <= k <= ss.len(),
        call_ports(a, w, bp, start, end, ss.take(k)) is None,
    ensures
        call_ports(a, w, bp, start, end, ss) is None,
    decreases ss.len() - k,
{
    if k < ss.len() {
        assert(ss.take(k + 1).drop_last() =~= ss.take(k));
        lemma_call_none(a, w, bp, start, end, ss, k + 1);
    } else {
        assert(ss.take(k) =~= ss);
    }
}

/// A range that ends below 65535 keeps every port given, and the hint after it, within
/// `u16`.
pub proof fn lemma_range_keeps_call_in_bounds(
    a: Map<Seq<char>, Map<Seq<char>, u16>>,
    w: Seq<char>,
    bp: Map<Seq<char>, u16>,
    start: int,
    end: int,
    ss: Seq<&str>,
)
    requires
        end < 65535,
    ensures
        call_in_bounds(a, w, bp, start, end, ss),
{
    assert forall|k: int| 0 <= k < ss.len() implies step_in_bounds(a, w, bp, start, end, ss.take(k), #[trigger] ss[k]@) by {
        match call_ports(a, w, bp, start, end, ss.take(k)) {
            Some(m) => {
                lemma_free_port(a.insert(w, m), search_start(bp, start, ss[k]@), end);
            },
            None => {},
        }
    }
}

/// A new worktree whose ports no other worktree uses shares no port with another.
proof fn lemma_new_allocation_disjoint(
    a: Map<Seq<char>, Map<Seq<char>, u16>>,
    w: Seq<char>,
    m: Map<Seq<char>, u16>,
)
    requires
        ports_disjoint(a),
        !a.dom().contains(w),
        forall|s: Seq<char>| #[trigger] m.dom().contains(s) ==> !port_used(a, m[s] as int),
    ensures
        ports_disjoint(a.insert(w, m)),
{
    let a2 = a.insert(w, m);
    assert forall|w1: Seq<char>, w2: Seq<char>, s1: Seq<char>, s2: Seq<char>|
        a2.dom().contains(w1) && a2.dom().contains(w2) && w1 != w2 && a2[w1].dom().contains(s1)
            && a2[w2].dom().contains(s2) implies #[trigger] a2[w1][s1] != #[trigger] a2[w2][s2] by {
        if w1 == w {
            assert(m.dom().contains(s1) && !port_used(a, m[s1] as int));
            if a2[w1][s1] == a2[w2][s2] {
                assert(a[w2][s2] == m[s1]);
            }
        } else if w2 == w {
            assert(m.dom().contains(s2) && !port_used(a, m[s2] as int));
            if a2[w1][s1] == a2[w2][s2] {
                assert(a[w1][s1] == m[s2]);
            }
        } else {
            assert(a2[w1] == a[w1] && a2[w2] == a[w2]);
        }
    }
}

/// Project `p` is the compose project of one of the worktrees `active`.
pub open spec fn project_in(p: Seq<char>, active: Seq<Seq<char>>) -> bool {
    exists|x: int| 0 <= x < active.len() && #[trigger] project_name(active[x]) == p
}

/// The projects of `projects`, in order, that belong to none of the worktrees `active`.
pub open spec fn stale_projects(projects: Seq<Seq<char>>, active: Seq<Seq<char>>) -> Seq<Seq<char>>
    decreases projects.len(),
{
    if projects.len() == 0 {
        Seq::empty()
    } else if project_in(projects.last(), active) {
        stale_projects(projects.drop_last(), active)
    } else {
        stale_projects(projects.drop_last(), active).push(projects.last())
    }
}

/// The saved state of port allocation.
#[derive(Debug)]
pub struct PortRegistry {
    /// For each worktree, the port of each service.
    pub allocations: StringMap<StringMap<u16>>,
    /// For each service, the port after the last one it was given.
    pub next_available: StringMap<u16>,
}

impl Default for PortRegistry {
    /// No allocations.
    fn default() -> (r: Self)
        ensures
            r.allocations.view() == Map::<Seq<char>, StringMap<u16>>::empty(),
            r.next_available.view() == Map::<Seq<char>, u16>::empty(),
    {
        PortRegistry { allocations: StringMap::new(), next_available: StringMap::new() }
    }
}

/// Gives each worktree's services ports that no other worktree uses.
#[derive(Debug)]
pub struct PortAllocator {
    state_dir: String,
    registry: PortRegistry,
    base_ports: StringMap<u16>,
    port_range_start: u16,
    port_range_end: u16,
}

impl PortAllocator {
    /// For each worktree, the port of each service.
    pub closed spec fn allocations(&self) -> Map<Seq<char>, Map<Seq<char>, u16>> {
        alloc_view(self.registry.allocations.view())
    }

    /// For each service, the port after the last one it was given.
    pub closed spec fn next_available(&self) -> Map<Seq<char>, u16> {
        self.registry.next_available.view()
    }

    /// Where the search for each known service starts.
    pub closed spec fn base_ports(&self) -> Map<Seq<char>, u16> {
        self.base_ports.view()
    }

    /// The first port of the range.
    pub closed spec fn range_start(&self) -> u16 {
        self.port_range_start
    }

    /// The last port of the range.
    pub closed spec fn range_end(&self) -> u16 {
        self.port_range_end
    }

    /// The directory the registry is kept in.
    pub closed spec fn state_dir_view(&self) -> Seq<char> {
        self.state_dir@
    }

    /// The last port of the range.
    pub fn port_range_end(&self) -> (r: u16)
        ensures
            r == self.range_end(),
    {
        self.port_range_end
    }

    /// The base port of `service`, if it has one.
    pub fn base_port(&self, service: &str) -> (r: Option<u16>)
        ensures
            match r {
                Some(p) => self.base_ports().contains_key(service@) && self.base_ports()[service@] == p,
                None => !self.base_ports().contains_key(service@),
            },
    {
        match self.base_ports.get(service) {
            Some(p) => Some(*p),
            None => None,
        }
    }

    /// An allocator over `registry` with base ports 3000 (app), 5432 (postgres) and 6379
    /// (redis), and the range 3000 to 9999.
    pub fn new(state_dir: &str, registry: PortRegistry) -> (r: Result<Self, HnError>)
        ensures
            r matches Ok(a) && {
                &&& a.allocations() == alloc_view(registry.allocations.view())
                &&& a.next_available() == registry.next_available.view()
                &&& a.base_ports() == default_base_ports()
                &&& a.range_start() == 3000
                &&& a.range_end() == 9999
                &&& a.state_dir_view() == state_dir@
            },
    {
        let mut base_ports = StringMap::new();
        base_ports.insert(String::from_str("app"), 3000);
        base_ports.insert(String::from_str("postgres"), 5432);
        base_ports.insert(String::from_str("redis"), 6379);
        Ok(
            PortAllocator {
                state_dir: String::from_str(state_dir),
                registry,
                base_ports,
                port_range_start: 3000,
                port_range_end: 9999,
            },
        )
    }

    /// An allocator as `new` makes, with the range `range_start` to `range_end`.
    pub fn with_range(state_dir: &str, registry: PortRegistry, range_start: u16, range_end: u16) -> (r:
        Result<Self, HnError>)
        ensures
            r matches Ok(a) && {
                &&& a.allocations() == alloc_view(registry.allocations.view())
                &&& a.next_available() == registry.next_available.view()
                &&& a.base_ports() == default_base_ports()
                &&& a.range_start() == range_start
                &&& a.range_end() == range_end
                &&& a.state_dir_view() == state_dir@
            },
    {
        let mut allocator = match PortAllocator::new(state_dir, registry) {
            Ok(a) => a,
            Err(e) => {
                return Err(e);
            },
        };
        allocator.port_range_start = range_start;
        allocator.port_range_end = range_end;
        Ok(allocator)
    }

    /// The registry, to be saved.
    pub fn registry(&self) -> (r: &PortRegistry)
        ensures
            alloc_view(r.allocations.view()) == self.allocations(),
            r.next_available.view() == self.next_available(),
    {
        &self.registry
    }

    /// Whether some worktree has a service on `port`.
    fn port_in_use(&self, port: u16) -> (r: bool)
        ensures
            r == port_used(self.allocations(), port as int),
    {
        let a = &self.registry.allocations;
        let ghost av = self.allocations();
        let n = a.entry_count();
        let mut i: usize = 0;
        while i < n
            invariant
                i <= n,
                n == a.key_order().len(),
                av == alloc_view(a.view()),
                av == self.allocations(),
                forall|k: Seq<char>| a.view().dom().contains(k) <==> #[trigger] a.key_order().contains(
                    k,
                ),
                forall|j: int| 0 <= j < i ==> port_absent(#[trigger] av[a.key_order()[j]], port as int),
                forall|j: int| 0 <= j < i ==> a.view().dom().contains(#[trigger] a.key_order()[j]),
            decreases n - i,
        {
            let (name, services) = a.entry(i);
            let m = services.entry_count();
            let mut k: usize = 0;
            while k < m
                invariant
                    k <= m,
                    m == services.key_order().len(),
                    av == alloc_view(a.view()),
                    av == self.allocations(),
                    a.view().dom().contains(name@),
                    a.view()[name@] == *services,
                    forall|x: Seq<char>|
                        services.view().dom().contains(x) <==> #[trigger] services.key_order().contains(
                            x,
                        ),
                    forall|j: int|
                        0 <= j < k ==> services.view()[#[trigger] services.key_order()[j]] != port,
                decreases m - k,
            {
                let (_s, p) = services.entry(k);
                if *p == port {
                    proof {
                        assert(av[name@] == services.view());
                        assert(av[name@][_s@] == port);
                    }
                    return true;
                }
                k = k + 1;
            }
            proof {
                assert(av[name@] == services.view());
                assert forall|x: Seq<char>| #[trigger] services.view().dom().contains(x) implies services.view()[x]
                    != port by {
                    assert(services.key_order().contains(x));
                    let j = choose|j: int| 0 <= j < m && services.key_order()[j] == x;
                }
            }
            i = i + 1;
        }
        proof {
            if port_used(av, port as int) {
                let (w, s) = choose|w: Seq<char>, s: Seq<char>|
                    #![trigger av[w][s]]
                    av.dom().contains(w) && av[w].dom().contains(s) && av[w][s] == port;
                assert(a.key_order().contains(w));
                let j = choose|j: int| 0 <= j < n && a.key_order()[j] == w;
                assert(port_absent(av[a.key_order()[j]], port as int));
            }
        }
        false
    }

    /// Finds the first port from the search start of `service` to the end of the range that
    /// neither another worktree nor `taken` (the ports given earlier in the request for
    /// `worktree`) uses, and records the port after it as the service's next hint.
    fn allocate_port_for_service(&mut self, service: &str, worktree: &str, taken: &StringMap<u16>) -> (r: Result<
        u16,
        HnError,
    >)
        requires
            !old(self).allocations().dom().contains(worktree@),
            match call_port(
                old(self).allocations(),
                worktree@,
                taken.view(),
                old(self).base_ports(),
                old(self).range_start() as int,
                old(self).range_end() as int,
                service@,
            ) {
                Some(p) => p < 65535,
                None => true,
            },
        ensures
            final(self).allocations() == old(self).allocations(),
            final(self).base_ports() == old(self).base_ports(),
            final(self).range_start() == old(self).range_start(),
            final(self).range_end() == old(self).range_end(),
            final(self).state_dir_view() == old(self).state_dir_view(),
            match call_port(
                old(self).allocations(),
                worktree@,
                taken.view(),
                old(self).base_ports(),
                old(self).range_start() as int,
                old(self).range_end() as int,
                service@,
            ) {
                Some(p) => r == Ok::<u16, HnError>(p as u16) && final(self).next_available()
                    == old(self).next_available().insert(service@, (p + 1) as u16),
                None => r matches Err(HnError::PortAllocationError(msg)) && msg@
                    == exhausted_message(service@, old(self).range_start(), old(self).range_end())
                    && final(self).next_available() == old(self).next_available(),
            },
    {
        let ghost a = self.allocations();
        let ghost a2 = a.insert(worktree@, taken.view());
        let ghost bp = self.base_ports();
        let ghost start = self.range_start() as int;
        let ghost end = self.range_end() as int;
        let base: u16 = match self.base_ports.get(service) {
            Some(b) => *b,
            None => 3000,
        };
        let first: u16 = if base < self.port_range_start {
            self.port_range_start
        } else {
            base
        };
        assert(first == search_start(bp, start, service@));
        let mut port: u32 = first as u32;
        while port <= self.port_range_end as u32
            invariant
                search_start(bp, start, service@) <= port,
                port <= end + 1 || port == search_start(bp, start, service@),
                a == self.allocations(),
                a == old(self).allocations(),
                a2 == a.insert(worktree@, taken.view()),
                !a.dom().contains(worktree@),
                bp == old(self).base_ports(),
                start == old(self).range_start() as int,
                end == old(self).range_end() as int,
                self.range_start() == old(self).range_start(),
                self.state_dir_view() == old(self).state_dir_view(),
                self.next_available() == old(self).next_available(),
                bp == self.base_ports(),
                end == self.range_end() as int,
                start == self.range_start() as int,
                free_port_from(a2, search_start(bp, start, service@), end) == free_port_from(
                    a2,
                    port as int,
                    end,
                ),
                match free_port_from(a2, search_start(bp, start, service@), end) {
                    Some(p) => p < 65535,
                    None => true,
                },
            decreases end + 1 - port,
        {
            proof {
                lemma_used_in_call(a, worktree@, taken.view(), port as int);
            }
            if !self.port_in_use(port as u16) && !port_taken(taken, port as u16) {
                self.registry.next_available.insert(String::from_str(service), (port + 1) as u16);
                return Ok(port as u16);
            }
            port = port + 1;
        }
        let head = concat3(
            "Port exhausted for service '",
            service,
            "': no available ports in range ",
        );
        let range = concat3(
            decimal(self.port_range_start as u64).as_str(),
            "-",
            decimal(self.port_range_end as u64).as_str(),
        );
        Err(HnError::PortAllocationError(concat2(head.as_str(), range.as_str())))
    }

    /// Gives each of `services`, in order, a port for `worktree_name`: the first port from
    /// the service's base port (but not below the start of the range) up to the end of the
    /// range that neither another worktree nor an earlier service of the same request uses.
    /// A worktree that already has ports keeps them.
    pub fn allocate(&mut self, worktree_name: &str, services: &[&str]) -> (r: Result<
        StringMap<u16>,
        HnError,
    >)
        requires
            old(self).range_end() < 65535 || call_in_bounds(
                old(self).allocations(),
                worktree_name@,
                old(self).base_ports(),
                old(self).range_start() as int,
                old(self).range_end() as int,
                services@,
            ),
        ensures
            final(self).base_ports() == old(self).base_ports(),
            final(self).range_start() == old(self).range_start(),
            final(self).range_end() == old(self).range_end(),
            final(self).state_dir_view() == old(self).state_dir_view(),
            old(self).allocations().dom().contains(worktree_name@) ==> {
                &&& r matches Ok(m) && m.view() == old(self).allocations()[worktree_name@]
                &&& final(self).allocations() == old(self).allocations()
                &&& final(self).next_available() == old(self).next_available()
            },
            !old(self).allocations().dom().contains(worktree_name@) ==> match call_ports(
                old(self).allocations(),
                worktree_name@,
                old(self).base_ports(),
                old(self).range_start() as int,
                old(self).range_end() as int,
                services@,
            ) {
                Some(ports) => {
                    &&& r matches Ok(m) && m.view() == ports
                    &&& final(self).allocations() == old(self).allocations().insert(worktree_name@, ports)
                    &&& final(self).next_available() == call_next(
                        old(self).next_available(),
                        old(self).allocations(),
                        worktree_name@,
                        old(self).base_ports(),
                        old(self).range_start() as int,
                        old(self).range_end() as int,
                        services@,
                    )
                    &&& values_distinct(ports)
                    &&& forall|s: Seq<char>|
                        #[trigger] ports.dom().contains(s) ==> old(self).range_start() <= ports[s]
                            <= old(self).range_end() && !port_used(old(self).allocations(), ports[s] as int)
                },
                None => exists|j: int|
                    #![trigger services@[j]]
                    0 <= j < services@.len() && (call_ports(
                        old(self).allocations(),
                        worktree_name@,
                        old(self).base_ports(),
                        old(self).range_start() as int,
                        old(self).range_end() as int,
                        services@.take(j),
                    ) matches Some(done) && call_port(
                        old(self).allocations(),
                        worktree_name@,
                        done,
                        old(self).base_ports(),
                        old(self).range_start() as int,
                        old(self).range_end() as int,
                        services@[j]@,
                    ) is None) && (r matches Err(HnError::PortAllocationError(msg)) && msg@
                        == exhausted_message(
                        services@[j]@,
                        old(self).range_start(),
                        old(self).range_end(),
                    )) && final(self).allocations() == old(self).allocations()
                        && final(self).next_available() == call_next(
                        old(self).next_available(),
                        old(self).allocations(),
                        worktree_name@,
                        old(self).base_ports(),
                        old(self).range_start() as int,
                        old(self).range_end() as int,
                        services@.take(j),
                    ),
            },
            ports_disjoint(old(self).allocations()) ==> ports_disjoint(final(self).allocations()),
    {
        match self.registry.allocations.get(worktree_name) {
            Some(existing) => {
                return Ok(existing.copy());
            },
            None => {},
        }
        let ghost a = self.allocations();
        let ghost w = worktree_name@;
        let ghost bp = self.base_ports();
        let ghost start = self.range_start() as int;
        let ghost end = self.range_end() as int;
        let ghost n0 = self.next_available();
        let ghost ss = services@;
        proof {
            if end < 65535 {
                lemma_range_keeps_call_in_bounds(a, w, bp, start, end, ss);
            }
        }
        let mut allocated: StringMap<u16> = StringMap::new();
        proof {
            assert(ss.take(0) =~= Seq::<&str>::empty());
            assert(allocated.view() =~= Map::<Seq<char>, u16>::empty());
        }
        let mut i: usize = 0;
        while i < services.len()
            invariant
                i <= ss.len(),
                ss == services@,
                !a.dom().contains(w),
                w == worktree_name@,
                a == self.allocations(),
                bp == self.base_ports(),
                start == self.range_start() as int,
                end == self.range_end() as int,
                self.range_start() == old(self).range_start(),
                self.range_end() == old(self).range_end(),
                self.state_dir_view() == old(self).state_dir_view(),
                a == old(self).allocations(),
                bp == old(self).base_ports(),
                n0 == old(self).next_available(),
                call_in_bounds(a, w, bp, start, end, ss),
                call_ports(a, w, bp, start, end, ss.take(i as int)) == Some(allocated.view()),
                self.next_available() == call_next(n0, a, w, bp, start, end, ss.take(i as int)),
            decreases ss.len() - i,
        {
            proof {
                assert(ss.take(i + 1).drop_last() =~= ss.take(i as int));
                assert(ss.take(i + 1).last() == ss[i as int]);
                assert(step_in_bounds(a, w, bp, start, end, ss.take(i as int), ss[i as int]@));
            }
            let port = match self.allocate_port_for_service(services[i], worktree_name, &allocated) {
                Ok(p) => p,
                Err(e) => {
                    proof {
                        lemma_call_none(a, w, bp, start, end, ss, i + 1);
                    }
                    return Err(e);
                },
            };
            allocated.insert(String::from_str(services[i]), port);
            i = i + 1;
        }
        proof {
            assert(ss.take(ss.len() as int) =~= ss);
            lemma_call_ports(a, w, bp, start, end, ss);
        }
        let copy = allocated.copy();
        self.registry.allocations.insert(String::from_str(worktree_name), copy);
        proof {
            assert(self.allocations() =~= a.insert(w, allocated.view()));
            if ports_disjoint(a) {
                lemma_new_allocation_disjoint(a, w, allocated.view());
            }
        }
        Ok(allocated)
    }

    /// The ports already given to `worktree_name`.
    pub fn get_ports(&self, worktree_name: &str) -> (r: Result<StringMap<u16>, HnError>)
        ensures
            match r {
                Ok(m) => self.allocations().dom().contains(worktree_name@) && m.view()
                    == self.allocations()[worktree_name@],
                Err(e) => !self.allocations().dom().contains(worktree_name@) && (e matches HnError::PortAllocationError(msg)
                    && msg@ == "No ports allocated for '"@ + worktree_name@ + "'"@),
            },
    {
        match self.registry.allocations.get(worktree_name) {
            Some(m) => Ok(m.copy()),
            None => Err(
                HnError::PortAllocationError(
                    concat3("No ports allocated for '", worktree_name, "'"),
                ),
            ),
        }
    }

    /// Forgets the ports of `worktree_name`; says whether it had any.
    pub fn release(&mut self, worktree_name: &str) -> (r: bool)
        ensures
            r == old(self).allocations().dom().contains(worktree_name@),
            final(self).allocations() == old(self).allocations().remove(worktree_name@),
            final(self).next_available() == old(self).next_available(),
            final(self).base_ports() == old(self).base_ports(),
            final(self).range_start() == old(self).range_start(),
            final(self).range_end() == old(self).range_end(),
            final(self).state_dir_view() == old(self).state_dir_view(),
    {
        let r = self.registry.allocations.remove(worktree_name).is_some();
        assert(self.allocations() =~= old(self).allocations().remove(worktree_name@));
        r
    }

    /// Every allocation, sorted by worktree name.
    pub fn list_all(&self) -> (r: Vec<(String, StringMap<u16>)>)
        ensures
            sorted_strict(r@.map_values(|e: (String, StringMap<u16>)| e.0@)),
            r@.map_values(|e: (String, StringMap<u16>)| e.0@).to_set() == self.allocations().dom(),
            forall|i: int|
                0 <= i < r@.len() ==> (#[trigger] r@[i]).1.view() == self.allocations()[r@[i].0@],
    {
        let names = self.registry.allocations.sorted_keys();
        let mut r: Vec<(String, StringMap<u16>)> = Vec::new();
        let mut i: usize = 0;
        while i < names.len()
            invariant
                i <= names@.len(),
                r@.len() == i,
                key_views(names@).to_set() == self.allocations().dom(),
                forall|j: int| 0 <= j < i ==> (#[trigger] r@[j]).0@ == names@[j]@,
                forall|j: int|
                    0 <= j < i ==> (#[trigger] r@[j]).1.view() == self.allocations()[r@[j].0@],
            decreases names.len() - i,
        {
            proof {
                assert(key_views(names@)[i as int] == names@[i as int]@);
                assert(key_views(names@).to_set().contains(names@[i as int]@));
            }
            match self.registry.allocations.get(names[i].as_str()) {
                Some(m) => {
                    r.push((names[i].clone(), m.copy()));
                },
                None => {
                    assert(false);
                },
            }
            i = i + 1;
        }
        assert(r@.map_values(|e: (String, StringMap<u16>)| e.0@) =~= key_views(names@));
        r
    }
}

/// `name` with `/` and `_` replaced by `-`: the docker-compose project of a worktree.
pub open spec fn project_name(name: Seq<char>) -> Seq<char> {
    name.map_values(|c: char| if c == '/' || c == '_' { '-' } else { c })
}

/// The state of a worktree's containers.
#[derive(Debug)]
pub struct ContainerStatus {
    pub worktree_name: String,
    pub running: bool,
    pub container_count: usize,
}

/// Builds the docker-compose commands for worktrees and decides when they run.
#[derive(Debug)]
pub struct ContainerManager<'a> {
    config: &'a DockerConfig,
    state_dir: &'a str,
}

impl<'a> ContainerManager<'a> {
    /// The compose file named in the configuration.
    pub closed spec fn compose_file(&self) -> Seq<char> {
        self.config.compose_file@
    }

    /// The directory that holds per-worktree state.
    pub closed spec fn state_dir_view(&self) -> Seq<char> {
        self.state_dir@
    }

    /// The override file of worktree `name`.
    pub open spec fn override_path(&self, name: Seq<char>) -> Seq<char> {
        spec_path_join(spec_path_join(self.state_dir_view(), name), "docker-compose.override.yml"@)
    }

    /// `docker-compose -p <project> -f <compose file> [-f <override file>] up -d`.
    pub open spec fn start_command(&self, name: Seq<char>, override_exists: bool) -> Seq<char> {
        "docker-compose -p "@ + project_name(name) + " "@ + "-f "@ + self.compose_file() + " "@ + (
        if override_exists {
            "-f "@ + self.override_path(name) + " "@
        } else {
            Seq::empty()
        }) + "up -d"@
    }

    /// A manager for `config`, keeping per-worktree state under `state_dir`.
    pub fn new(config: &'a DockerConfig, state_dir: &'a str) -> (r: Result<Self, HnError>)
        ensures
            r matches Ok(m) && m.compose_file() == config.compose_file@ && m.state_dir_view()
                == state_dir@,
    {
        Ok(ContainerManager { config, state_dir })
    }

    /// The docker-compose project name of `worktree_name`.
    pub fn get_project_name(&self, worktree_name: &str) -> (r: String)
        ensures
            r@ == project_name(worktree_name@),
    {
        let v = chars_of(worktree_name);
        let mut out: Vec<char> = Vec::new();
        let mut i: usize = 0;
        while i < v.len()
            invariant
                i <= v@.len(),
                v@ == worktree_name@,
                out@ == project_name(v@.take(i as int)),
            decreases v.len() - i,
        {
            let c = v[i];
            if c == '/' || c == '_' {
                out.push('-');
            } else {
                out.push(c);
            }
            proof {
                assert(project_name(v@.take(i + 1)) =~= project_name(v@.take(i as int)).push(
                    out@.last(),
                ));
            }
            i = i + 1;
        }
        assert(v@.take(v@.len() as int) =~= v@);
        string_of(out.as_slice())
    }

    /// The override file of `worktree_name`, under the state directory.
    pub fn override_file(&self, worktree_name: &str) -> (r: String)
        ensures
            r@ == self.override_path(worktree_name@),
    {
        let dir = path_join(self.state_dir, worktree_name);
        path_join(dir.as_str(), "docker-compose.override.yml")
    }

    /// `docker-compose -p <project> -f <compose file> [-f <override file>] up -d`; the
    /// override file is named when `override_exists`.
    pub fn build_start_command(&self, worktree_name: &str, worktree_path: &str, override_exists: bool) -> (r:
        Result<String, HnError>)
        ensures
            r matches Ok(cmd) && cmd@ == self.start_command(worktree_name@, override_exists),
    {
        let project = self.get_project_name(worktree_name);
        let mut cmd = concat3("docker-compose -p ", project.as_str(), " ");
        let part = concat3("-f ", self.config.compose_file.as_str(), " ");
        cmd.append(part.as_str());
        if override_exists {
            let file = self.override_file(worktree_name);
            let part = concat3("-f ", file.as_str(), " ");
            cmd.append(part.as_str());
        }
        let ghost before = cmd@;
        cmd.append("up -d");
        proof {
            if !override_exists {
                assert(before + Seq::<char>::empty() =~= before);
            }
        }
        Ok(cmd)
    }

    /// `docker-compose -p <project> down`.
    pub fn build_stop_command(&self, worktree_name: &str, worktree_path: &str) -> (r: Result<String, HnError>)
        ensures
            r matches Ok(cmd) && cmd@ == "docker-compose -p "@ + project_name(worktree_name@) + " down"@,
    {
        let project = self.get_project_name(worktree_name);
        Ok(concat3("docker-compose -p ", project.as_str(), " down"))
    }

    /// `docker-compose -p <project> logs -f [<service>]`.
    pub fn build_logs_command(&self, worktree_name: &str, worktree_path: &str, service: Option<&str>) -> (r:
        Result<String, HnError>)
        ensures
            r matches Ok(cmd) && cmd@ == "docker-compose -p "@ + project_name(worktree_name@)
                + " logs -f"@ + match service {
                Some(svc) => " "@ + svc@,
                None => Seq::empty(),
            },
    {
        let project = self.get_project_name(worktree_name);
        let mut cmd = concat3("docker-compose -p ", project.as_str(), " logs -f");
        match service {
            Some(svc) => {
                cmd.append(" ");
                cmd.append(svc);
            },
            None => {
                assert(cmd@ + Seq::<char>::empty() =~= cmd@);
            },
        }
        Ok(cmd)
    }

    /// The status of `worktree_name`'s containers: running when Docker is available and
    /// the compose project reports containers.
    pub fn get_status(
        &self,
        worktree_name: &str,
        worktree_path: &str,
        docker_available: bool,
        containers_running: bool,
    ) -> (r: Result<ContainerStatus, HnError>)
        ensures
            r matches Ok(st) && st.worktree_name@ == worktree_name@ && st.running == (docker_available
                && containers_running) && st.container_count == (if st.running {
                1usize
            } else {
                0usize
            }),
    {
        let running = if docker_available {
            containers_running
        } else {
            false
        };
        Ok(
            ContainerStatus {
                worktree_name: String::from_str(worktree_name),
                running,
                container_count: if running {
                    1
                } else {
                    0
                },
            },
        )
    }

    /// The command that starts `worktree_name`'s containers, or an error when Docker is
    /// not available.
    pub fn start(
        &self,
        worktree_name: &str,
        worktree_path: &str,
        docker_available: bool,
        override_exists: bool,
    ) -> (r: Result<String, HnError>)
        ensures
            !docker_available ==> (r matches Err(HnError::DockerError(m)) && m@
                == "Docker is not available. Please install Docker."@),
            docker_available ==> (r matches Ok(cmd) && cmd@ == self.start_command(
                worktree_name@,
                override_exists,
            )),
    {
        if !docker_available {
            return Err(
                HnError::DockerError(
                    String::from_str("Docker is not available. Please install Docker."),
                ),
            );
        }
        self.build_start_command(worktree_name, worktree_path, override_exists)
    }
    /// The command that stops `worktree_name`'s containers; none when Docker is not
    /// available, which is not an error.
    pub fn stop(&self, worktree_name: &str, worktree_path: &str, docker_available: bool) -> (r:
        Result<Option<String>, HnError>)
        ensures
            !docker_available ==> r matches Ok(None),
            docker_available ==> (r matches Ok(Some(cmd)) && cmd@ == "docker-compose -p "@
                + project_name(worktree_name@) + " down"@),
    {
        if !docker_available {
            return Ok(None);
        }
        match self.build_stop_command(worktree_name, worktree_path) {
            Ok(cmd) => Ok(Some(cmd)),
            Err(e) => Err(e),
        }
    }

    /// The status of every worktree's containers; none are listed yet.
    pub fn list_all(&self) -> (r: Result<Vec<ContainerStatus>, HnError>)
        ensures
            r matches Ok(v) && v@.len() == 0,
    {
        Ok(Vec::new())
    }

    /// The commands that stop and remove the containers of removed worktrees: for each
    /// compose project of `projects`, in order, that is the project of none of the
    /// worktrees `active_worktrees`, `docker-compose -p <project> down`; none when Docker
    /// is not available.
    pub fn cleanup_orphaned(
        &self,
        active_worktrees: &[String],
        projects: &[String],
        docker_available: bool,
    ) -> (r: Result<Vec<String>, HnError>)
        ensures
            r matches Ok(cmds) && crate::error::views(cmds@) == (if docker_available {
                stale_projects(crate::error::views(projects@), crate::error::views(active_worktrees@)).map_values(
                    |p: Seq<char>| "docker-compose -p "@ + p + " down"@,
                )
            } else {
                Seq::empty()
            }),
    {
        let mut cmds: Vec<String> = Vec::new();
        if !docker_available {
            assert(crate::error::views(cmds@) =~= Seq::<Seq<char>>::empty());
            return Ok(cmds);
        }
        let ghost act = crate::error::views(active_worktrees@);
        let ghost ps = crate::error::views(projects@);
        let mut names: Vec<String> = Vec::new();
        let mut i: usize = 0;
        while i < active_worktrees.len()
            invariant
                i <= active_worktrees@.len(),
                act == crate::error::views(active_worktrees@),
                crate::error::views(names@) == act.take(i as int).map_values(|w: Seq<char>| project_name(w)),
            decreases active_worktrees.len() - i,
        {
            let ghost prev = names@;
            names.push(self.get_project_name(active_worktrees[i].as_str()));
            assert(crate::error::views(names@) =~= crate::error::views(prev).push(project_name(act[i as int])));
            assert(act.take(i + 1).map_values(|w: Seq<char>| project_name(w)) =~= act.take(i as int).map_values(
                |w: Seq<char>| project_name(w),
            ).push(project_name(act[i as int])));
            i = i + 1;
        }
        assert(act.take(act.len() as int) =~= act);
        let ghost ns = crate::error::views(names@);
        let mut k: usize = 0;
        while k < projects.len()
            invariant
                k <= projects@.len(),
                ps == crate::error::views(projects@),
                ns == crate::error::views(names@),
                ns == act.map_values(|w: Seq<char>| project_name(w)),
                crate::error::views(cmds@) == stale_projects(ps.take(k as int), act).map_values(
                    |p: Seq<char>| "docker-compose -p "@ + p + " down"@,
                ),
            decreases projects.len() - k,
        {
            let p = &projects[k];
            let mut found = false;
            let mut j: usize = 0;
            while j < names.len()
                invariant
                    j <= names@.len(),
                    ns == crate::error::views(names@),
                    ns.len() == names@.len(),
                    found == exists|x: int| 0 <= x < j && #[trigger] ns[x] == p@,
                decreases names.len() - j,
            {
                let eq = crate::text::str_eq(names[j].as_str(), p.as_str());
                proof {
                    assert(ns[j as int] == names@[j as int]@);
                    if !eq {
                        assert forall|x: int| 0 <= x < j + 1 && #[trigger] ns[x] == p@ implies x < j by {}
                    }
                }
                if eq {
                    found = true;
                }
                j = j + 1;
            }
            assert(ps.take(k + 1).drop_last() =~= ps.take(k as int));
            assert(ps.take(k + 1).last() == p@);
            proof {
                assert(ns.len() == act.len());
                if found {
                    let x = choose|x: int| 0 <= x < j && #[trigger] ns[x] == p@;
                    assert(ns[x] == project_name(act[x]));
                    assert(project_in(p@, act));
                }
                if project_in(p@, act) {
                    let x = choose|x: int| 0 <= x < act.len() && #[trigger] project_name(act[x]) == p@;
                    assert(ns[x] == p@);
                    assert(found);
                }
            }
            if !found {
                let ghost prev = cmds@;
                let c = concat3("docker-compose -p ", p.as_str(), " down");
                cmds.push(c);
                assert(crate::error::views(cmds@) =~= crate::error::views(prev).push("docker-compose -p "@ + p@ + " down"@));
            }
            assert(stale_projects(ps.take(k + 1), act).map_values(|q: Seq<char>| "docker-compose -p "@ + q + " down"@)
                =~= if found {
                    stale_projects(ps.take(k as int), act).map_values(|q: Seq<char>| "docker-compose -p "@ + q + " down"@)
                } else {
                    stale_projects(ps.take(k as int), act).map_values(|q: Seq<char>| "docker-compose -p "@ + q + " down"@).push(
                        "docker-compose -p "@ + p@ + " down"@,
                    )
                });
            k = k + 1;
        }
        assert(ps.take(ps.len() as int) =~= ps);
        Ok(cmds)
    }

    /// The error for a docker-compose command that failed with `stderr`.
    pub fn command_error(&self, stderr: &str) -> (r: HnError)
        ensures
            r matches HnError::DockerError(m) && m@ == "Command failed: "@ + stderr@,
    {
        HnError::DockerError(concat2("Command failed: ", stderr))
    }
}

/// Docker commands need Docker support to be enabled in the configuration.
pub fn check_docker_enabled(enabled: bool) -> (r: Result<(), HnError>)
    ensures
        enabled ==> r is Ok,
        !enabled ==> (r matches Err(HnError::DockerError(m)) && m@
            == "Docker support is not enabled in .hannahanna.yml"@),
{
    if enabled {
        Ok(())
    } else {
        Err(HnError::DockerError(String::from_str("Docker support is not enabled in .hannahanna.yml")))
    }
}

/// The service a command is run in: the one asked for, else the first service of the port
/// configuration; an error when there is neither.
pub fn exec_service(requested: Option<String>, base_ports: &StringMap<u16>) -> (r: Result<String, HnError>)
    ensures
        requested matches Some(s) ==> r == Ok::<String, HnError>(s),
        requested is None && base_ports.key_order().len() > 0 ==> (r matches Ok(s) && s@
            == base_ports.key_order()[0]),
        requested is None && base_ports.key_order().len() == 0 ==> (r matches Err(
            HnError::DockerError(m),
        ) && m@ == "No services configured and none specified"@),
{
    match requested {
        Some(s) => Ok(s),
        None => {
            if base_ports.entry_count() == 0 {
                Err(HnError::DockerError(String::from_str("No services configured and none specified")))
            } else {
                let (k, _) = base_ports.entry(0);
                Ok(k.clone())
            }
        },
    }
}

/// A command to run in a container must name something to run.
pub fn check_exec_command(command: &Vec<String>) -> (r: Result<(), HnError>)
    ensures
        command@.len() > 0 ==> r is Ok,
        command@.len() == 0 ==> (r matches Err(HnError::DockerError(m)) && m@ == "No command specified"@),
{
    if command.len() == 0 {
        Err(HnError::DockerError(String::from_str("No command specified")))
    } else {
        Ok(())
    }
}

/// The error of a command that failed in a container, with its exit code (-1 when it was
/// ended by a signal).
pub fn exec_failure(exit_code: Option<i32>) -> (r: HnError)
    ensures
        r matches HnError::DockerError(m) && m@ == "Command failed with exit code "@
            + crate::git::spec_signed_decimal(
            match exit_code {
                Some(c) => c as int,
                None => -1,
            },
        ),
{
    let code: i32 = match exit_code {
        Some(c) => c,
        None => -1,
    };
    let d = crate::git::signed_decimal(code);
    HnError::DockerError(concat2("Command failed with exit code ", d.as_str()))
}

} // verus!
