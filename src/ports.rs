use vstd::prelude::*;

verus! {

/// One entry of the operating system's socket table, as far as the port
/// search reads it.
#[derive(Debug, Clone, PartialEq, Eq)]
pub struct SocketEntry {
    /// Identifiers of the processes that hold the socket.
    pub pids: Vec<u32>,
    pub kind: SocketKind,
}

#[derive(Debug, Clone, PartialEq, Eq)]
pub enum SocketKind {
    Tcp { local_port: u16, listening: bool },
    Udp,
}

/// A set of port numbers, held without repetition.
#[derive(Debug, Clone, PartialEq, Eq)]
pub struct PortSet {
    pub ports: Vec<u16>,
}

impl View for PortSet {
    type V = Set<u16>;

    open spec fn view(&self) -> Set<u16> {
        self.ports@.to_set()
    }
}

/// Whether `entry` is a listening TCP socket of process `pid` on `port`.
pub open spec fn listens_on(entry: SocketEntry, pid: u32, port: u16) -> bool {
    &&& entry.pids@.contains(pid)
    &&& entry.kind == (SocketKind::Tcp { local_port: port, listening: true })
}

/// The ports on which process `pid` listens, according to `table`.
pub open spec fn listening_set(table: Seq<SocketEntry>, pid: u32) -> Set<u16> {
    Set::new(|p: u16| exists|i: int| 0 <= i < table.len() && listens_on(table[i], pid, p))
}

proof fn lemma_push_contains<A>(s: Seq<A>, x: A, q: A)
    ensures
        s.push(x).contains(q) <==> (s.contains(q) || q == x),
{
    if s.push(x).contains(q) {
        let k = choose|k: int| 0 <= k < s.push(x).len() && s.push(x)[k] == q;
        if k < s.len() {
            assert(s[k] == q);
        }
    }
    if s.contains(q) {
        let k = choose|k: int| 0 <= k < s.len() && s[k] == q;
        assert(s.push(x)[k] == q);
    }
    if q == x {
        assert(s.push(x)[s.len() as int] == q);
    }
}

/// Whether `v` holds `x`.
fn vec_has<T: PartialEq + vstd::std_specs::cmp::PartialEqSpec>(v: &Vec<T>, x: &T) -> (r: bool)
    requires
        T::obeys_eq_spec(),
        forall|a: T, b: T| #[trigger] a.eq_spec(&b) <==> a == b,
    ensures
        r == v@.contains(*x),
{
    let mut i: usize = 0;
    while i < v.len()
        invariant
            i <= v.len(),
            T::obeys_eq_spec(),
            forall|a: T, b: T| #[trigger] a.eq_spec(&b) <==> a == b,
            forall|j: int| 0 <= j < i ==> v@[j] != *x,
        decreases v.len() - i,
    {
        if v[i] == *x {
            return true;
        }
        i += 1;
    }
    false
}

impl PortSet {
    pub open spec fn wf(&self) -> bool {
        self.ports@.no_duplicates()
    }

    /// The set of the given ports, each kept once, in order of first appearance.
    pub fn from_ports(ports: &Vec<u16>) -> (r: PortSet)
        ensures
            r.wf(),
            r@ == ports@.to_set(),
    {
        let mut out: Vec<u16> = Vec::new();
        let mut i: usize = 0;
        while i < ports.len()
            invariant
                i <= ports.len(),
                out@.no_duplicates(),
                forall|p: u16| out@.contains(p) <==> ports@.subrange(0, i as int).contains(p),
            decreases ports.len() - i,
        {
            let p = ports[i];
            let ghost prev = out@;
            let ghost pre = ports@.subrange(0, i as int);
            assert(ports@.subrange(0, i + 1) == pre.push(p));
            if !vec_has(&out, &p) {
                out.push(p);
            }
            assert forall|q: u16| out@.contains(q) <==> pre.push(p).contains(q) by {
                lemma_push_contains(pre, p, q);
                lemma_push_contains(prev, p, q);
            };
            i += 1;
        }
        assert(ports@.subrange(0, ports.len() as int) == ports@);
        let r = PortSet { ports: out };
        assert(r@ =~= ports@.to_set());
        r
    }

    /// Whether no port is held twice.
    pub fn is_wf(&self) -> (r: bool)
        ensures
            r == self.wf(),
    {
        let mut i: usize = 0;
        while i < self.ports.len()
            invariant
                i <= self.ports.len(),
                forall|j: int, k: int| 0 <= j < i && 0 <= k < self.ports@.len() && j != k ==> self.ports@[j] != self.ports@[k],
            decreases self.ports.len() - i,
        {
            let mut k: usize = 0;
            while k < self.ports.len()
                invariant
                    i < self.ports.len(),
                    k <= self.ports.len(),
                    forall|j: int, k2: int| 0 <= j < i && 0 <= k2 < self.ports@.len() && j != k2 ==> self.ports@[j] != self.ports@[k2],
                    forall|k2: int| 0 <= k2 < k && k2 != i ==> self.ports@[i as int] != self.ports@[k2],
                decreases self.ports.len() - k,
            {
                if k != i && self.ports[i] == self.ports[k] {
                    return false;
                }
                k += 1;
            }
            i += 1;
        }
        true
    }

    /// The ports, in the order they are held.
    pub fn to_vec(&self) -> (r: Vec<u16>)
        ensures
            r@ == self.ports@,
    {
        let mut out: Vec<u16> = Vec::new();
        let mut i: usize = 0;
        while i < self.ports.len()
            invariant
                i <= self.ports.len(),
                out@ == self.ports@.subrange(0, i as int),
            decreases self.ports.len() - i,
        {
            out.push(self.ports[i]);
            i += 1;
        }
        out
    }

    pub fn contains(&self, p: u16) -> (r: bool)
        ensures
            r == self@.contains(p),
    {
        vec_has(&self.ports, &p)
    }

    pub fn len(&self) -> (r: usize)
        requires
            self.wf(),
        ensures
            r == self@.len(),
            r == self.ports@.len(),
    {
        proof {
            self.ports@.unique_seq_to_set();
        }
        self.ports.len()
    }

    /// The ports of `self` that `other` lacks.
    pub fn difference(&self, other: &PortSet) -> (r: PortSet)
        requires
            self.wf(),
        ensures
            r.wf(),
            r@ == self@.difference(other@),
    {
        let mut out: Vec<u16> = Vec::new();
        let mut i: usize = 0;
        while i < self.ports.len()
            invariant
                i <= self.ports.len(),
                self.wf(),
                out@.no_duplicates(),
                forall|p: u16|
                    out@.contains(p) <==> (self.ports@.subrange(0, i as int).contains(p)
                        && !other@.contains(p)),
            decreases self.ports.len() - i,
        {
            let p = self.ports[i];
            let ghost prev = out@;
            let ghost pre = self.ports@.subrange(0, i as int);
            assert(self.ports@.subrange(0, i + 1) == pre.push(p));
            if !other.contains(p) {
                assert(!out@.contains(p)) by {
                    if out@.contains(p) {
                        let k = choose|k: int| 0 <= k < pre.len() && pre[k] == p;
                        assert(self.ports@[k] == self.ports@[i as int]);
                    }
                };
                out.push(p);
            }
            assert forall|q: u16|
                out@.contains(q) <==> (pre.push(p).contains(q) && !other@.contains(q)) by {
                lemma_push_contains(pre, p, q);
                lemma_push_contains(prev, p, q);
            };
            i += 1;
        }
        assert(self.ports@.subrange(0, self.ports.len() as int) == self.ports@);
        let r = PortSet { ports: out };
        assert(r@ =~= self@.difference(other@));
        r
    }
}

/// The set of ports on which process `pid` holds a listening TCP socket.
pub fn listening_ports(table: &Vec<SocketEntry>, pid: u32) -> (r: PortSet)
    ensures
        r.wf(),
        r@ == listening_set(table@, pid),
{
    let mut found: Vec<u16> = Vec::new();
    let mut i: usize = 0;
    while i < table.len()
        invariant
            i <= table.len(),
            forall|p: u16|
                found@.contains(p) <==> exists|j: int|
                    0 <= j < i && listens_on(table@[j], pid, p),
        decreases table.len() - i,
    {
        let entry = &table[i];
        let ghost prev = found@;
        if vec_has(&entry.pids, &pid) {
            match &entry.kind {
                SocketKind::Tcp { local_port, listening } => {
                    if *listening {
                        found.push(*local_port);
                    }
                },
                SocketKind::Udp => {},
            }
        }
        assert forall|p: u16|
            found@.contains(p) <==> exists|j: int|
                0 <= j < i + 1 && listens_on(table@[j], pid, p) by {
            if found@ != prev {
                lemma_push_contains(prev, found@.last(), p);
                assert(found@ == prev.push(found@.last()));
            }
            if exists|j: int| 0 <= j < i + 1 && listens_on(table@[j], pid, p) {
                let j = choose|j: int| 0 <= j < i + 1 && listens_on(table@[j], pid, p);
                if j == i {
                    assert(found@[found@.len() - 1] == p);
                }
            }
            if found@.contains(p) {
                let k = choose|k: int| 0 <= k < found@.len() && found@[k] == p;
                if k == found@.len() - 1 && !(exists|j: int|
                    0 <= j < i && listens_on(table@[j], pid, p)) {
                    assert(listens_on(table@[i as int], pid, p));
                }
            }
        };
        i += 1;
    }
    let r = PortSet::from_ports(&found);
    assert(r@ =~= listening_set(table@, pid));
    r
}

} // verus!
