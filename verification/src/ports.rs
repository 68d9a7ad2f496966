//! Sets of port numbers, in ascending order.

use vstd::prelude::*;

verus! {

/// Each number is greater than those before it.
pub open spec fn ascends(s: Seq<u16>) -> bool {
    forall|i: int, j: int| 0 <= i < j < s.len() ==> #[trigger] s[i] < #[trigger] s[j]
}

/// The list holds the elements of the set in ascending order.
pub open spec fn lists(s: Seq<u16>, ports: Set<u16>) -> bool {
    ascends(s) && forall|p: u16| #[trigger] s.contains(p) <==> ports.contains(p)
}

/// The elements of a finite set in ascending order.
pub open spec fn listing(ports: Set<u16>) -> Seq<u16> {
    choose|s: Seq<u16>| #[trigger] lists(s, ports)
}

/// There is only one ascending list of the elements of a set.
pub proof fn listing_is_unique(s: Seq<u16>, t: Seq<u16>, ports: Set<u16>)
    requires
        lists(s, ports),
        lists(t, ports),
    ensures
        s == t,
    decreases s.len(),
{
    if s.len() == 0 {
        if t.len() > 0 {
            assert(t.contains(t[0]));
            assert(s.contains(t[0]));
        }
        assert(s =~= t);
    } else {
        assert(s.contains(s[0]));
        assert(t.contains(s[0]));
        assert(t.contains(t[0]));
        assert(s.contains(t[0]));
        let j = choose|j: int| 0 <= j < t.len() && t[j] == s[0];
        let k = choose|k: int| 0 <= k < s.len() && s[k] == t[0];
        assert(s[0] == t[0]) by {
            if j > 0 {
                assert(t[0] < t[j]);
                if k > 0 {
                    assert(s[0] < s[k]);
                }
            }
        }
        let x = s.drop_first();
        let y = t.drop_first();
        let rest = ports.remove(s[0]);
        assert(forall|i: int| 0 <= i < x.len() ==> #[trigger] x[i] == s[i + 1]);
        assert(forall|i: int| 0 <= i < y.len() ==> #[trigger] y[i] == t[i + 1]);
        assert forall|p: u16| #[trigger] x.contains(p) <==> rest.contains(p) by {
            if x.contains(p) {
                let i = choose|i: int| 0 <= i < x.len() && x[i] == p;
                assert(s[i + 1] == p);
                assert(s[0] < s[i + 1]);
                assert(s.contains(p));
            }
            if rest.contains(p) {
                assert(s.contains(p));
                let i = choose|i: int| 0 <= i < s.len() && s[i] == p;
                assert(x[i - 1] == p);
            }
        }
        assert forall|p: u16| #[trigger] y.contains(p) <==> rest.contains(p) by {
            if y.contains(p) {
                let i = choose|i: int| 0 <= i < y.len() && y[i] == p;
                assert(t[i + 1] == p);
                assert(t[0] < t[i + 1]);
                assert(t.contains(p));
            }
            if rest.contains(p) {
                assert(t.contains(p));
                let i = choose|i: int| 0 <= i < t.len() && t[i] == p;
                assert(y[i - 1] == p);
            }
        }
        listing_is_unique(x, y, rest);
        assert forall|i: int| 0 <= i < s.len() implies s[i] == t[i] by {
            if i > 0 {
                assert(x[i - 1] == s[i]);
                assert(y[i - 1] == t[i]);
            }
        }
        assert(s =~= t);
    }
}

/// A set of port numbers.
#[derive(Debug, Default, PartialEq, Eq)]
pub struct PortSet {
    items: Vec<u16>,
}

impl View for PortSet {
    type V = Set<u16>;

    closed spec fn view(&self) -> Set<u16> {
        Set::new(|p: u16| self.items@.contains(p))
    }
}

impl PortSet {
    #[verifier::type_invariant]
    spec fn wf(self) -> bool {
        ascends(self.items@)
    }

    /// No port.
    pub fn new() -> (r: Self)
        ensures
            r@ == Set::<u16>::empty(),
    {
        let r = PortSet { items: Vec::new() };
        assert(r@ =~= Set::<u16>::empty());
        r
    }

    /// The ports in ascending order.
    pub fn listed(&self) -> (r: &Vec<u16>)
        ensures
            r@ == listing(self@),
            lists(r@, self@),
    {
        proof {
            use_type_invariant(self);
            assert(lists(self.items@, self@));
            listing_is_unique(self.items@, listing(self@), self@);
        }
        &self.items
    }

    /// Whether the port is in the set.
    pub fn contains(&self, port: u16) -> (r: bool)
        ensures
            r == self@.contains(port),
    {
        let mut i: usize = 0;
        while i < self.items.len()
            invariant
                i <= self.items.len(),
                forall|j: int| 0 <= j < i ==> self.items@[j] != port,
            decreases self.items.len() - i,
        {
            if self.items[i] == port {
                assert(self.items@.contains(port));
                return true;
            }
            i = i + 1;
        }
        false
    }

    /// How many ports there are.
    pub fn len(&self) -> (r: usize)
        ensures
            r == listing(self@).len(),
    {
        self.listed().len()
    }

    /// Whether there is no port.
    pub fn is_empty(&self) -> (r: bool)
        ensures
            r == (self@ == Set::<u16>::empty()),
    {
        let n: usize = self.items.len();
        proof {
            if n == 0 {
                assert(self@ =~= Set::<u16>::empty());
            } else {
                assert(self.items@.contains(self.items@[0]));
                assert(self@.contains(self.items@[0]));
            }
        }
        n == 0
    }

    /// Put a port into the set; whether it was not there before.
    pub fn insert(&mut self, port: u16) -> (r: bool)
        ensures
            final(self)@ == old(self)@.insert(port),
            r == !old(self)@.contains(port),
    {
        proof {
            use_type_invariant(&*self);
        }
        let ghost before = self.items@;
        let mut v: Vec<u16> = Vec::new();
        std::mem::swap(&mut v, &mut self.items);
        let mut k: usize = 0;
        while k < v.len() && v[k] < port
            invariant
                k <= v.len(),
                v@ == before,
                forall|j: int| 0 <= j < k ==> v@[j] < port,
            decreases v.len() - k,
        {
            k = k + 1;
        }
        let fresh = k == v.len() || v[k] != port;
        if fresh {
            v.insert(k, port);
        }
        proof {
            let after = v@;
            if fresh {
                assert(after =~= before.insert(k as int, port));
                assert forall|p: u16| #[trigger] after.contains(p) <==> (before.contains(p) || p
                    == port) by {
                    if before.contains(p) {
                        let i = choose|i: int| 0 <= i < before.len() && before[i] == p;
                        if i < k {
                            assert(after[i] == p);
                        } else {
                            assert(after[i + 1] == p);
                        }
                    }
                    if p == port {
                        assert(after[k as int] == p);
                    }
                    if after.contains(p) {
                        let i = choose|i: int| 0 <= i < after.len() && after[i] == p;
                        if i < k {
                            assert(before[i] == p);
                        } else if i > k {
                            assert(before[i - 1] == p);
                        }
                    }
                }
                assert(!before.contains(port)) by {
                    if before.contains(port) {
                        let i = choose|i: int| 0 <= i < before.len() && before[i] == port;
                        assert(i >= k);
                        if i > k {
                            assert(before[k as int] < before[i]);
                        }
                    }
                }
            } else {
                assert(before[k as int] == port);
                assert(before.contains(port));
            }
        }
        self.items = v;
        assert(self@ =~= old(self)@.insert(port));
        fresh
    }

    /// Whether all ports are in `other` too.
    pub fn is_subset(&self, other: &PortSet) -> (r: bool)
        ensures
            r == self@.subset_of(other@),
    {
        let mut i: usize = 0;
        while i < self.items.len()
            invariant
                i <= self.items.len(),
                forall|j: int| 0 <= j < i ==> other@.contains(#[trigger] self.items@[j]),
            decreases self.items.len() - i,
        {
            if !other.contains(self.items[i]) {
                assert(self.items@.contains(self.items@[i as int]));
                assert(self@.contains(self.items@[i as int]));
                return false;
            }
            i = i + 1;
        }
        true
    }

    /// The ports of a list.
    pub fn of(ports: &Vec<u16>) -> (r: Self)
        ensures
            r@ == ports@.to_set(),
    {
        let mut out = PortSet::new();
        let mut i: usize = 0;
        assert(out@ =~= ports@.take(0).to_set());
        while i < ports.len()
            invariant
                i <= ports.len(),
                out@ == ports@.take(i as int).to_set(),
            decreases ports.len() - i,
        {
            let fresh = out.insert(ports[i]);
            proof {
                let a = ports@.take(i as int);
                let b = ports@.take(i + 1);
                assert(b =~= a.push(ports@[i as int]));
                assert forall|p: u16| b.contains(p) <==> (a.contains(p) || p == ports@[i as int]) by {
                    if a.contains(p) {
                        let j = choose|j: int| 0 <= j < a.len() && a[j] == p;
                        assert(b[j] == p);
                    }
                    if p == ports@[i as int] {
                        assert(b[i as int] == p);
                    }
                }
                assert(b.to_set() =~= a.to_set().insert(ports@[i as int]));
            }
            i = i + 1;
        }
        assert(ports@.take(i as int) =~= ports@);
        out
    }
}

} // verus!
