//! Finite maps from names to expressions, used for registers, flags and the
//! local values of an instruction.
use vstd::prelude::*;
use crate::smt::expr::DExpr;

verus! {

/// A map from names to expressions; a name occurs at most once.
#[derive(Debug)]
pub struct NamedExprs {
    entries: Vec<(String, DExpr)>,
}

impl NamedExprs {
    /// The entries, in the order their names were first inserted.
    pub closed spec fn entries(self) -> Seq<(String, DExpr)> {
        self.entries@
    }

    /// No name occurs twice.
    pub closed spec fn wf(self) -> bool {
        forall|i: int, j: int|
            0 <= i < j < self.entries@.len() ==> (#[trigger] self.entries@[i]).0@ != (#[trigger] self.entries@[j]).0@
    }

    /// Whether `name` is bound.
    pub closed spec fn contains(self, name: Seq<char>) -> bool {
        exists|i: int| 0 <= i < self.entries@.len() && (#[trigger] self.entries@[i]).0@ == name
    }

    /// The position of `name` among the entries.
    closed spec fn position(self, name: Seq<char>) -> int {
        choose|i: int| 0 <= i < self.entries@.len() && (#[trigger] self.entries@[i]).0@ == name
    }

    /// The expression bound to `name`.
    pub closed spec fn lookup(self, name: Seq<char>) -> DExpr {
        self.entries@[self.position(name)].1
    }

    /// The map as a mathematical map.
    pub open spec fn view_map(self) -> Map<Seq<char>, DExpr> {
        Map::new(|k: Seq<char>| self.contains(k), |k: Seq<char>| self.lookup(k))
    }

    proof fn lemma_unique(self, a: int, b: int)
        requires
            self.wf(),
            0 <= a < self.entries@.len(),
            0 <= b < self.entries@.len(),
            self.entries@[a].0@ == self.entries@[b].0@,
        ensures
            a == b,
    {
        if a < b {
            assert(self.entries@[a].0@ != self.entries@[b].0@);
        } else if b < a {
            assert(self.entries@[b].0@ != self.entries@[a].0@);
        }
    }

    /// An empty map.
    pub fn new() -> (r: NamedExprs)
        ensures
            r.wf(),
            forall|k: Seq<char>| !(#[trigger] r.contains(k)),
    {
        NamedExprs { entries: Vec::new() }
    }

    /// Finds the position of `name`.
    fn find(&self, name: &str) -> (r: Option<usize>)
        requires
            self.wf(),
        ensures
            r is None ==> !self.contains(name@),
            r matches Some(i) ==> i < self.entries@.len() && self.entries@[i as int].0@ == name@
                && self.position(name@) == i,
    {
        let key: String = name.to_owned();
        let mut i: usize = 0;
        while i < self.entries.len()
            invariant
                i <= self.entries@.len(),
                key@ == name@,
                self.wf(),
                forall|j: int| 0 <= j < i ==> (#[trigger] self.entries@[j]).0@ != name@,
            decreases self.entries.len() - i,
        {
            if self.entries[i].0 == key {
                proof {
                    assert(self.contains(name@));
                    let p: int = self.position(name@);
                    self.lemma_unique(p, i as int);
                }
                return Some(i);
            }
            i = i + 1;
        }
        None
    }

    /// The expression bound to `name`, if any.
    pub fn get(&self, name: &str) -> (r: Option<DExpr>)
        requires
            self.wf(),
        ensures
            r is None <==> !self.contains(name@),
            r matches Some(e) ==> e == self.lookup(name@),
    {
        match self.find(name) {
            Some(i) => Some(self.entries[i].1.clone()),
            None => None,
        }
    }

    /// Binds `name` to `value`, replacing an earlier binding.
    pub fn insert(&mut self, name: String, value: DExpr)
        requires
            old(self).wf(),
        ensures
            final(self).wf(),
            final(self).contains(name@),
            final(self).lookup(name@) == value,
            forall|k: Seq<char>| k != name@ ==> (#[trigger] final(self).contains(k)) == old(self).contains(k),
            forall|k: Seq<char>| k != name@ && old(self).contains(k) ==> #[trigger] final(self).lookup(k)
                == old(self).lookup(k),
    {
        let ghost before = self.entries@;
        match self.find(name.as_str()) {
            Some(i) => {
                let ghost nm = name@;
                self.entries.set(i, (name, value));
                proof {
                    assert(self.entries@[i as int].0@ == nm);
                    assert forall|a: int, b: int|
                        0 <= a < b < self.entries@.len() implies (#[trigger] self.entries@[a]).0@
                        != (#[trigger] self.entries@[b]).0@ by {
                        assert(before[a].0@ != before[b].0@);
                    }
                    assert forall|k: Seq<char>| k != nm implies (#[trigger] self.contains(k)) == old(self).contains(k) by {
                        if self.contains(k) {
                            let p: int = choose|p: int| 0 <= p < self.entries@.len() && (#[trigger] self.entries@[p]).0@ == k;
                            assert(before[p].0@ == k);
                        }
                        if old(self).contains(k) {
                            let p: int = choose|p: int| 0 <= p < before.len() && (#[trigger] before[p]).0@ == k;
                            assert(self.entries@[p].0@ == k);
                        }
                    }
                    assert(self.contains(nm));
                    let q: int = self.position(nm);
                    if q != i as int {
                        assert(self.entries@[q].0@ != self.entries@[i as int].0@ || q == i as int);
                    }
                    assert forall|k: Seq<char>| k != nm && old(self).contains(k) implies #[trigger] self.lookup(k)
                        == old(self).lookup(k) by {
                        let p: int = old(self).position(k);
                        let p2: int = self.position(k);
                        assert(before[p].0@ == k);
                        assert(self.entries@[p].0@ == k);
                        assert(self.contains(k));
                        if p != p2 {
                            if p < p2 {
                                assert(self.entries@[p].0@ != self.entries@[p2].0@);
                            } else {
                                assert(self.entries@[p2].0@ != self.entries@[p].0@);
                            }
                        }
                    }
                }
            },
            None => {
                let ghost nm = name@;
                self.entries.push((name, value));
                proof {
                    let n: int = before.len() as int;
                    assert(self.entries@[n].0@ == nm);
                    assert forall|a: int, b: int|
                        0 <= a < b < self.entries@.len() implies (#[trigger] self.entries@[a]).0@
                        != (#[trigger] self.entries@[b]).0@ by {
                        if b == n {
                            assert(!old(self).contains(nm));
                            assert(before[a].0@ != nm);
                        } else {
                            assert(before[a].0@ != before[b].0@);
                        }
                    }
                    assert(self.contains(nm));
                    let q: int = self.position(nm);
                    if q != n {
                        assert(before[q].0@ != nm);
                    }
                    assert forall|k: Seq<char>| k != nm implies (#[trigger] self.contains(k)) == old(self).contains(k) by {
                        if self.contains(k) {
                            let p: int = choose|p: int| 0 <= p < self.entries@.len() && (#[trigger] self.entries@[p]).0@ == k;
                            assert(p != n);
                            assert(before[p].0@ == k);
                        }
                        if old(self).contains(k) {
                            let p: int = choose|p: int| 0 <= p < before.len() && (#[trigger] before[p]).0@ == k;
                            assert(self.entries@[p].0@ == k);
                        }
                    }
                    assert forall|k: Seq<char>| k != nm && old(self).contains(k) implies #[trigger] self.lookup(k)
                        == old(self).lookup(k) by {
                        let p: int = old(self).position(k);
                        let p2: int = self.position(k);
                        assert(before[p].0@ == k);
                        assert(self.entries@[p].0@ == k);
                        assert(self.contains(k));
                        if p != p2 {
                            if p < p2 {
                                assert(self.entries@[p].0@ != self.entries@[p2].0@);
                            } else {
                                assert(self.entries@[p2].0@ != self.entries@[p].0@);
                            }
                        }
                    }
                }
            },
        }
    }

    /// The number of bound names.
    pub fn len(&self) -> (r: usize)
        ensures
            r == self.entries().len(),
    {
        self.entries.len()
    }
}

impl Clone for NamedExprs {
    fn clone(&self) -> (r: NamedExprs)
        ensures
            r.entries() == self.entries(),
            self.wf() ==> r.wf(),
            forall|k: Seq<char>| #[trigger] r.contains(k) == self.contains(k),
            forall|k: Seq<char>| #[trigger] r.lookup(k) == self.lookup(k),
    {
        let mut entries: Vec<(String, DExpr)> = Vec::new();
        let mut i: usize = 0;
        while i < self.entries.len()
            invariant
                i <= self.entries@.len(),
                entries@ == self.entries@.take(i as int),
            decreases self.entries.len() - i,
        {
            let name: String = self.entries[i].0.clone();
            let value: DExpr = self.entries[i].1.clone();
            entries.push((name, value));
            i = i + 1;
            assert(entries@ =~= self.entries@.take(i as int));
        }
        assert(self.entries@.take(self.entries@.len() as int) =~= self.entries@);
        let r: NamedExprs = NamedExprs { entries };
        proof {
            assert(r.entries@ == self.entries@);
            assert forall|k: Seq<char>| #[trigger] r.contains(k) == self.contains(k) by {
                if r.contains(k) {
                    let p: int = choose|p: int| 0 <= p < r.entries@.len() && (#[trigger] r.entries@[p]).0@ == k;
                    assert(self.entries@[p].0@ == k);
                }
            }
        }
        r
    }
}

} // verus!
