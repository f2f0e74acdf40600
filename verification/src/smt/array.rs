//! Arrays of bytes indexed by bit-vector expressions.
use vstd::prelude::*;
use crate::smt::bits::p;
use crate::smt::expr::{DContext, DExpr, Env};

verus! {

/// An array of bytes: a named array about which nothing is known, updated by
/// a list of writes (the latest last).
#[derive(Debug)]
pub struct DArray {
    name: String,
    index_width: u32,
    writes: Vec<(DExpr, DExpr)>,
}

/// The byte at index `a` after `writes` were applied to the named array.
pub open spec fn value_at(writes: Seq<(DExpr, DExpr)>, name: Seq<char>, env: Env, a: nat) -> nat
    decreases writes.len(),
{
    if writes.len() == 0 {
        (env.arrays)(name, a) % 256
    } else {
        let last = writes.last();
        if last.0.eval(env) == a {
            last.1.eval(env)
        } else {
            value_at(writes.drop_last(), name, env, a)
        }
    }
}

/// Whether reading index `a` after `writes` gives a constant: the last
/// write whose index is not a different constant has the constant index
/// `a` and a constant value.
pub open spec fn const_read(writes: Seq<(DExpr, DExpr)>, a: u64) -> bool
    decreases writes.len(),
{
    if writes.len() == 0 {
        false
    } else {
        let last = writes.last();
        last.0.is_const() && if last.0.const_value() == Some(a) {
            last.1.is_const()
        } else {
            const_read(writes.drop_last(), a)
        }
    }
}

impl DArray {
    /// Well formedness: every write has an index of the array's index width
    /// and a byte as its value.
    pub closed spec fn wf(self) -> bool {
        &&& 1 <= self.index_width <= 64
        &&& forall|i: int| 0 <= i < self.writes@.len() ==> {
            &&& (#[trigger] self.writes@[i]).0.wf()
            &&& self.writes@[i].0.width() == self.index_width
            &&& self.writes@[i].1.wf()
            &&& self.writes@[i].1.width() == 8
        }
    }

    /// The width of the indices.
    pub closed spec fn index_bits(self) -> nat {
        self.index_width as nat
    }

    /// The name of the array.
    pub closed spec fn array_name(self) -> Seq<char> {
        self.name@
    }

    /// The writes applied to the array, oldest first.
    pub closed spec fn write_log(self) -> Seq<(DExpr, DExpr)> {
        self.writes@
    }

    /// The byte at index `a` under the assignment `env`.
    pub closed spec fn byte_at(self, env: Env, a: nat) -> nat {
        value_at(self.writes@, self.name@, env, a)
    }

    /// An array with the given index width, about which nothing is known yet.
    pub fn new(ctx: &DContext, index_width: u32, name: &str) -> (r: DArray)
        requires
            1 <= index_width <= 64,
        ensures
            r.wf(),
            r.index_bits() == index_width,
            r.array_name() == name@,
            r.write_log() == Seq::<(DExpr, DExpr)>::empty(),
            forall|env: Env, a: nat| #[trigger] r.byte_at(env, a) == (env.arrays)(name@, a) % 256,
    {
        DArray { name: name.to_owned(), index_width, writes: Vec::new() }
    }

    /// The byte at `index`.
    pub fn read(&self, index: &DExpr) -> (r: DExpr)
        requires
            self.wf(),
            index.wf(),
            index.width() == self.index_bits(),
        ensures
            r.wf(),
            r.width() == 8,
            forall|env: Env| #[trigger] r.eval(env) == self.byte_at(env, index.eval(env)),
            index.is_const() && const_read(self.write_log(), index.const_value().unwrap()) ==> r.is_const(),
            self.write_log().len() == 0 ==> !r.is_const(),
    {
        let mut e: DExpr = DExpr::Select { array: self.name.clone(), index: Box::new(index.clone()) };
        proof {
            vstd::arithmetic::power2::lemma2_to64();
            assert(self.writes@.take(0) =~= Seq::<(DExpr, DExpr)>::empty());
        }
        let mut i: usize = 0;
        while i < self.writes.len()
            invariant
                self.wf(),
                index.wf(),
                index.width() == self.index_bits(),
                i <= self.writes@.len(),
                e.wf(),
                e.width() == 8,
                forall|env: Env| #[trigger] e.eval(env) == value_at(self.writes@.take(i as int), self.name@, env, index.eval(env)),
                index.is_const() && const_read(self.writes@.take(i as int), index.const_value().unwrap()) ==> e.is_const(),
                self.writes@.len() == 0 ==> !e.is_const(),
            decreases self.writes.len() - i,
        {
            let cond: DExpr = index._eq(&self.writes[i].0);
            let next: DExpr = cond.ite(&self.writes[i].1, &e);
            proof {
                if index.is_const() && self.writes@[i as int].0.is_const() {
                    let env = crate::smt::expr::zero_env();
                    assert(cond.eval(env) == cond.const_value().unwrap() as nat);
                    assert(index.eval(env) == index.const_value().unwrap() as nat);
                    assert(self.writes@[i as int].0.eval(env) == self.writes@[i as int].0.const_value().unwrap() as nat);
                }
                assert(self.writes@.take(i + 1).drop_last() =~= self.writes@.take(i as int));
                assert(self.writes@.take(i + 1).last() == self.writes@[i as int]);
            }
            e = next;
            i = i + 1;
        }
        proof {
            assert(self.writes@.take(self.writes@.len() as int) =~= self.writes@);
        }
        e
    }

    /// Stores the byte `value` at `index`.
    pub fn write(&mut self, index: &DExpr, value: DExpr)
        requires
            old(self).wf(),
            index.wf(),
            index.width() == old(self).index_bits(),
            value.wf(),
            value.width() == 8,
        ensures
            final(self).wf(),
            final(self).index_bits() == old(self).index_bits(),
            final(self).array_name() == old(self).array_name(),
            final(self).write_log() == old(self).write_log().push((*index, value)),
            forall|env: Env, a: nat| #[trigger] final(self).byte_at(env, a) == if index.eval(env) == a {
                value.eval(env)
            } else {
                old(self).byte_at(env, a)
            },
    {
        self.writes.push((index.clone(), value));
        proof {
            assert(self.writes@.drop_last() =~= old(self).writes@);
        }
    }
}

impl Clone for DArray {
    fn clone(&self) -> (r: DArray)
        ensures
            r.wf() == self.wf(),
            r.index_bits() == self.index_bits(),
            r.array_name() == self.array_name(),
            r.write_log() == self.write_log(),
            forall|env: Env, a: nat| #[trigger] r.byte_at(env, a) == self.byte_at(env, a),
    {
        let mut writes: Vec<(DExpr, DExpr)> = Vec::new();
        let mut i: usize = 0;
        while i < self.writes.len()
            invariant
                i <= self.writes@.len(),
                writes@ == self.writes@.take(i as int),
            decreases self.writes.len() - i,
        {
            writes.push((self.writes[i].0.clone(), self.writes[i].1.clone()));
            i = i + 1;
            proof {
                assert(writes@ =~= self.writes@.take(i as int));
            }
        }
        proof {
            assert(self.writes@.take(self.writes@.len() as int) =~= self.writes@);
        }
        let r: DArray = DArray { name: self.name.clone(), index_width: self.index_width, writes };
        proof {
            assert(r.writes@ =~= self.writes@);
        }
        r
    }
}

} // verus!
