//! A byte addressable memory over an array of symbolic bytes.
//!
//! A write splits its value into bytes and stores each at its own address;
//! a read concatenates bytes into one value. The byte order is the memory's
//! endianness.
use vstd::prelude::*;
use vstd::arithmetic::power2::{pow2, lemma_pow2_pos, lemma_pow2_adds, lemma2_to64};
use vstd::arithmetic::div_mod::{lemma_small_mod, lemma_mod_pos_bound, lemma_add_mod_noop_right,
    lemma_mod_breakdown, lemma_mod_equivalence};
use crate::smt::bits::{p, lemma_p_facts, lemma_p_mono};
use crate::smt::expr::{DContext, DExpr, Env, lemma_eval_range, zero_env};
use crate::smt::array::{DArray, const_read};
use crate::symex::types::Endianness;
use crate::memory::errors::{MemoryError, BITS_IN_BYTE};

verus! {

/// The address `k` bytes after `a` in an address space of `ps` bit pointers.
pub open spec fn offset_address(a: nat, k: nat, ps: nat) -> nat {
    (a + k) % p(ps)
}

/// Byte `k` of `v`, counting from the least significant.
pub open spec fn byte_of(v: nat, k: nat) -> nat {
    (v / p(8 * k)) % 256
}

/// The offset from the start address of byte `k` of an `n` byte value.
pub open spec fn slot(k: nat, n: nat, big_endian: bool) -> nat {
    if big_endian {
        (n - 1 - k) as nat
    } else {
        k
    }
}

/// The bytes of memory `f` after the low `k` bytes of the `n` byte value `v`
/// were stored, one after another, for a store at address `a`.
pub open spec fn store(f: spec_fn(nat) -> nat, a: nat, v: nat, n: nat, big_endian: bool, ps: nat, k: nat) -> spec_fn(nat) -> nat
    decreases k,
{
    if k == 0 {
        f
    } else {
        let g = store(f, a, v, n, big_endian, ps, (k - 1) as nat);
        |x: nat|
            if x == offset_address(a, slot((k - 1) as nat, n, big_endian), ps) {
                byte_of(v, (k - 1) as nat)
            } else {
                g(x)
            }
    }
}

/// The value of the low `k` bytes of an `n` byte load at address `a` from memory `f`.
pub open spec fn load(f: spec_fn(nat) -> nat, a: nat, n: nat, big_endian: bool, ps: nat, k: nat) -> nat
    decreases k,
{
    if k == 0 {
        0
    } else {
        f(offset_address(a, slot((k - 1) as nat, n, big_endian), ps)) * p(8 * (k - 1) as nat) + load(
            f,
            a,
            n,
            big_endian,
            ps,
            (k - 1) as nat,
        )
    }
}

/// Loads from two memories that agree on the `n` bytes at `a` give the same
/// value.
pub proof fn lemma_load_same(f: spec_fn(nat) -> nat, g: spec_fn(nat) -> nat, a: nat, n: nat, big_endian: bool, ps: nat, k: nat)
    requires
        k <= n,
        forall|j: nat| j < n ==> f(offset_address(a, j, ps)) == g(offset_address(a, j, ps)),
    ensures
        load(f, a, n, big_endian, ps, k) == load(g, a, n, big_endian, ps, k),
    decreases k,
{
    if k > 0 {
        lemma_load_same(f, g, a, n, big_endian, ps, (k - 1) as nat);
        let j = slot((k - 1) as nat, n, big_endian);
        assert(j < n);
        assert(f(offset_address(a, j, ps)) == g(offset_address(a, j, ps)));
    }
}

/// The number of bytes a write of a `w` bit value stores.
pub open spec fn stored_bytes(w: nat) -> nat {
    if w < 8 {
        1
    } else {
        w / 8
    }
}

/// A memory over an array of symbolic bytes.
#[derive(Debug)]
pub struct ArrayMemory {
    /// The context that creates the memory's expressions.
    pub ctx: DContext,
    ptr_size: u32,
    memory: DArray,
    endianness: Endianness,
}

impl ArrayMemory {
    /// Well formedness: addresses have the pointer width.
    pub closed spec fn wf(self) -> bool {
        &&& 1 <= self.ptr_size <= 64
        &&& self.memory.wf()
        &&& self.memory.index_bits() == self.ptr_size
    }

    /// The width of addresses in bits.
    pub closed spec fn ptr_bits(self) -> nat {
        self.ptr_size as nat
    }

    /// Whether the most significant byte of a value is stored first.
    pub closed spec fn big_endian(self) -> bool {
        self.endianness == Endianness::Big
    }

    /// The byte at address `a`.
    pub closed spec fn byte_at(self, env: Env, a: nat) -> nat {
        self.memory.byte_at(env, a)
    }

    /// Whether the byte at address `a` reads as a constant expression: the
    /// last write that may have stored there stored a constant at the
    /// constant address `a`.
    pub closed spec fn const_cell(self, a: u64) -> bool {
        const_read(self.memory.write_log(), a)
    }

    /// Whether nothing was written to the memory yet.
    pub closed spec fn is_fresh(self) -> bool {
        self.memory.write_log().len() == 0
    }

    /// Whether the `n` bytes from the constant address `a` read as
    /// constants.
    pub open spec fn const_cells(self, a: u64, n: nat) -> bool {
        forall|k: nat| k < n ==> #[trigger] self.const_cell(offset_address(a as nat, k, self.ptr_bits()) as u64)
    }

    /// The bytes of the memory as a function of the address.
    pub open spec fn bytes(self, env: Env) -> spec_fn(nat) -> nat {
        |a: nat| self.byte_at(env, a)
    }

    /// A memory with pointers of `ptr_size` bits about which nothing is known.
    pub fn new(ctx: &DContext, ptr_size: u32, endianness: Endianness) -> (r: ArrayMemory)
        requires
            1 <= ptr_size <= 64,
        ensures
            r.wf(),
            r.ptr_bits() == ptr_size,
            r.big_endian() == (endianness == Endianness::Big),
            r.is_fresh(),
            forall|env: Env, a: nat| #[trigger] r.byte_at(env, a) == (env.arrays)("memory"@, a) % 256,
    {
        let memory: DArray = DArray::new(ctx, ptr_size, "memory");
        proof {
            reveal_strlit("memory");
        }
        ArrayMemory { ctx: *ctx, ptr_size, memory, endianness }
    }

    /// The addresses that `addr` may denote: it is its own single candidate.
    pub fn resolve_addresses(&self, addr: &DExpr, _upper_bound: usize) -> (r: Result<Vec<DExpr>, MemoryError>)
        ensures
            r matches Ok(v) && v@ == seq![*addr],
    {
        let mut v: Vec<DExpr> = Vec::new();
        v.push(addr.clone());
        Ok(v)
    }

    /// Reads the byte at `addr`.
    pub fn read_u8(&self, addr: &DExpr) -> (r: DExpr)
        requires
            self.wf(),
            addr.wf(),
            addr.width() == self.ptr_bits(),
        ensures
            r.wf(),
            r.width() == 8,
            forall|env: Env| #[trigger] r.eval(env) == self.byte_at(env, addr.eval(env)),
            addr.is_const() && self.const_cell(addr.const_value().unwrap()) ==> r.is_const(),
            self.is_fresh() ==> !r.is_const(),
    {
        self.memory.read(addr)
    }

    /// Writes the byte `val` at `addr`.
    pub fn write_u8(&mut self, addr: &DExpr, val: DExpr)
        requires
            old(self).wf(),
            addr.wf(),
            addr.width() == old(self).ptr_bits(),
            val.wf(),
            val.width() == 8,
        ensures
            final(self).wf(),
            final(self).ptr_bits() == old(self).ptr_bits(),
            final(self).big_endian() == old(self).big_endian(),
            forall|env: Env, a: nat| #[trigger] final(self).byte_at(env, a) == if addr.eval(env) == a {
                val.eval(env)
            } else {
                old(self).byte_at(env, a)
            },
            addr.is_const() && val.is_const() ==> forall|a: u64| #[trigger] final(self).const_cell(a) == (old(
                self,
            ).const_cell(a) || addr.const_value() == Some(a)),
            !final(self).is_fresh(),
    {
        self.memory.write(addr, val);
        proof {
            assert(self.memory.write_log().drop_last() =~= old(self).memory.write_log());
        }
    }

    /// The address `k` bytes after `addr`.
    fn byte_address(&self, addr: &DExpr, k: u32) -> (r: DExpr)
        requires
            self.wf(),
            addr.wf(),
            addr.width() == self.ptr_bits(),
            k < 8,
        ensures
            r.wf(),
            r.width() == self.ptr_bits(),
            forall|env: Env| #[trigger] r.eval(env) == offset_address(addr.eval(env), k as nat, self.ptr_bits()),
            addr.is_const() ==> r.is_const() && r.const_value() == Some(offset_address(
                addr.const_value().unwrap() as nat,
                k as nat,
                self.ptr_bits(),
            ) as u64),
    {
        let offset: DExpr = self.ctx.from_u64(k as u64, self.ptr_size);
        let r: DExpr = addr.add(&offset);
        proof {
            if addr.is_const() {
                assert(r.eval(zero_env()) == r.const_value().unwrap() as nat);
                assert(addr.eval(zero_env()) == addr.const_value().unwrap() as nat);
                lemma_eval_range(r, zero_env());
            }
            assert forall|env: Env| #[trigger] r.eval(env) == offset_address(addr.eval(env), k as nat, self.ptr_bits()) by {
                lemma_p_facts(self.ptr_size as nat);
                lemma_add_mod_noop_right(addr.eval(env) as int, k as int, p(self.ptr_size as nat) as int);
            }
        }
        r
    }

    /// Whether, in environments `env1` and `env2`, the address and the `n`
    /// bytes from it that a read loads are the same.
    pub open spec fn same_read(self, addr: DExpr, n: nat, env1: Env, env2: Env) -> bool {
        &&& addr.eval(env1) == addr.eval(env2)
        &&& forall|j: nat| j < n ==> #[trigger] self.byte_at(env1, offset_address(addr.eval(env1), j, self.ptr_bits()))
            == self.byte_at(env2, offset_address(addr.eval(env1), j, self.ptr_bits()))
    }

    /// Reads `bits` bits at `addr`: below a byte, the low bits of the byte at
    /// `addr`; otherwise `bits / 8` bytes combined in the memory's byte order.
    /// The value read is fixed where the address and the bytes it loads are,
    /// bytes stored as constants at a constant address read as a constant
    /// expression, and a byte of a memory that was never written is not a
    /// constant.
    pub fn read(&self, addr: &DExpr, bits: u32) -> (r: Result<DExpr, MemoryError>)
        requires
            self.wf(),
            addr.wf(),
            addr.width() == self.ptr_bits(),
            1 <= bits <= 64,
            bits >= 8 ==> bits % 8 == 0,
        ensures
            r matches Ok(e) && e.wf() && e.width() == bits && forall|env: Env| #[trigger] e.eval(env) == if bits < 8 {
                self.byte_at(env, addr.eval(env)) % p(bits as nat)
            } else {
                load(self.bytes(env), addr.eval(env), (bits / 8) as nat, self.big_endian(), self.ptr_bits(), (bits / 8) as nat)
            },
            addr.is_const() && self.const_cells(addr.const_value().unwrap(), stored_bytes(bits as nat)) ==> (r matches Ok(
                e,
            ) && e.is_const()),
            self.is_fresh() && bits == 8 ==> (r matches Ok(e) && !e.is_const()),
            r matches Ok(e) ==> forall|env1: Env, env2: Env| #[trigger] self.same_read(
                *addr,
                stored_bytes(bits as nat),
                env1,
                env2,
            ) ==> e.eval(env1) == e.eval(env2),
    {
        let r = self.internal_read(addr, bits);
        proof {
            let e = r.unwrap();
            assert forall|env1: Env, env2: Env| #[trigger] self.same_read(
                *addr,
                stored_bytes(bits as nat),
                env1,
                env2,
            ) implies e.eval(env1) == e.eval(env2) by {
                let a = addr.eval(env1);
                lemma_eval_range(*addr, env1);
                lemma_p_facts(self.ptr_size as nat);
                if bits < 8 {
                    assert(self.byte_at(env1, offset_address(a, 0, self.ptr_bits())) == self.byte_at(
                        env2,
                        offset_address(a, 0, self.ptr_bits()),
                    ));
                    lemma_small_mod(a, p(self.ptr_bits()));
                } else {
                    let n = (bits / 8) as nat;
                    lemma_load_same(self.bytes(env1), self.bytes(env2), a, n, self.big_endian(), self.ptr_bits(), n);
                }
            }
        }
        r
    }

    /// Reads `bits` bits at `addr` (see [`ArrayMemory::read`]).
    pub fn internal_read(&self, addr: &DExpr, bits: u32) -> (r: Result<DExpr, MemoryError>)
        requires
            self.wf(),
            addr.wf(),
            addr.width() == self.ptr_bits(),
            1 <= bits <= 64,
            bits >= 8 ==> bits % 8 == 0,
        ensures
            r matches Ok(e) && e.wf() && e.width() == bits && forall|env: Env| #[trigger] e.eval(env) == if bits < 8 {
                self.byte_at(env, addr.eval(env)) % p(bits as nat)
            } else {
                load(self.bytes(env), addr.eval(env), (bits / 8) as nat, self.big_endian(), self.ptr_bits(), (bits / 8) as nat)
            },
            addr.is_const() && self.const_cells(addr.const_value().unwrap(), stored_bytes(bits as nat)) ==> (r matches Ok(
                e,
            ) && e.is_const()),
            self.is_fresh() && bits == 8 ==> (r matches Ok(e) && !e.is_const()),
    {
        proof {
            lemma2_to64();
        }
        let ghost fixed: bool = addr.is_const() && self.const_cells(addr.const_value().unwrap(), stored_bytes(bits as nat));
        if bits < BITS_IN_BYTE {
            proof {
                if fixed {
                    lemma_eval_range(*addr, zero_env());
                    assert(addr.eval(zero_env()) == addr.const_value().unwrap() as nat);
                    lemma_p_facts(self.ptr_bits());
                    lemma_small_mod(addr.const_value().unwrap() as nat, p(self.ptr_bits()));
                    assert(self.const_cell(offset_address(addr.const_value().unwrap() as nat, 0, self.ptr_bits()) as u64));
                }
            }
            let byte: DExpr = self.read_u8(addr);
            let r: DExpr = byte.slice(0, bits - 1);
            proof {
                assert forall|env: Env| #[trigger] r.eval(env) == self.byte_at(env, addr.eval(env)) % p(bits as nat) by {
                    assert(p(0) == 1);
                    assert(byte.eval(env) / 1 == byte.eval(env));
                }
            }
            Ok(r)
        } else {
            let num_bytes: u32 = bits / BITS_IN_BYTE;
            let big: bool = match self.endianness {
                Endianness::Little => false,
                Endianness::Big => true,
            };
            let first_slot: u32 = if big { num_bytes - 1 } else { 0 };
            let first_addr: DExpr = self.byte_address(addr, first_slot);
            proof {
                if fixed {
                    assert(self.const_cell(offset_address(addr.const_value().unwrap() as nat, first_slot as nat, self.ptr_bits()) as u64));
                }
            }
            let mut acc: DExpr = self.read_u8(&first_addr);
            let ghost a: nat = 0;
            proof {
                assert forall|env: Env| #[trigger] acc.eval(env) == load(self.bytes(env), addr.eval(env), num_bytes as nat, big, self.ptr_bits(), 1) by {
                    assert(p(0) == 1);
                    assert(slot(0, num_bytes as nat, big) == first_slot);
                    assert(load(self.bytes(env), addr.eval(env), num_bytes as nat, big, self.ptr_bits(), 0) == 0);
                    assert(self.bytes(env)(offset_address(addr.eval(env), first_slot as nat, self.ptr_bits())) == acc.eval(env));
                    assert(load(self.bytes(env), addr.eval(env), num_bytes as nat, big, self.ptr_bits(), 1)
                        == self.bytes(env)(offset_address(addr.eval(env), slot(0, num_bytes as nat, big), self.ptr_bits())) * p(0) + 0);
                }
            }
            let mut k: u32 = 1;
            while k < num_bytes
                invariant
                    self.wf(),
                    addr.wf(),
                    addr.width() == self.ptr_bits(),
                    1 <= k <= num_bytes,
                    num_bytes == bits / 8,
                    bits % 8 == 0,
                    8 <= bits <= 64,
                    big == self.big_endian(),
                    acc.wf(),
                    acc.width() == 8 * k,
                    forall|env: Env| #[trigger] acc.eval(env) == load(self.bytes(env), addr.eval(env), num_bytes as nat, big, self.ptr_bits(), k as nat),
                    fixed ==> acc.is_const(),
                    self.is_fresh() && num_bytes == 1 ==> !acc.is_const(),
                    fixed == (addr.is_const() && self.const_cells(addr.const_value().unwrap(), stored_bytes(bits as nat))),
                decreases num_bytes - k,
            {
                let s: u32 = if big { num_bytes - 1 - k } else { k };
                let byte_addr: DExpr = self.byte_address(addr, s);
                proof {
                    if fixed {
                        assert(self.const_cell(offset_address(addr.const_value().unwrap() as nat, s as nat, self.ptr_bits()) as u64));
                    }
                }
                let byte: DExpr = self.read_u8(&byte_addr);
                let next: DExpr = byte.concat(&acc);
                proof {
                    assert forall|env: Env| #[trigger] next.eval(env) == load(self.bytes(env), addr.eval(env), num_bytes as nat, big, self.ptr_bits(), (k + 1) as nat) by {
                        assert(slot(k as nat, num_bytes as nat, big) == s);
                    }
                }
                acc = next;
                k = k + 1;
            }
            Ok(acc)
        }
    }

    /// Writes `value`: a value below a byte is zero extended to a byte;
    /// otherwise its bytes are stored at consecutive addresses from `addr`,
    /// in the memory's byte order.
    pub fn write(&mut self, addr: &DExpr, value: DExpr) -> (r: Result<(), MemoryError>)
        requires
            old(self).wf(),
            addr.wf(),
            addr.width() == old(self).ptr_bits(),
            value.wf(),
            value.width() >= 8 ==> value.width() % 8 == 0,
        ensures
            r is Ok,
            final(self).wf(),
            final(self).ptr_bits() == old(self).ptr_bits(),
            final(self).big_endian() == old(self).big_endian(),
            forall|env: Env, x: nat| #[trigger] final(self).byte_at(env, x) == store(
                old(self).bytes(env),
                addr.eval(env),
                value.eval(env),
                stored_bytes(value.width()),
                old(self).big_endian(),
                old(self).ptr_bits(),
                stored_bytes(value.width()),
            )(x),
            addr.is_const() && value.is_const() ==> final(self).const_cells(
                addr.const_value().unwrap(),
                stored_bytes(value.width()),
            ),
            addr.is_const() && value.is_const() ==> forall|a: u64|
                old(self).const_cell(a) ==> #[trigger] final(self).const_cell(a),
    {
        self.internal_write(addr, value)
    }

    /// Writes `value` at `addr` (see [`ArrayMemory::write`]).
    pub fn internal_write(&mut self, addr: &DExpr, value: DExpr) -> (r: Result<(), MemoryError>)
        requires
            old(self).wf(),
            addr.wf(),
            addr.width() == old(self).ptr_bits(),
            value.wf(),
            value.width() >= 8 ==> value.width() % 8 == 0,
        ensures
            r is Ok,
            final(self).wf(),
            final(self).ptr_bits() == old(self).ptr_bits(),
            final(self).big_endian() == old(self).big_endian(),
            forall|env: Env, x: nat| #[trigger] final(self).byte_at(env, x) == store(
                old(self).bytes(env),
                addr.eval(env),
                value.eval(env),
                stored_bytes(value.width()),
                old(self).big_endian(),
                old(self).ptr_bits(),
                stored_bytes(value.width()),
            )(x),
            addr.is_const() && value.is_const() ==> final(self).const_cells(
                addr.const_value().unwrap(),
                stored_bytes(value.width()),
            ),
            addr.is_const() && value.is_const() ==> forall|a: u64|
                old(self).const_cell(a) ==> #[trigger] final(self).const_cell(a),
    {
        let ghost before: ArrayMemory = *self;
        let ghost fixed: bool = addr.is_const() && value.is_const();
        let ghost w0: nat = value.width();
        proof {
            lemma2_to64();
        }
        let value: DExpr = if value.len() < BITS_IN_BYTE {
            value.zero_ext(BITS_IN_BYTE)
        } else {
            value
        };
        let num_bytes: u32 = value.len() / BITS_IN_BYTE;
        let big: bool = match self.endianness {
            Endianness::Little => false,
            Endianness::Big => true,
        };
        let mut n: u32 = 0;
        while n < num_bytes
            invariant
                self.wf(),
                self.ptr_bits() == before.ptr_bits(),
                self.big_endian() == before.big_endian(),
                big == before.big_endian(),
                addr.wf(),
                addr.width() == self.ptr_bits(),
                value.wf(),
                num_bytes == stored_bytes(w0),
                value.width() == 8 * num_bytes,
                1 <= num_bytes <= 8,
                n <= num_bytes,
                forall|env: Env, x: nat| #[trigger] self.byte_at(env, x) == store(
                    before.bytes(env),
                    addr.eval(env),
                    value.eval(env),
                    num_bytes as nat,
                    big,
                    self.ptr_bits(),
                    n as nat,
                )(x),
                fixed ==> addr.is_const(),
                fixed ==> value.is_const(),
                fixed ==> forall|a: u64| before.const_cell(a) ==> #[trigger] self.const_cell(a),
                fixed ==> forall|j: nat| j < n ==> #[trigger] self.const_cell(offset_address(
                    addr.const_value().unwrap() as nat,
                    slot(j, num_bytes as nat, big),
                    self.ptr_bits(),
                ) as u64),
            decreases num_bytes - n,
        {
            let low_bit: u32 = n * BITS_IN_BYTE;
            let high_bit: u32 = (n + 1) * BITS_IN_BYTE - 1;
            let byte: DExpr = value.slice(low_bit, high_bit);
            let s: u32 = if big { num_bytes - 1 - n } else { n };
            let byte_addr: DExpr = self.byte_address(addr, s);
            let ghost mid: ArrayMemory = *self;
            self.write_u8(&byte_addr, byte);
            proof {
                assert(slot(n as nat, num_bytes as nat, big) == s);
                assert forall|env: Env, x: nat| #[trigger] self.byte_at(env, x) == store(
                    before.bytes(env),
                    addr.eval(env),
                    value.eval(env),
                    num_bytes as nat,
                    big,
                    self.ptr_bits(),
                    (n + 1) as nat,
                )(x) by {
                    assert(mid.byte_at(env, x) == store(before.bytes(env), addr.eval(env), value.eval(env), num_bytes as nat, big, self.ptr_bits(), n as nat)(x));
                    assert(high_bit - low_bit + 1 == 8);
                    lemma2_to64();
                    assert(p(8) == 256);
                    assert(low_bit == 8 * n);
                    assert(byte.eval(env) == (value.eval(env) / p(low_bit as nat)) % p(8));
                    assert(byte.eval(env) == byte_of(value.eval(env), n as nat));
                }
                if fixed {
                    assert forall|j: nat| j < n + 1 implies #[trigger] self.const_cell(offset_address(
                        addr.const_value().unwrap() as nat,
                        slot(j, num_bytes as nat, big),
                        self.ptr_bits(),
                    ) as u64) by {
                        if j < n {
                            assert(mid.const_cell(offset_address(
                                addr.const_value().unwrap() as nat,
                                slot(j, num_bytes as nat, big),
                                self.ptr_bits(),
                            ) as u64));
                        }
                    }
                }
            }
            n = n + 1;
        }
        proof {
            if fixed {
                assert forall|k: nat| k < stored_bytes(w0) implies #[trigger] self.const_cell(offset_address(
                    addr.const_value().unwrap() as nat,
                    k,
                    self.ptr_bits(),
                ) as u64) by {
                    let j: nat = if big { (num_bytes - 1 - k) as nat } else { k };
                    assert(slot(j, num_bytes as nat, big) == k);
                    assert(j < n);
                }
            }
        }
        Ok(())
    }
}

/// Offsets that differ and are smaller than the address space give different addresses.
proof fn lemma_offsets_distinct(a: nat, s1: nat, s2: nat, ps: nat)
    requires
        s1 < p(ps),
        s2 < p(ps),
        s1 != s2,
    ensures
        offset_address(a, s1, ps) != offset_address(a, s2, ps),
{
    let m: int = p(ps) as int;
    lemma_pow2_pos(ps);
    if offset_address(a, s1, ps) == offset_address(a, s2, ps) {
        lemma_mod_equivalence((a + s1) as int, (a + s2) as int, m);
        let d: int = s1 - s2;
        assert(d % m == 0);
        if d > 0 {
            lemma_small_mod(d as nat, m as nat);
        } else {
            vstd::arithmetic::div_mod::lemma_mod_add_multiples_vanish(d, m);
            lemma_small_mod((m + d) as nat, m as nat);
        }
    }
}

/// After the bytes of a value are stored, each of its bytes is at its address.
proof fn lemma_store_reads_back(f: spec_fn(nat) -> nat, a: nat, v: nat, n: nat, big: bool, ps: nat, k: nat, m: nat)
    requires
        k < m <= n,
        n <= p(ps),
    ensures
        store(f, a, v, n, big, ps, m)(offset_address(a, slot(k, n, big), ps)) == byte_of(v, k),
    decreases m,
{
    if m > k + 1 {
        lemma_store_reads_back(f, a, v, n, big, ps, k, (m - 1) as nat);
        lemma_offsets_distinct(a, slot(k, n, big), slot((m - 1) as nat, n, big), ps);
    }
}

/// Loading the low `k` bytes of a stored value gives the value modulo `2^(8k)`.
proof fn lemma_load_store(f: spec_fn(nat) -> nat, a: nat, v: nat, n: nat, big: bool, ps: nat, k: nat)
    requires
        k <= n,
        n <= p(ps),
    ensures
        load(store(f, a, v, n, big, ps, n), a, n, big, ps, k) == v % p(8 * k),
    decreases k,
{
    lemma2_to64();
    if k == 0 {
        assert(v % 1 == 0);
    } else {
        let j: nat = (k - 1) as nat;
        lemma_load_store(f, a, v, n, big, ps, j);
        lemma_store_reads_back(f, a, v, n, big, ps, j, n);
        lemma_pow2_adds(8 * j, 8);
        assert(8 * j + 8 == 8 * k);
        lemma_pow2_pos(8 * j);
        lemma_mod_breakdown(v as int, p(8 * j) as int, 256);
    }
}

/// Reading back what was written: for every byte order, every address and
/// every value of one to eight bytes, loading the bytes of the value right
/// after they were stored at an address gives the value back. (Pointers of
/// at least three bits keep the stored bytes at distinct addresses.)
pub proof fn law_read_after_write(f: spec_fn(nat) -> nat, a: nat, v: nat, n: nat, big_endian: bool, ps: nat)
    requires
        1 <= n <= 8,
        3 <= ps <= 64,
        v < p(8 * n),
    ensures
        load(store(f, a, v, n, big_endian, ps, n), a, n, big_endian, ps, n) == v,
{
    lemma2_to64();
    lemma_p_mono(3, ps);
    lemma_load_store(f, a, v, n, big_endian, ps, n);
    lemma_small_mod(v, p(8 * n));
}

/// Reading back what was written, stated for an array memory: if `after` holds
/// the bytes of `before` with the `n` bytes of `v` stored at `a` (what
/// `ArrayMemory::write` ensures), then an `8 * n` bit read at `a` from
/// `after` (what `ArrayMemory::read` computes) gives `v`.
pub proof fn law_array_memory_read_after_write(before: ArrayMemory, after: ArrayMemory, env: Env, a: nat, v: nat, n: nat)
    requires
        before.wf(),
        after.wf(),
        after.ptr_bits() == before.ptr_bits(),
        after.big_endian() == before.big_endian(),
        3 <= before.ptr_bits(),
        1 <= n <= 8,
        v < p(8 * n),
        forall|x: nat| #[trigger] after.byte_at(env, x) == store(
            before.bytes(env),
            a,
            v,
            n,
            before.big_endian(),
            before.ptr_bits(),
            n,
        )(x),
    ensures
        load(after.bytes(env), a, n, after.big_endian(), after.ptr_bits(), n) == v,
{
    let g: spec_fn(nat) -> nat = store(before.bytes(env), a, v, n, before.big_endian(), before.ptr_bits(), n);
    assert(after.bytes(env) =~= g);
    law_read_after_write(before.bytes(env), a, v, n, before.big_endian(), before.ptr_bits());
}

/// Storing the low `k` bytes of a value changes no address outside the `n`
/// addresses from `a`.
proof fn lemma_store_frame(f: spec_fn(nat) -> nat, a: nat, v: nat, n: nat, big: bool, ps: nat, k: nat, x: nat)
    requires
        k <= n,
        forall|j: nat| j < n ==> x != #[trigger] offset_address(a, j, ps),
    ensures
        store(f, a, v, n, big, ps, k)(x) == f(x),
    decreases k,
{
    if k > 0 {
        lemma_store_frame(f, a, v, n, big, ps, (k - 1) as nat, x);
        let j: nat = slot((k - 1) as nat, n, big);
        assert(j < n);
        assert(x != offset_address(a, j, ps));
    }
}

/// A write leaves the other bytes alone: if `after` holds the bytes of
/// `before` with the `n` bytes of `v` stored at `a` (what
/// `ArrayMemory::write` ensures), then every byte at an address that is not
/// one of the `n` addresses from `a` (modulo the address space) reads in
/// `after` as it read in `before`.
pub proof fn law_array_memory_write_frame(before: ArrayMemory, after: ArrayMemory, env: Env, a: nat, v: nat, n: nat, x: nat)
    requires
        forall|y: nat| #[trigger] after.byte_at(env, y) == store(
            before.bytes(env),
            a,
            v,
            n,
            before.big_endian(),
            before.ptr_bits(),
            n,
        )(y),
        forall|j: nat| j < n ==> x != #[trigger] offset_address(a, j, before.ptr_bits()),
    ensures
        after.byte_at(env, x) == before.byte_at(env, x),
{
    lemma_store_frame(before.bytes(env), a, v, n, before.big_endian(), before.ptr_bits(), n, x);
}

impl Clone for ArrayMemory {
    fn clone(&self) -> (r: ArrayMemory)
        ensures
            r.wf() == self.wf(),
            r.ptr_bits() == self.ptr_bits(),
            r.big_endian() == self.big_endian(),
            forall|env: Env, a: nat| #[trigger] r.byte_at(env, a) == self.byte_at(env, a),
    {
        ArrayMemory { ctx: self.ctx, ptr_size: self.ptr_size, memory: self.memory.clone(), endianness: self.endianness }
    }
}

} // verus!
