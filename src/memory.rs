//! Byte-addressed memory: a growable stack from address 0 up to its limit,
//! and a global region of fixed size just above the stack's limit.
use vstd::prelude::*;
use crate::ops::{OpType, UWord, type_size};
use crate::values::{fits, modulus};

verus! {

#[derive(Clone, Copy, Debug, PartialEq, Eq, Structural)]
pub enum MemoryError {
    /// An access touched bytes outside the live stack and the global region.
    OutOfBounds(UWord),
    /// The stack would grow past its limit.
    StackOverflow,
    /// The stack would shrink below empty.
    StackUnderflow,
}

/// 256 to the power `n`.
pub open spec fn pow256(n: nat) -> nat
    decreases n,
{
    if n == 0 {
        1
    } else {
        256 * pow256((n - 1) as nat)
    }
}

/// The little-endian number that the bytes `s` stand for.
pub open spec fn le_value(s: Seq<u8>) -> nat
    decreases s.len(),
{
    if s.len() == 0 {
        0
    } else {
        s[0] as nat + 256 * le_value(s.drop_first())
    }
}

/// The `n` little-endian bytes of `v`, truncated to `n` bytes.
pub open spec fn le_bytes(v: nat, n: nat) -> Seq<u8> {
    Seq::new(n, |k: int| ((v / pow256(k as nat)) % 256) as u8)
}

/// `s` with the bytes from `at` on replaced by `piece`.
pub open spec fn splice(s: Seq<u8>, at: int, piece: Seq<u8>) -> Seq<u8> {
    s.subrange(0, at) + piece + s.subrange(at + piece.len(), s.len() as int)
}

pub struct Memory {
    bytes: Vec<u8>,
    stack_len: usize,
    stack_limit: usize,
}

pub proof fn lemma_pow256_bound(k: nat)
    requires
        k <= 8,
    ensures
        pow256(k) <= 0x1_0000_0000_0000_0000,
        pow256(k) >= 1,
{
    reveal_with_fuel(pow256, 9);
    assert(k == 0 || k == 1 || k == 2 || k == 3 || k == 4 || k == 5 || k == 6 || k == 7 || k
        == 8);
}

pub proof fn lemma_pow256_size(t: OpType)
    ensures
        pow256(type_size(t)) == modulus(t),
{
    reveal_with_fuel(pow256, 9);
}

impl Memory {
    /// All bytes of the address space.
    pub closed spec fn bytes(&self) -> Seq<u8> {
        self.bytes@
    }

    pub closed spec fn stack_len(&self) -> nat {
        self.stack_len as nat
    }

    pub closed spec fn stack_limit(&self) -> nat {
        self.stack_limit as nat
    }

    pub closed spec fn wf(&self) -> bool {
        self.stack_len <= self.stack_limit <= self.bytes@.len() <= usize::MAX
    }

    /// Bytes `[a, a + n)` lie in the live stack or in the global region.
    pub open spec fn in_bounds(&self, a: int, n: int) -> bool {
        0 <= a && 0 <= n && (a + n <= self.stack_len() || (self.stack_limit() <= a && a + n
            <= self.bytes().len()))
    }

    /// The value of type `t` stored at `a`.
    pub open spec fn value_at(&self, a: int, t: OpType) -> u64 {
        le_value(self.bytes().subrange(a, a + type_size(t))) as u64
    }

    pub fn from_limits(stack_limit: usize, heap_limit: usize) -> (m: Memory)
        requires
            stack_limit + heap_limit <= usize::MAX,
        ensures
            m.wf(),
            m.stack_len() == 0,
            m.stack_limit() == stack_limit,
            m.bytes() == Seq::new((stack_limit + heap_limit) as nat, |i: int| 0u8),
    {
        let total = stack_limit + heap_limit;
        let mut bytes: Vec<u8> = Vec::new();
        while bytes.len() < total
            invariant
                bytes.len() <= total,
                forall|i: int| 0 <= i < bytes.len() ==> bytes@[i] == 0u8,
            decreases total - bytes.len(),
        {
            bytes.push(0);
        }
        let m = Memory { bytes, stack_len: 0, stack_limit };
        assert(m.bytes() =~= Seq::new(total as nat, |i: int| 0u8));
        m
    }

    pub fn stack_len_exec(&self) -> (r: usize)
        ensures
            r == self.stack_len(),
    {
        self.stack_len
    }

    pub proof fn lemma_wf(&self)
        requires
            self.wf(),
        ensures
            self.stack_len() <= self.stack_limit() <= self.bytes().len() <= usize::MAX,
    {
    }

    /// Whether bytes `[a, a + n)` lie in the live stack or in the global region.
    pub fn check_bounds(&self, a: UWord, n: UWord) -> (r: bool)
        requires
            self.wf(),
        ensures
            r == self.in_bounds(a as int, n as int),
            r ==> a + n <= self.bytes().len(),
    {
        let total = self.bytes.len() as u64;
        assert(total == self.bytes@.len());
        if a > total || n > total - a {
            false
        } else {
            let end = a + n;
            end <= self.stack_len as u64 || (self.stack_limit as u64 <= a)
        }
    }

    /// Grows the stack by `n` zeroed bytes.
    pub fn expand(&mut self, n: UWord) -> (r: Result<(), MemoryError>)
        requires
            old(self).wf(),
        ensures
            final(self).wf(),
            final(self).stack_limit() == old(self).stack_limit(),
            old(self).stack_len() + n <= old(self).stack_limit() ==> r == Ok::<(), MemoryError>(())
                && final(self).stack_len() == old(self).stack_len() + n && final(self).bytes()
                == splice(old(self).bytes(), old(self).stack_len() as int, Seq::new(n as nat, |i: int| 0u8)),
            old(self).stack_len() + n > old(self).stack_limit() ==> r == Err::<(), MemoryError>(
                MemoryError::StackOverflow) && *final(self) == *old(self),
    {
        if n > (self.stack_limit - self.stack_len) as u64 {
            return Err(MemoryError::StackOverflow);
        }
        let start = self.stack_len;
        let end = self.stack_len + n as usize;
        let ghost before = self.bytes@;
        let mut i = start;
        while i < end
            invariant
                start <= i <= end <= self.stack_limit <= self.bytes@.len(),
                self.bytes@.len() == before.len(),
                forall|j: int| 0 <= j < start || end <= j < before.len() ==> self.bytes@[j] == before[j],
                forall|j: int| start <= j < i ==> self.bytes@[j] == 0u8,
                self.stack_len == start,
                self.stack_limit == old(self).stack_limit,
            decreases end - i,
        {
            self.bytes.set(i, 0);
            i = i + 1;
        }
        self.stack_len = end;
        assert(self.bytes@ =~= splice(before, start as int, Seq::new(n as nat, |i: int| 0u8)));
        Ok(())
    }

    /// Shrinks the stack by `n` bytes.
    pub fn narrow(&mut self, n: UWord) -> (r: Result<(), MemoryError>)
        requires
            old(self).wf(),
        ensures
            final(self).wf(),
            final(self).stack_limit() == old(self).stack_limit(),
            final(self).bytes() == old(self).bytes(),
            n <= old(self).stack_len() ==> r == Ok::<(), MemoryError>(()) && final(self).stack_len()
                == old(self).stack_len() - n,
            n > old(self).stack_len() ==> r == Err::<(), MemoryError>(MemoryError::StackUnderflow)
                && *final(self) == *old(self),
    {
        if n > self.stack_len as u64 {
            return Err(MemoryError::StackUnderflow);
        }
        self.stack_len = self.stack_len - n as usize;
        Ok(())
    }

    /// Reads the value of type `t` stored little-endian at `a`.
    pub fn get(&self, a: UWord, t: OpType) -> (r: Result<u64, MemoryError>)
        requires
            self.wf(),
        ensures
            self.in_bounds(a as int, type_size(t) as int) ==> r == Ok::<u64, MemoryError>(
                self.value_at(a as int, t)) && fits(t, self.value_at(a as int, t)),
            !self.in_bounds(a as int, type_size(t) as int) ==> r == Err::<u64, MemoryError>(
                MemoryError::OutOfBounds(a)),
    {
        let n = t.size();
        if !self.check_bounds(a, n) {
            return Err(MemoryError::OutOfBounds(a));
        }
        let start = a as usize;
        let ghost s = self.bytes@.subrange(a as int, a + n);
        let mut i = n as usize;
        let mut v: u64 = 0;
        proof {
            assert(s.subrange(n as int, n as int) =~= Seq::<u8>::empty());
        }
        while i > 0
            invariant
                0 <= i <= n <= 8,
                n == type_size(t),
                start + n <= self.bytes@.len(),
                self.wf(),
                s == self.bytes@.subrange(start as int, start + n),
                v == le_value(s.subrange(i as int, n as int)),
                v < pow256((n - i) as nat),
            decreases i,
        {
            i = i - 1;
            let b = self.bytes[start + i];
            proof {
                let tail = s.subrange(i as int, n as int);
                assert(tail.drop_first() =~= s.subrange(i + 1, n as int));
                assert(tail[0] == b);
                lemma_pow256_bound((n - i) as nat);
                assert(pow256((n - i) as nat) == 256 * pow256((n - i - 1) as nat));
                assert(v * 256 + b < pow256((n - i) as nat)) by (nonlinear_arith)
                    requires
                        v < pow256((n - i - 1) as nat),
                        b < 256,
                        pow256((n - i) as nat) == 256 * pow256((n - i - 1) as nat),
                ;
            }
            v = v * 256 + b as u64;
        }
        proof {
            lemma_pow256_size(t);
            assert(s.subrange(0, n as int) =~= s);
        }
        Ok(v)
    }

    /// Stores `v` as `type_size(t)` little-endian bytes at `a`.
    pub fn set(&mut self, a: UWord, t: OpType, v: u64) -> (r: Result<(), MemoryError>)
        requires
            old(self).wf(),
        ensures
            final(self).wf(),
            final(self).stack_len() == old(self).stack_len(),
            final(self).stack_limit() == old(self).stack_limit(),
            old(self).in_bounds(a as int, type_size(t) as int) ==> r == Ok::<(), MemoryError>(())
                && final(self).bytes() == splice(old(self).bytes(), a as int, le_bytes(v as nat, type_size(t))),
            !old(self).in_bounds(a as int, type_size(t) as int) ==> r == Err::<(), MemoryError>(
                MemoryError::OutOfBounds(a)) && *final(self) == *old(self),
    {
        let n = t.size();
        if !self.check_bounds(a, n) {
            return Err(MemoryError::OutOfBounds(a));
        }
        let start = a as usize;
        let end = start + n as usize;
        let ghost before = self.bytes@;
        let ghost piece = le_bytes(v as nat, n as nat);
        let mut i = start;
        let mut w: u64 = v;
        proof {
            assert(pow256(0) == 1);
            assert(v as nat / 1 == v as nat);
        }
        while i < end
            invariant
                start <= i <= end <= self.bytes@.len(),
                end - start == n <= 8,
                self.bytes@.len() == before.len(),
                piece == le_bytes(v as nat, n as nat),
                forall|j: int| 0 <= j < start || end <= j < before.len() ==> self.bytes@[j] == before[j],
                forall|j: int| start <= j < i ==> self.bytes@[j] == piece[j - start],
                w == v as nat / pow256((i - start) as nat),
                self.wf(),
                self.stack_len == old(self).stack_len,
                self.stack_limit == old(self).stack_limit,
            decreases end - i,
        {
            proof {
                lemma_pow256_bound((i - start) as nat);
                assert(pow256((i - start + 1) as nat) == pow256((i - start) as nat) * 256);
                vstd::arithmetic::div_mod::lemma_div_denominator(v as int, pow256((i - start) as nat) as int, 256);
            }
            self.bytes.set(i, (w % 256) as u8);
            w = w / 256;
            i = i + 1;
        }
        assert(self.bytes@ =~= splice(before, start as int, piece));
        Ok(())
    }

    /// Sets `n` bytes at `a` to zero.
    pub fn set_zeros(&mut self, a: UWord, n: UWord) -> (r: Result<(), MemoryError>)
        requires
            old(self).wf(),
        ensures
            final(self).wf(),
            final(self).stack_len() == old(self).stack_len(),
            final(self).stack_limit() == old(self).stack_limit(),
            old(self).in_bounds(a as int, n as int) ==> r == Ok::<(), MemoryError>(()) && final(self).bytes()
                == splice(old(self).bytes(), a as int, Seq::new(n as nat, |i: int| 0u8)),
            !old(self).in_bounds(a as int, n as int) ==> r == Err::<(), MemoryError>(
                MemoryError::OutOfBounds(a)) && *final(self) == *old(self),
    {
        if !self.check_bounds(a, n) {
            return Err(MemoryError::OutOfBounds(a));
        }
        let start = a as usize;
        let end = start + n as usize;
        let ghost before = self.bytes@;
        let mut i = start;
        while i < end
            invariant
                start <= i <= end <= self.bytes@.len(),
                end - start == n,
                self.bytes@.len() == before.len(),
                forall|j: int| 0 <= j < start || end <= j < before.len() ==> self.bytes@[j] == before[j],
                forall|j: int| start <= j < i ==> self.bytes@[j] == 0u8,
                self.wf(),
                self.stack_len == old(self).stack_len,
                self.stack_limit == old(self).stack_limit,
            decreases end - i,
        {
            self.bytes.set(i, 0);
            i = i + 1;
        }
        assert(self.bytes@ =~= splice(before, start as int, Seq::new(n as nat, |i: int| 0u8)));
        Ok(())
    }

    /// Copies `n` bytes from `src` to `dest`; overlapping ranges are copied as
    /// if through an intermediate buffer.
    pub fn copy(&mut self, dest: UWord, src: UWord, n: UWord) -> (r: Result<(), MemoryError>)
        requires
            old(self).wf(),
        ensures
            final(self).wf(),
            final(self).stack_len() == old(self).stack_len(),
            final(self).stack_limit() == old(self).stack_limit(),
            old(self).in_bounds(dest as int, n as int) && old(self).in_bounds(src as int, n as int)
                ==> r == Ok::<(), MemoryError>(()) && final(self).bytes() == splice(
                old(self).bytes(), dest as int, old(self).bytes().subrange(src as int, src + n)),
            !old(self).in_bounds(dest as int, n as int) ==> r == Err::<(), MemoryError>(
                MemoryError::OutOfBounds(dest)) && *final(self) == *old(self),
            old(self).in_bounds(dest as int, n as int) && !old(self).in_bounds(src as int, n as int)
                ==> r == Err::<(), MemoryError>(MemoryError::OutOfBounds(src)) && *final(self)
                == *old(self),
    {
        if !self.check_bounds(dest, n) {
            return Err(MemoryError::OutOfBounds(dest));
        }
        if !self.check_bounds(src, n) {
            return Err(MemoryError::OutOfBounds(src));
        }
        let s = src as usize;
        let d = dest as usize;
        let len = n as usize;
        let ghost before = self.bytes@;
        let mut buf: Vec<u8> = Vec::new();
        while buf.len() < len
            invariant
                buf.len() <= len,
                s + len <= self.bytes@.len(),
                self.wf(),
                buf@ == before.subrange(s as int, s + buf.len()),
                self.bytes@ == before,
            decreases len - buf.len(),
        {
            let b = self.bytes[s + buf.len()];
            buf.push(b);
            proof {
                assert(buf@ =~= before.subrange(s as int, s + buf.len()));
            }
        }
        let mut i: usize = 0;
        while i < len
            invariant
                i <= len,
                buf.len() == len,
                d + len <= self.bytes@.len(),
                self.bytes@.len() == before.len(),
                forall|j: int| 0 <= j < d || d + len <= j < before.len() ==> self.bytes@[j] == before[j],
                forall|j: int| d <= j < d + i ==> self.bytes@[j] == buf@[j - d],
                self.wf(),
                self.stack_len == old(self).stack_len,
                self.stack_limit == old(self).stack_limit,
            decreases len - i,
        {
            self.bytes.set(d + i, buf[i]);
            i = i + 1;
        }
        assert(self.bytes@ =~= splice(before, d as int, buf@));
        Ok(())
    }

    /// Whether the `n` bytes at `a` equal the `n` bytes at `b`.
    pub fn compare(&self, a: UWord, b: UWord, n: UWord) -> (r: Result<bool, MemoryError>)
        requires
            self.wf(),
        ensures
            self.in_bounds(a as int, n as int) && self.in_bounds(b as int, n as int) ==> r
                == Ok::<bool, MemoryError>(self.bytes().subrange(a as int, a + n) == self.bytes().subrange(b as int, b + n)),
            !self.in_bounds(a as int, n as int) ==> r == Err::<bool, MemoryError>(
                MemoryError::OutOfBounds(a)),
            self.in_bounds(a as int, n as int) && !self.in_bounds(b as int, n as int) ==> r
                == Err::<bool, MemoryError>(MemoryError::OutOfBounds(b)),
    {
        if !self.check_bounds(a, n) {
            return Err(MemoryError::OutOfBounds(a));
        }
        if !self.check_bounds(b, n) {
            return Err(MemoryError::OutOfBounds(b));
        }
        let x = a as usize;
        let y = b as usize;
        let len = n as usize;
        let ghost sa = self.bytes@.subrange(a as int, a + n);
        let ghost sb = self.bytes@.subrange(b as int, b + n);
        let mut i: usize = 0;
        while i < len
            invariant
                i <= len,
                len == n,
                x + len <= self.bytes@.len(),
                y + len <= self.bytes@.len(),
                self.wf(),
                self.in_bounds(a as int, n as int),
                self.in_bounds(b as int, n as int),
                x == a,
                y == b,
                sa == self.bytes@.subrange(x as int, x + len),
                sb == self.bytes@.subrange(y as int, y + len),
                forall|j: int| 0 <= j < i ==> sa[j] == sb[j],
            decreases len - i,
        {
            if self.bytes[x + i] != self.bytes[y + i] {
                assert(sa[i as int] != sb[i as int]);
                assert(sa != sb);
                return Ok(false);
            }
            i = i + 1;
        }
        assert(sa =~= sb);
        Ok(true)
    }
}

} // verus!
