use vstd::prelude::*;

verus! {

/// The byte at address `a`. Addresses wrap around the end of the memory; an
/// empty memory reads as zero.
pub open spec fn byte_at(m: Seq<u8>, a: int) -> u8 {
    if m.len() == 0 {
        0
    } else {
        m[a % (m.len() as int)]
    }
}

/// The memory after a one-byte store at address `a`. An empty memory stays empty.
pub open spec fn store_byte(m: Seq<u8>, a: int, v: u8) -> Seq<u8> {
    if m.len() == 0 {
        m
    } else {
        m.update(a % (m.len() as int), v)
    }
}

/// Byte `k` of a word in big-endian order: byte 0 holds bits 63..56.
pub open spec fn be_byte(val: u64, k: int) -> u8
    recommends
        0 <= k < 8,
{
    if k == 0 {
        (val / 0x100_0000_0000_0000) as u8
    } else if k == 1 {
        ((val / 0x1_0000_0000_0000) % 256) as u8
    } else if k == 2 {
        ((val / 0x100_0000_0000) % 256) as u8
    } else if k == 3 {
        ((val / 0x1_0000_0000) % 256) as u8
    } else if k == 4 {
        ((val / 0x100_0000) % 256) as u8
    } else if k == 5 {
        ((val / 0x1_0000) % 256) as u8
    } else if k == 6 {
        ((val / 0x100) % 256) as u8
    } else {
        (val % 256) as u8
    }
}

/// The word whose big-endian bytes are `b0` to `b7`.
pub open spec fn be_word(b0: u8, b1: u8, b2: u8, b3: u8, b4: u8, b5: u8, b6: u8, b7: u8) -> u64 {
    (b0 * 0x100_0000_0000_0000 + b1 * 0x1_0000_0000_0000 + b2 * 0x100_0000_0000 + b3
        * 0x1_0000_0000 + b4 * 0x100_0000 + b5 * 0x1_0000 + b6 * 0x100 + b7) as u64
}

/// The big-endian word stored at `addr`.
#[verifier::opaque]
pub open spec fn word_at(m: Seq<u8>, addr: u64) -> u64 {
    be_word(
        byte_at(m, addr + 0),
        byte_at(m, addr + 1),
        byte_at(m, addr + 2),
        byte_at(m, addr + 3),
        byte_at(m, addr + 4),
        byte_at(m, addr + 5),
        byte_at(m, addr + 6),
        byte_at(m, addr + 7),
    )
}

/// The memory after the bytes `k..8` of `val` were stored at `addr + k` and on.
pub open spec fn store_from(m: Seq<u8>, addr: u64, val: u64, k: int) -> Seq<u8>
    decreases 8 - k,
{
    if 0 <= k < 8 {
        store_from(store_byte(m, addr + k, be_byte(val, k)), addr, val, k + 1)
    } else {
        m
    }
}

/// The memory after a big-endian store of `val` at `addr`.
#[verifier::opaque]
pub open spec fn store_word(m: Seq<u8>, addr: u64, val: u64) -> Seq<u8> {
    store_from(m, addr, val, 0)
}

/// A word is the word of its big-endian bytes.
pub proof fn lemma_be_bytes(val: u64)
    ensures
        be_word(
            be_byte(val, 0),
            be_byte(val, 1),
            be_byte(val, 2),
            be_byte(val, 3),
            be_byte(val, 4),
            be_byte(val, 5),
            be_byte(val, 6),
            be_byte(val, 7),
        ) == val,
{
    assert(((val / 0x100_0000_0000_0000) as u8) * 0x100_0000_0000_0000 + (((val
        / 0x1_0000_0000_0000) % 256) as u8) * 0x1_0000_0000_0000 + (((val / 0x100_0000_0000)
        % 256) as u8) * 0x100_0000_0000 + (((val / 0x1_0000_0000) % 256) as u8) * 0x1_0000_0000
        + (((val / 0x100_0000) % 256) as u8) * 0x100_0000 + (((val / 0x1_0000) % 256) as u8)
        * 0x1_0000 + (((val / 0x100) % 256) as u8) * 0x100 + ((val % 256) as u8) == val)
        by (bit_vector);
}

/// A store changes no length.
pub proof fn lemma_store_len(m: Seq<u8>, addr: u64, val: u64, k: int)
    ensures
        store_from(m, addr, val, k).len() == m.len(),
    decreases 8 - k,
{
    if 0 <= k < 8 {
        lemma_store_len(store_byte(m, addr + k, be_byte(val, k)), addr, val, k + 1);
    }
}

spec fn cell(addr: u64, k: int, n: int) -> int {
    (addr + k) % n
}

proof fn lemma_distinct_cells(addr: int, n: int, i: int, j: int)
    requires
        n >= 8,
        addr >= 0,
        0 <= i < j < 8,
    ensures
        (addr + i) % n != (addr + j) % n,
{
    vstd::arithmetic::div_mod::lemma_fundamental_div_mod(addr + i, n);
    vstd::arithmetic::div_mod::lemma_fundamental_div_mod(addr + j, n);
    let qi = (addr + i) / n;
    let qj = (addr + j) / n;
    if (addr + i) % n == (addr + j) % n {
        assert(n * (qj - qi) == j - i) by (nonlinear_arith)
            requires
                addr + i == n * qi + (addr + i) % n,
                addr + j == n * qj + (addr + j) % n,
                (addr + i) % n == (addr + j) % n,
        ;
        assert(false) by (nonlinear_arith)
            requires
                n * (qj - qi) == j - i,
                n >= 8,
                0 < j - i < 8,
        ;
    }
}

proof fn lemma_store_from_keeps(m: Seq<u8>, addr: u64, val: u64, k: int, a: int)
    requires
        m.len() >= 8,
        0 <= k <= 8,
        0 <= a < m.len(),
        forall|j: int| k <= j < 8 ==> #[trigger] cell(addr, j, m.len() as int) != a,
    ensures
        store_from(m, addr, val, k)[a] == m[a],
        store_from(m, addr, val, k).len() == m.len(),
    decreases 8 - k,
{
    if k < 8 {
        let m1 = store_byte(m, addr + k, be_byte(val, k));
        assert(cell(addr, k, m.len() as int) != a);
        lemma_store_from_keeps(m1, addr, val, k + 1, a);
    }
}

proof fn lemma_store_from_reads(m: Seq<u8>, addr: u64, val: u64, k: int, i: int)
    requires
        m.len() >= 8,
        0 <= k <= i < 8,
    ensures
        byte_at(store_from(m, addr, val, k), addr + i) == be_byte(val, i),
    decreases 8 - k,
{
    let n = m.len() as int;
    let m1 = store_byte(m, addr + k, be_byte(val, k));
    if k == i {
        assert forall|j: int| k + 1 <= j < 8 implies #[trigger] cell(addr, j, n) != (addr + i)
            % n by {
            lemma_distinct_cells(addr as int, n, i, j);
        }
        lemma_store_from_keeps(m1, addr, val, k + 1, (addr + i) % n);
    } else {
        lemma_store_from_reads(m1, addr, val, k + 1, i);
    }
}

/// A word store changes no length.
pub proof fn lemma_store_word_len(m: Seq<u8>, addr: u64, val: u64)
    ensures
        store_word(m, addr, val).len() == m.len(),
{
    reveal(store_word);
    lemma_store_len(m, addr, val, 0);
}

/// A word stored in a memory of at least eight bytes is read back from the
/// same address.
pub proof fn lemma_read_after_store(m: Seq<u8>, addr: u64, val: u64)
    requires
        m.len() >= 8,
    ensures
        word_at(store_word(m, addr, val), addr) == val,
        store_word(m, addr, val).len() == m.len(),
{
    reveal(word_at);
    reveal(store_word);
    lemma_store_from_reads(m, addr, val, 0, 0);
    lemma_store_from_reads(m, addr, val, 0, 1);
    lemma_store_from_reads(m, addr, val, 0, 2);
    lemma_store_from_reads(m, addr, val, 0, 3);
    lemma_store_from_reads(m, addr, val, 0, 4);
    lemma_store_from_reads(m, addr, val, 0, 5);
    lemma_store_from_reads(m, addr, val, 0, 6);
    lemma_store_from_reads(m, addr, val, 0, 7);
    lemma_be_bytes(val);
    lemma_store_len(m, addr, val, 0);
}

/// A flat byte memory with big-endian 64-bit word access.
pub struct Mem {
    mem: Vec<u8>,
}

impl View for Mem {
    type V = Seq<u8>;

    closed spec fn view(&self) -> Seq<u8> {
        self.mem@
    }
}

impl Mem {
    /// A memory that holds the given bytes.
    pub fn new(val: Vec<u8>) -> (r: Mem)
        ensures
            r@ == val@,
    {
        Mem { mem: val }
    }

    fn index_of(&self, addr: u64, k: u8) -> (i: usize)
        requires
            self@.len() > 0,
            k < 8,
        ensures
            i == (addr + k) % (self@.len() as int),
            i < self@.len(),
    {
        let n = self.mem.len() as u128;
        ((addr as u128 + k as u128) % n) as usize
    }

    fn get_byte(&self, addr: u64, k: u8) -> (b: u64)
        requires
            k < 8,
        ensures
            b == byte_at(self@, addr + k),
    {
        if self.mem.len() == 0 {
            0
        } else {
            self.mem[self.index_of(addr, k)] as u64
        }
    }

    /// Reads the big-endian word at `addr`.
    pub fn get_word(&self, addr: u64) -> (val: u64)
        ensures
            val == word_at(self@, addr),
    {
        proof {
            reveal(word_at);
        }
        self.get_byte(addr, 0) * 0x100_0000_0000_0000 + self.get_byte(addr, 1)
            * 0x1_0000_0000_0000 + self.get_byte(addr, 2) * 0x100_0000_0000 + self.get_byte(
            addr,
            3,
        ) * 0x1_0000_0000 + self.get_byte(addr, 4) * 0x100_0000 + self.get_byte(addr, 5)
            * 0x1_0000 + self.get_byte(addr, 6) * 0x100 + self.get_byte(addr, 7)
    }

    fn set_byte(&mut self, addr: u64, k: u8, v: u8)
        requires
            k < 8,
        ensures
            final(self)@ == store_byte(old(self)@, addr + k, v),
    {
        if self.mem.len() != 0 {
            let i = self.index_of(addr, k);
            self.mem.set(i, v);
        }
    }

    /// Stores `val` at `addr` in big-endian order.
    pub fn set_word(self, addr: u64, val: u64) -> (r: Mem)
        ensures
            r@ == store_word(self@, addr, val),
            r@.len() == self@.len(),
    {
        proof {
            reveal(store_word);
            lemma_store_len(self@, addr, val, 0);
            reveal_with_fuel(store_from, 9);
        }
        let mut m = self;
        m.set_byte(addr, 0, (val / 0x100_0000_0000_0000) as u8);
        m.set_byte(addr, 1, ((val / 0x1_0000_0000_0000) % 256) as u8);
        m.set_byte(addr, 2, ((val / 0x100_0000_0000) % 256) as u8);
        m.set_byte(addr, 3, ((val / 0x1_0000_0000) % 256) as u8);
        m.set_byte(addr, 4, ((val / 0x100_0000) % 256) as u8);
        m.set_byte(addr, 5, ((val / 0x1_0000) % 256) as u8);
        m.set_byte(addr, 6, ((val / 0x100) % 256) as u8);
        m.set_byte(addr, 7, (val % 256) as u8);
        m
    }

    /// A copy of the whole memory.
    pub fn dump(&self) -> (bytes: Vec<u8>)
        ensures
            bytes@ == self@,
    {
        self.mem.clone()
    }

    /// The number of bytes.
    pub fn get_size(&self) -> (n: usize)
        ensures
            n == self@.len(),
    {
        self.mem.len()
    }
}

} // verus!
