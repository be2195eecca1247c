use vstd::arithmetic::div_mod::{lemma_fundamental_div_mod, lemma_mod_bound, lemma_mod_multiples_basic};
use vstd::arithmetic::power2::{lemma2_to64, lemma_pow2_adds, lemma_pow2_pos, lemma_pow2_unfold, pow2};
use vstd::prelude::*;

verus! {

/// The number of addresses in the whole IPv4 space.
pub open spec fn address_space() -> nat {
    0x1_0000_0000
}

/// The number of addresses in a block whose prefix has `prefix` bits.
pub open spec fn block_size(prefix: u8) -> nat {
    pow2((32 - prefix) as nat)
}

/// `addr` with every bit below the prefix cleared.
pub open spec fn masked(addr: u32, prefix: u8) -> nat {
    (addr - (addr as nat) % block_size(prefix)) as nat
}

/// A contiguous block of IPv4 addresses: a network address and a prefix length.
/// Addresses are plain `u32` values in network order (`10.0.0.1` is `0x0a000001`).
#[derive(Clone, Copy, Debug, PartialEq, Eq)]
pub struct AddressRange {
    network: u32,
    prefix: u8,
}

impl AddressRange {
    /// The lowest address of the block, with every host bit clear.
    pub closed spec fn first(self) -> u32 {
        self.network
    }

    pub closed spec fn prefix_len(self) -> u8 {
        self.prefix
    }

    pub open spec fn size(self) -> nat {
        block_size(self.prefix_len())
    }

    /// The network address is aligned to the block, and the block ends inside
    /// the address space.
    pub open spec fn wf(self) -> bool {
        &&& self.prefix_len() <= 32
        &&& (self.first() as nat) % self.size() == 0
        &&& self.first() + self.size() <= address_space()
    }

    /// Every address of the block, in ascending order.
    pub open spec fn candidates(self) -> Seq<u32> {
        Seq::new(self.size(), |i: int| (self.first() + i) as u32)
    }

    pub open spec fn contains(self, addr: u32) -> bool {
        self.first() <= addr < self.first() + self.size()
    }

    /// The block of `prefix` bits that holds `addr`; the host bits of `addr`
    /// are cleared.
    pub fn new(addr: u32, prefix: u8) -> (r: AddressRange)
        requires
            prefix <= 32,
        ensures
            r.wf(),
            r.first() == masked(addr, prefix),
            r.prefix_len() == prefix,
    {
        let size = block_len(prefix);
        proof {
            lemma_pow2_pos((32 - prefix) as nat);
            lemma_aligned_block(addr as nat, prefix);
        }
        let network = (addr as u64 - addr as u64 % size) as u32;
        AddressRange { network, prefix }
    }

    /// The network address.
    pub fn network(&self) -> (r: u32)
        ensures
            r == self.first(),
    {
        self.network
    }

    pub fn prefix(&self) -> (r: u8)
        ensures
            r == self.prefix_len(),
    {
        self.prefix
    }

    /// The number of addresses in the block: `2^(32 - prefix)`.
    pub fn len(&self) -> (r: u64)
        requires
            self.wf(),
        ensures
            r == self.size(),
    {
        block_len(self.prefix)
    }

    /// The highest address of the block.
    pub fn last(&self) -> (r: u32)
        requires
            self.wf(),
        ensures
            r == self.first() + self.size() - 1,
    {
        proof {
            lemma_pow2_pos((32 - self.prefix) as nat);
        }
        (self.network as u64 + (block_len(self.prefix) - 1)) as u32
    }

    pub fn contains_addr(&self, addr: u32) -> (r: bool)
        requires
            self.wf(),
        ensures
            r == self.contains(addr),
    {
        addr >= self.network && (addr as u64) < self.network as u64 + block_len(self.prefix)
    }

    /// A fresh cursor over the block's addresses, from the lowest up.
    pub fn candidates_iter(&self) -> (r: Candidates)
        requires
            self.wf(),
        ensures
            r.wf(),
            r.range() == *self,
            r.position() == 0,
    {
        Candidates { range: *self, pos: 0 }
    }
}

/// `2^(32 - prefix)` as a machine integer.
fn block_len(prefix: u8) -> (r: u64)
    requires
        prefix <= 32,
    ensures
        r == block_size(prefix),
        r <= address_space(),
{
    let shift: u8 = 32 - prefix;
    let mut r: u64 = 1;
    let mut k: u8 = 0;
    proof {
        lemma2_to64();
    }
    while k < shift
        invariant
            shift == 32 - prefix,
            k <= shift,
            r == pow2(k as nat),
            r <= pow2(32),
            pow2(32) == address_space(),
        decreases shift - k,
    {
        proof {
            lemma_pow2_unfold((k + 1) as nat);
            lemma_pow2_adds((k + 1) as nat, (32 - (k + 1)) as nat);
            lemma_pow2_pos((32 - (k + 1)) as nat);
            assert(pow2((k + 1) as nat) <= pow2(32)) by (nonlinear_arith)
                requires
                    pow2(32) == pow2((k + 1) as nat) * pow2((32 - (k + 1)) as nat),
                    pow2((32 - (k + 1)) as nat) > 0,
            ;
        }
        r = r * 2;
        k = k + 1;
    }
    r
}

/// Clearing the host bits of an address gives an aligned block that ends
/// inside the address space.
proof fn lemma_aligned_block(addr: nat, prefix: u8)
    requires
        addr < address_space(),
        prefix <= 32,
    ensures
        ({
            let size = block_size(prefix) as int;
            let network = addr - (addr as int) % size;
            &&& 0 <= network <= addr
            &&& network % size == 0
            &&& network + size <= address_space()
        }),
{
    let size = block_size(prefix) as int;
    let rest = pow2(prefix as nat) as int;
    let q = addr as int / size;
    lemma_pow2_pos((32 - prefix) as nat);
    lemma_pow2_adds((32 - prefix) as nat, prefix as nat);
    lemma2_to64();
    lemma_fundamental_div_mod(addr as int, size);
    lemma_mod_bound(addr as int, size);
    lemma_mod_multiples_basic(q, size);
    assert(size * q == q * size) by (nonlinear_arith);
    assert(q * size + size <= rest * size) by (nonlinear_arith)
        requires
            q * size <= addr,
            addr < size * rest,
            size > 0,
    ;
    assert(rest * size == address_space()) by (nonlinear_arith)
        requires
            size * rest == address_space(),
    ;
}

/// A cursor over the addresses of an `AddressRange`, lowest first. It holds
/// only the block and an index, so a block of any size is walked in constant
/// space.
#[derive(Clone, Copy, Debug)]
pub struct Candidates {
    range: AddressRange,
    pos: u64,
}

impl Candidates {
    pub closed spec fn range(self) -> AddressRange {
        self.range
    }

    /// How many addresses the cursor has handed out.
    pub closed spec fn position(self) -> nat {
        self.pos as nat
    }

    pub open spec fn wf(self) -> bool {
        self.range().wf() && self.position() <= self.range().size()
    }

    /// The addresses handed out so far.
    pub open spec fn yielded(self) -> Seq<u32> {
        self.range().candidates().take(self.position() as int)
    }

    /// Whether every address of the block has been handed out.
    pub fn is_exhausted(&self) -> (r: bool)
        requires
            self.wf(),
        ensures
            r == (self.position() == self.range().size()),
    {
        self.pos == block_len(self.range.prefix)
    }

    /// The next address of the block, or `None` once all have been handed out.
    pub fn next(&mut self) -> (r: Option<u32>)
        requires
            old(self).wf(),
        ensures
            final(self).wf(),
            final(self).range() == old(self).range(),
            old(self).position() < old(self).range().size() ==> {
                &&& r == Some(old(self).range().candidates()[old(self).position() as int])
                &&& final(self).position() == old(self).position() + 1
            },
            old(self).position() == old(self).range().size() ==> {
                &&& r == None::<u32>
                &&& final(self).position() == old(self).position()
            },
    {
        if self.pos < block_len(self.range.prefix) {
            let addr = (self.range.network as u64 + self.pos) as u32;
            self.pos = self.pos + 1;
            Some(addr)
        } else {
            None
        }
    }
}

/// A block of prefix length `p` has exactly `2^(32 - p)` candidates, all
/// distinct and inside the block, in strictly ascending order; and every
/// address of the block is among them.
pub proof fn lemma_candidates_cover_block(r: AddressRange)
    requires
        r.wf(),
    ensures
        r.candidates().len() == pow2((32 - r.prefix_len()) as nat),
        forall|i: int, j: int|
            0 <= i < j < r.candidates().len() ==> r.candidates()[i] < r.candidates()[j],
        forall|i: int| 0 <= i < r.candidates().len() ==> r.contains(#[trigger] r.candidates()[i]),
        forall|a: u32|
            r.contains(a) ==> exists|i: int|
                0 <= i < r.candidates().len() && #[trigger] r.candidates()[i] == a,
{
    assert forall|a: u32| r.contains(a) implies exists|i: int|
        0 <= i < r.candidates().len() && #[trigger] r.candidates()[i] == a by {
        let i = a - r.first();
        assert(r.candidates()[i] == a);
    }
}

} // verus!
