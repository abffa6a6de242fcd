//! Permission sets of guild members.

use vstd::prelude::*;

verus! {

/// A set of permission flags, one bit per flag, laid out as the chat platform
/// sends them.
#[derive(Clone, Copy, Debug, PartialEq, Eq, Structural)]
pub struct Permissions {
    /// The flags, bit `k` set when flag `k` is granted.
    pub bits: u64,
}

impl Permissions {
    /// Whether flag number `flag` is in the set.
    pub open spec fn has(self, flag: u64) -> bool {
        flag < 64 && (self.bits >> flag) & 1 == 1
    }

    /// Whether every flag of `other` is also in `self`.
    pub open spec fn is_superset_of(self, other: Permissions) -> bool {
        self.bits & other.bits == other.bits
    }

    /// The set without any flag.
    pub fn empty() -> (p: Permissions)
        ensures
            p.bits == 0,
    {
        Permissions { bits: 0 }
    }

    /// The set whose flags are the bits of `bits`.
    pub fn new(bits: u64) -> (p: Permissions)
        ensures
            p.bits == bits,
    {
        Permissions { bits }
    }

    /// The flags as bits.
    pub fn bits(&self) -> (bits: u64)
        ensures
            bits == self.bits,
    {
        self.bits
    }

    /// Whether the set holds no flag.
    pub fn is_empty(&self) -> (b: bool)
        ensures
            b == (self.bits == 0),
    {
        self.bits == 0
    }

    /// Whether every flag of `other` is also in `self`.
    pub fn contains(&self, other: Permissions) -> (b: bool)
        ensures
            b == self.is_superset_of(other),
    {
        (self.bits & other.bits) == other.bits
    }

    /// The names of the flags in the set, as one line of text.
    pub fn names(&self) -> (s: String)
        ensures
            s@ == permission_names(self.bits),
    {
        describe_permissions(self.bits)
    }
}

/// The bits below position `n`.
pub open spec fn low_bits(n: nat) -> u64
    decreases n,
{
    if n == 0 {
        0
    } else {
        low_bits((n - 1) as nat) | (1u64 << ((n - 1) as u64))
    }
}

proof fn lemma_low_bits(n: nat)
    requires
        n <= 64,
    ensures
        n < 64 ==> low_bits(n) == ((1u64 << (n as u64)) - 1) as u64,
        n == 64 ==> low_bits(n) == u64::MAX,
    decreases n,
{
    if n == 0 {
        assert(((1u64 << 0u64) - 1) as u64 == 0) by (bit_vector);
    } else {
        lemma_low_bits((n - 1) as nat);
        let k = (n - 1) as u64;
        let m = low_bits((n - 1) as nat);
        if n < 64 {
            assert(k < 63 && m == ((1u64 << k) - 1) as u64 ==> m | (1u64 << k) == ((1u64 << ((k
                + 1) as u64)) - 1) as u64) by (bit_vector);
        } else {
            assert(k == 63 && m == ((1u64 << k) - 1) as u64 ==> m | (1u64 << k)
                == 0xffff_ffff_ffff_ffffu64) by (bit_vector);
        }
    }
}

proof fn lemma_flagwise_below(x: u64, y: u64, n: nat)
    requires
        n <= 64,
        forall|flag: u64| flag < 64 && (y >> flag) & 1 == 1 ==> (x >> flag) & 1 == 1,
    ensures
        (x & y) & low_bits(n) == y & low_bits(n),
    decreases n,
{
    if n == 0 {
        assert((x & y) & 0 == y & 0) by (bit_vector);
    } else {
        lemma_flagwise_below(x, y, (n - 1) as nat);
        let k = (n - 1) as u64;
        let m = low_bits((n - 1) as nat);
        assert(k < 64 && (x & y) & m == y & m && ((y >> k) & 1 == 1 ==> (x >> k) & 1 == 1) ==> (x
            & y) & (m | (1u64 << k)) == y & (m | (1u64 << k))) by (bit_vector);
    }
}

/// [`Permissions::is_superset_of`] is set inclusion, flag by flag.
pub proof fn lemma_superset_is_flagwise(a: Permissions, b: Permissions)
    ensures
        a.is_superset_of(b) <==> (forall|flag: u64| b.has(flag) ==> a.has(flag)),
{
    let x = a.bits;
    let y = b.bits;
    if a.is_superset_of(b) {
        assert forall|flag: u64| b.has(flag) implies a.has(flag) by {
            assert(x & y == y && flag < 64 && (y >> flag) & 1 == 1 ==> (x >> flag) & 1 == 1)
                by (bit_vector);
        }
    }
    if forall|flag: u64| b.has(flag) ==> a.has(flag) {
        assert forall|flag: u64| flag < 64 && (y >> flag) & 1 == 1 implies (x >> flag) & 1
            == 1 by {
            assert(b.has(flag));
        }
        lemma_flagwise_below(x, y, 64);
        lemma_low_bits(64);
        let m = low_bits(64);
        assert(m == 0xffff_ffff_ffff_ffffu64 && (x & y) & m == y & m ==> x & y == y)
            by (bit_vector);
    }
}

/// The text that serenity prints for the permission set with the given bits:
/// the names of the flags it knows among them, separated by commas and a final
/// "and". The table of names is serenity's own.
pub uninterp spec fn permission_names(bits: u64) -> Seq<char>;

/// Calls serenity's `Permissions::from_bits_truncate` and the `Display` of the
/// result. Trusted: the text is a function of the bits alone.
#[verifier::external_body]
fn describe_permissions(bits: u64) -> (s: String)
    ensures
        s@ == permission_names(bits),
{
    serenity::model::permissions::Permissions::from_bits_truncate(bits).to_string()
}

} // verus!
