use vstd::prelude::*;
use crate::config::SaltVariant;

verus! {

/// Number of bytes in a salt.
pub const SALT_LEN: usize = 32;

/// Byte `k` (little-endian) of the search counter.
pub open spec fn counter_byte(counter: u64, k: int) -> u8 {
    ((counter >> (8 * k) as u64) & 0xff) as u8
}

/// Byte `i` of the candidate salt for `counter`: the variant's fixed bytes
/// stay where they are, and the counter fills the bytes left free
/// (little-endian, low word first), the rest being zero.
/// - `Random`: counter in bytes 0..8.
/// - `Crosschain`: counter in bytes 0..8, the chain id word from byte 8 on.
/// - `Sender`: calling address in bytes 0..20, counter in bytes 20..28.
/// - `CrosschainSender`: calling address in bytes 0..20, the counter's low
///   word in bytes 20..24, the chain id word from byte 24 on.
pub open spec fn salt_byte(v: SaltVariant, counter: u64, i: int) -> u8 {
    match v {
        SaltVariant::Random => if i < 8 { counter_byte(counter, i) } else { 0u8 },
        SaltVariant::Crosschain { chain_id } => if i < 8 { counter_byte(counter, i) } else { chain_id@[i] },
        SaltVariant::Sender { calling_address } =>
            if i < 20 {
                calling_address@[i]
            } else if i < 28 {
                counter_byte(counter, i - 20)
            } else {
                0u8
            },
        SaltVariant::CrosschainSender { chain_id, calling_address } =>
            if i < 20 {
                calling_address@[i]
            } else if i < 24 {
                counter_byte(counter, i - 20)
            } else {
                chain_id@[i]
            },
    }
}

/// The candidate salt for `counter`.
pub open spec fn salt_of(v: SaltVariant, counter: u64) -> Seq<u8> {
    Seq::new(32, |i: int| salt_byte(v, counter, i))
}

/// Whether byte `i` of every candidate salt is fixed by the variant.
pub open spec fn fixed_byte(v: SaltVariant, i: int) -> bool {
    match v {
        SaltVariant::Random => i >= 8,
        SaltVariant::Crosschain { .. } => i >= 8,
        SaltVariant::Sender { .. } => i < 20 || i >= 28,
        SaltVariant::CrosschainSender { .. } => i < 20 || i >= 24,
    }
}

fn salt_byte_at(v: &SaltVariant, counter: u64, i: usize) -> (r: u8)
    requires
        i < 32,
    ensures
        r == salt_byte(*v, counter, i as int),
{
    match v {
        SaltVariant::Random => if i < 8 { ((counter >> (8 * i) as u64) & 0xff) as u8 } else { 0u8 },
        SaltVariant::Crosschain { chain_id } =>
            if i < 8 {
                ((counter >> (8 * i) as u64) & 0xff) as u8
            } else {
                chain_id[i]
            },
        SaltVariant::Sender { calling_address } =>
            if i < 20 {
                calling_address[i]
            } else if i < 28 {
                ((counter >> (8 * (i - 20)) as u64) & 0xff) as u8
            } else {
                0u8
            },
        SaltVariant::CrosschainSender { chain_id, calling_address } =>
            if i < 20 {
                calling_address[i]
            } else if i < 24 {
                ((counter >> (8 * (i - 20)) as u64) & 0xff) as u8
            } else {
                chain_id[i]
            },
    }
}

/// The candidate salt that the search tries for `counter`.
pub fn candidate_salt(variant: &SaltVariant, counter: u64) -> (r: [u8; 32])
    ensures
        r@ == salt_of(*variant, counter),
{
    let mut s = [0u8; 32];
    let mut i: usize = 0;
    while i < SALT_LEN
        invariant
            i <= 32,
            forall|j: int| 0 <= j < i ==> #[trigger] s@[j] == salt_byte(*variant, counter, j),
        decreases 32 - i,
    {
        s[i] = salt_byte_at(variant, counter, i);
        i += 1;
    }
    assert(s@ =~= salt_of(*variant, counter));
    s
}

/// The variant's fixed bytes are the same in the candidates of any two
/// counters.
pub proof fn lemma_fixed_bytes_shared(v: SaltVariant, c1: u64, c2: u64, i: int)
    requires
        0 <= i < 32,
        fixed_byte(v, i),
    ensures
        salt_of(v, c1)[i] == salt_of(v, c2)[i],
{
}

proof fn lemma_low_bytes_determine(c1: u64, c2: u64)
    requires
        (c1 & 0xff) == (c2 & 0xff),
        ((c1 >> 8u64) & 0xff) == ((c2 >> 8u64) & 0xff),
        ((c1 >> 16u64) & 0xff) == ((c2 >> 16u64) & 0xff),
        ((c1 >> 24u64) & 0xff) == ((c2 >> 24u64) & 0xff),
        c1 < 0x1_0000_0000,
        c2 < 0x1_0000_0000,
    ensures
        c1 == c2,
{
    assert(c1 == c2) by (bit_vector)
        requires
            (c1 & 0xff) == (c2 & 0xff),
            ((c1 >> 8u64) & 0xff) == ((c2 >> 8u64) & 0xff),
            ((c1 >> 16u64) & 0xff) == ((c2 >> 16u64) & 0xff),
            ((c1 >> 24u64) & 0xff) == ((c2 >> 24u64) & 0xff),
            c1 < 0x1_0000_0000,
            c2 < 0x1_0000_0000;
}

proof fn lemma_bytes_determine(c1: u64, c2: u64)
    requires
        (c1 & 0xff) == (c2 & 0xff),
        ((c1 >> 8u64) & 0xff) == ((c2 >> 8u64) & 0xff),
        ((c1 >> 16u64) & 0xff) == ((c2 >> 16u64) & 0xff),
        ((c1 >> 24u64) & 0xff) == ((c2 >> 24u64) & 0xff),
        ((c1 >> 32u64) & 0xff) == ((c2 >> 32u64) & 0xff),
        ((c1 >> 40u64) & 0xff) == ((c2 >> 40u64) & 0xff),
        ((c1 >> 48u64) & 0xff) == ((c2 >> 48u64) & 0xff),
        ((c1 >> 56u64) & 0xff) == ((c2 >> 56u64) & 0xff),
    ensures
        c1 == c2,
{
    assert(c1 == c2) by (bit_vector)
        requires
            (c1 & 0xff) == (c2 & 0xff),
            ((c1 >> 8u64) & 0xff) == ((c2 >> 8u64) & 0xff),
            ((c1 >> 16u64) & 0xff) == ((c2 >> 16u64) & 0xff),
            ((c1 >> 24u64) & 0xff) == ((c2 >> 24u64) & 0xff),
            ((c1 >> 32u64) & 0xff) == ((c2 >> 32u64) & 0xff),
            ((c1 >> 40u64) & 0xff) == ((c2 >> 40u64) & 0xff),
            ((c1 >> 48u64) & 0xff) == ((c2 >> 48u64) & 0xff),
            ((c1 >> 56u64) & 0xff) == ((c2 >> 56u64) & 0xff);
}

proof fn lemma_byte_cast(c1: u64, c2: u64, k: int)
    requires
        0 <= k < 8,
        counter_byte(c1, k) == counter_byte(c2, k),
    ensures
        ((c1 >> (8 * k) as u64) & 0xff) == ((c2 >> (8 * k) as u64) & 0xff),
{
    let a = c1 >> (8 * k) as u64;
    let b = c2 >> (8 * k) as u64;
    assert((a & 0xff) < 256) by (bit_vector);
    assert((b & 0xff) < 256) by (bit_vector);
}

/// No candidate is tried twice: different counters give different salts
/// (for `CrosschainSender`, whose layout leaves the counter four bytes,
/// counters below 2^32).
pub proof fn lemma_distinct_counters_distinct_salts(v: SaltVariant, c1: u64, c2: u64)
    requires
        c1 != c2,
        v is CrosschainSender ==> c1 < 0x1_0000_0000 && c2 < 0x1_0000_0000,
    ensures
        salt_of(v, c1) != salt_of(v, c2),
{
    if salt_of(v, c1) == salt_of(v, c2) {
        let base: int = match v {
            SaltVariant::Sender { .. } => 20,
            SaltVariant::CrosschainSender { .. } => 20,
            _ => 0,
        };
        let n: int = if v is CrosschainSender { 4 } else { 8 };
        assert forall|k: int| 0 <= k < n implies #[trigger] counter_byte(c1, k) == counter_byte(c2, k) by {
            assert(salt_of(v, c1)[base + k] == salt_of(v, c2)[base + k]);
        }
        lemma_byte_cast(c1, c2, 0);
        lemma_byte_cast(c1, c2, 1);
        lemma_byte_cast(c1, c2, 2);
        lemma_byte_cast(c1, c2, 3);
        assert(c1 >> 0u64 == c1) by (bit_vector);
        assert(c2 >> 0u64 == c2) by (bit_vector);
        if v is CrosschainSender {
            lemma_low_bytes_determine(c1, c2);
        } else {
            lemma_byte_cast(c1, c2, 4);
            lemma_byte_cast(c1, c2, 5);
            lemma_byte_cast(c1, c2, 6);
            lemma_byte_cast(c1, c2, 7);
            lemma_bytes_determine(c1, c2);
        }
    }
}

} // verus!
