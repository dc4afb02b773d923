use vstd::prelude::*;
use crate::hexdigits::{decode_digit_pairs, hex_digit_value};
use crate::reward::{
    RewardVariant, ADDRESS_LEN, text_bytes, reward_check, reward_holds, pattern_check,
    pattern_prefix, pattern_suffix, leading_zeros_hold, total_zeros_hold, zero_count, bytes_match,
    find_separator, copy_range, lemma_find_sep_found,
};

verus! {

/// A reward predicate compiled once into the values it compares against,
/// then applied unchanged to every address of a run.
pub enum Matcher {
    LeadingZeros { leading: usize },
    TotalZeros { total: usize },
    LeadingAndTotalZeros { leading: usize, total: usize },
    LeadingOrTotalZeros { leading: usize, total: usize },
    Pattern { prefix: Vec<u8>, suffix: Option<u8> },
}

impl Matcher {
    /// Whether this matcher accepts the address `a`.
    pub open spec fn accepts(&self, a: Seq<u8>) -> bool {
        match self {
            Matcher::LeadingZeros { leading } => leading_zeros_hold(a, *leading as int),
            Matcher::TotalZeros { total } => total_zeros_hold(a, *total as int),
            Matcher::LeadingAndTotalZeros { leading, total } =>
                leading_zeros_hold(a, *leading as int) && total_zeros_hold(a, *total as int),
            Matcher::LeadingOrTotalZeros { leading, total } =>
                leading_zeros_hold(a, *leading as int) || total_zeros_hold(a, *total as int),
            Matcher::Pattern { prefix, suffix } => bytes_match(prefix@, *suffix, a),
        }
    }

    /// Compiles a checked reward specification.
    pub fn compile(reward: &RewardVariant) -> (m: Matcher)
        requires
            reward_check(*reward) is Ok,
        ensures
            forall|a: Seq<u8>| m.accepts(a) == reward_holds(*reward, a),
    {
        match reward {
            RewardVariant::LeadingZeros { zeros_threshold } => Matcher::LeadingZeros {
                leading: *zeros_threshold as usize,
            },
            RewardVariant::TotalZeros { zeros_threshold } => Matcher::TotalZeros {
                total: *zeros_threshold as usize,
            },
            RewardVariant::LeadingAndTotalZeros { leading_zeros_threshold, total_zeros_threshold } =>
                Matcher::LeadingAndTotalZeros {
                leading: *leading_zeros_threshold as usize,
                total: *total_zeros_threshold as usize,
            },
            RewardVariant::LeadingOrTotalZeros { leading_zeros_threshold, total_zeros_threshold } =>
                Matcher::LeadingOrTotalZeros {
                leading: *leading_zeros_threshold as usize,
                total: *total_zeros_threshold as usize,
            },
            RewardVariant::Matching { pattern } => {
                let p = pattern.as_str().as_bytes();
                assert(p@ == text_bytes(pattern@));
                assert(pattern_check(p@) is Ok);
                match find_separator(p, 0) {
                    Some(i) => {
                        proof {
                            lemma_find_sep_found(p@, 0);
                        }
                        let lead = copy_range(p, 0, i);
                        let prefix = decode_digit_pairs(lead.as_slice());
                        let suffix = if p.len() - i == 5 {
                            let ghost trail = p@.subrange(i + 3, p@.len() as int);
                            assert(trail[0] == p@[i + 3] && trail[1] == p@[i + 4]);
                            let hi = hex_digit_value(p[i + 3]).unwrap();
                            let lo = hex_digit_value(p[i + 4]).unwrap();
                            Some(16 * hi + lo)
                        } else {
                            None
                        };
                        assert(prefix@ == pattern_prefix(p@));
                        assert(suffix == pattern_suffix(p@));
                        Matcher::Pattern { prefix, suffix }
                    },
                    None => {
                        let prefix = decode_digit_pairs(p);
                        Matcher::Pattern { prefix, suffix: None }
                    },
                }
            },
        }
    }

    /// Whether the address earns the reward; depends on the matcher and the
    /// address alone.
    pub fn matches(&self, address: &[u8; 20]) -> (r: bool)
        ensures
            r == self.accepts(address@),
    {
        match self {
            Matcher::LeadingZeros { leading } => has_leading_zeros(address, *leading),
            Matcher::TotalZeros { total } => count_zeros(address) >= *total,
            Matcher::LeadingAndTotalZeros { leading, total } =>
                has_leading_zeros(address, *leading) && count_zeros(address) >= *total,
            Matcher::LeadingOrTotalZeros { leading, total } =>
                has_leading_zeros(address, *leading) || count_zeros(address) >= *total,
            Matcher::Pattern { prefix, suffix } => {
                if !starts_with_bytes(address, prefix.as_slice()) {
                    return false;
                }
                match suffix {
                    Some(x) => address[ADDRESS_LEN - 1] == *x,
                    None => true,
                }
            },
        }
    }
}

/// Whether the address starts with the bytes of `prefix`.
pub fn starts_with_bytes(address: &[u8; 20], prefix: &[u8]) -> (r: bool)
    ensures
        r == (prefix@.len() <= 20 && forall|j: int| 0 <= j < prefix@.len() ==> #[trigger] address@[j] == prefix@[j]),
{
    if prefix.len() > ADDRESS_LEN {
        return false;
    }
    let mut i: usize = 0;
    while i < prefix.len()
        invariant
            prefix@.len() <= 20,
            i <= prefix@.len(),
            forall|j: int| 0 <= j < i ==> #[trigger] address@[j] == prefix@[j],
        decreases prefix.len() - i,
    {
        if address[i] != prefix[i] {
            assert(address@[i as int] != prefix@[i as int]);
            return false;
        }
        i += 1;
    }
    true
}

/// Whether the first `n` bytes of the address are zero.
pub fn has_leading_zeros(address: &[u8; 20], n: usize) -> (r: bool)
    ensures
        r == leading_zeros_hold(address@, n as int),
{
    if n > ADDRESS_LEN {
        return false;
    }
    let mut i: usize = 0;
    while i < n
        invariant
            n <= 20,
            i <= n,
            forall|j: int| 0 <= j < i ==> #[trigger] address@[j] == 0,
        decreases n - i,
    {
        if address[i] != 0 {
            return false;
        }
        i += 1;
    }
    true
}

/// Number of zero bytes in the address.
pub fn count_zeros(address: &[u8; 20]) -> (r: usize)
    ensures
        r as nat == zero_count(address@),
{
    let mut count: usize = 0;
    let mut i: usize = 0;
    while i < ADDRESS_LEN
        invariant
            i <= 20,
            count <= i,
            count as nat == zero_count(address@.subrange(0, i as int)),
        decreases 20 - i,
    {
        assert(address@.subrange(0, i + 1).drop_last() =~= address@.subrange(0, i as int));
        if address[i] == 0 {
            count += 1;
        }
        i += 1;
    }
    assert(address@.subrange(0, 20) =~= address@);
    count
}

/// Evaluation is pure: a matcher compiled from a reward gives, for equal
/// addresses, equal verdicts, and that verdict is the reward's own.
pub proof fn lemma_evaluation_pure(reward: RewardVariant, m: Matcher, a1: Seq<u8>, a2: Seq<u8>)
    requires
        forall|a: Seq<u8>| m.accepts(a) == reward_holds(reward, a),
        a1 == a2,
    ensures
        m.accepts(a1) == m.accepts(a2),
        m.accepts(a1) == reward_holds(reward, a1),
{
}

/// `LeadingZeros(n)` accepts the all-zero address for every `n` in `1..=20`,
/// and `LeadingZeros(1)` refuses every address whose first byte is nonzero.
pub proof fn lemma_leading_zeros_law(n: u8, a: Seq<u8>)
    requires
        1 <= n <= 20,
        a.len() == 20,
    ensures
        reward_holds(RewardVariant::LeadingZeros { zeros_threshold: n }, Seq::new(20, |i: int| 0u8)),
        a[0] != 0 ==> !reward_holds(RewardVariant::LeadingZeros { zeros_threshold: 1 }, a),
{
    let z = Seq::new(20, |i: int| 0u8);
    assert(leading_zeros_hold(z, n as int));
}

} // verus!
