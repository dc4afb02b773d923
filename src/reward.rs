use vstd::prelude::*;
use vstd::utf8::encode_utf8;
use crate::hexdigits::{all_hex, decode_pairs, is_all_hex, byte_of_digits};

verus! {

/// The reward predicate that a derived address must satisfy.
pub enum RewardVariant {
    LeadingZeros { zeros_threshold: u8 },
    TotalZeros { zeros_threshold: u8 },
    LeadingAndTotalZeros { leading_zeros_threshold: u8, total_zeros_threshold: u8 },
    LeadingOrTotalZeros { leading_zeros_threshold: u8, total_zeros_threshold: u8 },
    Matching { pattern: String },
}

/// Number of bytes in an address.
pub const ADDRESS_LEN: usize = 20;

/// The bytes of a text, as UTF-8.
pub open spec fn text_bytes(s: Seq<char>) -> Seq<u8> {
    encode_utf8(s)
}

/// Whether the separator `...` starts at index `i` of `p`.
pub open spec fn sep_at(p: Seq<u8>, i: int) -> bool {
    0 <= i && i + 3 <= p.len() && p[i] == 46u8 && p[i + 1] == 46u8 && p[i + 2] == 46u8
}

/// The first index at or after `from` where the separator `...` starts.
pub open spec fn find_sep(p: Seq<u8>, from: int) -> Option<int>
    decreases p.len() - from,
{
    if from < 0 || from + 3 > p.len() {
        None
    } else if sep_at(p, from) {
        Some(from)
    } else {
        find_sep(p, from + 1)
    }
}

/// The outcome of checking a zero-count threshold.
pub open spec fn threshold_check(t: u8) -> Result<(), &'static str> {
    if t == 0 {
        Err("threshold must be greater than 0")
    } else if t > 20 {
        Err("threshold must be less than 20")
    } else {
        Ok(())
    }
}

/// The outcome of checking the syntax of a pattern given as bytes.
pub open spec fn pattern_check(p: Seq<u8>) -> Result<(), &'static str> {
    if p.len() == 0 {
        Err("pattern cannot be empty")
    } else {
        match find_sep(p, 0) {
            Some(i) => {
                let lead = p.subrange(0, i);
                let trail = p.subrange(i + 3, p.len() as int);
                if find_sep(p, i + 3) is Some {
                    Err("pattern must have exactly one '...' separator")
                } else if lead.len() == 0 {
                    Err("leading part of pattern cannot be empty")
                } else if lead.len() % 2 != 0 {
                    Err("leading part must have even number of characters")
                } else if !all_hex(lead) {
                    Err("leading part must contain only hex characters")
                } else if trail.len() != 0 && trail.len() != 2 {
                    Err("trailing part must be exactly 2 characters")
                } else if trail.len() != 0 && !all_hex(trail) {
                    Err("trailing part must contain only hex characters")
                } else {
                    Ok(())
                }
            },
            None => {
                if p.len() != 2 {
                    Err("simple pattern must be exactly 2 characters")
                } else if !all_hex(p) {
                    Err("pattern must contain only hex characters")
                } else {
                    Ok(())
                }
            },
        }
    }
}

/// The outcome of checking a reward specification.
pub open spec fn reward_check(r: RewardVariant) -> Result<(), &'static str> {
    match r {
        RewardVariant::LeadingZeros { zeros_threshold } => threshold_check(zeros_threshold),
        RewardVariant::TotalZeros { zeros_threshold } => threshold_check(zeros_threshold),
        RewardVariant::LeadingAndTotalZeros { leading_zeros_threshold, total_zeros_threshold } =>
            if threshold_check(leading_zeros_threshold) is Err {
                threshold_check(leading_zeros_threshold)
            } else {
                threshold_check(total_zeros_threshold)
            },
        RewardVariant::LeadingOrTotalZeros { leading_zeros_threshold, total_zeros_threshold } =>
            if threshold_check(leading_zeros_threshold) is Err {
                threshold_check(leading_zeros_threshold)
            } else {
                threshold_check(total_zeros_threshold)
            },
        RewardVariant::Matching { pattern } => pattern_check(text_bytes(pattern@)),
    }
}

/// The bytes that a valid pattern requires at the start of the address.
pub open spec fn pattern_prefix(p: Seq<u8>) -> Seq<u8> {
    match find_sep(p, 0) {
        Some(i) => decode_pairs(p.subrange(0, i)),
        None => decode_pairs(p),
    }
}

/// The byte that a valid pattern requires at the end of the address, if any.
pub open spec fn pattern_suffix(p: Seq<u8>) -> Option<u8> {
    match find_sep(p, 0) {
        Some(i) => if p.len() == i + 5 {
            Some(byte_of_digits(p[i + 3], p[i + 4]))
        } else {
            None
        },
        None => None,
    }
}

/// Number of zero bytes in `a`.
pub open spec fn zero_count(a: Seq<u8>) -> nat
    decreases a.len(),
{
    if a.len() == 0 {
        0
    } else {
        zero_count(a.drop_last()) + if a.last() == 0 {
            1nat
        } else {
            0nat
        }
    }
}

/// The first `n` bytes of `a` are all zero.
pub open spec fn leading_zeros_hold(a: Seq<u8>, n: int) -> bool {
    n <= a.len() && forall|i: int| 0 <= i < n ==> #[trigger] a[i] == 0
}

/// At least `n` bytes of `a` are zero.
pub open spec fn total_zeros_hold(a: Seq<u8>, n: int) -> bool {
    zero_count(a) >= n
}

/// `a` starts with the bytes of `prefix` and, if `suffix` is given, ends with it.
pub open spec fn bytes_match(prefix: Seq<u8>, suffix: Option<u8>, a: Seq<u8>) -> bool {
    &&& prefix.len() <= a.len()
    &&& forall|i: int| 0 <= i < prefix.len() ==> #[trigger] a[i] == prefix[i]
    &&& (suffix matches Some(x) ==> a.len() > 0 && a.last() == x)
}

/// Whether the address `a` earns the reward `r`.
pub open spec fn reward_holds(r: RewardVariant, a: Seq<u8>) -> bool {
    match r {
        RewardVariant::LeadingZeros { zeros_threshold } => leading_zeros_hold(a, zeros_threshold as int),
        RewardVariant::TotalZeros { zeros_threshold } => total_zeros_hold(a, zeros_threshold as int),
        RewardVariant::LeadingAndTotalZeros { leading_zeros_threshold, total_zeros_threshold } =>
            leading_zeros_hold(a, leading_zeros_threshold as int) && total_zeros_hold(a, total_zeros_threshold as int),
        RewardVariant::LeadingOrTotalZeros { leading_zeros_threshold, total_zeros_threshold } =>
            leading_zeros_hold(a, leading_zeros_threshold as int) || total_zeros_hold(a, total_zeros_threshold as int),
        RewardVariant::Matching { pattern } => {
            let p = text_bytes(pattern@);
            bytes_match(pattern_prefix(p), pattern_suffix(p), a)
        },
    }
}

/// A separator found from `from` stands at or after `from`.
pub proof fn lemma_find_sep_found(p: Seq<u8>, from: int)
    requires
        find_sep(p, from) is Some,
    ensures
        sep_at(p, find_sep(p, from)->0),
        from <= find_sep(p, from)->0,
    decreases p.len() - from,
{
    if from < 0 || from + 3 > p.len() {
    } else if sep_at(p, from) {
    } else {
        lemma_find_sep_found(p, from + 1);
    }
}

/// Finds the first separator `...` at or after `from`.
pub fn find_separator(p: &[u8], from: usize) -> (r: Option<usize>)
    requires
        from <= p@.len(),
    ensures
        match r {
            Some(i) => find_sep(p@, from as int) == Some(i as int),
            None => find_sep(p@, from as int) is None,
        },
{
    let len: usize = p.len();
    let mut i: usize = from;
    while i < len && len - i >= 3
        invariant
            len == p@.len(),
            from <= i <= p@.len(),
            find_sep(p@, from as int) == find_sep(p@, i as int),
        decreases p.len() - i,
    {
        if p[i] == 46 && p[i + 1] == 46 && p[i + 2] == 46 {
            return Some(i);
        }
        i += 1;
    }
    None
}

/// Copies `p[start..end]`.
pub(crate) fn copy_range(p: &[u8], start: usize, end: usize) -> (r: Vec<u8>)
    requires
        start <= end <= p@.len(),
    ensures
        r@ == p@.subrange(start as int, end as int),
{
    let mut out: Vec<u8> = Vec::new();
    let mut i: usize = start;
    while i < end
        invariant
            start <= i <= end,
            end <= p@.len(),
            out@ == p@.subrange(start as int, i as int),
        decreases end - i,
    {
        out.push(p[i]);
        i += 1;
        assert(out@ =~= p@.subrange(start as int, i as int));
    }
    out
}

/// Checks that a zero-count threshold lies in `1..=20`.
pub fn validate_zeros_threshold(threshold: u8) -> (r: Result<(), &'static str>)
    ensures
        r == threshold_check(threshold),
{
    if threshold == 0 {
        return Err("threshold must be greater than 0");
    }
    if threshold > 20 {
        return Err("threshold must be less than 20");
    }
    Ok(())
}

/// Checks the syntax of a pattern: two hex digits, or `prefix...suffix`
/// with an even-length hex prefix and an optional two-digit hex suffix.
pub fn validate_pattern(pattern: &str) -> (r: Result<(), &'static str>)
    ensures
        r == pattern_check(text_bytes(pattern@)),
{
    let p = pattern.as_bytes();
    if p.len() == 0 {
        return Err("pattern cannot be empty");
    }
    match find_separator(p, 0) {
        Some(i) => {
            proof {
                lemma_find_sep_found(p@, 0);
            }
            if find_separator(p, i + 3).is_some() {
                return Err("pattern must have exactly one '...' separator");
            }
            let lead = copy_range(p, 0, i);
            let trail = copy_range(p, i + 3, p.len());
            if lead.len() == 0 {
                return Err("leading part of pattern cannot be empty");
            }
            if lead.len() % 2 != 0 {
                return Err("leading part must have even number of characters");
            }
            if !is_all_hex(lead.as_slice()) {
                return Err("leading part must contain only hex characters");
            }
            if trail.len() != 0 {
                if trail.len() != 2 {
                    return Err("trailing part must be exactly 2 characters");
                }
                if !is_all_hex(trail.as_slice()) {
                    return Err("trailing part must contain only hex characters");
                }
            }
            Ok(())
        },
        None => {
            if p.len() != 2 {
                return Err("simple pattern must be exactly 2 characters");
            }
            if !is_all_hex(p) {
                return Err("pattern must contain only hex characters");
            }
            Ok(())
        },
    }
}

/// Checks the thresholds or the pattern syntax of a reward specification.
pub fn validate_reward(reward: &RewardVariant) -> (r: Result<(), &'static str>)
    ensures
        r == reward_check(*reward),
{
    match reward {
        RewardVariant::LeadingZeros { zeros_threshold } => validate_zeros_threshold(*zeros_threshold),
        RewardVariant::TotalZeros { zeros_threshold } => validate_zeros_threshold(*zeros_threshold),
        RewardVariant::LeadingAndTotalZeros { leading_zeros_threshold, total_zeros_threshold } => {
            validate_zeros_threshold(*leading_zeros_threshold)?;
            validate_zeros_threshold(*total_zeros_threshold)
        },
        RewardVariant::LeadingOrTotalZeros { leading_zeros_threshold, total_zeros_threshold } => {
            validate_zeros_threshold(*leading_zeros_threshold)?;
            validate_zeros_threshold(*total_zeros_threshold)
        },
        RewardVariant::Matching { pattern } => validate_pattern(pattern.as_str()),
    }
}

} // verus!
