use vstd::prelude::*;
use vstd::utf8::{is_ascii_chars, is_ascii_chars_encode_utf8};
use crate::hexdigits::{is_hex_code, hex_code_value, all_hex, decode_pairs, decode_digit_pairs, is_all_hex, hex_lower, lower_digit, byte_of_digits};
use crate::reward::{copy_range, RewardVariant, text_bytes};

verus! {

/// A salt whose derived address earned the reward.
pub struct Finding {
    pub salt: [u8; 32],
    pub address: [u8; 20],
}

/// Length of a finding line: `0x`, 64 digits, ` -> `, `0x`, 40 digits.
pub const LINE_LEN: usize = 112;

/// The EIP-55 checksummed text of an address (no chain id).
pub uninterp spec fn checksum_of(a: Seq<u8>) -> Seq<char>;

/// Nibble `i` of `a`, the high nibble of each byte first.
pub open spec fn nibble(a: Seq<u8>, i: int) -> int {
    if i % 2 == 0 {
        a[i / 2] as int / 16
    } else {
        a[i / 2] as int % 16
    }
}

/// `t` is `0x` and then one hex digit, of either case, per nibble of `a`.
pub open spec fn checksum_shape(t: Seq<char>, a: Seq<u8>) -> bool {
    &&& t.len() == 2 + 2 * a.len()
    &&& t[0] == '0'
    &&& t[1] == 'x'
    &&& forall|i: int|
        0 <= i < 2 * a.len() ==> is_hex_code(#[trigger] t[2 + i] as int) && hex_code_value(t[2 + i] as int) == nibble(a, i)
}

/// The bytes of an ASCII text.
pub open spec fn ascii_bytes(s: Seq<char>) -> Seq<u8> {
    Seq::new(s.len(), |i: int| s[i] as u8)
}

/// The line that records a finding: `0x<salt digits> -> <checksummed address>`.
pub open spec fn finding_line(salt: Seq<u8>, address: Seq<u8>) -> Seq<u8> {
    seq![48u8, 120u8] + ascii_bytes(hex_lower(salt)) + seq![32u8, 45u8, 62u8, 32u8] + ascii_bytes(
        checksum_of(address),
    )
}

/// The salt and address that a line records, if it is a finding line.
pub open spec fn parsed_line(l: Seq<u8>) -> Option<(Seq<u8>, Seq<u8>)> {
    if l.len() == 112 && l[0] == 48u8 && l[1] == 120u8 && all_hex(l.subrange(2, 66)) && l[66] == 32u8
        && l[67] == 45u8 && l[68] == 62u8 && l[69] == 32u8 && l[70] == 48u8 && l[71] == 120u8
        && all_hex(l.subrange(72, 112)) {
        Some((decode_pairs(l.subrange(2, 66)), decode_pairs(l.subrange(72, 112))))
    } else {
        None
    }
}

/// Relies on hex::encode: two lower-case digits per byte, high nibble first.
#[verifier::external_body]
fn encode_salt(b: &[u8; 32]) -> (r: String)
    ensures
        r@ == hex_lower(b@),
{
    hex::encode(b)
}

/// Relies on alloy_primitives::Address::to_checksum (no chain id): `0x`, then
/// the address's lower-case hex digits with some letters made upper case.
#[verifier::external_body]
fn checksum_text(a: &[u8; 20]) -> (r: String)
    ensures
        r@ == checksum_of(a@),
        checksum_shape(r@, a@),
{
    alloy_primitives::Address::from(*a).to_checksum(None)
}

proof fn lemma_lower_digit(n: int)
    requires
        0 <= n < 16,
    ensures
        is_hex_code(lower_digit(n) as int),
        hex_code_value(lower_digit(n) as int) == n,
        (lower_digit(n) as int) < 128,
{
}

proof fn lemma_hex_lower_ascii(b: Seq<u8>)
    ensures
        is_ascii_chars(hex_lower(b)),
        forall|i: int|
            0 <= i < 2 * b.len() ==> is_hex_code(#[trigger] hex_lower(b)[i] as int)
                && hex_code_value(hex_lower(b)[i] as int) == nibble(b, i),
{
    assert forall|i: int| 0 <= i < 2 * b.len() implies is_hex_code(#[trigger] hex_lower(b)[i] as int)
        && hex_code_value(hex_lower(b)[i] as int) == nibble(b, i) && (hex_lower(b)[i] as int) < 128 by {
        lemma_lower_digit(nibble(b, i));
    }
}

/// Digits that spell out the nibbles of `a` decode back to `a`.
proof fn lemma_decode_nibbles(d: Seq<u8>, a: Seq<u8>)
    requires
        d.len() == 2 * a.len(),
        forall|i: int| 0 <= i < d.len() ==> is_hex_code(#[trigger] d[i] as int) && hex_code_value(d[i] as int) == nibble(a, i),
    ensures
        all_hex(d),
        decode_pairs(d) == a,
{
    assert forall|k: int| 0 <= k < a.len() implies #[trigger] decode_pairs(d)[k] == a[k] by {
        assert(is_hex_code(d[2 * k] as int) && hex_code_value(d[2 * k] as int) == nibble(a, 2 * k));
        assert(is_hex_code(d[2 * k + 1] as int) && hex_code_value(d[2 * k + 1] as int) == nibble(a, 2 * k + 1));
        assert((2 * k) % 2 == 0 && (2 * k) / 2 == k) by (nonlinear_arith);
        assert((2 * k + 1) % 2 == 1 && (2 * k + 1) / 2 == k) by (nonlinear_arith);
        assert(byte_of_digits(d[2 * k], d[2 * k + 1]) == a[k]);
    }
    assert(decode_pairs(d) =~= a);
}

/// Appends the bytes of an ASCII string.
fn push_ascii(out: &mut Vec<u8>, s: &String)
    requires
        is_ascii_chars(s@),
    ensures
        final(out)@ == old(out)@ + ascii_bytes(s@),
{
    let b = s.as_str().as_bytes();
    proof {
        is_ascii_chars_encode_utf8(s@);
    }
    assert(b@ =~= ascii_bytes(s@));
    let mut i: usize = 0;
    let ghost start = out@;
    while i < b.len()
        invariant
            i <= b@.len(),
            out@ == start + b@.subrange(0, i as int),
        decreases b.len() - i,
    {
        out.push(b[i]);
        i += 1;
        assert(out@ =~= start + b@.subrange(0, i as int));
    }
    assert(b@.subrange(0, b@.len() as int) =~= b@);
}

/// The line that records a finding; read back with `parse_finding`, it gives
/// the same salt and address.
pub fn format_finding(f: &Finding) -> (r: Vec<u8>)
    ensures
        r@ == finding_line(f.salt@, f.address@),
        parsed_line(r@) == Some((f.salt@, f.address@)),
{
    let salt_text = encode_salt(&f.salt);
    let address_text = checksum_text(&f.address);
    proof {
        lemma_hex_lower_ascii(f.salt@);
        let t = address_text@;
        assert forall|i: int| 0 <= i < t.len() implies '\0' <= #[trigger] t[i] <= '\u{7f}' by {
            if i >= 2 {
                assert(is_hex_code(t[2 + (i - 2)] as int));
            }
        }
    }
    let mut line: Vec<u8> = Vec::new();
    line.push(48u8);
    line.push(120u8);
    push_ascii(&mut line, &salt_text);
    line.push(32u8);
    line.push(45u8);
    line.push(62u8);
    line.push(32u8);
    push_ascii(&mut line, &address_text);
    assert(line@ =~= finding_line(f.salt@, f.address@));
    proof {
        let l = line@;
        let sd = l.subrange(2, 66);
        let ad = l.subrange(72, 112);
        assert(sd =~= ascii_bytes(hex_lower(f.salt@)));
        assert(ad =~= ascii_bytes(checksum_of(f.address@)).subrange(2, 42));
        let t = checksum_of(f.address@);
        assert forall|i: int| 0 <= i < sd.len() implies is_hex_code(#[trigger] sd[i] as int)
            && hex_code_value(sd[i] as int) == nibble(f.salt@, i) by {
            assert(sd[i] == hex_lower(f.salt@)[i] as u8);
        }
        lemma_decode_nibbles(sd, f.salt@);
        assert forall|i: int| 0 <= i < ad.len() implies is_hex_code(#[trigger] ad[i] as int)
            && hex_code_value(ad[i] as int) == nibble(f.address@, i) by {
            assert(ad[i] == t[2 + i] as u8);
        }
        lemma_decode_nibbles(ad, f.address@);
    }
    line
}

/// Reads a finding line back: `Some` exactly when the line has the form that
/// `format_finding` writes (either case of hex digits).
pub fn parse_finding(line: &[u8]) -> (r: Option<Finding>)
    ensures
        match r {
            Some(f) => parsed_line(line@) == Some((f.salt@, f.address@)),
            None => parsed_line(line@) is None,
        },
{
    if line.len() != LINE_LEN {
        return None;
    }
    if !(line[0] == 48 && line[1] == 120 && line[66] == 32 && line[67] == 45 && line[68] == 62
        && line[69] == 32 && line[70] == 48 && line[71] == 120) {
        return None;
    }
    let salt_digits = copy_range(line, 2, 66);
    let address_digits = copy_range(line, 72, 112);
    if !is_all_hex(salt_digits.as_slice()) || !is_all_hex(address_digits.as_slice()) {
        return None;
    }
    let salt_bytes = decode_digit_pairs(salt_digits.as_slice());
    let address_bytes = decode_digit_pairs(address_digits.as_slice());
    let mut salt = [0u8; 32];
    let mut i: usize = 0;
    while i < 32
        invariant
            salt_bytes@.len() == 32,
            i <= 32,
            forall|j: int| 0 <= j < i ==> #[trigger] salt@[j] == salt_bytes@[j],
        decreases 32 - i,
    {
        salt[i] = salt_bytes[i];
        i += 1;
    }
    let mut address = [0u8; 20];
    let mut k: usize = 0;
    while k < 20
        invariant
            address_bytes@.len() == 20,
            k <= 20,
            forall|j: int| 0 <= j < k ==> #[trigger] address@[j] == address_bytes@[j],
        decreases 20 - k,
    {
        address[k] = address_bytes[k];
        k += 1;
    }
    assert(salt@ =~= salt_bytes@);
    assert(address@ =~= address_bytes@);
    Some(Finding { salt, address })
}

/// Decimal digits of `n`, most significant first.
pub open spec fn decimal(n: nat) -> Seq<u8>
    decreases n,
{
    if n < 10 {
        seq![(48 + n) as u8]
    } else {
        decimal(n / 10).push((48 + n % 10) as u8)
    }
}

/// The header of a result file: what is searched for (the pattern, for a
/// pattern reward), the line format, and the start time in Unix seconds.
pub open spec fn header_text(reward: RewardVariant, started_secs: u64) -> Seq<u8> {
    let title = "# Mining for addresses matching pattern"@;
    let what = match reward {
        RewardVariant::Matching { pattern } => ascii_bytes(title) + seq![32u8] + text_bytes(pattern@),
        _ => ascii_bytes(title),
    };
    what + seq![10u8] + ascii_bytes("# Format: salt -> ethereum_address"@) + seq![10u8] + ascii_bytes(
        "# Started: "@,
    ) + decimal(started_secs as nat) + seq![10u8, 10u8]
}

/// Appends the decimal digits of `n`.
fn push_decimal(out: &mut Vec<u8>, n: u64)
    ensures
        final(out)@ == old(out)@ + decimal(n as nat),
    decreases n,
{
    if n >= 10 {
        push_decimal(out, n / 10);
    }
    out.push((48 + n % 10) as u8);
    assert(final(out)@ =~= old(out)@ + decimal(n as nat));
}

/// Appends the bytes of a text.
fn push_text(out: &mut Vec<u8>, s: &str)
    ensures
        final(out)@ == old(out)@ + text_bytes(s@),
{
    let b = s.as_bytes();
    let ghost start = out@;
    let mut i: usize = 0;
    while i < b.len()
        invariant
            b@ == text_bytes(s@),
            i <= b@.len(),
            out@ == start + b@.subrange(0, i as int),
        decreases b.len() - i,
    {
        out.push(b[i]);
        i += 1;
        assert(out@ =~= start + b@.subrange(0, i as int));
    }
    assert(b@.subrange(0, b@.len() as int) =~= b@);
}

proof fn lemma_ascii_text(s: &str)
    requires
        is_ascii_chars(s@),
    ensures
        text_bytes(s@) == ascii_bytes(s@),
{
    is_ascii_chars_encode_utf8(s@);
    assert(text_bytes(s@) =~= ascii_bytes(s@));
}

/// The header written at the top of a result file when a run begins.
pub fn sink_header(reward: &RewardVariant, started_secs: u64) -> (r: Vec<u8>)
    ensures
        r@ == header_text(*reward, started_secs),
{
    let title = "# Mining for addresses matching pattern";
    let format_line = "# Format: salt -> ethereum_address";
    let started = "# Started: ";
    proof {
        reveal_strlit("# Mining for addresses matching pattern");
        reveal_strlit("# Format: salt -> ethereum_address");
        reveal_strlit("# Started: ");
        lemma_ascii_text(title);
        lemma_ascii_text(format_line);
        lemma_ascii_text(started);
    }
    let mut out: Vec<u8> = Vec::new();
    push_text(&mut out, title);
    match reward {
        RewardVariant::Matching { pattern } => {
            out.push(32u8);
            push_text(&mut out, pattern.as_str());
        },
        _ => {},
    }
    out.push(10u8);
    push_text(&mut out, format_line);
    out.push(10u8);
    push_text(&mut out, started);
    push_decimal(&mut out, started_secs);
    out.push(10u8);
    out.push(10u8);
    assert(out@ =~= header_text(*reward, started_secs));
    out
}

} // verus!
