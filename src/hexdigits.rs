use vstd::prelude::*;

verus! {

/// Whether the character code `c` is an ASCII hexadecimal digit (either case).
pub open spec fn is_hex_code(c: int) -> bool {
    (48 <= c <= 57) || (97 <= c <= 102) || (65 <= c <= 70)
}

/// The value of the hexadecimal digit with code `c`.
pub open spec fn hex_code_value(c: int) -> int {
    if 48 <= c <= 57 {
        c - 48
    } else if 97 <= c <= 102 {
        c - 87
    } else {
        c - 55
    }
}

/// Every byte of `s` is a hexadecimal digit.
pub open spec fn all_hex(s: Seq<u8>) -> bool {
    forall|i: int| 0 <= i < s.len() ==> is_hex_code(#[trigger] s[i] as int)
}

/// The byte written by the two hexadecimal digits `hi` and `lo`.
pub open spec fn byte_of_digits(hi: u8, lo: u8) -> u8 {
    (16 * hex_code_value(hi as int) + hex_code_value(lo as int)) as u8
}

/// The bytes that a run of hexadecimal digit pairs denotes.
pub open spec fn decode_pairs(h: Seq<u8>) -> Seq<u8> {
    Seq::new(h.len() / 2, |i: int| byte_of_digits(h[2 * i], h[2 * i + 1]))
}

/// The lower-case digit for a nibble.
pub open spec fn lower_digit(n: int) -> char {
    if n < 10 {
        (48 + n) as char
    } else {
        (87 + n) as char
    }
}

/// Lower-case hexadecimal text of a byte string, two digits per byte.
pub open spec fn hex_lower(b: Seq<u8>) -> Seq<char> {
    Seq::new(
        2 * b.len(),
        |i: int|
            if i % 2 == 0 {
                lower_digit(b[i / 2] as int / 16)
            } else {
                lower_digit(b[i / 2] as int % 16)
            },
    )
}

/// The value of one hexadecimal digit byte, or `None` for any other byte.
pub fn hex_digit_value(c: u8) -> (r: Option<u8>)
    ensures
        r is Some <==> is_hex_code(c as int),
        r is Some ==> r->0 as int == hex_code_value(c as int) && r->0 < 16,
{
    if 48 <= c && c <= 57 {
        Some(c - 48)
    } else if 97 <= c && c <= 102 {
        Some(c - 87)
    } else if 65 <= c && c <= 70 {
        Some(c - 55)
    } else {
        None
    }
}

/// Whether every byte of `s` is a hexadecimal digit.
pub fn is_all_hex(s: &[u8]) -> (r: bool)
    ensures
        r == all_hex(s@),
{
    let mut i: usize = 0;
    while i < s.len()
        invariant
            i <= s.len(),
            forall|j: int| 0 <= j < i ==> is_hex_code(#[trigger] s@[j] as int),
        decreases s.len() - i,
    {
        if hex_digit_value(s[i]).is_none() {
            return false;
        }
        i += 1;
    }
    true
}

/// Decodes a run of hexadecimal digit pairs.
pub fn decode_digit_pairs(h: &[u8]) -> (r: Vec<u8>)
    requires
        all_hex(h@),
        h@.len() % 2 == 0,
    ensures
        r@ == decode_pairs(h@),
{
    let mut out: Vec<u8> = Vec::new();
    let mut i: usize = 0;
    let len: usize = h.len();
    let n: usize = len / 2;
    while i < n
        invariant
            len == h@.len(),
            n == h@.len() / 2,
            h@.len() % 2 == 0,
            all_hex(h@),
            i <= n,
            out@.len() == i,
            forall|j: int| 0 <= j < i ==> out@[j] == byte_of_digits(h@[2 * j], h@[2 * j + 1]),
        decreases n - i,
    {
        let hi = hex_digit_value(h[2 * i]).unwrap();
        let lo = hex_digit_value(h[2 * i + 1]).unwrap();
        out.push(16 * hi + lo);
        i += 1;
    }
    assert(out@ =~= decode_pairs(h@));
    out
}

} // verus!
