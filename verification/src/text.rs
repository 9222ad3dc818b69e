//! Decimal and hexadecimal rendering of integers for messages.
use vstd::prelude::*;

verus! {

/// Decimal digits of `v`, most significant first, without leading zeros
/// (`"0"` for zero).
pub open spec fn spec_decimal(v: nat) -> Seq<char>
    decreases v,
{
    if v < 10 {
        seq![spec_digit(v)]
    } else {
        spec_decimal(v / 10) + seq![spec_digit(v % 10)]
    }
}

/// The character of a digit below ten.
pub open spec fn spec_digit(d: nat) -> char {
    if d == 0 {
        '0'
    } else if d == 1 {
        '1'
    } else if d == 2 {
        '2'
    } else if d == 3 {
        '3'
    } else if d == 4 {
        '4'
    } else if d == 5 {
        '5'
    } else if d == 6 {
        '6'
    } else if d == 7 {
        '7'
    } else if d == 8 {
        '8'
    } else {
        '9'
    }
}

/// The decimal digits of `v`, most significant first.
pub(crate) fn decimal_string(v: u64) -> (r: String)
    ensures
        r@ == spec_decimal(v as nat),
    decreases v,
{
    let digits = "0123456789";
    proof {
        reveal_strlit("0123456789");
    }
    let d = (v % 10) as usize;
    let one = digits.substring_char(d, d + 1);
    assert(one@ =~= seq![digits@[d as int]]);
    assert(digits@[d as int] == spec_digit(d as nat)) by {
        assert(digits@ =~= seq!['0', '1', '2', '3', '4', '5', '6', '7', '8', '9']);
    }
    let mut s = if v < 10 {
        String::new()
    } else {
        decimal_string(v / 10)
    };
    s.append(one);
    proof {
        if v < 10 {
            assert(s@ =~= spec_decimal(v as nat));
        } else {
            assert(s@ =~= spec_decimal(v as nat));
        }
    }
    s
}

/// `"[a, b, ...]"` with each byte in decimal: how `Debug` lists bytes.
pub open spec fn spec_byte_list(b: Seq<u8>) -> Seq<char>
    decreases b.len(),
{
    if b.len() == 0 {
        "[]"@
    } else {
        seq!['['] + spec_byte_items(b) + seq![']']
    }
}

/// The decimal bytes of `b`, separated by `", "`.
pub open spec fn spec_byte_items(b: Seq<u8>) -> Seq<char>
    decreases b.len(),
{
    if b.len() <= 1 {
        if b.len() == 0 {
            Seq::empty()
        } else {
            spec_decimal(b[0] as nat)
        }
    } else {
        spec_byte_items(b.drop_last()) + ", "@ + spec_decimal(b.last() as nat)
    }
}

/// Renders `b` as `Debug` lists bytes.
pub fn byte_list(b: &[u8]) -> (r: String)
    ensures
        r@ == spec_byte_list(b@),
{
    let mut out = String::from_str("[");
    let mut i: usize = 0;
    proof {
        reveal_strlit("[");
        reveal_strlit(", ");
        reveal_strlit("]");
        reveal_strlit("[]");
    }
    while i < b.len()
        invariant
            i <= b@.len(),
            out@ == seq!['['] + spec_byte_items(b@.subrange(0, i as int)),
        decreases b@.len() - i,
    {
        if i > 0 {
            out.append(", ");
        }
        let d = decimal_string(b[i] as u64);
        out.append(d.as_str());
        proof {
            let p = b@.subrange(0, i + 1);
            assert(p.drop_last() =~= b@.subrange(0, i as int));
            assert(p.last() == b@[i as int]);
            if i == 0 {
                assert(p.len() == 1);
            }
        }
        i = i + 1;
        assert(out@ =~= seq!['['] + spec_byte_items(b@.subrange(0, i as int)));
    }
    out.append("]");
    assert(b@.subrange(0, b@.len() as int) =~= b@);
    if b.len() == 0 {
        assert(out@ =~= "[]"@);
    }
    out
}

/// `needle` occurs in `hay` at byte `i`.
pub open spec fn spec_occurs_at(hay: Seq<u8>, needle: Seq<u8>, i: int) -> bool {
    0 <= i && i + needle.len() <= hay.len() && hay.subrange(i, i + needle.len()) == needle
}

/// `needle` occurs somewhere in `hay`.
pub open spec fn spec_contains_bytes(hay: Seq<u8>, needle: Seq<u8>) -> bool {
    exists|i: int| spec_occurs_at(hay, needle, i)
}

/// Whether `needle` occurs in `hay` at byte `i`.
fn occurs_at(hay: &[u8], needle: &[u8], i: usize) -> (r: bool)
    requires
        i + needle@.len() <= hay@.len(),
    ensures
        r == spec_occurs_at(hay@, needle@, i as int),
{
    let hl = hay.len();
    let mut j: usize = 0;
    while j < needle.len()
        invariant
            i + needle@.len() <= hay@.len(),
            hl == hay@.len(),
            j <= needle@.len(),
            forall|m: int| 0 <= m < j ==> hay@[i + m] == needle@[m],
        decreases needle@.len() - j,
    {
        if hay[i + j] != needle[j] {
            assert(hay@.subrange(i as int, i + needle@.len())[j as int] != needle@[j as int]);
            return false;
        }
        j = j + 1;
    }
    assert(hay@.subrange(i as int, i + needle@.len()) =~= needle@);
    true
}

/// Whether `needle` occurs in `hay`, compared byte by byte.
pub fn contains_bytes(hay: &[u8], needle: &[u8]) -> (r: bool)
    ensures
        r == spec_contains_bytes(hay@, needle@),
{
    if needle.len() > hay.len() {
        return false;
    }
    let last = hay.len() - needle.len();
    let mut i: usize = 0;
    while i < last
        invariant
            last == hay@.len() - needle@.len(),
            i <= last,
            forall|k: int| 0 <= k < i ==> !spec_occurs_at(hay@, needle@, k),
        decreases last - i,
    {
        if occurs_at(hay, needle, i) {
            return true;
        }
        i = i + 1;
    }
    occurs_at(hay, needle, last)
}

/// Whether `a` and `b` are the same text, compared through their UTF-8 bytes.
pub fn str_eq(a: &str, b: &str) -> (r: bool)
    ensures
        r == (a@ == b@),
{
    let x = a.as_bytes();
    let y = b.as_bytes();
    proof {
        vstd::utf8::encode_utf8_decode_utf8(a@);
        vstd::utf8::encode_utf8_decode_utf8(b@);
    }
    if x.len() != y.len() {
        return false;
    }
    let mut i: usize = 0;
    while i < x.len()
        invariant
            i <= x@.len(),
            x@.len() == y@.len(),
            x@ == vstd::utf8::encode_utf8(a@),
            y@ == vstd::utf8::encode_utf8(b@),
            forall|k: int| 0 <= k < i ==> x@[k] == y@[k],
        decreases x@.len() - i,
    {
        if x[i] != y[i] {
            return false;
        }
        i = i + 1;
    }
    assert(x@ =~= y@);
    assert(a@ == vstd::utf8::decode_utf8(x@));
    assert(b@ == vstd::utf8::decode_utf8(y@));
    true
}

/// The `n` lowest hexadecimal digits of `v`, most significant first.
pub open spec fn spec_hex_digits(v: nat, n: nat) -> Seq<char>
    decreases n,
{
    if n == 0 {
        Seq::empty()
    } else {
        spec_hex_digits(v / 16, (n - 1) as nat) + seq!["0123456789abcdef"@[(v % 16) as int]]
    }
}

/// `v` as `0x` and eight lowercase hexadecimal digits (`{:#010x}`).
pub open spec fn spec_hex_word(v: u32) -> Seq<char> {
    "0x"@ + spec_hex_digits(v as nat, 8)
}

pub fn hex_digits(v: u32, n: u32) -> (r: String)
    requires
        n <= 8,
    ensures
        r@ == spec_hex_digits(v as nat, n as nat),
    decreases n,
{
    if n == 0 {
        return String::new();
    }
    let mut s = hex_digits(v / 16, n - 1);
    let digits = "0123456789abcdef";
    proof {
        reveal_strlit("0123456789abcdef");
    }
    let d = (v % 16) as usize;
    let one = digits.substring_char(d, d + 1);
    assert(one@ =~= seq![digits@[d as int]]);
    s.append(one);
    s
}

/// `v` as `0x` and eight lowercase hexadecimal digits.
pub fn hex_word(v: u32) -> (r: String)
    ensures
        r@ == spec_hex_word(v),
{
    let mut s = String::from_str("0x");
    let digits = hex_digits(v, 8);
    s.append(digits.as_str());
    s
}

/// `v` as `0x` and four lowercase hexadecimal digits (`{:#06x}`).
pub open spec fn spec_hex_half(v: u16) -> Seq<char> {
    "0x"@ + spec_hex_digits(v as nat, 4)
}

/// `v` as `0x` and four lowercase hexadecimal digits (`{:#06x}`).
pub fn hex_half(v: u16) -> (r: String)
    ensures
        r@ == spec_hex_half(v),
{
    let mut s = String::from_str("0x");
    let digits = hex_digits(v as u32, 4);
    s.append(digits.as_str());
    s
}

} // verus!
