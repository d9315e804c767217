//! Verified text rendering: decimal and lowercase hexadecimal digit strings,
//! width padding, booleans, and bracketed hex dumps of byte sequences.

use vstd::prelude::*;
use vstd::slice::*;
use vstd::string::*;

verus! {

/// The lowercase hexadecimal digit character for `d`; for `d < 10` this is
/// also the decimal digit character.
pub open spec fn digit_char(d: int) -> char
    recommends
        0 <= d < 16,
{
    if d == 0 {
        '0'
    } else if d == 1 {
        '1'
    } else if d == 2 {
        '2'
    } else if d == 3 {
        '3'
    } else if d == 4 {
        '4'
    } else if d == 5 {
        '5'
    } else if d == 6 {
        '6'
    } else if d == 7 {
        '7'
    } else if d == 8 {
        '8'
    } else if d == 9 {
        '9'
    } else if d == 10 {
        'a'
    } else if d == 11 {
        'b'
    } else if d == 12 {
        'c'
    } else if d == 13 {
        'd'
    } else if d == 14 {
        'e'
    } else {
        'f'
    }
}

/// The decimal digit string of `n`, most significant digit first, with no
/// leading zeros (`0` itself is the single character `'0'`).
pub open spec fn dec_str(n: nat) -> Seq<char>
    decreases n,
{
    if n < 10 {
        seq![digit_char(n as int)]
    } else {
        dec_str(n / 10) + seq![digit_char((n % 10) as int)]
    }
}

/// The lowercase hexadecimal digit string of `n`, most significant digit
/// first, with no leading zeros and no `0x` prefix.
pub open spec fn hex_str(n: nat) -> Seq<char>
    decreases n,
{
    if n < 16 {
        seq![digit_char(n as int)]
    } else {
        hex_str(n / 16) + seq![digit_char((n % 16) as int)]
    }
}

/// The two-digit lowercase hexadecimal rendering of one byte, leading zero
/// kept.
pub open spec fn hex_pair(b: u8) -> Seq<char> {
    seq![digit_char(b as int / 16), digit_char(b as int % 16)]
}

/// The bytes of `s` as two-digit lowercase hex pairs, in byte order,
/// separated by a comma and a space.
pub open spec fn hex_pairs(s: Seq<u8>) -> Seq<char>
    decreases s.len(),
{
    if s.len() == 0 {
        Seq::empty()
    } else if s.len() == 1 {
        hex_pair(s[0])
    } else {
        hex_pairs(s.drop_last()) + ", "@ + hex_pair(s.last())
    }
}

/// The bracketed, comma-separated hex dump of `s`, as the debug formatter
/// prints a byte vector with two-digit lowercase hex elements.
pub open spec fn hex_dump(s: Seq<u8>) -> Seq<char> {
    "["@ + hex_pairs(s) + "]"@
}

/// `s` left-padded with spaces to a width of three characters; a longer
/// string is kept as it is.
pub open spec fn pad3(s: Seq<char>) -> Seq<char> {
    if s.len() >= 3 {
        s
    } else if s.len() == 2 {
        " "@ + s
    } else {
        "  "@ + s
    }
}

/// How a boolean is printed: `true` or `false`.
pub open spec fn bool_str(b: bool) -> Seq<char> {
    if b {
        "true"@
    } else {
        "false"@
    }
}

/// The single-character digit string for `d`, decimal and lowercase
/// hexadecimal alike.
pub fn digit_str(d: u8) -> (s: &'static str)
    requires
        d < 16,
    ensures
        s@ == seq![digit_char(d as int)],
{
    let s: &'static str = if d == 0 {
        "0"
    } else if d == 1 {
        "1"
    } else if d == 2 {
        "2"
    } else if d == 3 {
        "3"
    } else if d == 4 {
        "4"
    } else if d == 5 {
        "5"
    } else if d == 6 {
        "6"
    } else if d == 7 {
        "7"
    } else if d == 8 {
        "8"
    } else if d == 9 {
        "9"
    } else if d == 10 {
        "a"
    } else if d == 11 {
        "b"
    } else if d == 12 {
        "c"
    } else if d == 13 {
        "d"
    } else if d == 14 {
        "e"
    } else {
        "f"
    };
    proof {
        reveal_strlit("0");
        reveal_strlit("1");
        reveal_strlit("2");
        reveal_strlit("3");
        reveal_strlit("4");
        reveal_strlit("5");
        reveal_strlit("6");
        reveal_strlit("7");
        reveal_strlit("8");
        reveal_strlit("9");
        reveal_strlit("a");
        reveal_strlit("b");
        reveal_strlit("c");
        reveal_strlit("d");
        reveal_strlit("e");
        reveal_strlit("f");
        assert(s@ =~= seq![digit_char(d as int)]);
    }
    s
}

/// Renders `n` in decimal, most significant digit first, no leading zeros.
pub fn u64_to_dec(n: u64) -> (s: String)
    ensures
        s@ == dec_str(n as nat),
    decreases n,
{
    if n < 10 {
        String::from_str(digit_str(n as u8))
    } else {
        let mut s = u64_to_dec(n / 10);
        s.append(digit_str((n % 10) as u8));
        s
    }
}

/// Renders `n` in lowercase hexadecimal, most significant digit first, no
/// leading zeros and no `0x` prefix.
pub fn u32_to_hex(n: u32) -> (s: String)
    ensures
        s@ == hex_str(n as nat),
    decreases n,
{
    if n < 16 {
        String::from_str(digit_str(n as u8))
    } else {
        let mut s = u32_to_hex(n / 16);
        s.append(digit_str((n % 16) as u8));
        s
    }
}

/// How many characters the decimal rendering of a small number has.
pub proof fn lemma_dec_str_len(n: nat)
    ensures
        n < 10 ==> dec_str(n).len() == 1,
        10 <= n < 100 ==> dec_str(n).len() == 2,
        100 <= n < 1000 ==> dec_str(n).len() == 3,
{
    if 10 <= n < 100 {
        assert(dec_str(n / 10).len() == 1);
    }
    if 100 <= n < 1000 {
        assert(dec_str(n / 10 / 10).len() == 1);
        assert(dec_str(n / 10).len() == 2);
    }
}

/// Renders `n` in decimal, left-padded with spaces to three characters, as
/// a width-3 right-aligned format field does.
pub fn u8_to_dec_pad3(n: u8) -> (s: String)
    ensures
        s@ == pad3(dec_str(n as nat)),
{
    proof {
        lemma_dec_str_len(n as nat);
    }
    let digits = u64_to_dec(n as u64);
    if n >= 100 {
        digits
    } else if n >= 10 {
        let mut s = String::from_str(" ");
        s.append(digits.as_str());
        s
    } else {
        let mut s = String::from_str("  ");
        s.append(digits.as_str());
        s
    }
}

/// Renders a boolean as `true` or `false`.
pub fn render_bool(b: bool) -> (s: &'static str)
    ensures
        s@ == bool_str(b),
{
    if b {
        "true"
    } else {
        "false"
    }
}

/// Renders `data` as a bracketed, comma-separated sequence of two-digit
/// lowercase hex pairs, in byte order.
pub fn render_hex_dump(data: &[u8]) -> (s: String)
    ensures
        s@ == hex_dump(data@),
{
    let mut s = String::from_str("[");
    let mut i: usize = 0;
    while i < data.len()
        invariant
            i <= data@.len(),
            s@ == "["@ + hex_pairs(data@.take(i as int)),
        decreases data@.len() - i,
    {
        if i > 0 {
            s.append(", ");
        }
        let b = *slice_index_get(data, i);
        s.append(digit_str(b / 16));
        s.append(digit_str(b % 16));
        proof {
            let taken = data@.take(i + 1 as int);
            assert(taken.drop_last() =~= data@.take(i as int));
            assert(taken.last() == data@[i as int]);
            assert(hex_pair(b) =~= seq![digit_char(b as int / 16)] + seq![
                digit_char(b as int % 16),
            ]);
            assert(s@ =~= "["@ + hex_pairs(data@.take(i + 1 as int)));
        }
        i = i + 1;
    }
    proof {
        assert(data@.take(data@.len() as int) =~= data@);
    }
    s.append("]");
    s
}

} // verus!
