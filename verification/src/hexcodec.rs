//! Lowercase hexadecimal rendering of byte strings, and the inverse
//! decoding, as used for content-hash keys and digest headers.

use vstd::prelude::*;

verus! {

/// The lowercase hexadecimal digit for a value below 16.
pub open spec fn spec_hex_digit(n: u8) -> char
    recommends
        n < 16,
{
    if n == 0 {
        '0'
    } else if n == 1 {
        '1'
    } else if n == 2 {
        '2'
    } else if n == 3 {
        '3'
    } else if n == 4 {
        '4'
    } else if n == 5 {
        '5'
    } else if n == 6 {
        '6'
    } else if n == 7 {
        '7'
    } else if n == 8 {
        '8'
    } else if n == 9 {
        '9'
    } else if n == 10 {
        'a'
    } else if n == 11 {
        'b'
    } else if n == 12 {
        'c'
    } else if n == 13 {
        'd'
    } else if n == 14 {
        'e'
    } else {
        'f'
    }
}

/// The lowercase hexadecimal rendering of a byte string: two digits per
/// byte, high nibble first.
pub open spec fn spec_hex(bytes: Seq<u8>) -> Seq<char>
    decreases bytes.len(),
{
    if bytes.len() == 0 {
        Seq::empty()
    } else {
        seq![
            spec_hex_digit(bytes.first() / 16),
            spec_hex_digit(bytes.first() % 16),
        ] + spec_hex(bytes.drop_first())
    }
}

pub proof fn lemma_spec_hex_len(bytes: Seq<u8>)
    ensures
        spec_hex(bytes).len() == 2 * bytes.len(),
    decreases bytes.len(),
{
    if bytes.len() != 0 {
        lemma_spec_hex_len(bytes.drop_first());
    }
}

/// One lowercase hexadecimal digit as a string slice.
pub(crate) fn hex_digit_str(n: u8) -> (r: &'static str)
    requires
        n < 16,
    ensures
        r@ == seq![spec_hex_digit(n)],
{
    proof {
        reveal_strlit("0");
        reveal_strlit("1");
        reveal_strlit("2");
        reveal_strlit("3");
        reveal_strlit("4");
        reveal_strlit("5");
        reveal_strlit("6");
        reveal_strlit("7");
        reveal_strlit("8");
        reveal_strlit("9");
        reveal_strlit("a");
        reveal_strlit("b");
        reveal_strlit("c");
        reveal_strlit("d");
        reveal_strlit("e");
        reveal_strlit("f");
    }
    let r: &'static str = if n == 0 {
        "0"
    } else if n == 1 {
        "1"
    } else if n == 2 {
        "2"
    } else if n == 3 {
        "3"
    } else if n == 4 {
        "4"
    } else if n == 5 {
        "5"
    } else if n == 6 {
        "6"
    } else if n == 7 {
        "7"
    } else if n == 8 {
        "8"
    } else if n == 9 {
        "9"
    } else if n == 10 {
        "a"
    } else if n == 11 {
        "b"
    } else if n == 12 {
        "c"
    } else if n == 13 {
        "d"
    } else if n == 14 {
        "e"
    } else {
        "f"
    };
    proof {
        assert(r@ =~= seq![spec_hex_digit(n)]);
    }
    r
}

/// The value of one hexadecimal digit, accepting either case, by its
/// character code: `0`-`9` are codes 48 to 57, `a`-`f` 97 to 102, and
/// `A`-`F` 65 to 70.
pub open spec fn spec_hex_val(c: char) -> Option<u8> {
    let n = c as u32;
    if 48 <= n && n <= 57 {
        Some((n - 48) as u8)
    } else if 97 <= n && n <= 102 {
        Some((n - 97 + 10) as u8)
    } else if 65 <= n && n <= 70 {
        Some((n - 65 + 10) as u8)
    } else {
        None
    }
}

/// Whether every character of `s` is a hexadecimal digit.
pub open spec fn spec_is_hex(s: Seq<char>) -> bool {
    forall|i: int| 0 <= i < s.len() ==> (#[trigger] spec_hex_val(s[i])) is Some
}

/// The bytes read from a hexadecimal rendering, two digits at a time.
pub open spec fn spec_hex_decode(s: Seq<char>) -> Seq<u8>
    recommends
        s.len() % 2 == 0,
        spec_is_hex(s),
    decreases s.len(),
{
    if s.len() < 2 {
        Seq::empty()
    } else {
        seq![
            ((spec_hex_val(s[0])->Some_0 as int) * 16 + spec_hex_val(s[1])->Some_0 as int) as u8,
        ] + spec_hex_decode(s.skip(2))
    }
}

/// The value of one hexadecimal digit, or `None` for any other character.
fn hex_val(c: char) -> (r: Option<u8>)
    ensures
        r == spec_hex_val(c),
        r matches Some(v) ==> v < 16,
{
    let n = c as u32;
    if 48 <= n && n <= 57 {
        Some((n - 48) as u8)
    } else if 97 <= n && n <= 102 {
        Some((n - 97 + 10) as u8)
    } else if 65 <= n && n <= 70 {
        Some((n - 65 + 10) as u8)
    } else {
        None
    }
}

/// Reads an even-length hexadecimal string back into bytes; `None` when
/// any character is not a hexadecimal digit.
pub fn hex_to_bytes(hex: &str) -> (r: Option<Vec<u8>>)
    requires
        hex@.len() % 2 == 0,
    ensures
        r is Some <==> spec_is_hex(hex@),
        r matches Some(v) ==> v@ == spec_hex_decode(hex@),
{
    let n = hex.unicode_len();
    let mut out: Vec<u8> = Vec::new();
    let mut i: usize = 0;
    proof {
        assert(hex@.skip(0) =~= hex@);
    }
    while i < n
        invariant
            n == hex@.len(),
            n % 2 == 0,
            i % 2 == 0,
            i <= n,
            forall|k: int| 0 <= k < i ==> (#[trigger] spec_hex_val(hex@[k])) is Some,
            spec_hex_decode(hex@) =~= out@ + spec_hex_decode(hex@.skip(i as int)),
        decreases n - i,
    {
        let hi = hex.get_char(i);
        let lo = hex.get_char(i + 1);
        let ghost rest = hex@.skip(i as int);
        proof {
            assert(rest[0] == hex@[i as int]);
            assert(rest[1] == hex@[i as int + 1]);
            assert(rest.skip(2) =~= hex@.skip(i as int + 2));
        }
        match (hex_val(hi), hex_val(lo)) {
            (Some(h), Some(l)) => {
                out.push(h * 16 + l);
            },
            _ => {
                proof {
                    assert(!spec_is_hex(hex@));
                }
                return None;
            },
        }
        i = i + 2;
    }
    proof {
        assert(hex@.skip(n as int) =~= Seq::<char>::empty());
        assert(out@ =~= spec_hex_decode(hex@));
    }
    Some(out)
}

/// Decoding halves the length: two digits make one byte.
pub proof fn lemma_hex_decode_len(s: Seq<char>)
    requires
        s.len() % 2 == 0,
    ensures
        spec_hex_decode(s).len() == s.len() / 2,
    decreases s.len(),
{
    if s.len() >= 2 {
        lemma_hex_decode_len(s.skip(2));
    }
}

/// The hexadecimal digit of a value below sixteen reads back as that value.
proof fn lemma_hex_digit_val(n: u8)
    requires
        n < 16,
    ensures
        spec_hex_val(spec_hex_digit(n)) == Some(n),
{
}

/// Decoding inverts encoding: the rendering of any byte string is made of
/// hexadecimal digits and reads back as the original bytes.
pub proof fn lemma_hex_roundtrip(bytes: Seq<u8>)
    ensures
        spec_hex(bytes).len() % 2 == 0,
        spec_is_hex(spec_hex(bytes)),
        spec_hex_decode(spec_hex(bytes)) =~= bytes,
    decreases bytes.len(),
{
    lemma_spec_hex_len(bytes);
    if bytes.len() == 0 {
    } else {
        lemma_hex_roundtrip(bytes.drop_first());
        let s = spec_hex(bytes);
        let b = bytes.first();
        lemma_hex_digit_val(b / 16);
        lemma_hex_digit_val(b % 16);
        assert(s[0] == spec_hex_digit(b / 16));
        assert(s[1] == spec_hex_digit(b % 16));
        assert(s.skip(2) =~= spec_hex(bytes.drop_first()));
        assert forall|i: int| 0 <= i < s.len() implies (#[trigger] spec_hex_val(s[i]))
            is Some by {
            if i >= 2 {
                assert(s[i] == spec_hex(bytes.drop_first())[i - 2]);
            }
        }
        assert((b / 16) as int * 16 + (b % 16) as int == b as int);
        assert(spec_hex_decode(s) =~= seq![b] + spec_hex_decode(s.skip(2)));
        assert(seq![b] + bytes.drop_first() =~= bytes);
    }
}

/// Renders a byte string as lowercase hexadecimal, two digits per byte.
pub fn bytes_to_hex(bytes: &[u8]) -> (r: String)
    ensures
        r@ == spec_hex(bytes@),
        r@.len() == 2 * bytes@.len(),
{
    let mut r = String::new();
    let n = bytes.len();
    proof {
        assert(bytes@.skip(0) =~= bytes@);
    }
    for i in 0..n
        invariant
            n == bytes@.len(),
            r@.len() == 2 * i,
            r@ + spec_hex(bytes@.skip(i as int)) =~= spec_hex(bytes@),
    {
        let b = bytes[i];
        proof {
            let rest = bytes@.skip(i as int);
            assert(rest.first() == bytes@[i as int]);
            assert(rest.drop_first() =~= bytes@.skip(i as int + 1));
        }
        r.append(hex_digit_str(b / 16));
        r.append(hex_digit_str(b % 16));
    }
    proof {
        assert(bytes@.skip(n as int) =~= Seq::<u8>::empty());
        assert(r@ + spec_hex(bytes@.skip(n as int)) =~= r@);
        lemma_spec_hex_len(bytes@);
    }
    r
}

} // verus!
