//! The `application/x-www-form-urlencoded` text of a URL's query: how a value is written
//! into it and read back out of it.
use vstd::prelude::*;
use vstd::utf8::{decode_utf8, encode_utf8, encode_utf8_decode_utf8};

verus! {

/// The bytes that form encoding writes as they are: ASCII letters, digits, `*`, `-`, `.`
/// and `_`.
pub open spec fn form_unchanged(b: u8) -> bool {
    ||| b == 0x2a
    ||| b == 0x2d
    ||| b == 0x2e
    ||| 0x30 <= b <= 0x39
    ||| 0x41 <= b <= 0x5a
    ||| b == 0x5f
    ||| 0x61 <= b <= 0x7a
}

/// The upper-case hexadecimal digit of `n`, for `n` below 16.
pub open spec fn hex_digit(n: u8) -> char {
    if n < 10 {
        (0x30 + n) as u8 as char
    } else {
        (0x37 + n) as u8 as char
    }
}

/// One byte, form encoded: itself when it is kept, `+` for a space, else `%` and its two
/// upper-case hexadecimal digits.
pub open spec fn form_encode_byte(b: u8) -> Seq<char> {
    if form_unchanged(b) {
        seq![b as char]
    } else if b == 0x20 {
        seq!['+']
    } else {
        seq!['%', hex_digit(b / 16), hex_digit(b % 16)]
    }
}

/// The bytes `bs`, form encoded one after the other.
pub open spec fn form_encode(bs: Seq<u8>) -> Seq<char>
    decreases bs.len(),
{
    if bs.len() == 0 {
        seq![]
    } else {
        form_encode_byte(bs[0]) + form_encode(bs.drop_first())
    }
}

/// A hexadecimal digit, in either case.
pub open spec fn is_hex_char(c: char) -> bool {
    ('0' <= c <= '9') || ('A' <= c <= 'F') || ('a' <= c <= 'f')
}

/// The value of a hexadecimal digit.
pub open spec fn hex_value(c: char) -> int {
    if '0' <= c <= '9' {
        c as int - 0x30
    } else if 'A' <= c <= 'F' {
        c as int - 0x37
    } else {
        c as int - 0x57
    }
}

/// The bytes that form decoding reads from the text `s`: `+` is a space, `%` with two
/// hexadecimal digits is the byte they spell, and every other character stands for its
/// UTF-8 bytes.
pub open spec fn form_decode(s: Seq<char>) -> Seq<u8>
    decreases s.len(),
{
    if s.len() == 0 {
        seq![]
    } else if s[0] == '%' && s.len() >= 3 && is_hex_char(s[1]) && is_hex_char(s[2]) {
        seq![(hex_value(s[1]) * 16 + hex_value(s[2])) as u8] + form_decode(s.skip(3))
    } else if s[0] == '+' {
        seq![0x20u8] + form_decode(s.drop_first())
    } else {
        encode_utf8(seq![s[0]]) + form_decode(s.drop_first())
    }
}

/// The separators of a query (`&` between pairs, `=` between name and value, `#` before
/// the fragment) do not occur in `s`.
pub open spec fn free_of_query_separators(s: Seq<char>) -> bool {
    forall|i: int| 0 <= i < s.len() ==> #[trigger] s[i] != '&' && s[i] != '=' && s[i] != '#'
}

proof fn lemma_ascii_char_utf8(b: u8)
    requires
        b < 0x80,
    ensures
        encode_utf8(seq![b as char]) == seq![b],
{
    let c = b as char;
    assert(c as u32 == b as u32);
    assert(((b as u32) & 0x7F) as u8 == b) by (bit_vector)
        requires
            b < 0x80,
    ;
    assert(seq![c].drop_first() =~= Seq::<char>::empty());
    assert(encode_utf8(Seq::<char>::empty()) == Seq::<u8>::empty());
    assert(encode_utf8(seq![c]) =~= seq![b]);
}

proof fn lemma_hex_digit(n: u8)
    requires
        n < 16,
    ensures
        is_hex_char(hex_digit(n)),
        hex_value(hex_digit(n)) == n,
        hex_digit(n) != '&' && hex_digit(n) != '=' && hex_digit(n) != '#',
{
}

/// Decoding reads one encoded byte back, whatever text follows it.
proof fn lemma_decode_encoded_byte(b: u8, rest: Seq<char>)
    ensures
        form_decode(form_encode_byte(b) + rest) == seq![b] + form_decode(rest),
{
    let e = form_encode_byte(b);
    let s = e + rest;
    if form_unchanged(b) {
        assert(s[0] == b as char);
        assert(s.drop_first() =~= rest);
        lemma_ascii_char_utf8(b);
    } else if b == 0x20 {
        assert(s[0] == '+');
        assert(s.drop_first() =~= rest);
    } else {
        lemma_hex_digit(b / 16);
        lemma_hex_digit(b % 16);
        assert(s[0] == '%' && s[1] == hex_digit(b / 16) && s[2] == hex_digit(b % 16));
        assert(s.skip(3) =~= rest);
        assert((hex_value(s[1]) * 16 + hex_value(s[2])) as u8 == b);
    }
}

/// Text made of ASCII letters and digits, which form encoding writes as it is.
pub open spec fn is_plain_ascii(s: Seq<char>) -> bool {
    forall|i: int| 0 <= i < s.len() ==> {
        let c = #[trigger] s[i];
        ('a' <= c <= 'z') || ('A' <= c <= 'Z') || ('0' <= c <= '9')
    }
}

/// Form encoding leaves plain ASCII text as it is.
pub proof fn lemma_form_encode_plain(s: Seq<char>)
    requires
        is_plain_ascii(s),
    ensures
        form_encode(encode_utf8(s)) == s,
    decreases s.len(),
{
    if s.len() > 0 {
        let rest = s.drop_first();
        assert(is_plain_ascii(rest)) by {
            assert forall|i: int| 0 <= i < rest.len() implies {
                let c = #[trigger] rest[i];
                ('a' <= c <= 'z') || ('A' <= c <= 'Z') || ('0' <= c <= '9')
            } by {
                assert(rest[i] == s[i + 1]);
            }
        }
        lemma_form_encode_plain(rest);
        let c = s[0];
        assert(('a' <= c <= 'z') || ('A' <= c <= 'Z') || ('0' <= c <= '9'));
        let b = c as u32 as u8;
        assert(b as char == c);
        lemma_ascii_char_utf8(b);
        let t = encode_utf8(rest);
        assert(encode_utf8(s) == encode_utf8(seq![c]) + t) by {
            assert(seq![c].drop_first() =~= Seq::<char>::empty());
            assert(encode_utf8(Seq::<char>::empty()) == Seq::<u8>::empty());
        }
        let bs = seq![b] + t;
        assert(bs[0] == b);
        assert(bs.drop_first() =~= t);
        assert(form_unchanged(b));
        assert(form_encode(bs) == seq![c] + rest);
        assert(seq![c] + rest =~= s);
    }
}

/// Form decoding gives back exactly the bytes that were form encoded.
pub proof fn lemma_form_decode_encode(bs: Seq<u8>)
    ensures
        form_decode(form_encode(bs)) == bs,
    decreases bs.len(),
{
    if bs.len() > 0 {
        lemma_form_decode_encode(bs.drop_first());
        lemma_decode_encoded_byte(bs[0], form_encode(bs.drop_first()));
        assert(seq![bs[0]] + bs.drop_first() =~= bs);
    }
}

/// Form encoded text holds none of the query's separators, so an encoded value is read as
/// one value.
pub proof fn lemma_form_encode_free_of_separators(bs: Seq<u8>)
    ensures
        free_of_query_separators(form_encode(bs)),
    decreases bs.len(),
{
    if bs.len() > 0 {
        lemma_form_encode_free_of_separators(bs.drop_first());
        let b = bs[0];
        let e = form_encode_byte(b);
        if !form_unchanged(b) && b != 0x20 {
            lemma_hex_digit(b / 16);
            lemma_hex_digit(b % 16);
        }
        assert(free_of_query_separators(e));
        let t = form_encode(bs.drop_first());
        assert forall|i: int| 0 <= i < (e + t).len() implies #[trigger] (e + t)[i] != '&' && (e
            + t)[i] != '=' && (e + t)[i] != '#' by {
            if i < e.len() {
                assert((e + t)[i] == e[i]);
            } else {
                assert((e + t)[i] == t[i - e.len()]);
            }
        }
    }
}

/// A text value written into a query as form encoded UTF-8 reads back as itself: the
/// encoded value holds no `&`, `=` or `#`, so it stays one value of one pair, and decoding
/// it gives its bytes, and so its text, back.
pub proof fn lemma_form_value_reads_back(v: Seq<char>)
    ensures
        free_of_query_separators(form_encode(encode_utf8(v))),
        form_decode(form_encode(encode_utf8(v))) == encode_utf8(v),
        decode_utf8(form_decode(form_encode(encode_utf8(v)))) == v,
{
    lemma_form_encode_free_of_separators(encode_utf8(v));
    lemma_form_decode_encode(encode_utf8(v));
    encode_utf8_decode_utf8(v);
}

} // verus!
