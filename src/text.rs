//! Character-sequence helpers shared by the request codecs.
use vstd::prelude::*;
use vstd::string::*;
use vstd::utf8::*;

verus! {

/// Whether `c` does not occur in `s`.
pub open spec fn free_of(s: Seq<char>, c: char) -> bool {
    forall|i: int| 0 <= i < s.len() ==> #[trigger] s[i] != c
}

/// The text strictly between a leading `open` and a trailing `close`,
/// where that text holds no `close`.
pub open spec fn enclosed(s: Seq<char>, open: char, close: char) -> Option<Seq<char>> {
    if s.len() >= 2 && s[0] == open && s.last() == close && free_of(
        s.subrange(1, s.len() - 1),
        close,
    ) {
        Some(s.subrange(1, s.len() - 1))
    } else {
        None
    }
}

/// `inner` with `open` before it and `close` after it.
pub open spec fn wrap(inner: Seq<char>, open: char, close: char) -> Seq<char> {
    seq![open] + inner + seq![close]
}

/// The pieces of `s` between occurrences of `sep`; always at least one piece.
pub open spec fn split_on(s: Seq<char>, sep: char) -> Seq<Seq<char>>
    decreases s.len(),
{
    if s.len() == 0 {
        seq![Seq::<char>::empty()]
    } else {
        let rest = split_on(s.drop_last(), sep);
        if s.last() == sep {
            rest.push(Seq::<char>::empty())
        } else {
            rest.update(rest.len() - 1, rest.last().push(s.last()))
        }
    }
}

/// The pieces written one after another with `sep` between neighbours.
pub open spec fn join(parts: Seq<Seq<char>>, sep: char) -> Seq<char>
    decreases parts.len(),
{
    if parts.len() == 0 {
        Seq::<char>::empty()
    } else if parts.len() == 1 {
        parts[0]
    } else {
        join(parts.drop_last(), sep).push(sep) + parts.last()
    }
}

/// The value of the last pair whose name is `key`.
pub open spec fn lookup(pairs: Seq<(Seq<char>, Seq<char>)>, key: Seq<char>) -> Option<Seq<char>>
    decreases pairs.len(),
{
    if pairs.len() == 0 {
        None
    } else if pairs.last().0 == key {
        Some(pairs.last().1)
    } else {
        lookup(pairs.drop_last(), key)
    }
}

/// Whether a byte is written as itself by percent-encoding.
pub open spec fn is_unreserved(b: u8) -> bool {
    (48 <= b && b <= 57) || (65 <= b && b <= 90) || (97 <= b && b <= 122) || b == 45 || b == 46
        || b == 95 || b == 126
}

/// The upper-case hexadecimal digit of `d < 16`.
pub open spec fn hex_digit(d: u8) -> char {
    if d == 0 {
        '0'
    } else if d == 1 {
        '1'
    } else if d == 2 {
        '2'
    } else if d == 3 {
        '3'
    } else if d == 4 {
        '4'
    } else if d == 5 {
        '5'
    } else if d == 6 {
        '6'
    } else if d == 7 {
        '7'
    } else if d == 8 {
        '8'
    } else if d == 9 {
        '9'
    } else if d == 10 {
        'A'
    } else if d == 11 {
        'B'
    } else if d == 12 {
        'C'
    } else if d == 13 {
        'D'
    } else if d == 14 {
        'E'
    } else {
        'F'
    }
}

/// Percent-encoding of one byte: an unreserved byte stands for itself, any
/// other becomes `%` and two upper-case hexadecimal digits.
pub open spec fn percent_encode_byte(b: u8) -> Seq<char> {
    if is_unreserved(b) {
        seq![b as char]
    } else {
        seq!['%', hex_digit(b / 16), hex_digit(b % 16)]
    }
}

/// Percent-encoding of bytes, byte by byte.
pub open spec fn percent_encode(bytes: Seq<u8>) -> Seq<char>
    decreases bytes.len(),
{
    if bytes.len() == 0 {
        Seq::<char>::empty()
    } else {
        percent_encode_byte(bytes[0]) + percent_encode(bytes.drop_first())
    }
}

/// Whether `c` is a hexadecimal digit.
pub open spec fn is_hex_char(c: char) -> bool {
    ('0' <= c && c <= '9') || ('A' <= c && c <= 'F') || ('a' <= c && c <= 'f')
}

/// The value of a hexadecimal digit.
pub open spec fn hex_value(c: char) -> int {
    if '0' <= c && c <= '9' {
        c as int - '0' as int
    } else if 'A' <= c && c <= 'F' {
        c as int - 'A' as int + 10
    } else {
        c as int - 'a' as int + 10
    }
}

/// Form decoding of text to bytes: `%` and two hexadecimal digits is the byte
/// they denote, `+` is a space, and any other character stands for its UTF-8
/// bytes.
pub open spec fn percent_decode(s: Seq<char>) -> Seq<u8>
    decreases s.len(),
{
    if s.len() == 0 {
        Seq::<u8>::empty()
    } else if s.len() >= 3 && s[0] == '%' && is_hex_char(s[1]) && is_hex_char(s[2]) {
        seq![(hex_value(s[1]) * 16 + hex_value(s[2])) as u8] + percent_decode(s.subrange(3, s.len() as int))
    } else if s[0] == '+' {
        seq![32u8] + percent_decode(s.drop_first())
    } else {
        encode_utf8(seq![s[0]]) + percent_decode(s.drop_first())
    }
}

/// The text that form decoding makes of a query value.
pub open spec fn form_decoded(s: Seq<char>) -> Seq<char> {
    decode_utf8(percent_decode(s))
}

/// Percent-encoding of the UTF-8 bytes of `s`.
pub open spec fn url_encoded(s: Seq<char>) -> Seq<char> {
    percent_encode(encode_utf8(s))
}

/// Relies on `urlencoding::encode`: every byte of the UTF-8 text except ASCII
/// letters, digits and `-`, `.`, `_`, `~` is written as `%` and two
/// upper-case hexadecimal digits.
#[verifier::external_body]
pub(crate) fn percent_encoded(s: &str) -> (r: String)
    ensures
        r@ == url_encoded(s@),
{
    urlencoding::encode(s).into_owned()
}

/// The UTF-8 bytes of joined text are the joined bytes.
pub proof fn lemma_encode_utf8_append(a: Seq<char>, b: Seq<char>)
    ensures
        encode_utf8(a + b) == encode_utf8(a) + encode_utf8(b),
    decreases a.len(),
{
    if a.len() == 0 {
        assert(a + b =~= b);
        assert(encode_utf8(a) + encode_utf8(b) =~= encode_utf8(b));
    } else {
        assert((a + b).drop_first() =~= a.drop_first() + b);
        assert((a + b)[0] == a[0]);
        lemma_encode_utf8_append(a.drop_first(), b);
        assert(encode_utf8(a + b) =~= encode_utf8(a) + encode_utf8(b));
    }
}

/// The UTF-8 bytes of one character are those of its scalar value.
pub proof fn lemma_encode_single(c: char)
    ensures
        encode_utf8(seq![c]) == encode_scalar(c as u32),
{
    let one = seq![c];
    assert(one[0] == c);
    assert(one.drop_first() =~= Seq::<char>::empty());
    assert(encode_utf8(Seq::<char>::empty()) =~= Seq::<u8>::empty());
    assert(encode_utf8(one) == encode_scalar(c as u32) + encode_utf8(one.drop_first()));
    assert(encode_scalar(c as u32) + Seq::<u8>::empty() =~= encode_scalar(c as u32));
}

/// An ASCII character is its own single UTF-8 byte.
pub proof fn lemma_ascii_utf8(c: char)
    requires
        (c as u32) < 128,
    ensures
        encode_utf8(seq![c]) == seq![c as u32 as u8],
{
    let v = c as u32;
    assert((v & 0x7F) == v) by (bit_vector)
        requires
            v < 128,
    ;
    lemma_encode_single(c);
    assert(encode_utf8(seq![c]) =~= seq![c as u32 as u8]);
}

/// A hexadecimal digit reads back as its value.
pub proof fn lemma_hex_digit(d: u8)
    requires
        d < 16,
    ensures
        is_hex_char(hex_digit(d)),
        hex_value(hex_digit(d)) == d,
{
}

/// Decoding percent-encoded bytes followed by more text gives back the bytes,
/// then the decoding of the rest.
pub proof fn lemma_percent_decode_encoded(b: Seq<u8>, y: Seq<char>)
    ensures
        percent_decode(percent_encode(b) + y) == b + percent_decode(y),
    decreases b.len(),
{
    if b.len() == 0 {
        assert(percent_encode(b) + y =~= y);
        assert(b + percent_decode(y) =~= percent_decode(y));
    } else {
        let b0 = b[0];
        let e = percent_encode_byte(b0);
        let x = percent_encode(b.drop_first()) + y;
        let t = percent_encode(b) + y;
        assert(t =~= e + x);
        lemma_percent_decode_encoded(b.drop_first(), y);
        if is_unreserved(b0) {
            let c = b0 as char;
            assert(c as u32 == b0 as u32);
            assert(t[0] == c);
            assert(c != '%' && c != '+');
            assert(t.drop_first() =~= x);
            lemma_ascii_utf8(c);
            assert(b =~= seq![b0] + b.drop_first());
            assert(percent_decode(t) =~= b + percent_decode(y));
        } else {
            lemma_hex_digit(b0 / 16);
            lemma_hex_digit(b0 % 16);
            assert(t[0] == '%' && t[1] == hex_digit(b0 / 16) && t[2] == hex_digit(b0 % 16));
            assert(t.subrange(3, t.len() as int) =~= x);
            assert((hex_value(t[1]) * 16 + hex_value(t[2])) as u8 == b0);
            assert(b =~= seq![b0] + b.drop_first());
            assert(percent_decode(t) =~= b + percent_decode(y));
        }
    }
}

/// Text without `%` or `+` decodes to its own UTF-8 bytes.
pub proof fn lemma_percent_decode_plain(s: Seq<char>, y: Seq<char>)
    requires
        free_of(s, '%'),
        free_of(s, '+'),
    ensures
        percent_decode(s + y) == encode_utf8(s) + percent_decode(y),
    decreases s.len(),
{
    if s.len() == 0 {
        assert(s + y =~= y);
        assert(encode_utf8(s) + percent_decode(y) =~= percent_decode(y));
    } else {
        let t = s + y;
        assert(t[0] == s[0]);
        assert(t.drop_first() =~= s.drop_first() + y);
        lemma_percent_decode_plain(s.drop_first(), y);
        lemma_encode_single(s[0]);
        assert(percent_decode(t) =~= encode_utf8(s) + percent_decode(y));
    }
}

/// Form decoding undoes percent-encoding.
pub proof fn lemma_form_decoded_url_encoded(s: Seq<char>)
    ensures
        form_decoded(url_encoded(s)) == s,
{
    lemma_percent_decode_encoded(encode_utf8(s), Seq::<char>::empty());
    assert(url_encoded(s) + Seq::<char>::empty() =~= url_encoded(s));
    assert(encode_utf8(s) + Seq::<u8>::empty() =~= encode_utf8(s));
    encode_utf8_decode_utf8(s);
}

/// Form decoding leaves text without `%` or `+` as it is.
pub proof fn lemma_form_decoded_plain(s: Seq<char>)
    requires
        free_of(s, '%'),
        free_of(s, '+'),
    ensures
        form_decoded(s) == s,
{
    lemma_percent_decode_plain(s, Seq::<char>::empty());
    assert(s + Seq::<char>::empty() =~= s);
    assert(encode_utf8(s) + Seq::<u8>::empty() =~= encode_utf8(s));
    encode_utf8_decode_utf8(s);
}

/// Percent-encoded text holds no `&`, `=`, `'` or `#`.
pub proof fn lemma_percent_encode_free(b: Seq<u8>, c: char)
    requires
        c == '&' || c == '=' || c == '\'' || c == '#',
    ensures
        free_of(percent_encode(b), c),
    decreases b.len(),
{
    if b.len() > 0 {
        lemma_percent_encode_free(b.drop_first(), c);
        let e = percent_encode_byte(b[0]);
        if !is_unreserved(b[0]) {
            lemma_hex_digit(b[0] / 16);
            lemma_hex_digit(b[0] % 16);
        } else {
            assert((b[0] as char) as u32 == b[0] as u32);
        }
        assert(free_of(e, c));
        let whole = percent_encode(b);
        assert(whole =~= e + percent_encode(b.drop_first()));
        assert forall|i: int| 0 <= i < whole.len() implies #[trigger] whole[i] != c by {
            if i >= e.len() {
                assert(whole[i] == percent_encode(b.drop_first())[i - e.len()]);
            }
        }
    }
}

/// Splitting the text of pieces joined around a separator that none of them
/// holds gives back the pieces.
pub proof fn lemma_split_join(parts: Seq<Seq<char>>, sep: char)
    requires
        parts.len() >= 1,
        forall|i: int| 0 <= i < parts.len() ==> free_of(#[trigger] parts[i], sep),
    ensures
        split_on(join(parts, sep), sep) == parts,
    decreases parts.len(),
{
    if parts.len() == 1 {
        lemma_split_free(Seq::<Seq<char>>::empty(), Seq::<char>::empty(), parts[0], sep, false);
        assert(seq![parts[0]] =~= parts);
    } else {
        let init = parts.drop_last();
        lemma_split_join(init, sep);
        let a = join(init, sep).push(sep);
        assert(a.drop_last() =~= join(init, sep));
        assert(split_on(a, sep) == init.push(Seq::<char>::empty()));
        lemma_split_free(init, a, parts.last(), sep, true);
        assert(init.push(parts.last()) =~= parts);
    }
}

/// Appending text free of the separator extends the last piece.
proof fn lemma_split_free(init: Seq<Seq<char>>, a: Seq<char>, b: Seq<char>, sep: char, sep_end: bool)
    requires
        free_of(b, sep),
        sep_end ==> split_on(a, sep) == init.push(Seq::<char>::empty()),
        !sep_end ==> a.len() == 0 && init.len() == 0,
    ensures
        split_on(a + b, sep) == init.push(b),
    decreases b.len(),
{
    if b.len() == 0 {
        assert(b =~= Seq::<char>::empty());
        assert(a + b =~= a);
        if !sep_end {
            assert(init.push(b) =~= seq![Seq::<char>::empty()]);
        }
    } else {
        let b0 = b.drop_last();
        lemma_split_free(init, a, b0, sep, sep_end);
        assert((a + b).drop_last() =~= a + b0);
        assert((a + b).last() == b.last());
        assert(b.last() != sep);
        assert(b0.push(b.last()) =~= b);
        assert(init.push(b0).last() == b0);
        assert(init.push(b0).update(init.len() as int, b0.push(b.last())) =~= init.push(b));
    }
}

/// A join of pieces that avoid `c`, with a separator other than `c`, avoids `c`.
pub proof fn lemma_join_free(parts: Seq<Seq<char>>, sep: char, c: char)
    requires
        sep != c,
        forall|i: int| 0 <= i < parts.len() ==> free_of(#[trigger] parts[i], c),
    ensures
        free_of(join(parts, sep), c),
    decreases parts.len(),
{
    if parts.len() > 1 {
        lemma_join_free(parts.drop_last(), sep, c);
        let j = join(parts.drop_last(), sep).push(sep) + parts.last();
        assert forall|i: int| 0 <= i < j.len() implies #[trigger] j[i] != c by {
            let l = join(parts.drop_last(), sep).len();
            if i > l {
                assert(j[i] == parts.last()[i - l - 1]);
            }
        }
    }
}

/// Whether `s` holds `c`.
pub fn contains_char(s: &str, c: char) -> (r: bool)
    ensures
        r == !free_of(s@, c),
{
    let n = s.unicode_len();
    let mut i: usize = 0;
    while i < n
        invariant
            n == s@.len(),
            i <= n,
            free_of(s@.subrange(0, i as int), c),
        decreases n - i,
    {
        if s.get_char(i) == c {
            return true;
        }
        assert forall|k: int| 0 <= k < i + 1 implies #[trigger] s@.subrange(0, i + 1)[k] != c by {
            if k < i {
                assert(s@.subrange(0, i + 1)[k] == s@.subrange(0, i as int)[k]);
            }
        }
        i = i + 1;
    }
    assert(s@.subrange(0, n as int) =~= s@);
    false
}

/// The text strictly between a leading `open` and a trailing `close`, when
/// that text holds no `close`.
pub fn strip_enclosing(s: &str, open: char, close: char) -> (r: Option<String>)
    ensures
        match r {
            Some(inner) => enclosed(s@, open, close) == Some(inner@),
            None => enclosed(s@, open, close) is None,
        },
{
    let n = s.unicode_len();
    if n < 2 || s.get_char(0) != open || s.get_char(n - 1) != close {
        return None;
    }
    let inner = s.substring_char(1, n - 1);
    if contains_char(inner, close) {
        return None;
    }
    Some(String::from_str(inner))
}

/// Splits `s` at every occurrence of `sep`.
pub fn split_at_char(s: &str, sep: char) -> (r: Vec<String>)
    ensures
        r@.map_values(|p: String| p@) == split_on(s@, sep),
{
    let n = s.unicode_len();
    let mut pieces: Vec<String> = Vec::new();
    let mut start: usize = 0;
    let mut i: usize = 0;
    assert(s@.subrange(0, 0) =~= Seq::<char>::empty());
    assert(pieces@.map_values(|p: String| p@).push(s@.subrange(0, 0)) =~= seq![
        Seq::<char>::empty(),
    ]);
    while i < n
        invariant
            n == s@.len(),
            start <= i <= n,
            pieces@.map_values(|p: String| p@).push(s@.subrange(start as int, i as int)) == split_on(
                s@.subrange(0, i as int),
                sep,
            ),
        decreases n - i,
    {
        let c = s.get_char(i);
        let ghost prev = s@.subrange(0, i as int);
        let ghost next = s@.subrange(0, i + 1);
        assert(next.drop_last() =~= prev);
        assert(next.last() == c);
        if c == sep {
            let piece = String::from_str(s.substring_char(start, i));
            pieces.push(piece);
            start = i + 1;
            assert(s@.subrange(start as int, i + 1) =~= Seq::<char>::empty());
        } else {
            assert(s@.subrange(start as int, i + 1) =~= s@.subrange(start as int, i as int).push(c));
        }
        assert(pieces@.map_values(|p: String| p@).push(s@.subrange(start as int, i + 1))
            =~= split_on(next, sep));
        i = i + 1;
    }
    let last = String::from_str(s.substring_char(start, n));
    pieces.push(last);
    assert(s@.subrange(0, n as int) =~= s@);
    assert(pieces@.map_values(|p: String| p@) =~= split_on(s@, sep));
    pieces
}

} // verus!
