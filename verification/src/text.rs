//! Bytes and text.

use vstd::prelude::*;
use vstd::slice::slice_subrange;

verus! {

/// `core::str::from_utf8`: the bytes as a string slice if they are valid
/// UTF-8, None otherwise. Believed of it: it succeeds on exactly the valid
/// byte sequences, and the text is what those bytes decode to.
#[verifier::external_body]
pub(crate) fn from_utf8(bytes: &[u8]) -> (r: Option<&str>)
    ensures
        r is Some <==> vstd::utf8::valid_utf8(bytes@),
        r is Some ==> r->Some_0@ == vstd::utf8::decode_utf8(bytes@),
{
    core::str::from_utf8(bytes).ok()
}

/// What goes over the wire for one byte: a newline is preceded by a carriage
/// return, everything else is sent as it is.
pub open spec fn crlf_byte(b: u8) -> Seq<u8> {
    if b == 10 {
        seq![13u8, 10u8]
    } else {
        seq![b]
    }
}

/// What goes over the wire for `s`.
pub open spec fn crlf(s: Seq<u8>) -> Seq<u8>
    decreases s.len(),
{
    if s.len() == 0 {
        Seq::empty()
    } else {
        crlf(s.drop_last()) + crlf_byte(s.last())
    }
}

/// The bytes a serial terminal needs for `s`: "\n" becomes "\r\n".
pub fn crlf_bytes(s: &[u8]) -> (out: Vec<u8>)
    ensures
        out@ == crlf(s@),
{
    let mut out: Vec<u8> = Vec::new();
    let mut i: usize = 0;
    while i < s.len()
        invariant
            0 <= i <= s@.len(),
            out@ == crlf(s@.take(i as int)),
        decreases s@.len() - i,
    {
        let ghost before = out@;
        if s[i] == 10 {
            out.push(13);
        }
        out.push(s[i]);
        proof {
            let t = s@.take(i + 1);
            assert(t.drop_last() =~= s@.take(i as int));
            assert(out@ =~= before + crlf_byte(s@[i as int]));
        }
        i = i + 1;
    }
    assert(s@.take(i as int) =~= s@);
    out
}

/// Output can be sent in pieces: what goes over the wire for two strings in a row
/// is what goes over it for both at once.
pub proof fn law_crlf_in_pieces(a: Seq<u8>, b: Seq<u8>)
    ensures
        crlf(a + b) == crlf(a) + crlf(b),
    decreases b.len(),
{
    if b.len() == 0 {
        assert(a + b =~= a);
        assert(crlf(a) + crlf(b) =~= crlf(a));
    } else {
        law_crlf_in_pieces(a, b.drop_last());
        assert((a + b).drop_last() =~= a + b.drop_last());
        assert(crlf(a) + (crlf(b.drop_last()) + crlf_byte(b.last())) =~= (crlf(a) + crlf(
            b.drop_last(),
        )) + crlf_byte(b.last()));
    }
}

/// Every newline on the wire stands behind a carriage return.
pub proof fn law_newlines_follow_returns(s: Seq<u8>, i: int)
    requires
        0 <= i < crlf(s).len(),
        crlf(s)[i] == 10,
    ensures
        i > 0,
        crlf(s)[i - 1] == 13,
    decreases s.len(),
{
    let head = crlf(s.drop_last());
    if i < head.len() {
        law_newlines_follow_returns(s.drop_last(), i);
    }
}

/// The position of the first `b` in `s`, or the length of `s` if there is none.
pub open spec fn byte_position(s: Seq<u8>, b: u8) -> nat
    decreases s.len(),
{
    if s.len() == 0 || s[0] == b {
        0
    } else {
        1 + byte_position(s.drop_first(), b)
    }
}

/// `byte_position` is characterised by what it skips and where it stops.
pub proof fn lemma_byte_position(s: Seq<u8>, b: u8, n: nat)
    requires
        n <= s.len(),
        forall|j: int| 0 <= j < n ==> s[j] != b,
        n < s.len() ==> s[n as int] == b,
    ensures
        byte_position(s, b) == n,
    decreases s.len(),
{
    if n > 0 {
        lemma_byte_position(s.drop_first(), b, (n - 1) as nat);
    }
}

/// `byte_position` skips nothing it looks for.
pub proof fn lemma_position_is_first(s: Seq<u8>, b: u8)
    ensures
        byte_position(s, b) <= s.len(),
        forall|j: int| 0 <= j < byte_position(s, b) ==> s[j] != b,
        byte_position(s, b) < s.len() ==> s[byte_position(s, b) as int] == b,
    decreases s.len(),
{
    if s.len() > 0 && s[0] != b {
        let t = s.drop_first();
        lemma_position_is_first(t, b);
        assert forall|j: int| 0 <= j < byte_position(s, b) implies s[j] != b by {
            if j > 0 {
                assert(t[j - 1] == s[j]);
            }
        }
    }
}

/// The position of the first `b` in `s`, or the length of `s`.
pub fn position(s: &[u8], b: u8) -> (n: usize)
    ensures
        n == byte_position(s@, b),
        n <= s@.len(),
        forall|j: int| 0 <= j < n ==> s@[j] != b,
        n < s@.len() ==> s@[n as int] == b,
{
    let mut n: usize = 0;
    while n < s.len() && s[n] != b
        invariant
            n <= s@.len(),
            forall|j: int| 0 <= j < n ==> s@[j] != b,
        decreases s@.len() - n,
    {
        n = n + 1;
    }
    proof {
        lemma_byte_position(s@, b, n as nat);
    }
    n
}

/// Are two byte strings the same?
pub fn bytes_eq(a: &[u8], b: &[u8]) -> (r: bool)
    ensures
        r == (a@ == b@),
{
    if a.len() != b.len() {
        return false;
    }
    let mut i: usize = 0;
    while i < a.len()
        invariant
            i <= a@.len() == b@.len(),
            forall|j: int| 0 <= j < i ==> a@[j] == b@[j],
        decreases a@.len() - i,
    {
        if a[i] != b[i] {
            return false;
        }
        i = i + 1;
    }
    assert(a@ =~= b@);
    true
}

/// `needle` stands in `hay` at position `i`.
pub open spec fn occurs_at(hay: Seq<u8>, needle: Seq<u8>, i: int) -> bool {
    0 <= i && i + needle.len() <= hay.len() && hay.subrange(i, i + needle.len()) == needle
}

/// `needle` stands somewhere in `hay`.
pub open spec fn occurs(hay: Seq<u8>, needle: Seq<u8>) -> bool {
    exists|i: int| #[trigger] occurs_at(hay, needle, i)
}

/// A search finds exactly what stands between something before and something
/// behind it.
pub proof fn law_occurs(hay: Seq<u8>, needle: Seq<u8>)
    ensures
        occurs(hay, needle) <==> exists|x: Seq<u8>, y: Seq<u8>| hay == #[trigger] (x + needle + y),
        occurs_at(hay, needle, 0) <==> exists|y: Seq<u8>| hay == #[trigger] (needle + y),
{
    if occurs(hay, needle) {
        let i = choose|i: int| occurs_at(hay, needle, i);
        assert(occurs_at(hay, needle, i));
        let x = hay.take(i);
        let y = hay.skip(i + needle.len());
        assert(hay.subrange(i, i + needle.len()) =~= needle);
        assert(hay =~= x + needle + y) by {
            assert forall|j: int| i <= j < i + needle.len() implies hay[j] == needle[j - i] by {
                assert(hay.subrange(i, i + needle.len())[j - i] == hay[j]);
            }
        }
    }
    if exists|x: Seq<u8>, y: Seq<u8>| hay == #[trigger] (x + needle + y) {
        let (x, y) = choose|x: Seq<u8>, y: Seq<u8>| hay == #[trigger] (x + needle + y);
        let i = x.len() as int;
        assert(hay.subrange(i, i + needle.len()) =~= needle);
        assert(occurs_at(hay, needle, x.len() as int));
    }
    if occurs_at(hay, needle, 0) {
        let y = hay.skip(needle.len() as int);
        assert(hay =~= needle + y) by {
            assert forall|j: int| 0 <= j < needle.len() implies hay[j] == needle[j] by {
                assert(hay.subrange(0, needle.len() as int)[j] == hay[j]);
            }
        }
    }
    if exists|y: Seq<u8>| hay == #[trigger] (needle + y) {
        let y = choose|y: Seq<u8>| hay == #[trigger] (needle + y);
        assert(hay.subrange(0, needle.len() as int) =~= needle);
    }
}

/// Does `hay` begin with `needle`?
pub fn starts_with(hay: &[u8], needle: &[u8]) -> (r: bool)
    ensures
        r == occurs_at(hay@, needle@, 0),
{
    if hay.len() < needle.len() {
        return false;
    }
    bytes_eq(slice_subrange(hay, 0, needle.len()), needle)
}

/// Does `needle` stand somewhere in `hay`?
pub fn contains(hay: &[u8], needle: &[u8]) -> (r: bool)
    ensures
        r == occurs(hay@, needle@),
{
    if hay.len() < needle.len() {
        return false;
    }
    let n: usize = needle.len();
    let total: usize = hay.len();
    let last: usize = total - n;
    let mut i: usize = 0;
    while i <= last
        invariant
            i <= last + 1,
            n == needle@.len(),
            total == hay@.len(),
            last + n == total,
            forall|j: int| 0 <= j < i ==> !occurs_at(hay@, needle@, j),
        decreases last + 1 - i,
    {
        if bytes_eq(slice_subrange(hay, i, i + n), needle) {
            assert(occurs_at(hay@, needle@, i as int));
            return true;
        }
        if i == last {
            return false;
        }
        i = i + 1;
    }
    false
}

/// A string is determined by its bytes.
pub proof fn lemma_encoding_is_injective(a: Seq<char>, b: Seq<char>)
    ensures
        vstd::utf8::encode_utf8(a) == vstd::utf8::encode_utf8(b) <==> a == b,
{
    vstd::utf8::encode_utf8_decode_utf8(a);
    vstd::utf8::encode_utf8_decode_utf8(b);
}

/// Are two strings the same?
pub fn str_eq(a: &str, b: &str) -> (r: bool)
    ensures
        r == (a@ == b@),
{
    proof {
        lemma_encoding_is_injective(a@, b@);
    }
    bytes_eq(a.as_bytes(), b.as_bytes())
}

/// The characters with the Unicode property White_Space.
pub open spec fn is_white(c: char) -> bool {
    let v = c as u32;
    ||| 0x09 <= v <= 0x0d
    ||| v == 0x20
    ||| v == 0x85
    ||| v == 0xa0
    ||| v == 0x1680
    ||| 0x2000 <= v <= 0x200a
    ||| v == 0x2028
    ||| v == 0x2029
    ||| v == 0x202f
    ||| v == 0x205f
    ||| v == 0x3000
}

fn white(c: char) -> (b: bool)
    ensures
        b == is_white(c),
{
    let v: u32 = c as u32;
    (0x09 <= v && v <= 0x0d) || v == 0x20 || v == 0x85 || v == 0xa0 || v == 0x1680 || (0x2000 <= v
        && v <= 0x200a) || v == 0x2028 || v == 0x2029 || v == 0x202f || v == 0x205f || v == 0x3000
}

/// `s` without the white space it starts with.
pub open spec fn trimmed_start(s: Seq<char>) -> Seq<char>
    decreases s.len(),
{
    if s.len() > 0 && is_white(s[0]) {
        trimmed_start(s.drop_first())
    } else {
        s
    }
}

/// `s` without the white space it ends with.
pub open spec fn trimmed_end(s: Seq<char>) -> Seq<char>
    decreases s.len(),
{
    if s.len() > 0 && is_white(s.last()) {
        trimmed_end(s.drop_last())
    } else {
        s
    }
}

/// `s` without the white space around it.
pub open spec fn trimmed(s: Seq<char>) -> Seq<char> {
    trimmed_end(trimmed_start(s))
}

proof fn lemma_trimmed_start(s: Seq<char>, n: int)
    requires
        0 <= n <= s.len(),
        forall|i: int| 0 <= i < n ==> is_white(#[trigger] s[i]),
        n < s.len() ==> !is_white(s[n]),
    ensures
        trimmed_start(s) == s.skip(n),
    decreases n,
{
    if n > 0 {
        assert(is_white(s[0]));
        lemma_trimmed_start(s.drop_first(), n - 1);
        assert(s.drop_first().skip(n - 1) =~= s.skip(n));
    } else {
        assert(s.skip(0) =~= s);
    }
}

proof fn lemma_trimmed_end(s: Seq<char>, n: int)
    requires
        0 <= n <= s.len(),
        forall|i: int| n <= i < s.len() ==> is_white(#[trigger] s[i]),
        n > 0 ==> !is_white(s[n - 1]),
    ensures
        trimmed_end(s) == s.take(n),
    decreases s.len(),
{
    if n < s.len() {
        assert(is_white(s[s.len() - 1]));
        lemma_trimmed_end(s.drop_last(), n);
        assert(s.drop_last().take(n) =~= s.take(n));
    } else {
        assert(s.take(n) =~= s);
    }
}

/// `s` without the white space around it.
pub fn trim(s: &str) -> (r: &str)
    ensures
        r@ == trimmed(s@),
{
    let n: usize = s.unicode_len();
    let mut from: usize = 0;
    while from < n && white(s.get_char(from))
        invariant
            n == s@.len(),
            from <= n,
            forall|i: int| 0 <= i < from ==> is_white(#[trigger] s@[i]),
        decreases n - from,
    {
        from = from + 1;
    }
    let mut to: usize = n;
    while from < to && white(s.get_char(to - 1))
        invariant
            n == s@.len(),
            from <= to <= n,
            forall|i: int| to <= i < n ==> is_white(#[trigger] s@[i]),
        decreases to - from,
    {
        to = to - 1;
    }
    proof {
        lemma_trimmed_start(s@, from as int);
        let t = s@.skip(from as int);
        assert forall|i: int| to - from <= i < t.len() implies is_white(#[trigger] t[i]) by {
            assert(t[i] == s@[i + from]);
        }
        lemma_trimmed_end(t, to - from);
        assert(t.take(to - from) =~= s@.subrange(from as int, to as int));
    }
    s.substring_char(from, to)
}

/// The position of the first `c` in `s`, or the length of `s` if there is none.
pub open spec fn char_position(s: Seq<char>, c: char) -> nat
    decreases s.len(),
{
    if s.len() == 0 || s[0] == c {
        0
    } else {
        1 + char_position(s.drop_first(), c)
    }
}

proof fn lemma_char_position(s: Seq<char>, c: char, n: nat)
    requires
        n <= s.len(),
        forall|j: int| 0 <= j < n ==> s[j] != c,
        n < s.len() ==> s[n as int] == c,
    ensures
        char_position(s, c) == n,
    decreases s.len(),
{
    if n > 0 {
        lemma_char_position(s.drop_first(), c, (n - 1) as nat);
    }
}

/// What stands before the first blank, and what stands behind it without the
/// white space around it; all of `s` and nothing if it has no blank.
pub open spec fn first_word(s: Seq<char>) -> (Seq<char>, Seq<char>) {
    let n = char_position(s, ' ') as int;
    if n < s.len() {
        (s.take(n), trimmed(s.skip(n + 1)))
    } else {
        (s, Seq::empty())
    }
}

/// Split off the first word of `s`.
pub fn split_word(s: &str) -> (r: (&str, &str))
    ensures
        (r.0@, r.1@) == first_word(s@),
{
    let n: usize = s.unicode_len();
    let mut i: usize = 0;
    while i < n && s.get_char(i) != ' '
        invariant
            n == s@.len(),
            i <= n,
            forall|j: int| 0 <= j < i ==> s@[j] != ' ',
        decreases n - i,
    {
        i = i + 1;
    }
    proof {
        lemma_char_position(s@, ' ', i as nat);
    }
    if i < n {
        let word = s.substring_char(0, i);
        let rest = s.substring_char(i + 1, n);
        assert(word@ =~= s@.take(i as int));
        assert(rest@ =~= s@.skip(i + 1));
        (word, trim(rest))
    } else {
        let none = s.substring_char(0, 0);
        assert(none@ =~= Seq::<char>::empty());
        (s, none)
    }
}

/// The value of a digit, upper or lower case, in base `radix`.
pub open spec fn digit_value(c: char, radix: int) -> Option<int> {
    let v = c as u32 as int;
    let d = if '0' as u32 <= v <= '9' as u32 {
        v - '0' as u32
    } else if 'a' as u32 <= v <= 'z' as u32 {
        v - 'a' as u32 + 10
    } else if 'A' as u32 <= v <= 'Z' as u32 {
        v - 'A' as u32 + 10
    } else {
        radix
    };
    if d < radix {
        Some(d)
    } else {
        None
    }
}

/// The number that `s` writes in base `radix`; None if something else than a
/// digit stands in it.
pub open spec fn digits_value(s: Seq<char>, radix: int) -> Option<int>
    decreases s.len(),
{
    if s.len() == 0 {
        Some(0)
    } else {
        match (digits_value(s.drop_last(), radix), digit_value(s.last(), radix)) {
            (Some(v), Some(d)) => Some(v * radix + d),
            _ => None,
        }
    }
}

/// The 64-bit number that one digit or more write; None if they write none that
/// fits.
pub open spec fn digits_number(digits: Seq<char>, radix: int) -> Option<u64> {
    match digits_value(digits, radix) {
        Some(v) => if digits.len() > 0 && v <= u64::MAX {
            Some(v as u64)
        } else {
            None
        },
        None => None,
    }
}

/// The 64-bit number that `s` writes in base `radix`: its digits may stand
/// behind a plus sign.
pub open spec fn number(s: Seq<char>, radix: int) -> Option<u64> {
    if s.len() > 0 && s[0] == '+' {
        digits_number(s.drop_first(), radix)
    } else {
        digits_number(s, radix)
    }
}

/// More digits do not make a number smaller, nor a non-number a number.
proof fn lemma_digits_grow(s: Seq<char>, radix: int, n: int)
    requires
        radix >= 1,
        0 <= n <= s.len(),
    ensures
        digits_value(s, radix) matches Some(v) ==> v >= 0 && (digits_value(s.take(n), radix) matches Some(
            w,
        ) && w <= v),
    decreases s.len(),
{
    if n == s.len() {
        assert(s.take(n) =~= s);
        if s.len() > 0 {
            lemma_digits_grow(s.drop_last(), radix, n - 1);
            if digits_value(s, radix) is Some {
                let w = digits_value(s.drop_last(), radix)->Some_0;
                assert(w * radix >= 0) by (nonlinear_arith)
                    requires
                        w >= 0,
                        radix >= 1,
                ;
            }
        }
    } else {
        lemma_digits_grow(s.drop_last(), radix, n);
        assert(s.drop_last().take(n) =~= s.take(n));
        if digits_value(s, radix) is Some {
            let w = digits_value(s.drop_last(), radix)->Some_0;
            assert(w * radix >= w) by (nonlinear_arith)
                requires
                    w >= 0,
                    radix >= 1,
            ;
        }
    }
}

fn digit(c: char, radix: u64) -> (d: Option<u64>)
    requires
        2 <= radix <= 36,
    ensures
        match d {
            Some(v) => digit_value(c, radix as int) == Some(v as int) && v < radix,
            None => digit_value(c, radix as int) is None,
        },
{
    let v: u64 = c as u32 as u64;
    let d: u64 = if '0' as u64 <= v && v <= '9' as u64 {
        v - '0' as u64
    } else if 'a' as u64 <= v && v <= 'z' as u64 {
        v - 'a' as u64 + 10
    } else if 'A' as u64 <= v && v <= 'Z' as u64 {
        v - 'A' as u64 + 10
    } else {
        radix
    };
    if d < radix {
        Some(d)
    } else {
        None
    }
}

/// The 64-bit number that `s` writes in base `radix`.
pub fn parse_number(s: &str, radix: u64) -> (r: Option<u64>)
    requires
        2 <= radix <= 36,
    ensures
        r == number(s@, radix as int),
{
    let n: usize = s.unicode_len();
    let start: usize = if n > 0 && s.get_char(0) == '+' {
        1
    } else {
        0
    };
    let ghost digits = s@.skip(start as int);
    proof {
        assert(s@.skip(0) =~= s@);
        if n > 0 {
            assert(s@.skip(1) =~= s@.drop_first());
        }
    }
    if start == n {
        return None;
    }
    let mut v: u64 = 0;
    let mut i: usize = start;
    assert(digits.take(0) =~= Seq::<char>::empty());
    while i < n
        invariant
            n == s@.len(),
            start <= i <= n,
            start < n,
            start <= 1,
            2 <= radix <= 36,
            digits == s@.skip(start as int),
            (start == 1) == (s@[0] == '+'),
            number(s@, radix as int) == digits_number(digits, radix as int),
            digits_value(digits.take(i - start), radix as int) == Some(v as int),
        decreases n - i,
    {
        let ghost before = digits.take(i - start);
        let ghost after = digits.take(i - start + 1);
        proof {
            assert(after.drop_last() =~= before);
            assert(after.last() == s@[i as int]);
            lemma_digits_grow(digits, radix as int, i - start + 1);
        }
        match digit(s.get_char(i), radix) {
            None => {
                return None;
            },
            Some(d) => {
                assert(v * radix <= 0xFFFF_FFFF_FFFF_FFFF * 36) by (nonlinear_arith)
                    requires
                        v <= 0xFFFF_FFFF_FFFF_FFFF,
                        radix <= 36,
                ;
                let wide: u128 = v as u128 * radix as u128 + d as u128;
                if wide > u64::MAX as u128 {
                    return None;
                }
                v = wide as u64;
            },
        }
        i = i + 1;
    }
    assert(digits.take(n - start) =~= digits);
    Some(v)
}

/// On the wire a newline is two bytes and everything else is itself.
pub proof fn law_crlf_of_a_byte(b: u8)
    ensures
        b != 10 ==> crlf(seq![b]) == seq![b],
        crlf(seq![10u8]) == seq![13u8, 10u8],
        crlf(Seq::empty()) == Seq::<u8>::empty(),
{
    reveal_with_fuel(crlf, 2);
    assert(seq![b].drop_last() =~= Seq::<u8>::empty());
    assert(seq![10u8].drop_last() =~= Seq::<u8>::empty());
    assert(seq![b].last() == b && seq![10u8].last() == 10);
    assert(crlf(seq![b]) =~= crlf_byte(b));
    assert(crlf(seq![10u8]) =~= crlf_byte(10));
}

/// Trimming takes away the white space around a text and none of the text.
pub proof fn law_trim_takes_white_space(a: Seq<char>, t: Seq<char>, z: Seq<char>)
    requires
        forall|i: int| 0 <= i < a.len() ==> is_white(#[trigger] a[i]),
        forall|i: int| 0 <= i < z.len() ==> is_white(#[trigger] z[i]),
        t.len() > 0,
        !is_white(t[0]),
        !is_white(t.last()),
    ensures
        trimmed(a + t + z) == t,
        trimmed(a) == Seq::<char>::empty(),
{
    let s = a + t + z;
    assert forall|i: int| 0 <= i < a.len() implies is_white(#[trigger] s[i]) by {
        assert(s[i] == a[i]);
    }
    assert(s[a.len() as int] == t[0]);
    lemma_trimmed_start(s, a.len() as int);
    let u = t + z;
    assert(s.skip(a.len() as int) =~= u);
    assert forall|i: int| t.len() <= i < u.len() implies is_white(#[trigger] u[i]) by {
        assert(u[i] == z[i - t.len()]);
    }
    assert(u[t.len() - 1] == t.last());
    lemma_trimmed_end(u, t.len() as int);
    assert(u.take(t.len() as int) =~= t);
    lemma_trimmed_start(a, a.len() as int);
    assert(a.skip(a.len() as int) =~= Seq::<char>::empty());
}

/// Blanks, tabs and line ends are white space; what can be seen is not.
pub proof fn law_white_space(c: char)
    ensures
        c == ' ' || c == '\t' || c == '\n' || c == '\r' ==> is_white(c),
        0x21 <= c as u32 <= 0x7e ==> !is_white(c),
{
}

/// The first word ends at the first blank; what is behind it is trimmed.
pub proof fn law_words_are_split(w: Seq<char>, more: Seq<char>)
    requires
        !w.contains(' '),
    ensures
        first_word(w + seq![' '] + more) == (w, trimmed(more)),
        first_word(w) == (w, Seq::<char>::empty()),
{
    let s = w + seq![' '] + more;
    assert forall|j: int| 0 <= j < w.len() implies s[j] != ' ' && w[j] != ' ' by {
        assert(w.contains(w[j]));
    }
    assert(s[w.len() as int] == ' ');
    lemma_char_position(s, ' ', w.len());
    lemma_char_position(w, ' ', w.len());
    assert(s.take(w.len() as int) =~= w);
    assert(s.skip(w.len() as int + 1) =~= more);
}

/// A digit as a character.
pub open spec fn digit_char(d: int) -> char {
    if d < 10 {
        (0x30 + d) as char
    } else {
        (0x61 + d - 10) as char
    }
}

/// Digits as characters.
pub open spec fn digit_chars(ds: Seq<int>) -> Seq<char> {
    ds.map_values(|d: int| digit_char(d))
}

/// The number that digits stand for, the most significant first.
pub open spec fn place_value(ds: Seq<int>, radix: int) -> int
    decreases ds.len(),
{
    if ds.len() == 0 {
        0
    } else {
        place_value(ds.drop_last(), radix) * radix + ds.last()
    }
}

/// Digits of base `radix`.
pub open spec fn are_digits(ds: Seq<int>, radix: int) -> bool {
    forall|i: int| 0 <= i < ds.len() ==> 0 <= #[trigger] ds[i] < radix
}

proof fn lemma_digits_are_read(ds: Seq<int>, radix: int)
    requires
        2 <= radix <= 36,
        are_digits(ds, radix),
    ensures
        digits_value(digit_chars(ds), radix) == Some(place_value(ds, radix)),
    decreases ds.len(),
{
    let s = digit_chars(ds);
    if ds.len() > 0 {
        let init = ds.drop_last();
        assert forall|i: int| 0 <= i < init.len() implies 0 <= #[trigger] init[i] < radix by {
            assert(init[i] == ds[i]);
        }
        lemma_digits_are_read(init, radix);
        assert(s.drop_last() =~= digit_chars(init));
        let d = ds[ds.len() - 1];
        assert(s.last() == digit_char(d));
        let c = digit_char(d);
        assert(d < 10 ==> c as u32 == 0x30 + d);
        assert(d >= 10 ==> c as u32 == 0x61 + d - 10);
        assert(digit_value(c, radix) == Some(d));
    }
}

/// A number that is written in digits is read back, with or without a plus sign,
/// if it fits 64 bits; one that does not fit is none.
pub proof fn law_numbers_are_read(ds: Seq<int>, radix: int)
    requires
        2 <= radix <= 36,
        ds.len() > 0,
        are_digits(ds, radix),
    ensures
        number(digit_chars(ds), radix) == (if place_value(ds, radix) <= u64::MAX {
            Some(place_value(ds, radix) as u64)
        } else {
            None
        }),
        number(seq!['+'] + digit_chars(ds), radix) == number(digit_chars(ds), radix),
{
    let s = digit_chars(ds);
    lemma_digits_are_read(ds, radix);
    let d = ds[0];
    assert(s[0] == digit_char(d));
    assert(s[0] as u32 != '+' as u32);
    assert((seq!['+'] + s).drop_first() =~= s);
}

/// Nothing else is a number: not an empty text, and none with a character in it
/// that is no digit, but for a plus sign at its start.
pub proof fn law_nothing_else_is_a_number(s: Seq<char>, radix: int, i: int)
    requires
        2 <= radix <= 36,
        0 <= i < s.len(),
        !(0x30 <= s[i] as u32 <= 0x39),
        !(0x41 <= s[i] as u32 <= 0x5a),
        !(0x61 <= s[i] as u32 <= 0x7a),
        i > 0 || s[0] != '+',
    ensures
        number(s, radix) is None,
        number(Seq::empty(), radix) is None,
        number(seq!['+'], radix) is None,
{
    assert(seq!['+'].drop_first() =~= Seq::<char>::empty());
    if s[0] == '+' {
        lemma_no_digit(s.drop_first(), radix, i - 1);
    } else {
        lemma_no_digit(s, radix, i);
    }
}

proof fn lemma_no_digit(s: Seq<char>, radix: int, i: int)
    requires
        0 <= i < s.len(),
        digit_value(s[i], radix) is None,
    ensures
        digits_value(s, radix) is None,
    decreases s.len(),
{
    if i < s.len() - 1 {
        lemma_no_digit(s.drop_last(), radix, i);
    }
}

/// The white space of Unicode, character by character.
pub proof fn law_white_space_is_unicode(c: char)
    ensures
        ({
            let v = c as int;
            is_white(c) <==> v == 9 || v == 10 || v == 11 || v == 12 || v == 13 || v == 32 || v
                == 133 || v == 160 || v == 5760 || 8192 <= v < 8203 || v == 8232 || v == 8233 || v
                == 8239 || v == 8287 || v == 12288
        }),
{
}

} // verus!
