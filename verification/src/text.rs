//! Text in contracts is a sequence of characters. This module holds the text predicates that
//! the rest of the crate speaks of, and the functions that compute them.

use vstd::prelude::*;

verus! {

/// The lower-case form of an ASCII letter; every other character as it is.
pub open spec fn lower_char(c: char) -> char {
    if 'A' <= c <= 'Z' {
        ((c as int) + 32) as char
    } else {
        c
    }
}

/// Text with each ASCII letter in lower case.
pub open spec fn lower(s: Seq<char>) -> Seq<char> {
    Seq::new(s.len(), |i: int| lower_char(s[i]))
}

/// `needle` occurs in `hay` at position `at`.
pub open spec fn occurs_at(hay: Seq<char>, needle: Seq<char>, at: int) -> bool {
    &&& 0 <= at
    &&& at + needle.len() <= hay.len()
    &&& hay.subrange(at, at + needle.len()) =~= needle
}

/// `needle` occurs somewhere in `hay`.
pub open spec fn contains(hay: Seq<char>, needle: Seq<char>) -> bool {
    exists|at: int| occurs_at(hay, needle, at)
}

/// `needle` occurs somewhere in `hay` when ASCII case is ignored.
pub open spec fn contains_ci(hay: Seq<char>, needle: Seq<char>) -> bool {
    contains(lower(hay), lower(needle))
}

/// The two texts are equal when ASCII case is ignored.
pub open spec fn equal_ci(a: Seq<char>, b: Seq<char>) -> bool {
    lower(a) =~= lower(b)
}

/// `s` begins with `prefix`.
pub open spec fn begins_with(s: Seq<char>, prefix: Seq<char>) -> bool {
    occurs_at(s, prefix, 0)
}

/// A character that a token is made of: an ASCII letter or digit, or an underscore.
pub open spec fn is_token_char(c: char) -> bool {
    ||| 'a' <= c <= 'z'
    ||| 'A' <= c <= 'Z'
    ||| '0' <= c <= '9'
    ||| c == '_'
}

/// `s[from..to]` is one of the pieces that remain when `s` is split at every character that is
/// not a token character.
pub open spec fn is_piece(s: Seq<char>, from: int, to: int) -> bool {
    &&& 0 <= from <= to <= s.len()
    &&& forall|k: int| from <= k < to ==> is_token_char(#[trigger] s[k])
    &&& from == 0 || !is_token_char(s[from - 1])
    &&& to == s.len() || !is_token_char(s[to])
}

/// Some piece of `s` equals `token` when ASCII case is ignored.
pub open spec fn has_token(s: Seq<char>, token: Seq<char>) -> bool {
    exists|from: int, to: int| #[trigger]
        is_piece(s, from, to) && equal_ci(s.subrange(from, to), token)
}

/// The characters with the Unicode property `White_Space`.
pub open spec fn is_space(c: char) -> bool {
    ||| 0x9 <= c as u32 <= 0xd
    ||| c as u32 == 0x20
    ||| c as u32 == 0x85
    ||| c as u32 == 0xa0
    ||| c as u32 == 0x1680
    ||| 0x2000 <= c as u32 <= 0x200a
    ||| c as u32 == 0x2028
    ||| c as u32 == 0x2029
    ||| c as u32 == 0x202f
    ||| c as u32 == 0x205f
    ||| c as u32 == 0x3000
}

/// `s` holds nothing but white space.
pub open spec fn is_blank(s: Seq<char>) -> bool {
    forall|i: int| 0 <= i < s.len() ==> is_space(#[trigger] s[i])
}

/// `s` without its leading white space.
pub open spec fn trim_start(s: Seq<char>) -> Seq<char>
    decreases s.len(),
{
    if s.len() > 0 && is_space(s[0]) {
        trim_start(s.drop_first())
    } else {
        s
    }
}

/// `s` without its trailing white space.
pub open spec fn trim_end(s: Seq<char>) -> Seq<char>
    decreases s.len(),
{
    if s.len() > 0 && is_space(s.last()) {
        trim_end(s.drop_last())
    } else {
        s
    }
}

/// `s` without the white space at either end.
pub open spec fn trim(s: Seq<char>) -> Seq<char> {
    trim_end(trim_start(s))
}

/// The character of a decimal digit.
pub open spec fn digit_char(d: nat) -> char {
    ((d as int) + 48) as char
}

/// A number in decimal notation, without leading zeros.
pub open spec fn decimal(n: nat) -> Seq<char>
    decreases n,
{
    if n < 10 {
        seq![digit_char(n)]
    } else {
        decimal(n / 10).push(digit_char(n % 10))
    }
}

/// The character is a decimal digit.
pub open spec fn is_digit(c: char) -> bool {
    '0' <= c <= '9'
}

/// The number that a sequence of decimal digits denotes.
pub open spec fn digits_value(s: Seq<char>) -> nat
    decreases s.len(),
{
    if s.len() == 0 {
        0
    } else {
        digits_value(s.drop_last()) * 10 + ((s.last() as int) - 48) as nat
    }
}

/// The digits of an unsigned number in text: what follows an optional plus sign.
pub open spec fn unsigned_digits(s: Seq<char>) -> Seq<char> {
    if s.len() > 0 && s[0] == '+' {
        s.drop_first()
    } else {
        s
    }
}

/// The unsigned number, at most `max`, that `s` denotes: an optional plus sign, then one or more
/// decimal digits and nothing else.
pub open spec fn unsigned_value(s: Seq<char>, max: nat) -> Option<nat> {
    let digits = unsigned_digits(s);
    if digits.len() > 0 && (forall|i: int| 0 <= i < digits.len() ==> is_digit(#[trigger] digits[i]))
        && digits_value(digits) <= max {
        Some(digits_value(digits))
    } else {
        None
    }
}

/// The texts one after the other, with `sep` between neighbours.
pub open spec fn join(parts: Seq<Seq<char>>, sep: Seq<char>) -> Seq<char>
    decreases parts.len(),
{
    if parts.len() == 0 {
        Seq::empty()
    } else if parts.len() == 1 {
        parts[0]
    } else {
        join(parts.drop_last(), sep) + sep + parts.last()
    }
}

/// `a` comes before `b` in the order by code points.
pub open spec fn text_before(a: Seq<char>, b: Seq<char>) -> bool
    decreases a.len(),
{
    if b.len() == 0 {
        false
    } else if a.len() == 0 {
        true
    } else if a[0] != b[0] {
        a[0] < b[0]
    } else {
        text_before(a.drop_first(), b.drop_first())
    }
}

/// The characters of a string, in order.
pub fn chars_of(s: &str) -> (r: Vec<char>)
    ensures
        r@ == s@,
{
    let mut r: Vec<char> = Vec::new();
    for c in it: s.chars()
        invariant
            it.seq() == s@,
            r@ == s@.take(it.index()),
    {
        r.push(c);
    }
    assert(s@.take(s@.len() as int) =~= s@);
    r
}

/// One character in ASCII lower case.
pub fn to_lower_char(c: char) -> (r: char)
    ensures
        r == lower_char(c),
{
    if 'A' <= c && c <= 'Z' {
        ((c as u8) + 32) as char
    } else {
        c
    }
}

/// The characters, in ASCII lower case.
fn lower_all(chars: &Vec<char>) -> (r: Vec<char>)
    ensures
        r@ == lower(chars@),
{
    let mut r: Vec<char> = Vec::new();
    for i in 0..chars.len()
        invariant
            r@ == lower(chars@).take(i as int),
    {
        r.push(to_lower_char(chars[i]));
        assert(lower(chars@).take(i + 1) =~= lower(chars@).take(i as int).push(
            lower_char(chars@[i as int]),
        ));
    }
    assert(lower(chars@).take(chars@.len() as int) =~= lower(chars@));
    r
}

/// The characters of a string, in ASCII lower case.
pub fn lowered_chars(s: &str) -> (r: Vec<char>)
    ensures
        r@ == lower(s@),
{
    lower_all(&chars_of(s))
}

/// Whether the two character vectors are equal.
pub fn same_chars(a: &Vec<char>, b: &Vec<char>) -> (r: bool)
    ensures
        r == (a@ == b@),
{
    if a.len() != b.len() {
        return false;
    }
    for i in 0..a.len()
        invariant
            a.len() == b.len(),
            forall|k: int| 0 <= k < i ==> a@[k] == b@[k],
    {
        if a[i] != b[i] {
            return false;
        }
    }
    assert(a@ =~= b@);
    true
}

/// Whether `needle` occurs in `hay` at `at`.
fn occurs_here(hay: &Vec<char>, needle: &Vec<char>, at: usize) -> (r: bool)
    requires
        at + needle.len() <= hay.len(),
    ensures
        r == occurs_at(hay@, needle@, at as int),
{
    for k in 0..needle.len()
        invariant
            at + needle.len() <= hay.len(),
            forall|j: int| 0 <= j < k ==> hay@[at + j] == needle@[j],
    {
        if hay[at + k] != needle[k] {
            assert(hay@.subrange(at as int, at + needle.len())[k as int] != needle@[k as int]);
            return false;
        }
    }
    assert(hay@.subrange(at as int, at + needle.len()) =~= needle@);
    true
}

/// Whether `needle` occurs in `hay`.
pub fn contains_chars(hay: &Vec<char>, needle: &Vec<char>) -> (r: bool)
    ensures
        r == contains(hay@, needle@),
{
    if needle.len() > hay.len() {
        return false;
    }
    let last: usize = hay.len() - needle.len();
    let mut at: usize = 0;
    while at <= last
        invariant
            last == hay.len() - needle.len(),
            at <= last + 1,
            forall|k: int| 0 <= k < at ==> !occurs_at(hay@, needle@, k),
        decreases last + 1 - at,
    {
        if occurs_here(hay, needle, at) {
            return true;
        }
        if at == last {
            assert(forall|k: int| !occurs_at(hay@, needle@, k));
            return false;
        }
        at = at + 1;
    }
    false
}

/// Whether `needle` occurs in `hay`.
pub fn contains_text(hay: &str, needle: &str) -> (r: bool)
    ensures
        r == contains(hay@, needle@),
{
    contains_chars(&chars_of(hay), &chars_of(needle))
}

/// Whether `s` begins with `prefix`.
pub fn starts_with_text(s: &str, prefix: &str) -> (r: bool)
    ensures
        r == begins_with(s@, prefix@),
{
    let chars: Vec<char> = chars_of(s);
    let head: Vec<char> = chars_of(prefix);
    if head.len() > chars.len() {
        return false;
    }
    occurs_here(&chars, &head, 0)
}

/// Whether the two texts are equal.
pub fn equal_text(a: &str, b: &str) -> (r: bool)
    ensures
        r == (a@ == b@),
{
    same_chars(&chars_of(a), &chars_of(b))
}

/// Whether the two texts are equal when ASCII case is ignored.
pub fn equal_text_ci(a: &str, b: &str) -> (r: bool)
    ensures
        r == equal_ci(a@, b@),
{
    same_chars(&lowered_chars(a), &lowered_chars(b))
}

/// Whether a token may hold the character.
fn token_char(c: char) -> (r: bool)
    ensures
        r == is_token_char(c),
{
    ('a' <= c && c <= 'z') || ('A' <= c && c <= 'Z') || ('0' <= c && c <= '9') || c == '_'
}

/// A copy of `chars[from..to]`.
fn slice_chars(chars: &Vec<char>, from: usize, to: usize) -> (r: Vec<char>)
    requires
        from <= to <= chars.len(),
    ensures
        r@ == chars@.subrange(from as int, to as int),
{
    let mut r: Vec<char> = Vec::new();
    for k in from..to
        invariant
            from <= to <= chars.len(),
            r@ == chars@.subrange(from as int, k as int),
    {
        r.push(chars[k]);
    }
    r
}

/// Whether some piece of `value`, split at every character that no token holds, equals `token`
/// when ASCII case is ignored.
pub fn contains_ascii_token(value: &str, token: &str) -> (r: bool)
    ensures
        r == has_token(value@, token@),
{
    token_in_chars(&chars_of(value), token)
}

/// Whether some piece of the characters, split at every one that no token holds, equals `token`
/// when ASCII case is ignored.
pub fn token_in_chars(chars: &Vec<char>, token: &str) -> (r: bool)
    ensures
        r == has_token(chars@, token@),
{
    let ghost value = chars@;
    let wanted: Vec<char> = lowered_chars(token);
    let mut from: usize = 0;
    let mut to: usize = 0;
    while to < chars.len()
        invariant
            value == chars@,
            wanted@ == lower(token@),
            from <= to <= chars.len(),
            from == 0 || !is_token_char(value[from - 1]),
            forall|k: int| from <= k < to ==> is_token_char(#[trigger] value[k]),
            forall|f: int, t: int| #[trigger]
                is_piece(value, f, t) && f < from ==> !equal_ci(value.subrange(f, t), token@),
        decreases chars.len() - to,
    {
        if !token_char(chars[to]) {
            let piece: Vec<char> = lower_all(&slice_chars(chars, from, to));
            assert(is_piece(value, from as int, to as int));
            if same_chars(&piece, &wanted) {
                return true;
            }
            assert forall|f: int, t: int| #[trigger]
                is_piece(value, f, t) && f < to + 1 implies !equal_ci(
                value.subrange(f, t),
                token@,
            ) by {
                if f > from {
                    assert(is_token_char(value[f - 1]));
                } else if f == from {
                    if t < to {
                        assert(is_token_char(value[t]));
                    } else if t > to {
                        assert(is_token_char(value[to as int]));
                    }
                }
            }
            from = to + 1;
        }
        to = to + 1;
    }
    let piece: Vec<char> = lower_all(&slice_chars(chars, from, to));
    assert(is_piece(value, from as int, to as int));
    if same_chars(&piece, &wanted) {
        return true;
    }
    assert forall|f: int, t: int| #[trigger] is_piece(value, f, t) implies !equal_ci(
        value.subrange(f, t),
        token@,
    ) by {
        if f > from {
            assert(is_token_char(value[f - 1]));
        } else if f == from && t < to {
            assert(is_token_char(value[t]));
        }
    }
    false
}

/// Whether the character is white space.
pub fn is_white_space(c: char) -> (r: bool)
    ensures
        r == is_space(c),
{
    let code: u32 = c as u32;
    (0x9 <= code && code <= 0xd) || code == 0x20 || code == 0x85 || code == 0xa0 || code == 0x1680
        || (0x2000 <= code && code <= 0x200a) || code == 0x2028 || code == 0x2029 || code == 0x202f
        || code == 0x205f || code == 0x3000
}

/// Whether the text holds nothing but white space.
pub fn is_blank_text(s: &str) -> (r: bool)
    ensures
        r == is_blank(s@),
{
    let chars: Vec<char> = chars_of(s);
    for i in 0..chars.len()
        invariant
            chars@ == s@,
            forall|k: int| 0 <= k < i ==> is_space(#[trigger] s@[k]),
    {
        if !is_white_space(chars[i]) {
            return false;
        }
    }
    true
}

/// Trimming `s` from the front removes exactly its first `n` characters, when these are white
/// space and the next one is not.
proof fn lemma_trim_start(s: Seq<char>, n: int)
    requires
        0 <= n <= s.len(),
        forall|k: int| 0 <= k < n ==> is_space(#[trigger] s[k]),
        n == s.len() || !is_space(s[n]),
    ensures
        trim_start(s) == s.subrange(n, s.len() as int),
    decreases n,
{
    if n == 0 {
        assert(s.subrange(0, s.len() as int) =~= s);
    } else {
        assert(is_space(s[0]));
        let rest = s.drop_first();
        assert forall|k: int| 0 <= k < n - 1 implies is_space(#[trigger] rest[k]) by {
            assert(rest[k] == s[k + 1]);
        }
        lemma_trim_start(rest, n - 1);
        assert(rest.subrange(n - 1, rest.len() as int) =~= s.subrange(n, s.len() as int));
    }
}

/// Trimming `s` from the back keeps exactly its first `n` characters, when the others are white
/// space and the last one kept is not.
proof fn lemma_trim_end(s: Seq<char>, n: int)
    requires
        0 <= n <= s.len(),
        forall|k: int| n <= k < s.len() ==> is_space(#[trigger] s[k]),
        n == 0 || !is_space(s[n - 1]),
    ensures
        trim_end(s) == s.subrange(0, n),
    decreases s.len(),
{
    if n == s.len() {
        assert(s.subrange(0, n) =~= s);
    } else {
        assert(is_space(s.last()));
        lemma_trim_end(s.drop_last(), n);
        assert(s.drop_last().subrange(0, n) =~= s.subrange(0, n));
    }
}

/// The text without the white space at either end.
pub fn trim_text(s: &str) -> (r: &str)
    ensures
        r@ == trim(s@),
{
    let chars: Vec<char> = chars_of(s);
    let mut from: usize = 0;
    while from < chars.len() && is_white_space(chars[from])
        invariant
            chars@ == s@,
            from <= chars.len(),
            forall|k: int| 0 <= k < from ==> is_space(#[trigger] s@[k]),
        decreases chars.len() - from,
    {
        from = from + 1;
    }
    let ghost rest = s@.subrange(from as int, s@.len() as int);
    proof {
        lemma_trim_start(s@, from as int);
    }
    let mut to: usize = chars.len();
    while to > from && is_white_space(chars[to - 1])
        invariant
            chars@ == s@,
            from <= to <= chars.len(),
            forall|k: int| to <= k < s@.len() ==> is_space(#[trigger] s@[k]),
        decreases to,
    {
        to = to - 1;
    }
    proof {
        lemma_trim_end(rest, to - from);
        assert(rest.subrange(0, to - from) =~= s@.subrange(from as int, to as int));
    }
    s.substring_char(from, to)
}

/// The text of one decimal digit.
fn digit_text(d: u64) -> (r: &'static str)
    requires
        d < 10,
    ensures
        r@ == seq![digit_char(d as nat)],
{
    proof {
        reveal_strlit("0");
        reveal_strlit("1");
        reveal_strlit("2");
        reveal_strlit("3");
        reveal_strlit("4");
        reveal_strlit("5");
        reveal_strlit("6");
        reveal_strlit("7");
        reveal_strlit("8");
        reveal_strlit("9");
    }
    let r: &'static str = match d {
        0 => "0",
        1 => "1",
        2 => "2",
        3 => "3",
        4 => "4",
        5 => "5",
        6 => "6",
        7 => "7",
        8 => "8",
        _ => "9",
    };
    assert(r@ =~= seq![digit_char(d as nat)]);
    r
}

/// Appends a number in decimal notation.
pub fn append_decimal(out: &mut String, n: u64)
    ensures
        final(out)@ == old(out)@ + decimal(n as nat),
    decreases n,
{
    if n >= 10 {
        append_decimal(out, n / 10);
    }
    out.append(digit_text(n % 10));
    assert(out@ =~= old(out)@ + decimal(n as nat));
}

/// A number in decimal notation.
pub fn decimal_text(n: u64) -> (r: String)
    ensures
        r@ == decimal(n as nat),
{
    let mut r: String = String::new();
    append_decimal(&mut r, n);
    assert(r@ =~= decimal(n as nat));
    r
}

/// A sequence of digits denotes a number at least as large as each of its prefixes does.
proof fn lemma_digits_prefix(s: Seq<char>, n: int)
    requires
        0 <= n <= s.len(),
    ensures
        digits_value(s.take(n)) <= digits_value(s),
    decreases s.len(),
{
    if n == s.len() {
        assert(s.take(n) =~= s);
    } else {
        lemma_digits_prefix(s.drop_last(), n);
        assert(s.drop_last().take(n) =~= s.take(n));
    }
}

/// The unsigned number that the text denotes, if it is at most `max`.
pub fn parse_unsigned(s: &str, max: u64) -> (r: Option<u64>)
    ensures
        match r {
            Some(n) => unsigned_value(s@, max as nat) == Some(n as nat),
            None => unsigned_value(s@, max as nat) is None,
        },
{
    let chars: Vec<char> = chars_of(s);
    let first: usize = if chars.len() > 0 && chars[0] == '+' {
        1
    } else {
        0
    };
    let ghost digits = unsigned_digits(s@);
    assert(digits =~= s@.subrange(first as int, s@.len() as int));
    if first == chars.len() {
        return None;
    }
    let mut value: u64 = 0;
    let mut i: usize = first;
    while i < chars.len()
        invariant
            chars@ == s@,
            first <= i <= chars.len(),
            first < chars.len(),
            digits == unsigned_digits(s@),
            digits =~= s@.subrange(first as int, s@.len() as int),
            forall|k: int| 0 <= k < i - first ==> is_digit(#[trigger] digits[k]),
            value == digits_value(digits.take(i - first)),
            value <= max,
        decreases chars.len() - i,
    {
        let c: char = chars[i];
        assert(c == digits[i - first]);
        if !('0' <= c && c <= '9') {
            assert(!is_digit(digits[i - first]));
            return None;
        }
        let d: u64 = (c as u64) - 48;
        proof {
            assert(digits.take(i - first + 1).drop_last() =~= digits.take(i - first));
            assert(digits.take(i - first + 1).last() == c);
            lemma_digits_prefix(digits, i - first + 1);
        }
        let next: u128 = (value as u128) * 10 + (d as u128);
        if next > max as u128 {
            return None;
        }
        value = next as u64;
        i = i + 1;
    }
    assert(digits.take(digits.len() as int) =~= digits);
    Some(value)
}

/// The views of the texts in a vector.
pub open spec fn views(parts: Seq<String>) -> Seq<Seq<char>> {
    Seq::new(parts.len(), |i: int| parts[i]@)
}

/// The texts one after the other, with `sep` between neighbours.
pub fn join_texts(parts: &Vec<String>, sep: &str) -> (r: String)
    ensures
        r@ == join(views(parts@), sep@),
{
    let mut r: String = String::new();
    let ghost all = views(parts@);
    assert(r@ =~= join(all.take(0), sep@));
    for i in 0..parts.len()
        invariant
            all == views(parts@),
            r@ == join(all.take(i as int), sep@),
    {
        if i > 0 {
            r.append(sep);
        }
        r.append(parts[i].as_str());
        proof {
            let next = all.take(i + 1);
            assert(next.drop_last() =~= all.take(i as int));
            assert(next.last() == parts@[i as int]@);
            if i == 0 {
                assert(r@ =~= next[0]);
            }
        }
    }
    assert(all.take(parts@.len() as int) =~= all);
    r
}

/// Whether `a` comes before `b` in the order by code points.
pub fn text_comes_before(a: &str, b: &str) -> (r: bool)
    ensures
        r == text_before(a@, b@),
{
    let left: Vec<char> = chars_of(a);
    let right: Vec<char> = chars_of(b);
    assert(a@.subrange(0, a@.len() as int) =~= a@);
    assert(b@.subrange(0, b@.len() as int) =~= b@);
    let mut i: usize = 0;
    while i < left.len() && i < right.len()
        invariant
            left@ == a@,
            right@ == b@,
            i <= left.len(),
            i <= right.len(),
            text_before(a@, b@) == text_before(
                a@.subrange(i as int, a@.len() as int),
                b@.subrange(i as int, b@.len() as int),
            ),
        decreases left.len() - i,
    {
        if left[i] != right[i] {
            return left[i] < right[i];
        }
        assert(a@.subrange(i as int, a@.len() as int).drop_first() =~= a@.subrange(
            i + 1,
            a@.len() as int,
        ));
        assert(b@.subrange(i as int, b@.len() as int).drop_first() =~= b@.subrange(
            i + 1,
            b@.len() as int,
        ));
        i = i + 1;
    }
    i < right.len()
}

/// The order by code points is a total order: of two different texts exactly one comes first, and
/// a third text comes behind the first or in front of the second.
pub proof fn lemma_text_order(a: Seq<char>, b: Seq<char>, c: Seq<char>)
    ensures
        text_before(a, b) ==> !text_before(b, a),
        a != b ==> text_before(a, b) || text_before(b, a),
        text_before(a, b) ==> text_before(a, c) || text_before(c, b),
    decreases a.len() + b.len() + c.len(),
{
    if a.len() > 0 && b.len() > 0 && a[0] == b[0] {
        let rest = if c.len() > 0 { c.drop_first() } else { c };
        lemma_text_order(a.drop_first(), b.drop_first(), rest);
        if a.drop_first() == b.drop_first() {
            assert(a =~= seq![a[0]] + a.drop_first());
            assert(b =~= seq![b[0]] + b.drop_first());
        }
    } else if a.len() == 0 && b.len() == 0 {
        assert(a =~= b);
    }
}

/// What a number looks like in decimal notation is read back as that number.
pub proof fn law_decimal_is_read_back(n: nat, max: nat)
    requires
        n <= max,
    ensures
        unsigned_value(decimal(n), max) == Some(n),
{
    lemma_decimal(n);
    assert(unsigned_digits(decimal(n)) == decimal(n));
}

/// Decimal notation is one or more digits that denote the number.
proof fn lemma_decimal(n: nat)
    ensures
        decimal(n).len() > 0,
        forall|i: int| 0 <= i < decimal(n).len() ==> is_digit(#[trigger] decimal(n)[i]),
        digits_value(decimal(n)) == n,
    decreases n,
{
    if n < 10 {
        assert(decimal(n).drop_last() =~= Seq::<char>::empty());
        assert(digits_value(Seq::<char>::empty()) == 0);
    } else {
        lemma_decimal(n / 10);
        assert(decimal(n).drop_last() =~= decimal(n / 10));
    }
}

/// Nothing remains of blank text when it is trimmed.
pub proof fn lemma_trim_blank(s: Seq<char>)
    requires
        is_blank(s),
    ensures
        trim(s).len() == 0,
{
    lemma_trim_start(s, s.len() as int);
}

/// Lower case changes the capital ASCII letters, by the distance of the two alphabets, and no other
/// character.
pub proof fn law_lower_case_moves_capital_letters(s: Seq<char>, i: int)
    requires
        0 <= i < s.len(),
    ensures
        lower(s).len() == s.len(),
        65 <= s[i] as int <= 90 ==> lower(s)[i] as int == s[i] as int + 32,
        !(65 <= s[i] as int <= 90) ==> lower(s)[i] == s[i],
{
}

/// Two texts are equal when ASCII case is ignored exactly if they are as long and at each place
/// hold the same character, or the two forms of one ASCII letter.
pub proof fn law_equality_without_case(a: Seq<char>, b: Seq<char>)
    ensures
        equal_ci(a, b) <==> a.len() == b.len() && forall|i: int|
            0 <= i < a.len() ==> {
                ||| #[trigger] a[i] == b[i]
                ||| 65 <= a[i] as int <= 90 && b[i] as int == a[i] as int + 32
                ||| 65 <= b[i] as int <= 90 && a[i] as int == b[i] as int + 32
            },
{
    if equal_ci(a, b) {
        assert forall|i: int| 0 <= i < a.len() implies {
            ||| #[trigger] a[i] == b[i]
            ||| 65 <= a[i] as int <= 90 && b[i] as int == a[i] as int + 32
            ||| 65 <= b[i] as int <= 90 && a[i] as int == b[i] as int + 32
        } by {
            assert(lower(a)[i] == lower(b)[i]);
        }
    }
}

/// A text holds a needle exactly if it is the needle with something before it and something behind
/// it, and begins with it exactly if it is the needle with something behind it.
pub proof fn law_texts_hold_their_parts(before: Seq<char>, needle: Seq<char>, behind: Seq<char>)
    ensures
        contains(before + needle + behind, needle),
        begins_with(needle + behind, needle),
{
    let hay = before + needle + behind;
    let at = before.len() as int;
    assert(hay.subrange(at, at + needle.len()) =~= needle);
    assert(occurs_at(hay, needle, at));
    assert((needle + behind).subrange(0, needle.len() as int) =~= needle);
}

/// What a text holds or begins with is a part of it.
pub proof fn law_parts_lie_in_the_text(hay: Seq<char>, needle: Seq<char>)
    ensures
        contains(hay, needle) ==> exists|before: Seq<char>, behind: Seq<char>|
            hay == #[trigger] (before + needle + behind),
        begins_with(hay, needle) ==> hay == needle + hay.skip(needle.len() as int),
{
    if contains(hay, needle) {
        let at = choose|at: int| occurs_at(hay, needle, at);
        let before = hay.take(at);
        let behind = hay.skip(at + needle.len());
        assert(hay =~= before + needle + behind);
    }
    if begins_with(hay, needle) {
        assert(hay =~= hay.subrange(0, needle.len() as int) + hay.skip(needle.len() as int));
    }
}

/// ASCII case aside, a text holds a needle that stands anywhere in it, whatever the case of either.
pub proof fn law_texts_hold_their_parts_without_case(
    before: Seq<char>,
    needle: Seq<char>,
    behind: Seq<char>,
    wanted: Seq<char>,
)
    requires
        equal_ci(needle, wanted),
    ensures
        contains_ci(before + needle + behind, wanted),
{
    let hay = before + needle + behind;
    assert(lower(hay) =~= lower(before) + lower(needle) + lower(behind));
    law_texts_hold_their_parts(lower(before), lower(needle), lower(behind));
}

/// Without a part that equals the needle when ASCII case is ignored, a text does not hold it.
pub proof fn law_parts_lie_in_the_text_without_case(hay: Seq<char>, needle: Seq<char>)
    ensures
        contains_ci(hay, needle) ==> exists|at: int|
            0 <= at && at + needle.len() <= hay.len() && equal_ci(
                #[trigger] hay.subrange(at, at + needle.len()),
                needle,
            ),
{
    if contains_ci(hay, needle) {
        let at = choose|at: int| occurs_at(lower(hay), lower(needle), at);
        let part = hay.subrange(at, at + needle.len());
        assert(lower(part) =~= lower(hay).subrange(at, at + needle.len()));
        assert(equal_ci(part, needle));
    }
}

/// A token character is an ASCII letter, a digit or the underscore.
pub proof fn law_token_characters(c: char)
    ensures
        is_token_char(c) <==> 48 <= c as int <= 57 || 65 <= c as int <= 90 || c as int == 95 || 97
            <= c as int <= 122,
{
}

/// A word of token characters that stands between other characters, or at an end of the text, is
/// a token of it, whatever the case.
pub proof fn law_words_are_tokens(
    before: Seq<char>,
    word: Seq<char>,
    behind: Seq<char>,
    token: Seq<char>,
)
    requires
        forall|i: int| 0 <= i < word.len() ==> is_token_char(#[trigger] word[i]),
        before.len() == 0 || !is_token_char(before.last()),
        behind.len() == 0 || !is_token_char(behind[0]),
        equal_ci(word, token),
    ensures
        has_token(before + word + behind, token),
{
    let s = before + word + behind;
    let from = before.len() as int;
    let to = from + word.len();
    assert forall|k: int| from <= k < to implies is_token_char(#[trigger] s[k]) by {
        assert(s[k] == word[k - from]);
    }
    assert(is_piece(s, from, to));
    assert(s.subrange(from, to) =~= word);
}

/// A token of a text is such a word.
pub proof fn law_tokens_are_words(s: Seq<char>, token: Seq<char>)
    requires
        has_token(s, token),
    ensures
        exists|from: int, to: int|
            #![trigger s.subrange(from, to)]
            {
                &&& 0 <= from <= to <= s.len()
                &&& equal_ci(s.subrange(from, to), token)
                &&& forall|k: int| from <= k < to ==> is_token_char(#[trigger] s[k])
                &&& from > 0 ==> !is_token_char(s[from - 1])
                &&& to < s.len() ==> !is_token_char(s[to])
            },
{
    let (from, to) = choose|from: int, to: int| #[trigger]
        is_piece(s, from, to) && equal_ci(s.subrange(from, to), token);
    assert(equal_ci(s.subrange(from, to), token));
}

/// White space is what Unicode lists as such.
pub proof fn law_white_space_is_listed(c: char)
    ensures
        is_space(c) <==> seq![
            0x9int,
            0xa,
            0xb,
            0xc,
            0xd,
            0x20,
            0x85,
            0xa0,
            0x1680,
            0x2000,
            0x2001,
            0x2002,
            0x2003,
            0x2004,
            0x2005,
            0x2006,
            0x2007,
            0x2008,
            0x2009,
            0x200a,
            0x2028,
            0x2029,
            0x202f,
            0x205f,
            0x3000,
        ].contains(c as int),
{
    let listed = seq![
        0x9int,
        0xa,
        0xb,
        0xc,
        0xd,
        0x20,
        0x85,
        0xa0,
        0x1680,
        0x2000,
        0x2001,
        0x2002,
        0x2003,
        0x2004,
        0x2005,
        0x2006,
        0x2007,
        0x2008,
        0x2009,
        0x200a,
        0x2028,
        0x2029,
        0x202f,
        0x205f,
        0x3000,
    ];
    if is_space(c) {
        let code = c as int;
        let at = if code <= 0xd {
            code - 0x9
        } else if code == 0x20 {
            5
        } else if code == 0x85 {
            6
        } else if code == 0xa0 {
            7
        } else if code == 0x1680 {
            8
        } else if code <= 0x200a {
            9 + (code - 0x2000)
        } else if code == 0x2028 {
            20
        } else if code == 0x2029 {
            21
        } else if code == 0x202f {
            22
        } else if code == 0x205f {
            23
        } else {
            24
        };
        assert(listed[at] == code);
    }
}

/// Trimming gives back what stands between white space: text that neither begins nor ends with
/// white space, behind and in front of any amount of it.
pub proof fn law_trim_undoes_white_space(before: Seq<char>, kept: Seq<char>, behind: Seq<char>)
    requires
        is_blank(before),
        is_blank(behind),
        kept.len() > 0 ==> !is_space(kept[0]) && !is_space(kept.last()),
    ensures
        trim(before + kept + behind) == kept,
{
    let s = before + kept + behind;
    if kept.len() == 0 {
        assert(is_blank(s)) by {
            assert forall|i: int| 0 <= i < s.len() implies is_space(#[trigger] s[i]) by {
                if i < before.len() {
                    assert(s[i] == before[i]);
                } else {
                    assert(s[i] == behind[i - before.len()]);
                }
            }
        }
        lemma_trim_blank(s);
        assert(trim(s) =~= kept);
    } else {
        let n = before.len() as int;
        assert forall|k: int| 0 <= k < n implies is_space(#[trigger] s[k]) by {
            assert(s[k] == before[k]);
        }
        assert(s[n] == kept[0]);
        lemma_trim_start(s, n);
        let rest = s.subrange(n, s.len() as int);
        assert(rest =~= kept + behind);
        let m = kept.len() as int;
        assert forall|k: int| m <= k < rest.len() implies is_space(#[trigger] rest[k]) by {
            assert(rest[k] == behind[k - m]);
        }
        assert(rest[m - 1] == kept.last());
        lemma_trim_end(rest, m);
        assert(rest.subrange(0, m) =~= kept);
    }
}

/// A text is blank exactly if each of its characters is white space.
pub proof fn law_blank_texts(s: Seq<char>, i: int)
    requires
        0 <= i < s.len(),
    ensures
        is_blank(s) ==> is_space(s[i]),
        !is_space(s[i]) ==> !is_blank(s),
        is_blank(s) <==> trim(s).len() == 0,
{
    if is_blank(s) {
        lemma_trim_blank(s);
    } else {
        let k = choose|k: int| 0 <= k < s.len() && !is_space(#[trigger] s[k]);
        lemma_trim_keeps(s, k);
    }
}

/// Trimming keeps a character that is not white space.
proof fn lemma_trim_keeps(s: Seq<char>, k: int)
    requires
        0 <= k < s.len(),
        !is_space(s[k]),
    ensures
        trim(s).len() > 0,
    decreases s.len(),
{
    if is_space(s[0]) {
        assert(s.drop_first()[k - 1] == s[k]);
        lemma_trim_keeps(s.drop_first(), k - 1);
    } else {
        lemma_trim_end_keeps(s);
    }
}

/// Trimming the end keeps a first character that is not white space.
proof fn lemma_trim_end_keeps(s: Seq<char>)
    requires
        s.len() > 0,
        !is_space(s[0]),
    ensures
        trim_end(s).len() > 0,
    decreases s.len(),
{
    if s.len() > 1 && is_space(s.last()) {
        lemma_trim_end_keeps(s.drop_last());
    }
}

/// Decimal notation holds digits only and no leading zero.
pub proof fn law_decimal_has_no_leading_zero(n: nat, i: int)
    requires
        0 <= i < decimal(n).len(),
    ensures
        48 <= decimal(n)[i] as int <= 57,
        n > 0 ==> decimal(n)[0] as int != 48,
        n == 0 ==> decimal(n).len() == 1,
    decreases n,
{
    lemma_decimal(n);
    assert(is_digit(decimal(n)[i]));
    if n >= 10 {
        lemma_decimal(n / 10);
        law_decimal_has_no_leading_zero(n / 10, 0);
    }
}

/// The digits of a number count by their place: what stands in front of `k` digits counts `10` to
/// the power of `k` times, and a single digit counts as itself.
pub proof fn law_digits_count_by_place(a: Seq<char>, b: Seq<char>, d: nat)
    requires
        d < 10,
    ensures
        digits_value(a + b) == digits_value(a) * vstd::arithmetic::power::pow(10, b.len())
            + digits_value(b),
        digits_value(seq![((d as int) + 48) as char]) == d,
        digits_value(Seq::<char>::empty()) == 0,
    decreases b.len(),
{
    let one = seq![((d as int) + 48) as char];
    assert(one.drop_last() =~= Seq::<char>::empty());
    assert(digits_value(one.drop_last()) == 0);
    vstd::arithmetic::power::lemma_pow0(10);
    if b.len() == 0 {
        assert(a + b =~= a);
    } else {
        let init = b.drop_last();
        law_digits_count_by_place(a, init, d);
        assert((a + b).drop_last() =~= a + init);
        let p = vstd::arithmetic::power::pow(10, init.len());
        vstd::arithmetic::power::lemma_pow_adds(10, init.len(), 1);
        vstd::arithmetic::power::lemma_pow1(10);
        assert(vstd::arithmetic::power::pow(10, b.len()) == p * 10);
        assert((digits_value(a) * p + digits_value(init)) * 10 == digits_value(a) * (p * 10)
            + digits_value(init) * 10) by (nonlinear_arith);
    }
}

/// A number in text may have a plus sign and leading zeros; it is refused if it is empty, holds
/// another character than digits, or is too large.
pub proof fn law_numbers_in_text(digits: Seq<char>, max: nat)
    ensures
        digits.len() > 0 && (forall|i: int|
            0 <= i < digits.len() ==> 48 <= #[trigger] digits[i] as int <= 57) ==> {
            &&& unsigned_value(digits, max) == (if digits_value(digits) <= max {
                Some(digits_value(digits))
            } else {
                None
            })
            &&& unsigned_value(seq!['+'] + digits, max) == unsigned_value(digits, max)
            &&& unsigned_value(seq!['0'] + digits, max) == unsigned_value(digits, max)
        },
        unsigned_value(Seq::empty(), max) is None,
        unsigned_value(seq!['+'], max) is None,
{
    let plus = seq!['+'] + digits;
    let zero = seq!['0'] + digits;
    assert(plus.drop_first() =~= digits);
    assert(seq!['+'].drop_first() =~= Seq::<char>::empty());
    if digits.len() > 0 && (forall|i: int|
        0 <= i < digits.len() ==> 48 <= #[trigger] digits[i] as int <= 57) {
        assert(is_digit(digits[0]));
        assert forall|i: int| 0 <= i < zero.len() implies is_digit(#[trigger] zero[i]) by {
            if i > 0 {
                assert(zero[i] == digits[i - 1]);
            }
        }
        law_digits_count_by_place(seq!['0'], digits, 0);
        assert(seq!['0'] =~= seq![((0 as int) + 48) as char]);
        assert(0 * vstd::arithmetic::power::pow(10, digits.len()) == 0);
    }
}

/// A text with a character that is not a digit, but for a plus sign in front, is no number.
pub proof fn law_other_text_is_no_number(s: Seq<char>, i: int, max: nat)
    requires
        0 <= i < s.len(),
        !(48 <= s[i] as int <= 57),
        i > 0 || s[i] != '+',
    ensures
        unsigned_value(s, max) is None,
{
    let digits = unsigned_digits(s);
    let k = if s[0] == '+' {
        i - 1
    } else {
        i
    };
    assert(digits[k] == s[i]);
    assert(!is_digit(digits[k]));
}

/// Joined lists are joined with one separator between them.
pub proof fn law_joining_lists(a: Seq<Seq<char>>, b: Seq<Seq<char>>, one: Seq<char>, sep: Seq<char>)
    ensures
        a.len() > 0 && b.len() > 0 ==> join(a + b, sep) == join(a, sep) + sep + join(b, sep),
        join(seq![one], sep) == one,
        join(Seq::empty(), sep) == Seq::<char>::empty(),
    decreases b.len(),
{
    if a.len() > 0 && b.len() > 0 {
        assert((a + b).drop_last() =~= a + b.drop_last());
        assert((a + b).last() == b.last());
        if b.len() == 1 {
            assert(a + b.drop_last() =~= a);
        } else {
            law_joining_lists(a, b.drop_last(), one, sep);
            assert(join(a + b, sep) =~= join(a, sep) + sep + join(b, sep));
        }
    }
}

/// One text comes before another exactly if it is a beginning of it, or has the lower character at
/// the first place at which they differ.
pub proof fn law_order_goes_by_the_first_difference(a: Seq<char>, b: Seq<char>, k: int)
    requires
        0 <= k <= a.len(),
        k <= b.len(),
        a.take(k) == b.take(k),
        k < a.len() && k < b.len() ==> a[k] != b[k],
    ensures
        text_before(a, b) <==> k < b.len() && (k == a.len() || (a[k] as int) < (b[k] as int)),
    decreases k,
{
    if k > 0 {
        assert(a.take(k)[0] == a[0] && b.take(k)[0] == b[0]);
        let ra = a.drop_first();
        let rb = b.drop_first();
        assert(ra.take(k - 1) =~= a.take(k).drop_first());
        assert(rb.take(k - 1) =~= b.take(k).drop_first());
        law_order_goes_by_the_first_difference(ra, rb, k - 1);
    }
}

/// The views of texts show each text at its place.
pub proof fn law_texts_are_shown_in_place(parts: Seq<String>, i: int)
    requires
        0 <= i < parts.len(),
    ensures
        views(parts).len() == parts.len(),
        views(parts)[i] == parts[i]@,
{
}

} // verus!
