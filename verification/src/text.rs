//! Character and string helpers shared by the rest of the library.
use vstd::prelude::*;
use vstd::string::StrSliceExecFns;

verus! {

/// Appends one character to a `String` (`String::push`).
#[verifier::external_body]
pub(crate) fn push_char(s: &mut String, c: char)
    ensures
        final(s)@ == old(s)@.push(c),
{
    s.push(c);
}

/// Whether two string slices hold the same characters (`<str as PartialEq>::eq`).
#[verifier::external_body]
pub(crate) fn str_eq(a: &str, b: &str) -> (r: bool)
    ensures
        r == (a@ == b@),
{
    a == b
}

/// Characters that carry a meaning in regular expressions.
pub open spec fn is_regex_meta(c: char) -> bool {
    c == '\\' || c == '^' || c == '$' || c == '*' || c == '+' || c == '?' || c == '{' || c == '}'
        || c == '(' || c == ')' || c == '[' || c == ']' || c == '|'
}

/// The escaped form of `s`: every regex meta character is preceded by a backslash.
pub open spec fn spec_escape_regex(s: Seq<char>) -> Seq<char>
    decreases s.len(),
{
    if s.len() == 0 {
        Seq::empty()
    } else {
        let prefix = spec_escape_regex(s.drop_last());
        let c = s.last();
        if is_regex_meta(c) {
            prefix.push('\\').push(c)
        } else {
            prefix.push(c)
        }
    }
}

/// Escapes the regex meta characters of `input` with a backslash.
pub fn escape_regex(input: &str) -> (r: String)
    ensures
        r@ == spec_escape_regex(input@),
{
    let mut buf = String::new();
    for ch in it: input.chars()
        invariant
            it.seq() == input@,
            buf@ == spec_escape_regex(input@.take(it.index() as int)),
    {
        proof {
            let i = it.index() as int;
            assert(input@.take(i + 1).drop_last() =~= input@.take(i));
        }
        if is_meta(ch) {
            push_char(&mut buf, '\\');
        }
        push_char(&mut buf, ch);
    }
    proof {
        assert(input@.take(input@.len() as int) =~= input@);
    }
    buf
}

/// Reads an escaped text back, left to right: a backslash is dropped and the character
/// after it copied as it stands; every other character is copied (as is a backslash that
/// ends the text).
pub open spec fn spec_unescape_regex(t: Seq<char>) -> Seq<char>
    decreases t.len(),
{
    if t.len() == 0 {
        Seq::empty()
    } else if t[0] == '\\' && t.len() >= 2 {
        seq![t[1]] + spec_unescape_regex(t.subrange(2, t.len() as int))
    } else {
        seq![t[0]] + spec_unescape_regex(t.drop_first())
    }
}

/// Escaping a concatenation escapes each part.
proof fn lemma_escape_concat(a: Seq<char>, b: Seq<char>)
    ensures
        spec_escape_regex(a + b) == spec_escape_regex(a) + spec_escape_regex(b),
    decreases b.len(),
{
    if b.len() == 0 {
        assert(a + b =~= a);
        assert(spec_escape_regex(a) + spec_escape_regex(b) =~= spec_escape_regex(a));
    } else {
        let c = b.last();
        assert((a + b).drop_last() =~= a + b.drop_last());
        assert((a + b).last() == c);
        lemma_escape_concat(a, b.drop_last());
        let ea = spec_escape_regex(a);
        let eb = spec_escape_regex(b.drop_last());
        if is_regex_meta(c) {
            assert((ea + eb).push('\\').push(c) =~= ea + eb.push('\\').push(c));
        } else {
            assert((ea + eb).push(c) =~= ea + eb.push(c));
        }
    }
}

/// Escaping is undone by reading the text back: un-escaping what `escape_regex` gives
/// yields the input again, whatever it holds.
pub proof fn lemma_unescape_escape_regex(s: Seq<char>)
    ensures
        spec_unescape_regex(spec_escape_regex(s)) == s,
    decreases s.len(),
{
    if s.len() > 0 {
        let c = s[0];
        let rest = s.drop_first();
        assert(s =~= seq![c] + rest);
        lemma_escape_concat(seq![c], rest);
        assert(seq![c].drop_last() =~= Seq::<char>::empty());
        assert(spec_escape_regex(Seq::<char>::empty()) =~= Seq::<char>::empty());
        assert(spec_escape_regex(seq![c].drop_last()) =~= Seq::<char>::empty());
        assert(seq![c].last() == c);
        let er = spec_escape_regex(rest);
        lemma_unescape_escape_regex(rest);
        if is_regex_meta(c) {
            assert(spec_escape_regex(seq![c]) =~= seq!['\\', c]);
            let t = seq!['\\', c] + er;
            assert(t.subrange(2, t.len() as int) =~= er);
            assert(spec_unescape_regex(t) =~= seq![c] + rest);
        } else {
            assert(spec_escape_regex(seq![c]) =~= seq![c]);
            let t = seq![c] + er;
            assert(t.drop_first() =~= er);
            assert(spec_unescape_regex(t) =~= seq![c] + rest);
        }
    }
}

/// Executable form of [`is_regex_meta`].
fn is_meta(ch: char) -> (r: bool)
    ensures
        r == is_regex_meta(ch),
{
    match ch {
        '\\' | '^' | '$' | '*' | '+' | '?' | '{' | '}' | '(' | ')' | '[' | ']' | '|' => true,
        _ => false,
    }
}


/// The value of a string of decimal digits.
pub open spec fn digits_value(s: Seq<char>) -> int
    decreases s.len(),
{
    if s.len() == 0 {
        0
    } else {
        digits_value(s.drop_last()) * 10 + (s.last() as int - '0' as int)
    }
}

/// Every character is an ASCII decimal digit.
pub open spec fn all_digits(s: Seq<char>) -> bool {
    forall|i: int| 0 <= i < s.len() ==> '0' <= #[trigger] s[i] <= '9'
}

/// What `i64::from_str` makes of a text: an optional `+` or `-`, then one or more
/// decimal digits, whose value must fit in an `i64`.
pub open spec fn spec_parse_i64(s: Seq<char>) -> Option<i64> {
    let neg = s.len() > 0 && s[0] == '-';
    let body = if s.len() > 0 && (s[0] == '-' || s[0] == '+') {
        s.drop_first()
    } else {
        s
    };
    let v = if neg {
        -digits_value(body)
    } else {
        digits_value(body)
    };
    if body.len() == 0 || !all_digits(body) {
        None
    } else if i64::MIN <= v <= i64::MAX {
        Some(v as i64)
    } else {
        None
    }
}

/// The value of a run of digits is not negative.
proof fn lemma_digits_value_nonneg(s: Seq<char>)
    requires
        all_digits(s),
    ensures
        digits_value(s) >= 0,
    decreases s.len(),
{
    if s.len() > 0 {
        assert(all_digits(s.drop_last()));
        lemma_digits_value_nonneg(s.drop_last());
        assert('0' <= s[s.len() - 1] <= '9');
    }
}

/// A run of digits is worth at least any of its prefixes.
proof fn lemma_digits_value_prefix(s: Seq<char>, k: int)
    requires
        all_digits(s),
        0 <= k <= s.len(),
    ensures
        digits_value(s.take(k)) <= digits_value(s),
    decreases s.len(),
{
    if k < s.len() {
        let d = s.drop_last();
        assert(all_digits(d));
        assert(d.take(k) =~= s.take(k));
        lemma_digits_value_prefix(d, k);
        lemma_digits_value_nonneg(d);
        assert('0' <= s[s.len() - 1] <= '9');
    } else {
        assert(s.take(k) =~= s);
    }
}

/// Parses a whole number as `<i64 as FromStr>::from_str` does: an optional sign, then
/// one or more decimal digits whose value fits.
pub(crate) fn parse_i64(s: &str) -> (r: Option<i64>)
    ensures
        r == spec_parse_i64(s@),
{
    let len = s.unicode_len();
    let mut start: usize = 0;
    let mut neg = false;
    if len > 0 {
        let c0 = s.get_char(0);
        if c0 == '-' {
            neg = true;
            start = 1;
        } else if c0 == '+' {
            start = 1;
        }
    }
    let ghost body = s@.subrange(start as int, len as int);
    assert(body =~= (if s@.len() > 0 && (s@[0] == '-' || s@[0] == '+') {
        s@.drop_first()
    } else {
        s@
    }));
    if start == len {
        return None;
    }
    let mut acc: u128 = 0;
    let mut k: usize = start;
    assert(s@.subrange(start as int, start as int) =~= Seq::<char>::empty());
    while k < len
        invariant
            start <= k <= len,
            len == s@.len(),
            body == s@.subrange(start as int, len as int),
            body == (if s@.len() > 0 && (s@[0] == '-' || s@[0] == '+') {
                s@.drop_first()
            } else {
                s@
            }),
            acc == digits_value(s@.subrange(start as int, k as int)),
            all_digits(s@.subrange(start as int, k as int)),
            acc <= 0x8000_0000_0000_0000u128,
        decreases len - k,
    {
        let c = s.get_char(k);
        assert(body[k - start] == c);
        if !('0' <= c && c <= '9') {
            assert(!all_digits(body));
            return None;
        }
        let ghost before = s@.subrange(start as int, k as int);
        let ghost after = s@.subrange(start as int, k + 1);
        assert(after.drop_last() =~= before);
        assert(after.last() == c);
        assert(all_digits(after));
        let d: u128 = ((c as u32) - 48) as u128;
        acc = acc * 10 + d;
        assert(acc == digits_value(after));
        if acc > 0x8000_0000_0000_0000u128 {
            proof {
                if all_digits(body) {
                    assert(body.take(k + 1 - start) =~= after);
                    lemma_digits_value_prefix(body, k + 1 - start);
                }
            }
            return None;
        }
        k = k + 1;
    }
    assert(s@.subrange(start as int, len as int) =~= body);
    if neg {
        let v: i128 = -(acc as i128);
        Some(v as i64)
    } else if acc <= 0x7fff_ffff_ffff_ffffu128 {
        Some(acc as i64)
    } else {
        None
    }
}

/// The text of an optional string.
pub open spec fn opt_text(s: Option<String>) -> Option<Seq<char>> {
    match s {
        Some(t) => Some(t@),
        None => None,
    }
}

/// The value of a query parameter, where it is present and not empty.
pub open spec fn non_empty(s: Option<String>) -> Option<Seq<char>> {
    match s {
        Some(t) => if t@.len() > 0 {
            Some(t@)
        } else {
            None
        },
        None => None,
    }
}

/// A copy of a query parameter, where it is present and not empty.
pub fn non_empty_param(s: &Option<String>) -> (r: Option<String>)
    ensures
        opt_text(r) == non_empty(*s),
{
    match s {
        Some(t) => if t.as_str().unicode_len() > 0 {
            Some(t.clone())
        } else {
            None
        },
        None => None,
    }
}

/// At most the first `n` characters of `s`.
pub open spec fn prefix_chars(s: Seq<char>, n: int) -> Seq<char> {
    if s.len() <= n {
        s
    } else {
        s.take(n)
    }
}

/// The first (at most) `n` characters of a text.
pub fn take_chars(s: &str, n: usize) -> (r: String)
    ensures
        r@ == prefix_chars(s@, n as int),
{
    let len = s.unicode_len();
    let end = if len <= n {
        len
    } else {
        n
    };
    let part = s.substring_char(0, end);
    proof {
        assert(s@.subrange(0, end as int) =~= prefix_chars(s@, n as int));
    }
    part.to_owned()
}

/// What `i32::from_str` makes of a text: an optional `+` or `-`, then one or more
/// decimal digits, whose value must fit in an `i32`.
pub open spec fn spec_parse_i32(s: Seq<char>) -> Option<i32> {
    match spec_parse_i64(s) {
        Some(v) => if i32::MIN <= v <= i32::MAX {
            Some(v as i32)
        } else {
            None
        },
        None => None,
    }
}

/// Parses a whole number as `<i32 as FromStr>::from_str` does.
pub(crate) fn parse_i32(s: &str) -> (r: Option<i32>)
    ensures
        r == spec_parse_i32(s@),
{
    match parse_i64(s) {
        Some(v) => if -0x8000_0000i64 <= v && v <= 0x7fff_ffffi64 {
            Some(v as i32)
        } else {
            None
        },
        None => None,
    }
}

/// The decimal digit character of `d` (`0 <= d < 10`).
pub open spec fn digit_char(d: int) -> char {
    (48 + d) as char
}

/// The decimal digits of a natural number, most significant first.
pub open spec fn nat_digits(n: nat) -> Seq<char>
    decreases n,
{
    if n < 10 {
        seq![digit_char(n as int)]
    } else {
        nat_digits(n / 10).push(digit_char((n % 10) as int))
    }
}

/// The decimal text of an integer, with a leading `-` when negative.
pub open spec fn int_text(v: int) -> Seq<char> {
    if v < 0 {
        seq!['-'] + nat_digits((-v) as nat)
    } else {
        nat_digits(v as nat)
    }
}

/// The decimal text of an integer, as `Display` writes it: a `-` where it is negative,
/// then the digits of its magnitude, most significant first.
pub(crate) fn wide_text(v: i128) -> (r: String)
    ensures
        r@ == int_text(v as int),
{
    let neg = v < 0;
    let mut m: u128 = if neg {
        ((-(v + 1)) as u128) + 1
    } else {
        v as u128
    };
    let ghost n: nat = m as nat;
    assert(n == (if v < 0 { -v } else { v as int }));
    let mut digits: Vec<char> = Vec::new();
    while m >= 10
        invariant
            nat_digits(n) == nat_digits(m as nat) + digits@,
        decreases m,
    {
        let d: u8 = (m % 10) as u8;
        let c: char = (48u8 + d) as char;
        let ghost prev = digits@;
        proof {
            assert(c == digit_char(d as int));
            assert(nat_digits(m as nat) == nat_digits((m / 10) as nat).push(c));
            assert(nat_digits((m / 10) as nat).push(c) + prev =~= nat_digits((m / 10) as nat) + (seq![c]
                + prev));
        }
        digits.insert(0, c);
        assert(digits@ =~= seq![c] + prev);
        m = m / 10;
    }
    let c: char = (48u8 + (m as u8)) as char;
    assert(c == digit_char(m as int));
    let ghost prev = digits@;
    digits.insert(0, c);
    assert(digits@ =~= seq![c] + prev);
    assert(nat_digits(n) =~= digits@);
    let mut buf = if neg {
        String::from_str("-")
    } else {
        String::new()
    };
    proof {
        reveal_strlit("-");
    }
    let ghost start = buf@;
    assert(start == (if neg { seq!['-'] } else { Seq::<char>::empty() }));
    for i in 0..digits.len()
        invariant
            buf@ == start + digits@.take(i as int),
    {
        push_char(&mut buf, digits[i]);
        assert(start + digits@.take(i + 1) =~= (start + digits@.take(i as int)).push(digits@[i as int]));
    }
    assert(digits@.take(digits@.len() as int) =~= digits@);
    assert(buf@ =~= start + digits@);
    buf
}

/// The decimal text of an integer, as `Display` writes it.
pub(crate) fn i64_text(v: i64) -> (r: String)
    ensures
        r@ == int_text(v as int),
{
    wide_text(v as i128)
}

} // verus!
