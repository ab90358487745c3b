//! Text: the operations on strings that the broker needs, each stated over
//! the characters of the string.
use vstd::prelude::*;
use vstd::utf8::{decode_utf8, valid_utf8};

verus! {

/// `String::push`: appends one character.
pub assume_specification[ String::push ](s: &mut String, c: char)
    ensures
        final(s)@ == old(s)@.push(c),
;

/// `str::eq`: two strings are equal when they hold the same characters.
pub assume_specification[ <str as PartialEq>::eq ](a: &str, b: &str) -> (r: bool)
    ensures
        r == (a@ == b@),
;

/// The text of the error of `String::from_utf8` on a byte string.
pub uninterp spec fn utf8_fault(bytes: Seq<u8>) -> Seq<char>;

/// `String::from_utf8`: succeeds on well-formed UTF-8 alone, and then holds the
/// characters that the bytes encode; the text of the error depends on the bytes
/// alone.
#[verifier::external_body]
pub(crate) fn from_utf8(bytes: Vec<u8>) -> (r: Result<String, String>)
    ensures
        match r {
            Ok(s) => valid_utf8(bytes@) && s@ == decode_utf8(bytes@),
            Err(e) => !valid_utf8(bytes@) && e@ == utf8_fault(bytes@),
        },
{
    match String::from_utf8(bytes) {
        Ok(s) => Ok(s),
        Err(e) => Err(e.to_string()),
    }
}

/// The text that `String::from_utf8_lossy` makes of a byte string.
pub uninterp spec fn lossy_text(bytes: Seq<u8>) -> Seq<char>;

/// `String::from_utf8_lossy`: the result depends on the bytes alone, and is
/// the text that they encode where they are well-formed UTF-8. Which
/// replacement characters stand for ill-formed parts is left unsaid.
#[verifier::external_body]
pub(crate) fn from_utf8_lossy(bytes: &[u8]) -> (r: String)
    ensures
        r@ == lossy_text(bytes@),
        valid_utf8(bytes@) ==> r@ == decode_utf8(bytes@),
{
    String::from_utf8_lossy(bytes).into_owned()
}

/// The texts of a list of strings.
pub open spec fn texts(list: Seq<String>) -> Seq<Seq<char>> {
    list.map_values(|s: String| s@)
}

/// The text of an optional string.
pub open spec fn opt_text(s: Option<String>) -> Option<Seq<char>> {
    match s {
        Some(t) => Some(t@),
        None => None,
    }
}

/// The text of an optional string slice.
pub open spec fn opt_str(s: Option<&str>) -> Option<Seq<char>> {
    match s {
        Some(t) => Some(t@),
        None => None,
    }
}

/// Copies an optional string.
pub fn clone_option(s: &Option<String>) -> (r: Option<String>)
    ensures
        opt_text(r) == opt_text(*s),
{
    match s {
        Some(s) => Some(s.clone()),
        None => None,
    }
}

/// Borrows an optional string.
pub fn borrow_option(s: &Option<String>) -> (r: Option<&str>)
    ensures
        opt_str(r) == opt_text(*s),
{
    match s {
        Some(s) => Some(s.as_str()),
        None => None,
    }
}

/// Copies a list of strings.
pub fn clone_list(list: &[String]) -> (r: Vec<String>)
    ensures
        r@ == list@,
{
    let mut out: Vec<String> = Vec::new();
    for i in 0..list.len()
        invariant
            out@ == list@.take(i as int),
    {
        out.push(list[i].clone());
    }
    assert(list@.take(list@.len() as int) == list@);
    out
}

/// Whether a list of strings holds a given text.
pub fn list_contains(list: &[String], wanted: &str) -> (r: bool)
    ensures
        r == texts(list@).contains(wanted@),
{
    for i in 0..list.len()
        invariant
            forall|j: int| 0 <= j < i ==> texts(list@)[j] != wanted@,
    {
        if *list[i].as_str() == *wanted {
            assert(texts(list@)[i as int] == wanted@);
            return true;
        }
    }
    false
}

/// The characters of a string.
pub fn chars_of(s: &str) -> (r: Vec<char>)
    ensures
        r@ == s@,
{
    let mut out: Vec<char> = Vec::new();
    for c in it: s.chars()
        invariant
            it.seq() == s@,
            out@ == s@.take(it.index() as int),
    {
        out.push(c);
    }
    out
}

/// The string made of the characters from `from` up to, not including, `to`.
pub fn string_of(chars: &[char], from: usize, to: usize) -> (r: String)
    requires
        from <= to <= chars@.len(),
    ensures
        r@ == chars@.subrange(from as int, to as int),
{
    let mut out = String::new();
    for i in from..to
        invariant
            from <= i <= to <= chars@.len(),
            out@ == chars@.subrange(from as int, i as int),
    {
        out.push(chars[i]);
    }
    out
}

/// Whether `s` begins with `prefix`.
pub open spec fn has_prefix(s: Seq<char>, prefix: Seq<char>) -> bool {
    prefix.len() <= s.len() && s.take(prefix.len() as int) == prefix
}

/// What follows `prefix` in a string that begins with it.
pub fn strip_prefix(s: &str, prefix: &str) -> (r: Option<String>)
    ensures
        match r {
            Some(rest) => has_prefix(s@, prefix@) && rest@ == s@.skip(prefix@.len() as int),
            None => !has_prefix(s@, prefix@),
        },
{
    let chars = chars_of(s);
    let wanted = chars_of(prefix);
    if wanted.len() > chars.len() {
        return None;
    }
    for i in 0..wanted.len()
        invariant
            chars@ == s@,
            wanted@ == prefix@,
            wanted@.len() <= chars@.len(),
            s@.take(i as int) == prefix@.take(i as int),
    {
        if chars[i] != wanted[i] {
            assert(s@.take(prefix@.len() as int)[i as int] != prefix@[i as int]);
            return None;
        }
        assert(s@.take(i + 1) =~= s@.take(i as int).push(s@[i as int]));
        assert(prefix@.take(i + 1) =~= prefix@.take(i as int).push(prefix@[i as int]));
    }
    assert(prefix@.take(prefix@.len() as int) =~= prefix@);
    Some(string_of(&chars, wanted.len(), chars.len()))
}

/// Whether `needle` occurs in `s` at position `at`.
pub open spec fn occurs_at(s: Seq<char>, needle: Seq<char>, at: int) -> bool {
    0 <= at && at + needle.len() <= s.len() && s.subrange(at, at + needle.len()) == needle
}

/// Whether `needle` occurs somewhere in `s`.
pub open spec fn occurs_in(s: Seq<char>, needle: Seq<char>) -> bool {
    exists|at: int| occurs_at(s, needle, at)
}

/// Whether `needle` occurs somewhere in `s`.
pub fn contains_text(s: &str, needle: &str) -> (r: bool)
    ensures
        r == occurs_in(s@, needle@),
{
    let chars = chars_of(s);
    let wanted = chars_of(needle);
    if wanted.len() > chars.len() {
        return false;
    }
    let last: usize = chars.len() - wanted.len();
    let mut at: usize = 0;
    while at <= last
        invariant
            chars@ == s@,
            wanted@ == needle@,
            last + wanted@.len() == chars@.len(),
            chars@.len() <= usize::MAX,
            at <= last + 1,
            forall|p: int| 0 <= p < at ==> !occurs_at(s@, needle@, p),
        decreases last + 1 - at,
    {
        let mut i: usize = 0;
        while i < wanted.len() && chars[at + i] == wanted[i]
            invariant
                chars@ == s@,
                wanted@ == needle@,
                last + wanted@.len() == chars@.len(),
                chars@.len() <= usize::MAX,
                at <= last,
                i <= wanted@.len(),
                forall|k: int| 0 <= k < i ==> chars@[at + k] == #[trigger] wanted@[k],
            decreases wanted@.len() - i,
        {
            i += 1;
        }
        if i == wanted.len() {
            assert(s@.subrange(at as int, at + needle@.len()) =~= needle@);
            assert(occurs_at(s@, needle@, at as int));
            return true;
        }
        assert(!occurs_at(s@, needle@, at as int)) by {
            assert(s@.subrange(at as int, at + needle@.len())[i as int] != needle@[i as int]);
        }
        if at == last {
            return false;
        }
        at += 1;
    }
    false
}

/// The pieces one after another, with `sep` between neighbours.
pub open spec fn joined(pieces: Seq<Seq<char>>, sep: Seq<char>) -> Seq<char>
    decreases pieces.len(),
{
    if pieces.len() == 0 {
        Seq::empty()
    } else if pieces.len() == 1 {
        pieces[0]
    } else {
        joined(pieces.drop_last(), sep) + sep + pieces.last()
    }
}

/// Puts the pieces one after another, with `sep` between neighbours.
pub fn join(pieces: &[String], sep: &str) -> (r: String)
    ensures
        r@ == joined(texts(pieces@), sep@),
{
    let mut out = String::new();
    for i in 0..pieces.len()
        invariant
            out@ == joined(texts(pieces@).take(i as int), sep@),
    {
        if i > 0 {
            out.append(sep);
        }
        out.append(pieces[i].as_str());
        assert(texts(pieces@).take(i + 1).drop_last() =~= texts(pieces@).take(i as int));
    }
    assert(texts(pieces@).take(pieces@.len() as int) =~= texts(pieces@));
    out
}

/// An ASCII lower-case letter as its capital; any other character as it is.
pub open spec fn upper_char(c: char) -> char {
    if 'a' <= c <= 'z' {
        ((c as u32) - 32) as char
    } else {
        c
    }
}

/// An ASCII capital as its lower-case letter; any other character as it is.
pub open spec fn lower_char(c: char) -> char {
    if 'A' <= c <= 'Z' {
        ((c as u32) + 32) as char
    } else {
        c
    }
}

/// A text with its ASCII letters as capitals.
pub open spec fn ascii_upper(s: Seq<char>) -> Seq<char> {
    s.map_values(|c: char| upper_char(c))
}

/// A text with its ASCII letters in lower case.
pub open spec fn ascii_lower(s: Seq<char>) -> Seq<char> {
    s.map_values(|c: char| lower_char(c))
}

/// An ASCII capital as its lower-case letter; any other character as it is.
pub fn to_lower(c: char) -> (r: char)
    ensures
        r == lower_char(c),
{
    if 'A' <= c && c <= 'Z' {
        ((c as u8) + 32) as char
    } else {
        c
    }
}

/// A copy of `s` with its ASCII letters as capitals.
pub fn to_ascii_uppercase(s: &str) -> (r: String)
    ensures
        r@ == ascii_upper(s@),
{
    let mut out = String::new();
    for c in it: s.chars()
        invariant
            it.seq() == s@,
            out@ == ascii_upper(s@.take(it.index() as int)),
    {
        let ghost done = it.index() as int;
        let up = if 'a' <= c && c <= 'z' {
            ((c as u8) - 32) as char
        } else {
            c
        };
        out.push(up);
        assert(s@.take(done + 1) =~= s@.take(done).push(c));
        assert(ascii_upper(s@.take(done + 1)) =~= ascii_upper(s@.take(done)).push(up));
    }
    assert(s@.take(s@.len() as int) =~= s@);
    out
}

/// White space, as the Unicode property of that name has it.
pub open spec fn is_space(c: char) -> bool {
    ||| '\u{9}' <= c <= '\u{d}'
    ||| c == ' '
    ||| c == '\u{85}'
    ||| c == '\u{a0}'
    ||| c == '\u{1680}'
    ||| '\u{2000}' <= c <= '\u{200a}'
    ||| c == '\u{2028}'
    ||| c == '\u{2029}'
    ||| c == '\u{202f}'
    ||| c == '\u{205f}'
    ||| c == '\u{3000}'
}

fn char_is_space(c: char) -> (r: bool)
    ensures
        r == is_space(c),
{
    ('\u{9}' <= c && c <= '\u{d}') || c == ' ' || c == '\u{85}' || c == '\u{a0}' || c == '\u{1680}' || (
    '\u{2000}' <= c && c <= '\u{200a}') || c == '\u{2028}' || c == '\u{2029}' || c == '\u{202f}' || c
        == '\u{205f}' || c == '\u{3000}'
}

/// A text without the white space in front.
pub open spec fn trimmed_start(s: Seq<char>) -> Seq<char>
    decreases s.len(),
{
    if s.len() > 0 && is_space(s[0]) {
        trimmed_start(s.drop_first())
    } else {
        s
    }
}

/// A text without the white space at its end.
pub open spec fn trimmed_end(s: Seq<char>) -> Seq<char>
    decreases s.len(),
{
    if s.len() > 0 && is_space(s.last()) {
        trimmed_end(s.drop_last())
    } else {
        s
    }
}

/// A text without the white space around it.
pub open spec fn trimmed(s: Seq<char>) -> Seq<char> {
    trimmed_end(trimmed_start(s))
}

/// A copy of `s` without the white space around it.
pub fn trim(s: &str) -> (r: String)
    ensures
        r@ == trimmed(s@),
{
    let chars = chars_of(s);
    let mut from: usize = 0;
    assert(s@.skip(0) =~= s@);
    while from < chars.len() && char_is_space(chars[from])
        invariant
            chars@ == s@,
            from <= chars@.len(),
            trimmed_start(s@) == trimmed_start(s@.skip(from as int)),
        decreases chars@.len() - from,
    {
        assert(s@.skip(from as int).drop_first() =~= s@.skip(from + 1));
        from += 1;
    }
    let ghost rest = s@.skip(from as int);
    assert(trimmed_start(s@) == rest);
    let mut to: usize = chars.len();
    assert(s@.subrange(from as int, to as int) =~= rest);
    while to > from && char_is_space(chars[to - 1])
        invariant
            chars@ == s@,
            from <= to <= chars@.len(),
            trimmed_end(rest) == trimmed_end(s@.subrange(from as int, to as int)),
        decreases to,
    {
        assert(s@.subrange(from as int, to as int).drop_last() =~= s@.subrange(
            from as int,
            to - 1,
        ));
        to -= 1;
    }
    string_of(&chars, from, to)
}

/// The decimal digit of a number below ten.
pub open spec fn digit_char(d: nat) -> char {
    (48 + d) as char
}

/// A natural number in decimal, without leading zeros.
pub open spec fn decimal(n: nat) -> Seq<char>
    decreases n,
{
    if n < 10 {
        seq![digit_char(n)]
    } else {
        decimal(n / 10).push(digit_char(n % 10))
    }
}

/// An integer in decimal, with a minus sign in front where it is negative.
pub open spec fn signed_decimal(n: int) -> Seq<char> {
    if n < 0 {
        seq!['-'] + decimal((-n) as nat)
    } else {
        decimal(n as nat)
    }
}

/// Writes a number in decimal.
pub fn decimal_text(n: u64) -> (r: String)
    ensures
        r@ == decimal(n as nat),
    decreases n,
{
    let digit = (48u8 + (n % 10) as u8) as char;
    let mut out = if n < 10 {
        String::new()
    } else {
        decimal_text(n / 10)
    };
    out.push(digit);
    out
}

/// Writes an integer in decimal.
pub fn signed_decimal_text(n: i64) -> (r: String)
    ensures
        r@ == signed_decimal(n as int),
{
    if n < 0 {
        let magnitude: i128 = -(n as i128);
        let mut out = String::new();
        out.push('-');
        out.append(decimal_text(magnitude as u64).as_str());
        out
    } else {
        decimal_text(n as u64)
    }
}

/// Whether a text consists of decimal digits.
pub open spec fn all_digits(s: Seq<char>) -> bool {
    forall|i: int| 0 <= i < s.len() ==> '0' <= #[trigger] s[i] <= '9'
}

/// The number that a text of decimal digits stands for.
pub open spec fn digits_value(s: Seq<char>) -> nat
    decreases s.len(),
{
    if s.len() == 0 {
        0
    } else {
        10 * digits_value(s.drop_last()) + (s.last() as u32 - 48) as nat
    }
}

/// The 64-bit integer that a text denotes: an optional sign, then one or more
/// digits and nothing else, in range.
pub open spec fn parsed_i64(s: Seq<char>) -> Option<int> {
    let negative = s.len() > 0 && s[0] == '-';
    let signed = negative || (s.len() > 0 && s[0] == '+');
    let digits = if signed {
        s.skip(1)
    } else {
        s
    };
    let value = if negative {
        -(digits_value(digits) as int)
    } else {
        digits_value(digits) as int
    };
    if digits.len() > 0 && all_digits(digits) && i64::MIN <= value <= i64::MAX {
        Some(value)
    } else {
        None
    }
}

proof fn lemma_digits_value_grows(s: Seq<char>, i: int)
    requires
        0 <= i <= s.len(),
    ensures
        digits_value(s.take(i)) <= digits_value(s),
    decreases s.len() - i,
{
    if i == s.len() {
        assert(s.take(i) =~= s);
    } else {
        assert(s.take(i + 1).drop_last() =~= s.take(i));
        lemma_digits_value_grows(s, i + 1);
    }
}

/// Reads a 64-bit integer.
pub fn parse_i64(s: &str) -> (r: Option<i64>)
    ensures
        match r {
            Some(n) => parsed_i64(s@) == Some(n as int),
            None => parsed_i64(s@) is None,
        },
{
    let chars = chars_of(s);
    let negative = chars.len() > 0 && chars[0] == '-';
    let signed = negative || (chars.len() > 0 && chars[0] == '+');
    let from: usize = if signed {
        1
    } else {
        0
    };
    let ghost digits = if signed {
        s@.skip(1)
    } else {
        s@
    };
    assert(digits =~= s@.skip(from as int));
    if chars.len() == from {
        return None;
    }
    let limit: i128 = 9_223_372_036_854_775_808;
    let mut value: i128 = 0;
    let mut i: usize = from;
    while i < chars.len()
        invariant
            chars@ == s@,
            from <= i <= chars@.len(),
            digits == s@.skip(from as int),
            all_digits(digits.take(i - from)),
            value == digits_value(digits.take(i - from)),
            limit == 9_223_372_036_854_775_808,
            0 <= value <= limit,
            negative == (s@.len() > 0 && s@[0] == '-'),
            signed == (negative || (s@.len() > 0 && s@[0] == '+')),
            from == (if signed {
                1usize
            } else {
                0usize
            }),
        decreases chars@.len() - i,
    {
        let c = chars[i];
        assert(digits[i - from] == c);
        if !('0' <= c && c <= '9') {
            assert(!all_digits(digits));
            return None;
        }
        let ghost next = digits.take(i - from + 1);
        assert(next.drop_last() =~= digits.take(i - from));
        assert(next.last() == c);
        value = value * 10 + ((c as u32) as i128 - 48);
        i += 1;
        assert(all_digits(next)) by {
            assert forall|k: int| 0 <= k < next.len() implies '0' <= #[trigger] next[k] <= '9' by {
                if k < next.len() - 1 {
                    assert(next[k] == digits.take(i - 1 - from)[k]);
                }
            }
        }
        assert(value == digits_value(next));
        if value > limit {
            proof {
                lemma_digits_value_grows(digits, i - from);
                assert(s@.skip(0) =~= s@);
                assert(digits_value(digits) > limit);
            }
            return None;
        }
    }
    assert(digits.take(digits.len() as int) =~= digits);
    let result: i128 = if negative {
        -value
    } else {
        value
    };
    if result <= 9_223_372_036_854_775_807 {
        Some(result as i64)
    } else {
        None
    }
}

/// A number in decimal consists of digits, and stands for that number.
pub proof fn lemma_decimal_digits(n: nat)
    ensures
        decimal(n).len() > 0,
        all_digits(decimal(n)),
        digits_value(decimal(n)) == n,
    decreases n,
{
    if n < 10 {
        assert(decimal(n).drop_last() =~= Seq::empty());
        assert(decimal(n).last() == digit_char(n));
        assert(digits_value(decimal(n).drop_last()) == 0);
    } else {
        lemma_decimal_digits(n / 10);
        assert(decimal(n).drop_last() =~= decimal(n / 10));
        assert(decimal(n).last() == digit_char(n % 10));
    }
}

/// A 64-bit integer that is written in decimal reads back as itself.
pub proof fn law_decimal_reads_back(n: i64)
    ensures
        parsed_i64(signed_decimal(n as int)) == Some(n as int),
{
    let s = signed_decimal(n as int);
    if n < 0 {
        lemma_decimal_digits((-n) as nat);
        assert(s.skip(1) =~= decimal((-n) as nat));
    } else {
        lemma_decimal_digits(n as nat);
        assert('0' <= s[0] <= '9');
    }
}

/// A number in decimal with one more digit behind it is ten times the number
/// and that digit. No number but zero starts with the digit zero.
pub proof fn law_decimal_grows_by_digits(n: nat, d: nat)
    requires
        d < 10,
    ensures
        n > 0 ==> decimal((10 * n + d) as nat) == decimal(n).push((48 + d) as char),
        decimal(d) == seq![(48 + d) as char],
        n > 0 ==> decimal(n)[0] != '0',
    decreases n,
{
    if n > 0 {
        assert((10 * n + d) / 10 == n && (10 * n + d) % 10 == d);
        if n >= 10 {
            law_decimal_grows_by_digits(n / 10, n % 10);
            lemma_decimal_digits(n / 10);
        }
    }
}

/// Reading a number: a digit behind digits makes ten times as much and that
/// digit; one sign before them is read as such; whatever else stands in the
/// text, or a number beyond 64 bits, is refused.
pub proof fn law_number_is_read_by_digits(s: Seq<char>, d: char)
    requires
        s.len() > 0,
        forall|i: int| 0 <= i < s.len() ==> '0' <= #[trigger] s[i] <= '9',
    ensures
        '0' <= d <= '9' ==> match parsed_i64(s) {
            Some(v) => {
                let w = 10 * v + (d as u32 - 48);
                parsed_i64(s.push(d)) == if w <= i64::MAX {
                    Some(w)
                } else {
                    None
                }
            },
            None => parsed_i64(s.push(d)) is None,
        },
        '0' <= d <= '9' ==> parsed_i64(seq![d]) == Some(d as u32 - 48int),
        !('0' <= d <= '9') ==> parsed_i64(s.push(d)) is None,
        parsed_i64(seq!['+'] + s) == parsed_i64(s),
        parsed_i64(s) is Some ==> parsed_i64(seq!['-'] + s) == Some(-(parsed_i64(s)->0)),
        parsed_i64(Seq::empty()) is None,
        parsed_i64(seq!['+']) is None && parsed_i64(seq!['-']) is None,
{
    let more = s.push(d);
    assert(more.drop_last() =~= s);
    assert(more.last() == d);
    assert(more[0] == s[0]);
    assert('0' <= s[0] <= '9');
    if '0' <= d <= '9' {
        assert(all_digits(more));
        assert(seq![d].drop_last() =~= Seq::empty());
        assert(digits_value(seq![d].drop_last()) == 0);
        assert(digits_value(seq![d]) == (d as u32 - 48) as nat);
        assert(all_digits(seq![d]));
    } else {
        assert(!all_digits(more)) by {
            assert(more[s.len() as int] == d);
        }
    }
    let plus = seq!['+'] + s;
    assert(plus[0] == '+');
    assert(plus.skip(1) =~= s);
    let minus = seq!['-'] + s;
    assert(minus[0] == '-');
    assert(minus.skip(1) =~= s);
    assert(seq!['+'].skip(1).len() == 0);
    assert(seq!['-'].skip(1).len() == 0);
}

/// Texts joined in two goes are joined as in one: nothing but the separator
/// stands between the last text of the first go and the first of the second.
pub proof fn law_joined_in_parts(a: Seq<Seq<char>>, b: Seq<Seq<char>>, sep: Seq<char>)
    requires
        a.len() > 0,
        b.len() > 0,
    ensures
        joined(a + b, sep) == joined(a, sep) + sep + joined(b, sep),
        joined(seq![a[0]], sep) == a[0],
        joined(Seq::empty(), sep) == Seq::<char>::empty(),
    decreases b.len(),
{
    let all = a + b;
    assert(all.last() == b.last());
    if b.len() == 1 {
        assert(all.drop_last() =~= a);
        assert(b.last() == b[0]);
    } else {
        assert(all.drop_last() =~= a + b.drop_last());
        law_joined_in_parts(a, b.drop_last(), sep);
    }
}

/// A trimmed text is what is left of the text between white space: nothing but
/// white space goes, and none is left at either end.
pub proof fn law_trimmed_is_what_white_space_surrounds(s: Seq<char>)
    ensures
        exists|i: int, j: int|
            #![trigger s.subrange(i, j)]
            {
                &&& 0 <= i <= j <= s.len()
                &&& trimmed(s) == s.subrange(i, j)
                &&& forall|k: int| 0 <= k < i ==> is_space(#[trigger] s[k])
                &&& forall|k: int| j <= k < s.len() ==> is_space(#[trigger] s[k])
            },
        trimmed(s).len() > 0 ==> !is_space(trimmed(s)[0]) && !is_space(trimmed(s).last()),
{
    let t = trimmed_start(s);
    let i = lemma_trimmed_start(s);
    let n = lemma_trimmed_end(t);
    assert(trimmed(s) =~= s.subrange(i, i + n));
    if n < t.len() {
        assert forall|k: int| i + n <= k < s.len() implies is_space(#[trigger] s[k]) by {
            assert(s[k] == t[k - i]);
        }
    }
}

proof fn lemma_trimmed_start(s: Seq<char>) -> (i: int)
    ensures
        0 <= i <= s.len(),
        trimmed_start(s) == s.skip(i),
        forall|k: int| 0 <= k < i ==> is_space(#[trigger] s[k]),
        i < s.len() ==> !is_space(s[i]),
    decreases s.len(),
{
    if s.len() > 0 && is_space(s[0]) {
        let rest = s.drop_first();
        let j = lemma_trimmed_start(rest);
        assert(rest.skip(j) =~= s.skip(j + 1));
        assert forall|k: int| 0 <= k < j + 1 implies is_space(#[trigger] s[k]) by {
            if k > 0 {
                assert(s[k] == rest[k - 1]);
            }
        }
        j + 1
    } else {
        assert(s.skip(0) =~= s);
        0
    }
}

proof fn lemma_trimmed_end(s: Seq<char>) -> (n: int)
    ensures
        0 <= n <= s.len(),
        trimmed_end(s) == s.take(n),
        forall|k: int| n <= k < s.len() ==> is_space(#[trigger] s[k]),
        n > 0 ==> !is_space(s[n - 1]),
    decreases s.len(),
{
    if s.len() > 0 && is_space(s.last()) {
        let rest = s.drop_last();
        let n = lemma_trimmed_end(rest);
        assert(rest.take(n) =~= s.take(n));
        assert forall|k: int| n <= k < s.len() implies is_space(#[trigger] s[k]) by {
            if k < s.len() - 1 {
                assert(s[k] == rest[k]);
            }
        }
        n
    } else {
        assert(s.take(s.len() as int) =~= s);
        s.len() as int
    }
}

/// Among ASCII characters the space and the control characters from the tab to
/// the carriage return are white space, and no others.
pub proof fn law_ascii_white_space(c: char)
    requires
        c <= '\u{7f}',
    ensures
        is_space(c) <==> c == ' ' || c == '\t' || c == '\n' || c == '\u{b}' || c == '\u{c}' || c
            == '\r',
{
}

/// A text begins with another exactly where it is that text and something
/// behind it.
pub proof fn law_prefix_has_a_rest(s: Seq<char>, prefix: Seq<char>)
    ensures
        has_prefix(s, prefix) <==> exists|rest: Seq<char>| s == #[trigger] (prefix + rest),
        forall|rest: Seq<char>| has_prefix(#[trigger] (prefix + rest), prefix),
{
    if has_prefix(s, prefix) {
        assert(s =~= prefix + s.skip(prefix.len() as int));
    }
    assert forall|rest: Seq<char>| has_prefix(#[trigger] (prefix + rest), prefix) by {
        assert((prefix + rest).take(prefix.len() as int) =~= prefix);
    }
}

/// A text holds another exactly where it is something, that text and something
/// more.
pub proof fn law_occurrence_has_a_place(s: Seq<char>, needle: Seq<char>)
    ensures
        occurs_in(s, needle) <==> exists|a: Seq<char>, b: Seq<char>| s == #[trigger] (a + needle + b),
{
    if occurs_in(s, needle) {
        let at = choose|at: int| occurs_at(s, needle, at);
        assert(s =~= s.take(at) + needle + s.skip(at + needle.len())) by {
            assert(s.subrange(at, at + needle.len()) == needle);
            assert forall|k: int| 0 <= k < needle.len() implies s[at + k] == needle[k] by {
                assert(s.subrange(at, at + needle.len())[k] == s[at + k]);
            }
        }
    }
    if exists|a: Seq<char>, b: Seq<char>| s == #[trigger] (a + needle + b) {
        let (a, b) = choose|a: Seq<char>, b: Seq<char>| s == #[trigger] (a + needle + b);
        assert(s.subrange(a.len() as int, (a.len() + needle.len()) as int) =~= needle);
        assert(occurs_at(s, needle, a.len() as int));
    }
}

/// Capital and small letters of ASCII turn into one another, each in its place;
/// everything else stays.
pub proof fn law_letters_change_case(s: Seq<char>, i: int)
    requires
        0 <= i < s.len(),
    ensures
        ascii_upper(s).len() == s.len() && ascii_lower(s).len() == s.len(),
        'a' <= s[i] <= 'z' ==> ascii_upper(s)[i] as u32 + 32 == s[i] as u32,
        'A' <= s[i] <= 'Z' ==> ascii_lower(s)[i] as u32 == s[i] as u32 + 32,
        !('a' <= s[i] <= 'z') ==> ascii_upper(s)[i] == s[i],
        !('A' <= s[i] <= 'Z') ==> ascii_lower(s)[i] == s[i],
        ascii_lower(ascii_upper(s)) == ascii_lower(s),
        ascii_upper(ascii_lower(s)) == ascii_upper(s),
{
    assert(ascii_lower(ascii_upper(s)) =~= ascii_lower(s));
    assert(ascii_upper(ascii_lower(s)) =~= ascii_upper(s));
}

/// The lines of a text: what stands before, between and behind its line feeds.
pub open spec fn lines(s: Seq<char>) -> Seq<Seq<char>>
    decreases s.len(),
{
    if s.len() == 0 {
        seq![Seq::empty()]
    } else {
        let front = lines(s.drop_last());
        if s.last() == '\n' {
            front.push(Seq::empty())
        } else {
            front.drop_last().push(front.last().push(s.last()))
        }
    }
}

proof fn lemma_lines_with_one_more(s: Seq<char>, line: Seq<char>)
    requires
        !line.contains('\n'),
    ensures
        lines(s + seq!['\n'] + line) == lines(s).push(line),
    decreases line.len(),
{
    let all = s + seq!['\n'] + line;
    if line.len() == 0 {
        assert(all.drop_last() =~= s);
        assert(all.last() == '\n');
        assert(line =~= Seq::<char>::empty());
    } else {
        let rest = line.drop_last();
        assert(all.drop_last() =~= s + seq!['\n'] + rest);
        assert(line.contains(line.last()));
        assert forall|c: char| rest.contains(c) implies line.contains(c) by {
            let i = choose|i: int| 0 <= i < rest.len() && rest[i] == c;
            assert(line[i] == c);
        }
        lemma_lines_with_one_more(s, rest);
        let before = lines(s).push(rest);
        assert(before.drop_last() =~= lines(s));
        assert(line =~= rest.push(line.last()));
    }
}

proof fn lemma_one_line_alone(s: Seq<char>)
    requires
        !s.contains('\n'),
    ensures
        lines(s) == seq![s],
    decreases s.len(),
{
    if s.len() > 0 {
        let rest = s.drop_last();
        assert(s.contains(s.last()));
        assert forall|c: char| rest.contains(c) implies s.contains(c) by {
            let i = choose|i: int| 0 <= i < rest.len() && rest[i] == c;
            assert(s[i] == c);
        }
        lemma_one_line_alone(rest);
        assert(seq![rest].drop_last() =~= Seq::empty());
        assert(s =~= rest.push(s.last()));
        assert(lines(s) =~= seq![s]);
    } else {
        assert(s =~= Seq::<char>::empty());
    }
}

/// Lines that are joined with a line feed are the lines of what comes out.
pub proof fn law_joined_lines_come_apart(pieces: Seq<Seq<char>>)
    requires
        pieces.len() > 0,
        forall|i: int| 0 <= i < pieces.len() ==> !(#[trigger] pieces[i]).contains('\n'),
    ensures
        lines(joined(pieces, "\n"@)) == pieces,
    decreases pieces.len(),
{
    reveal_strlit("\n");
    assert("\n"@ =~= seq!['\n']);
    if pieces.len() == 1 {
        lemma_one_line_alone(pieces[0]);
        assert(seq![pieces[0]] =~= pieces);
    } else {
        law_joined_lines_come_apart(pieces.drop_last());
        lemma_lines_with_one_more(joined(pieces.drop_last(), "\n"@), pieces.last());
        assert(pieces =~= pieces.drop_last().push(pieces.last()));
    }
}

/// A text that is joined with others stands in what comes out with a separator
/// on either side, wherever others stand before and behind it.
pub proof fn law_joined_piece_stands_between(pieces: Seq<Seq<char>>, sep: Seq<char>, i: int)
    requires
        0 < i < pieces.len() - 1,
    ensures
        joined(pieces, sep) == joined(pieces.take(i), sep) + (sep + pieces[i] + sep) + joined(
            pieces.skip(i + 1),
            sep,
        ),
        occurs_in(joined(pieces, sep), sep + pieces[i] + sep),
{
    let left = pieces.take(i);
    let right = pieces.skip(i + 1);
    let middle = seq![pieces[i]];
    law_joined_in_parts(left, middle, sep);
    law_joined_in_parts(left + middle, right, sep);
    law_joined_in_parts(middle, right, sep);
    assert(left + middle + right =~= pieces);
    let a = joined(left, sep);
    let b = joined(right, sep);
    assert(joined(pieces, sep) =~= a + (sep + pieces[i] + sep) + b);
    law_occurrence_has_a_place(joined(pieces, sep), sep + pieces[i] + sep);
}

/// A list of strings stands for their texts, one by one, and a string that may
/// be missing for its text where it is there.
pub proof fn law_texts_one_by_one(list: Seq<String>, s: Option<String>)
    ensures
        texts(list).len() == list.len(),
        forall|i: int| 0 <= i < list.len() ==> #[trigger] texts(list)[i] == list[i]@,
        s is Some ==> opt_text(s) == Some(s->0@),
        s is None ==> opt_text(s) is None,
{
}

/// A text with anything but a digit in it, or but a sign at its front, is no
/// number.
pub proof fn law_only_digits_are_read(s: Seq<char>, i: int)
    requires
        0 <= i < s.len(),
        !('0' <= s[i] <= '9'),
        i == 0 ==> s[i] != '+' && s[i] != '-',
    ensures
        parsed_i64(s) is None,
{
    if i > 0 && (s[0] == '-' || s[0] == '+') {
        assert(s.skip(1)[i - 1] == s[i]);
    }
}

} // verus!
