//! Operations on texts, character by character.
//!
//! A text is modelled as its sequence of characters, `Seq<char>`. What an
//! executable function of this file returns is stated by a spec function on
//! such sequences, which the function's documentation names.
//!
//! Two of the operations are left to the standard library, which alone knows
//! Unicode's white space and letter cases: trimming and lower-casing. They
//! stand at the top of the file, with nothing proved of them.

use vstd::prelude::*;
use vstd::std_specs::iter::IteratorSpec;

verus! {

/// What `str::trim` makes of a string: the string without the white space
/// at its two ends.
pub uninterp spec fn trimmed(s: Seq<char>) -> Seq<char>;

/// What `str::to_lowercase` makes of a string.
pub uninterp spec fn lowercased(s: Seq<char>) -> Seq<char>;

/// Calls `str::trim`. Its result depends on the characters of `s` alone and
/// is known here only by its name.
#[verifier::external_body]
pub(crate) fn trim(s: &str) -> (t: &str)
    ensures
        t@ == trimmed(s@),
{
    s.trim()
}

/// Calls `str::to_lowercase`. Its result depends on the characters of `s`
/// alone and is known here only by its name.
#[verifier::external_body]
pub(crate) fn to_lowercase(s: &str) -> (t: String)
    ensures
        t@ == lowercased(s@),
{
    s.to_lowercase()
}

/// The characters of `s`, in order.
pub fn chars_of(s: &str) -> (chars: Vec<char>)
    ensures
        chars@ == s@,
{
    let mut chars: Vec<char> = Vec::new();
    for c in it: s.chars()
        invariant
            chars@ == s@.take(it.index() as int),
            it.seq() == s@,
    {
        chars.push(c);
    }
    chars
}

/// Whether two strings hold the same characters.
pub fn str_eq(a: &str, b: &str) -> (same: bool)
    ensures
        same == (a@ == b@),
{
    let x = a.as_bytes();
    let y = b.as_bytes();
    proof {
        vstd::utf8::encode_utf8_decode_utf8(a@);
        vstd::utf8::encode_utf8_decode_utf8(b@);
    }
    if x.len() != y.len() {
        return false;
    }
    let mut i: usize = 0;
    while i < x.len()
        invariant
            i <= x.len(),
            x.len() == y.len(),
            x@ == vstd::utf8::encode_utf8(a@),
            y@ == vstd::utf8::encode_utf8(b@),
            forall|k: int| 0 <= k < i ==> x@[k] == y@[k],
        decreases x.len() - i,
    {
        if x[i] != y[i] {
            return false;
        }
        i += 1;
    }
    assert(x@ =~= y@);
    true
}

/// The part of `s` behind the last `separator`; all of `s` where it holds none.
pub open spec fn after_last(s: Seq<char>, separator: char) -> Seq<char>
    decreases s.len(),
{
    if s.len() == 0 {
        s
    } else if s.last() == separator {
        Seq::empty()
    } else {
        after_last(s.drop_last(), separator).push(s.last())
    }
}

/// `after_last` cuts `s` at `start` when no separator stands from `start` on
/// and `start` is the beginning of `s` or follows a separator.
pub proof fn lemma_after_last(s: Seq<char>, separator: char, start: int)
    requires
        0 <= start <= s.len(),
        forall|k: int| start <= k < s.len() ==> s[k] != separator,
        start == 0 || s[start - 1] == separator,
    ensures
        after_last(s, separator) == s.skip(start),
    decreases s.len(),
{
    if s.len() != 0 && start != s.len() {
        lemma_after_last(s.drop_last(), separator, start);
    }
}

/// Computes [`after_last`].
pub fn text_after_last(s: &str, separator: char) -> (tail: String)
    ensures
        tail@ == after_last(s@, separator),
{
    let chars = chars_of(s);
    let mut start: usize = chars.len();
    while start > 0 && chars[start - 1] != separator
        invariant
            start <= chars.len(),
            forall|k: int| start <= k < chars.len() ==> chars@[k] != separator,
        decreases start,
    {
        start -= 1;
    }
    proof {
        lemma_after_last(s@, separator, start as int);
    }
    s.substring_char(start, chars.len()).to_owned()
}

/// Whether `part` stands in `s` at position `at`.
pub open spec fn occurs_at(s: Seq<char>, at: int, part: Seq<char>) -> bool {
    0 <= at && at + part.len() <= s.len() && s.subrange(at, at + part.len()) == part
}

/// Tests [`occurs_at`].
pub fn part_occurs_at(s: &Vec<char>, at: usize, part: &Vec<char>) -> (found: bool)
    ensures
        found == occurs_at(s@, at as int, part@),
{
    if at > s.len() || part.len() > s.len() - at {
        return false;
    }
    let mut k: usize = 0;
    while k < part.len()
        invariant
            k <= part.len(),
            at + part.len() <= s.len(),
            forall|j: int| 0 <= j < k ==> s@[at + j] == part@[j],
        decreases part.len() - k,
    {
        if s[at + k] != part[k] {
            return false;
        }
        k += 1;
    }
    assert(s@.subrange(at as int, at + part.len()) =~= part@);
    true
}

/// `s` without every copy of `prefix` that it begins with: a copy is taken
/// off as long as one stands in front. An empty `prefix` takes nothing off.
pub open spec fn without_leading(s: Seq<char>, prefix: Seq<char>) -> Seq<char>
    decreases s.len(),
{
    if prefix.len() > 0 && occurs_at(s, 0, prefix) {
        without_leading(s.skip(prefix.len() as int), prefix)
    } else {
        s
    }
}

/// Computes [`without_leading`].
pub fn trim_start_matches(s: &str, prefix: &str) -> (rest: String)
    ensures
        rest@ == without_leading(s@, prefix@),
{
    let chars = chars_of(s);
    let front = chars_of(prefix);
    let mut start: usize = 0;
    assert(s@.skip(0) =~= s@);
    if front.len() > 0 {
        while part_occurs_at(&chars, start, &front)
            invariant
                chars@ == s@,
                front@ == prefix@,
                front.len() > 0,
                start <= chars.len(),
                without_leading(s@, prefix@) == without_leading(s@.skip(start as int), prefix@),
            decreases chars.len() - start,
        {
            proof {
                let here = s@.skip(start as int);
                assert(here.subrange(0, front.len() as int) =~= s@.subrange(
                    start as int,
                    start + front.len(),
                ));
                assert(here.skip(front.len() as int) =~= s@.skip(start + front.len()));
            }
            start += front.len();
        }
        proof {
            let here = s@.skip(start as int);
            if occurs_at(here, 0, prefix@) {
                assert(here.subrange(0, front.len() as int) =~= s@.subrange(
                    start as int,
                    start + front.len(),
                ));
            }
        }
    }
    s.substring_char(start, chars.len()).to_owned()
}

/// Whether `s` ends with `suffix`.
pub open spec fn ends_with(s: Seq<char>, suffix: Seq<char>) -> bool {
    suffix.len() <= s.len() && occurs_at(s, s.len() - suffix.len(), suffix)
}

/// Tests [`ends_with`].
pub fn text_ends_with(s: &str, suffix: &str) -> (found: bool)
    ensures
        found == ends_with(s@, suffix@),
{
    let chars = chars_of(s);
    let tail = chars_of(suffix);
    if tail.len() > chars.len() {
        return false;
    }
    part_occurs_at(&chars, chars.len() - tail.len(), &tail)
}

/// Whether `part` stands somewhere in `s`.
pub open spec fn contains(s: Seq<char>, part: Seq<char>) -> bool {
    exists|at: int| occurs_at(s, at, part)
}

/// Tests [`contains`].
pub fn text_contains(s: &str, part: &str) -> (found: bool)
    ensures
        found == contains(s@, part@),
{
    let chars = chars_of(s);
    let wanted = chars_of(part);
    if wanted.len() > chars.len() {
        return false;
    }
    let last = chars.len() - wanted.len();
    let mut at: usize = 0;
    while at < last
        invariant
            chars@ == s@,
            wanted@ == part@,
            last == chars.len() - wanted.len(),
            at <= last,
            forall|k: int| 0 <= k < at ==> !occurs_at(chars@, k, wanted@),
        decreases last - at,
    {
        if part_occurs_at(&chars, at, &wanted) {
            return true;
        }
        at += 1;
    }
    part_occurs_at(&chars, last, &wanted)
}

/// `s` without every copy of `suffix` that it ends with: a copy is taken off
/// as long as one stands at the end. An empty `suffix` takes nothing off.
pub open spec fn without_trailing(s: Seq<char>, suffix: Seq<char>) -> Seq<char>
    decreases s.len(),
{
    if suffix.len() > 0 && ends_with(s, suffix) {
        without_trailing(s.take(s.len() - suffix.len()), suffix)
    } else {
        s
    }
}

/// Computes [`without_trailing`].
pub fn trim_end_matches(s: &str, suffix: &str) -> (rest: String)
    ensures
        rest@ == without_trailing(s@, suffix@),
{
    let chars = chars_of(s);
    let tail = chars_of(suffix);
    let mut end: usize = chars.len();
    assert(s@.take(end as int) =~= s@);
    if tail.len() > 0 {
        while end >= tail.len() && part_occurs_at(&chars, end - tail.len(), &tail)
            invariant
                chars@ == s@,
                tail@ == suffix@,
                tail.len() > 0,
                end <= chars.len(),
                without_trailing(s@, suffix@) == without_trailing(s@.take(end as int), suffix@),
            decreases end,
        {
            proof {
                let here = s@.take(end as int);
                assert(here.subrange(end - tail.len(), end as int) =~= s@.subrange(
                    end - tail.len(),
                    end as int,
                ));
                assert(here.take(end - tail.len()) =~= s@.take(end - tail.len()));
            }
            end -= tail.len();
        }
        proof {
            let here = s@.take(end as int);
            if ends_with(here, suffix@) {
                assert(here.subrange(end - tail.len(), end as int) =~= s@.subrange(
                    end - tail.len(),
                    end as int,
                ));
            }
        }
    }
    s.substring_char(0, end).to_owned()
}

/// `s` without `suffix` at its end, where it ends with `suffix`.
pub open spec fn stripped_suffix(s: Seq<char>, suffix: Seq<char>) -> Option<Seq<char>> {
    if ends_with(s, suffix) {
        Some(s.take(s.len() - suffix.len()))
    } else {
        None
    }
}

/// Computes [`stripped_suffix`].
pub fn strip_suffix(s: &str, suffix: &str) -> (rest: Option<String>)
    ensures
        rest is Some <==> ends_with(s@, suffix@),
        rest matches Some(front) ==> stripped_suffix(s@, suffix@) == Some(front@),
{
    let chars = chars_of(s);
    let tail = chars_of(suffix);
    if tail.len() <= chars.len() && part_occurs_at(&chars, chars.len() - tail.len(), &tail) {
        let end = chars.len() - tail.len();
        Some(s.substring_char(0, end).to_owned())
    } else {
        None
    }
}

/// The pieces that `s` falls into where it is cut at every `separator`. A
/// string without the separator is one piece; a separator at either end
/// leaves an empty piece there.
pub open spec fn split(s: Seq<char>, separator: char) -> Seq<Seq<char>>
    decreases s.len(),
{
    if s.len() == 0 {
        seq![s]
    } else if s.last() == separator {
        split(s.drop_last(), separator).push(Seq::empty())
    } else {
        let before = split(s.drop_last(), separator);
        before.drop_last().push(before.last().push(s.last()))
    }
}

/// Computes [`split`].
pub fn text_split(s: &str, separator: char) -> (pieces: Vec<String>)
    ensures
        pieces.deep_view() == split(s@, separator),
{
    let chars = chars_of(s);
    let mut pieces: Vec<String> = Vec::new();
    let mut start: usize = 0;
    let mut i: usize = 0;
    while i < chars.len()
        invariant
            chars@ == s@,
            start <= i <= chars.len(),
            split(s@.take(i as int), separator) == pieces.deep_view().push(
                s@.subrange(start as int, i as int),
            ),
        decreases chars.len() - i,
    {
        proof {
            let upto = s@.take(i + 1);
            assert(upto.drop_last() =~= s@.take(i as int));
        }
        if chars[i] == separator {
            let piece = s.substring_char(start, i).to_owned();
            pieces.push(piece);
            start = i + 1;
            proof {
                assert(s@.subrange(start as int, i + 1) =~= Seq::<char>::empty());
            }
        } else {
            proof {
                let open = s@.subrange(start as int, i as int);
                assert(open.push(s@[i as int]) =~= s@.subrange(start as int, i + 1));
            }
        }
        i += 1;
    }
    let piece = s.substring_char(start, chars.len()).to_owned();
    pieces.push(piece);
    proof {
        assert(s@.take(chars.len() as int) =~= s@);
    }
    pieces
}

/// The texts `parts`, one after the other, with `separator` between each two.
pub open spec fn joined(parts: Seq<Seq<char>>, separator: Seq<char>) -> Seq<char>
    decreases parts.len(),
{
    if parts.len() == 0 {
        Seq::empty()
    } else if parts.len() == 1 {
        parts[0]
    } else {
        joined(parts.drop_last(), separator) + separator + parts.last()
    }
}

/// Computes [`joined`].
pub fn join(parts: &Vec<String>, separator: &str) -> (whole: String)
    ensures
        whole@ == joined(parts.deep_view(), separator@),
{
    let mut whole = String::new();
    let mut i: usize = 0;
    while i < parts.len()
        invariant
            i <= parts.len(),
            whole@ == joined(parts.deep_view().take(i as int), separator@),
        decreases parts.len() - i,
    {
        proof {
            let upto = parts.deep_view().take(i + 1);
            assert(upto.drop_last() =~= parts.deep_view().take(i as int));
        }
        if i > 0 {
            whole.append(separator);
        }
        whole.append(parts[i].as_str());
        i += 1;
    }
    assert(parts.deep_view().take(parts.len() as int) =~= parts.deep_view());
    whole
}

/// The lower-case letter of an ASCII upper-case letter; any other character
/// as it is.
pub open spec fn ascii_lowered(c: char) -> char {
    if 'A' <= c <= 'Z' {
        ((c as u8) + 32) as char
    } else {
        c
    }
}

/// Computes [`ascii_lowered`].
pub fn to_ascii_lowercase(c: char) -> (lowered: char)
    ensures
        lowered == ascii_lowered(c),
{
    if c >= 'A' && c <= 'Z' {
        ((c as u8) + 32) as char
    } else {
        c
    }
}

/// Whether `a` and `b` are the same but for the case of their ASCII letters.
pub open spec fn same_ignoring_ascii_case(a: Seq<char>, b: Seq<char>) -> bool {
    &&& a.len() == b.len()
    &&& forall|i: int| 0 <= i < a.len() ==> ascii_lowered(#[trigger] a[i]) == ascii_lowered(b[i])
}

/// Tests [`same_ignoring_ascii_case`].
pub fn eq_ignore_ascii_case(a: &str, b: &str) -> (same: bool)
    ensures
        same == same_ignoring_ascii_case(a@, b@),
{
    let x = chars_of(a);
    let y = chars_of(b);
    if x.len() != y.len() {
        return false;
    }
    let mut i: usize = 0;
    while i < x.len()
        invariant
            i <= x.len(),
            x.len() == y.len(),
            x@ == a@,
            y@ == b@,
            forall|k: int| 0 <= k < i ==> ascii_lowered(#[trigger] x@[k]) == ascii_lowered(y@[k]),
        decreases x.len() - i,
    {
        if to_ascii_lowercase(x[i]) != to_ascii_lowercase(y[i]) {
            return false;
        }
        i += 1;
    }
    true
}

/// Whether `c` is one of the ten digits.
pub open spec fn is_digit(c: char) -> bool {
    '0' <= c <= '9'
}

/// Whether `s` holds digits only.
pub open spec fn all_digits(s: Seq<char>) -> bool {
    forall|i: int| 0 <= i < s.len() ==> is_digit(#[trigger] s[i])
}

/// The number that the digits `digits` write in base ten.
pub open spec fn decimal_value(digits: Seq<char>) -> int
    decreases digits.len(),
{
    if digits.len() == 0 {
        0
    } else {
        10 * decimal_value(digits.drop_last()) + (digits.last() as int - '0' as int)
    }
}

/// The digits of a written number, without its sign.
pub open spec fn unsigned_part(s: Seq<char>) -> Seq<char> {
    if s.len() > 0 && (s[0] == '-' || s[0] == '+') {
        s.skip(1)
    } else {
        s
    }
}

/// The number that `s` writes: an optional `+` or `-`, then at least one
/// digit and nothing else, the number being one that an `i32` holds.
pub open spec fn parsed_i32(s: Seq<char>) -> Option<i32> {
    let digits = unsigned_part(s);
    let value = if s.len() > 0 && s[0] == '-' {
        -decimal_value(digits)
    } else {
        decimal_value(digits)
    };
    if digits.len() > 0 && all_digits(digits) && i32::MIN <= value <= i32::MAX {
        Some(value as i32)
    } else {
        None
    }
}

/// More digits write no smaller number.
proof fn lemma_decimal_value_grows(digits: Seq<char>, upto: int)
    requires
        all_digits(digits),
        0 <= upto <= digits.len(),
    ensures
        0 <= decimal_value(digits.take(upto)) <= decimal_value(digits),
    decreases digits.len() - upto,
{
    if upto == digits.len() {
        assert(digits.take(upto) =~= digits);
        lemma_decimal_value_is_natural(digits);
    } else {
        lemma_decimal_value_grows(digits, upto + 1);
        let longer = digits.take(upto + 1);
        assert(longer.drop_last() =~= digits.take(upto));
        assert forall|i: int| 0 <= i < upto implies is_digit(#[trigger] digits.take(upto)[i]) by {
        }
        lemma_decimal_value_is_natural(digits.take(upto));
    }
}

/// Digits write no negative number.
proof fn lemma_decimal_value_is_natural(digits: Seq<char>)
    requires
        all_digits(digits),
    ensures
        0 <= decimal_value(digits),
    decreases digits.len(),
{
    if digits.len() > 0 {
        assert forall|i: int| 0 <= i < digits.len() - 1 implies is_digit(
            #[trigger] digits.drop_last()[i],
        ) by {
        }
        lemma_decimal_value_is_natural(digits.drop_last());
    }
}

/// Computes [`parsed_i32`].
pub fn parse_i32(s: &str) -> (number: Option<i32>)
    ensures
        number == parsed_i32(s@),
{
    let chars = chars_of(s);
    let negative = chars.len() > 0 && chars[0] == '-';
    let first: usize = if chars.len() > 0 && (chars[0] == '-' || chars[0] == '+') {
        1
    } else {
        0
    };
    let ghost digits = unsigned_part(s@);
    if first == chars.len() {
        return None;
    }
    let mut value: i64 = 0;
    let mut i: usize = first;
    while i < chars.len()
        invariant
            chars@ == s@,
            digits == s@.skip(first as int),
            digits == unsigned_part(s@),
            first <= i <= chars.len(),
            all_digits(digits.take(i - first)),
            value == decimal_value(digits.take(i - first)),
            0 <= value <= 0x8000_0000,
        decreases chars.len() - i,
    {
        let c = chars[i];
        let ghost longer = digits.take(i + 1 - first);
        proof {
            assert(longer.drop_last() =~= digits.take(i - first));
            assert(longer.last() == c);
        }
        if c < '0' || c > '9' {
            assert(!all_digits(digits));
            return None;
        }
        let digit = (c as u32 - '0' as u32) as i64;
        value = value * 10 + digit;
        proof {
            assert forall|k: int| 0 <= k < longer.len() implies is_digit(#[trigger] longer[k]) by {
                if k < longer.len() - 1 {
                    assert(longer[k] == digits.take(i - first)[k]);
                }
            }
        }
        if value > 0x8000_0000 {
            proof {
                if all_digits(digits) {
                    lemma_decimal_value_grows(digits, i + 1 - first);
                }
            }
            return None;
        }
        i += 1;
    }
    assert(digits.take(chars.len() - first) =~= digits);
    if negative {
        Some((-value) as i32)
    } else if value > 0x7fff_ffff {
        None
    } else {
        Some(value as i32)
    }
}

/// The digits of a written number that has no sign but, at most, a `+`.
pub open spec fn unprefixed_part(s: Seq<char>) -> Seq<char> {
    if s.len() > 0 && s[0] == '+' {
        s.skip(1)
    } else {
        s
    }
}

/// The number that `s` writes: an optional `+`, then at least one digit and
/// nothing else, the number being one that a `u64` holds.
pub open spec fn parsed_u64(s: Seq<char>) -> Option<u64> {
    let digits = unprefixed_part(s);
    if digits.len() > 0 && all_digits(digits) && decimal_value(digits) <= u64::MAX {
        Some(decimal_value(digits) as u64)
    } else {
        None
    }
}

/// Computes [`parsed_u64`].
pub fn parse_u64(s: &str) -> (number: Option<u64>)
    ensures
        number == parsed_u64(s@),
{
    let chars = chars_of(s);
    let first: usize = if chars.len() > 0 && chars[0] == '+' {
        1
    } else {
        0
    };
    let ghost digits = unprefixed_part(s@);
    if first == chars.len() {
        return None;
    }
    let mut value: u128 = 0;
    let mut i: usize = first;
    while i < chars.len()
        invariant
            chars@ == s@,
            digits == s@.skip(first as int),
            digits == unprefixed_part(s@),
            first <= i <= chars.len(),
            all_digits(digits.take(i - first)),
            value == decimal_value(digits.take(i - first)),
            0 <= value <= u64::MAX,
        decreases chars.len() - i,
    {
        let c = chars[i];
        let ghost longer = digits.take(i + 1 - first);
        proof {
            assert(longer.drop_last() =~= digits.take(i - first));
            assert(longer.last() == c);
        }
        if c < '0' || c > '9' {
            assert(!all_digits(digits));
            return None;
        }
        let digit = (c as u32 - '0' as u32) as u128;
        value = value * 10 + digit;
        proof {
            assert forall|k: int| 0 <= k < longer.len() implies is_digit(#[trigger] longer[k]) by {
            }
        }
        if value > u64::MAX as u128 {
            proof {
                if all_digits(digits) {
                    lemma_decimal_value_grows(digits, i + 1 - first);
                }
            }
            return None;
        }
        i += 1;
    }
    assert(digits.take(chars.len() - first) =~= digits);
    Some(value as u64)
}

/// The digit that writes a number below ten.
pub open spec fn digit_of(d: int) -> char {
    if d == 0 {
        '0'
    } else if d == 1 {
        '1'
    } else if d == 2 {
        '2'
    } else if d == 3 {
        '3'
    } else if d == 4 {
        '4'
    } else if d == 5 {
        '5'
    } else if d == 6 {
        '6'
    } else if d == 7 {
        '7'
    } else if d == 8 {
        '8'
    } else {
        '9'
    }
}

/// How a natural number is written in base ten, without leading zeros.
pub open spec fn decimal_text(n: nat) -> Seq<char>
    decreases n,
{
    if n < 10 {
        seq![digit_of(n as int)]
    } else {
        decimal_text(n / 10).push(digit_of((n % 10) as int))
    }
}

/// How an integer is written in base ten: a negative one with `-` in front.
pub open spec fn integer_text(n: int) -> Seq<char> {
    if n < 0 {
        seq!['-'] + decimal_text((-n) as nat)
    } else {
        decimal_text(n as nat)
    }
}

/// The digit that writes `d`, as a text.
fn digit_text(d: u64) -> (text: &'static str)
    requires
        d < 10,
    ensures
        text@ == seq![digit_of(d as int)],
{
    proof {
        reveal_strlit("0");
        reveal_strlit("1");
        reveal_strlit("2");
        reveal_strlit("3");
        reveal_strlit("4");
        reveal_strlit("5");
        reveal_strlit("6");
        reveal_strlit("7");
        reveal_strlit("8");
        reveal_strlit("9");
    }
    let text = if d == 0 {
        "0"
    } else if d == 1 {
        "1"
    } else if d == 2 {
        "2"
    } else if d == 3 {
        "3"
    } else if d == 4 {
        "4"
    } else if d == 5 {
        "5"
    } else if d == 6 {
        "6"
    } else if d == 7 {
        "7"
    } else if d == 8 {
        "8"
    } else {
        "9"
    };
    text
}

/// Writes a number in base ten.
pub fn u64_to_string(n: u64) -> (text: String)
    ensures
        text@ == decimal_text(n as nat),
    decreases n,
{
    if n < 10 {
        digit_text(n).to_owned()
    } else {
        let mut text = u64_to_string(n / 10);
        let last = digit_text(n % 10);
        text.append(last);
        text
    }
}

/// Writes a number in base ten.
pub fn usize_to_string(n: usize) -> (text: String)
    ensures
        text@ == decimal_text(n as nat),
{
    u64_to_string(n as u64)
}

/// Writes a number in base ten, a negative one with `-` in front.
pub fn i32_to_string(n: i32) -> (text: String)
    ensures
        text@ == integer_text(n as int),
{
    if n < 0 {
        let mut text = "-".to_owned();
        proof {
            reveal_strlit("-");
        }
        let size = (-(n as i64)) as u64;
        text.append(u64_to_string(size).as_str());
        text
    } else {
        u64_to_string(n as u64)
    }
}

/// Whether `a` comes before `b` where texts are ordered like words in a
/// dictionary, character by character, a character's place being its number
/// in Unicode.
pub open spec fn comes_before(a: Seq<char>, b: Seq<char>) -> bool
    decreases a.len(),
{
    if b.len() == 0 {
        false
    } else if a.len() == 0 {
        true
    } else if a[0] != b[0] {
        (a[0] as u32) < (b[0] as u32)
    } else {
        comes_before(a.drop_first(), b.drop_first())
    }
}

/// Where `a` and `b` agree up to place `upto`, their order is that of what
/// follows.
proof fn lemma_comes_before_after_common(a: Seq<char>, b: Seq<char>, upto: int)
    requires
        0 <= upto <= a.len(),
        upto <= b.len(),
        forall|k: int| 0 <= k < upto ==> a[k] == b[k],
    ensures
        comes_before(a, b) == comes_before(a.skip(upto), b.skip(upto)),
    decreases upto,
{
    if upto == 0 {
        assert(a.skip(0) =~= a);
        assert(b.skip(0) =~= b);
    } else {
        let x = a.drop_first();
        let y = b.drop_first();
        assert forall|k: int| 0 <= k < upto - 1 implies x[k] == y[k] by {
        }
        lemma_comes_before_after_common(x, y, upto - 1);
        assert(x.skip(upto - 1) =~= a.skip(upto));
        assert(y.skip(upto - 1) =~= b.skip(upto));
    }
}

/// Of two different texts, one comes before the other.
pub proof fn lemma_comes_before_is_total(a: Seq<char>, b: Seq<char>)
    ensures
        a == b || comes_before(a, b) || comes_before(b, a),
        !(comes_before(a, b) && comes_before(b, a)),
        !comes_before(a, a),
    decreases a.len(),
{
    if a.len() > 0 {
        lemma_comes_before_is_total(a.drop_first(), a.drop_first());
    }
    if a.len() > 0 && b.len() > 0 && a[0] == b[0] {
        lemma_comes_before_is_total(a.drop_first(), b.drop_first());
        if a.drop_first() == b.drop_first() {
            assert(a =~= b) by {
                assert forall|k: int| 0 <= k < a.len() implies a[k] == b[k] by {
                    if k > 0 {
                        assert(a.drop_first()[k - 1] == b.drop_first()[k - 1]);
                    }
                }
            }
        }
    } else if a.len() > 0 && b.len() > 0 {
        vstd::utf8::char_u32_cast(a[0], a[0] as u32);
        vstd::utf8::char_u32_cast(b[0], b[0] as u32);
    }
}

/// What comes before a text comes before all that the text comes before.
pub proof fn lemma_comes_before_is_transitive(a: Seq<char>, b: Seq<char>, c: Seq<char>)
    requires
        comes_before(a, b),
        comes_before(b, c),
    ensures
        comes_before(a, c),
    decreases a.len(),
{
    if a.len() > 0 && a[0] == b[0] && b[0] == c[0] {
        lemma_comes_before_is_transitive(a.drop_first(), b.drop_first(), c.drop_first());
    }
}

/// Tests [`comes_before`].
pub fn text_comes_before(a: &str, b: &str) -> (before: bool)
    ensures
        before == comes_before(a@, b@),
{
    let x = chars_of(a);
    let y = chars_of(b);
    let mut i: usize = 0;
    while i < x.len() && i < y.len()
        invariant
            i <= x.len(),
            i <= y.len(),
            x@ == a@,
            y@ == b@,
            forall|k: int| 0 <= k < i ==> x@[k] == y@[k],
        decreases x.len() - i,
    {
        if x[i] != y[i] {
            proof {
                lemma_comes_before_after_common(a@, b@, i as int);
            }
            return (x[i] as u32) < (y[i] as u32);
        }
        i += 1;
    }
    proof {
        lemma_comes_before_after_common(a@, b@, i as int);
    }
    i < y.len()
}

} // verus!
