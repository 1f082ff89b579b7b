//! Scanning primitives over texts: searching, splitting, trimming and folding.

use crate::text::{self, chars_of, prefix_at, text_of};
use vstd::prelude::*;

verus! {

/// Position of the first character that is one of `marks`, or the length.
pub open spec fn first_of(s: Seq<char>, marks: Seq<char>) -> int
    decreases s.len(),
{
    if s.len() == 0 || marks.contains(s[0]) {
        0
    } else {
        1 + first_of(s.skip(1), marks)
    }
}

/// Whether a character is one of `marks`.
pub fn one_of(c: char, marks: &Vec<char>) -> (r: bool)
    ensures
        r == marks@.contains(c),
{
    let mut i: usize = 0;
    while i < marks.len()
        invariant
            i <= marks.len(),
            forall|j: int| 0 <= j < i ==> marks@[j] != c,
        decreases marks.len() - i,
    {
        if marks[i] == c {
            assert(marks@[i as int] == c);
            return true;
        }
        i = i + 1;
    }
    false
}

/// Executable [`first_of`].
pub fn find_of(chars: &Vec<char>, marks: &str) -> (r: usize)
    ensures
        r == first_of(chars@, marks@),
        r <= chars.len(),
{
    let m: Vec<char> = chars_of(marks);
    let mut i: usize = 0;
    assert(chars@.skip(0) =~= chars@);
    while i < chars.len()
        invariant
            i <= chars.len(),
            m@ == marks@,
            first_of(chars@, marks@) == i + first_of(chars@.skip(i as int), marks@),
        decreases chars.len() - i,
    {
        assert(chars@.skip(i as int)[0] == chars@[i as int]);
        if one_of(chars[i], &m) {
            return i;
        }
        assert(chars@.skip(i as int).skip(1) =~= chars@.skip(i as int + 1));
        i = i + 1;
    }
    i
}

/// What precedes the first character that is one of `marks`.
pub open spec fn until(s: Seq<char>, marks: Seq<char>) -> Seq<char> {
    s.take(first_of(s, marks))
}

/// What begins at the first character that is one of `marks`.
pub open spec fn since(s: Seq<char>, marks: Seq<char>) -> Seq<char> {
    s.skip(first_of(s, marks))
}

/// The prefix of `raw` before its first character that is one of `markers`.
pub fn until_first(raw: &str, markers: &str) -> (r: String)
    ensures
        r@ == until(raw@, markers@),
{
    let chars: Vec<char> = chars_of(raw);
    let n: usize = find_of(&chars, markers);
    assert(chars@.subrange(0, n as int) =~= chars@.take(n as int));
    text_of(&chars, 0, n)
}

/// The rest of `raw` from its first character that is one of `markers`.
pub fn since_first(raw: &str, markers: &str) -> (r: String)
    ensures
        r@ == since(raw@, markers@),
{
    let chars: Vec<char> = chars_of(raw);
    let n: usize = find_of(&chars, markers);
    assert(chars@.subrange(n as int, chars@.len() as int) =~= chars@.skip(n as int));
    text_of(&chars, n, chars.len())
}

/// The two sides of the first occurrence of a character.
pub open spec fn parted(s: Seq<char>, c: char) -> Option<(Seq<char>, Seq<char>)> {
    let n = first_of(s, seq![c]);
    if n < s.len() {
        Some((s.take(n), s.skip(n + 1)))
    } else {
        None
    }
}

/// Position of the last occurrence of a character, or -1.
pub open spec fn last_at(s: Seq<char>, c: char) -> int
    decreases s.len(),
{
    if s.len() == 0 {
        -1
    } else if s.last() == c {
        s.len() - 1
    } else {
        last_at(s.drop_last(), c)
    }
}

/// The two sides of the last occurrence of a character.
pub open spec fn parted_last(s: Seq<char>, c: char) -> Option<(Seq<char>, Seq<char>)> {
    let n = last_at(s, c);
    if n >= 0 {
        Some((s.take(n), s.skip(n + 1)))
    } else {
        None
    }
}

pub open spec fn pair_view(p: Option<(String, String)>) -> Option<(Seq<char>, Seq<char>)> {
    match p {
        Some((a, b)) => Some((a@, b@)),
        None => None,
    }
}

/// Splits at the first occurrence of a character.
pub fn split_once(s: &str, c: char) -> (r: Option<(String, String)>)
    ensures
        pair_view(r) == parted(s@, c),
{
    let chars: Vec<char> = chars_of(s);
    let ghost marks = seq![c];
    let mut i: usize = 0;
    assert(chars@.skip(0) =~= chars@);
    while i < chars.len()
        invariant
            i <= chars.len(),
            chars@ == s@,
            marks == seq![c],
            first_of(chars@, marks) == i + first_of(chars@.skip(i as int), marks),
        decreases chars.len() - i,
    {
        assert(chars@.skip(i as int)[0] == chars@[i as int]);
        assert(marks.contains(chars@[i as int]) == (chars@[i as int] == c)) by {
            assert(marks[0] == c);
        }
        if chars[i] == c {
            let a: String = text_of(&chars, 0, i);
            let b: String = text_of(&chars, i + 1, chars.len());
            assert(a@ =~= s@.take(i as int));
            assert(b@ =~= s@.skip(i as int + 1));
            return Some((a, b));
        }
        assert(chars@.skip(i as int).skip(1) =~= chars@.skip(i as int + 1));
        i = i + 1;
    }
    None
}

/// Splits at the last occurrence of a character.
pub fn split_last(s: &str, c: char) -> (r: Option<(String, String)>)
    ensures
        pair_view(r) == parted_last(s@, c),
{
    let chars: Vec<char> = chars_of(s);
    let mut i: usize = chars.len();
    assert(chars@.take(chars@.len() as int) =~= chars@);
    while i > 0
        invariant
            i <= chars.len(),
            chars@ == s@,
            last_at(chars@, c) == last_at(chars@.take(i as int), c),
        decreases i,
    {
        i = i - 1;
        assert(chars@.take(i as int + 1).last() == chars@[i as int]);
        assert(chars@.take(i as int + 1).drop_last() =~= chars@.take(i as int));
        if chars[i] == c {
            let a: String = text_of(&chars, 0, i);
            let b: String = text_of(&chars, i + 1, chars.len());
            assert(a@ =~= s@.take(i as int));
            assert(b@ =~= s@.skip(i as int + 1));
            return Some((a, b));
        }
    }
    None
}

/// What follows a prefix, when the text begins with it.
pub open spec fn stripped(s: Seq<char>, prefix: Seq<char>) -> Option<Seq<char>> {
    if text::has_prefix(s, prefix) {
        Some(s.skip(prefix.len() as int))
    } else {
        None
    }
}

/// Executable [`stripped`].
pub fn strip_prefix(s: &str, prefix: &str) -> (r: Option<String>)
    ensures
        text::opt_text(r) == stripped(s@, prefix@),
{
    let chars: Vec<char> = chars_of(s);
    let n: usize = chars_of(prefix).len();
    assert(chars@.skip(0) =~= s@);
    if prefix_at(&chars, 0, prefix) {
        let r: String = text_of(&chars, n, chars.len());
        assert(r@ =~= s@.skip(n as int));
        Some(r)
    } else {
        None
    }
}

/// Position of the first occurrence of a text, when there is one.
pub open spec fn text_at(s: Seq<char>, p: Seq<char>) -> Option<int>
    decreases s.len(),
{
    if text::has_prefix(s, p) {
        Some(0)
    } else if s.len() == 0 {
        None
    } else {
        match text_at(s.skip(1), p) {
            Some(n) => Some(n + 1),
            None => None,
        }
    }
}

/// The two sides of the first occurrence of a text.
pub open spec fn parted_by(s: Seq<char>, p: Seq<char>) -> Option<(Seq<char>, Seq<char>)> {
    match text_at(s, p) {
        Some(n) => Some((s.take(n), s.skip(n + p.len()))),
        None => None,
    }
}

pub open spec fn shifted(n: Option<int>, by: int) -> Option<int> {
    match n {
        Some(m) => Some(m + by),
        None => None,
    }
}

/// Splits at the first occurrence of a text.
pub fn split_by(s: &str, p: &str) -> (r: Option<(String, String)>)
    ensures
        pair_view(r) == parted_by(s@, p@),
{
    let chars: Vec<char> = chars_of(s);
    let n: usize = chars_of(p).len();
    let mut i: usize = 0;
    assert(chars@.skip(0) =~= chars@);
    assert(text_at(chars@, p@) == shifted(text_at(chars@.skip(0), p@), 0));
    loop
        invariant
            i <= chars.len(),
            chars@ == s@,
            n == p@.len(),
            text_at(chars@, p@) == shifted(text_at(chars@.skip(i as int), p@), i as int),
        decreases chars.len() - i,
    {
        if prefix_at(&chars, i, p) {
            let a: String = text_of(&chars, 0, i);
            let b: String = text_of(&chars, i + n, chars.len());
            assert(a@ =~= s@.take(i as int));
            assert(b@ =~= s@.skip(i + n));
            return Some((a, b));
        }
        if i == chars.len() {
            return None;
        }
        assert(chars@.skip(i as int).skip(1) =~= chars@.skip(i as int + 1));
        i = i + 1;
    }
}

/// The text without its leading characters that are among `marks`.
pub open spec fn trimmed_start(s: Seq<char>, marks: Seq<char>) -> Seq<char>
    decreases s.len(),
{
    if s.len() > 0 && marks.contains(s[0]) {
        trimmed_start(s.skip(1), marks)
    } else {
        s
    }
}

/// Executable [`trimmed_start`].
pub fn trim_start(s: &str, marks: &str) -> (r: String)
    ensures
        r@ == trimmed_start(s@, marks@),
{
    let chars: Vec<char> = chars_of(s);
    let m: Vec<char> = chars_of(marks);
    let mut i: usize = 0;
    assert(chars@.skip(0) =~= chars@);
    while i < chars.len() && one_of(chars[i], &m)
        invariant
            i <= chars.len(),
            m@ == marks@,
            trimmed_start(chars@, marks@) == trimmed_start(chars@.skip(i as int), marks@),
        decreases chars.len() - i,
    {
        assert(chars@.skip(i as int)[0] == chars@[i as int]);
        assert(chars@.skip(i as int).skip(1) =~= chars@.skip(i as int + 1));
        i = i + 1;
    }
    assert(i < chars.len() ==> chars@.skip(i as int)[0] == chars@[i as int]);
    let r: String = text_of(&chars, i, chars.len());
    assert(r@ =~= chars@.skip(i as int));
    r
}

/// The text without every character that is one of `marks`.
pub open spec fn without(s: Seq<char>, marks: Seq<char>) -> Seq<char>
    decreases s.len(),
{
    if s.len() == 0 {
        Seq::empty()
    } else if marks.contains(s.last()) {
        without(s.drop_last(), marks)
    } else {
        without(s.drop_last(), marks).push(s.last())
    }
}

/// Executable [`without`].
pub fn remove_all(s: &str, marks: &str) -> (r: String)
    ensures
        r@ == without(s@, marks@),
{
    let chars: Vec<char> = chars_of(s);
    let m: Vec<char> = chars_of(marks);
    let mut r: String = String::new();
    let mut i: usize = 0;
    assert(chars@.take(0) =~= Seq::<char>::empty());
    while i < chars.len()
        invariant
            i <= chars.len(),
            m@ == marks@,
            r@ == without(chars@.take(i as int), marks@),
        decreases chars.len() - i,
    {
        assert(chars@.take(i as int + 1).drop_last() =~= chars@.take(i as int));
        assert(chars@.take(i as int + 1).last() == chars@[i as int]);
        if !one_of(chars[i], &m) {
            r.push(chars[i]);
        }
        i = i + 1;
    }
    assert(chars@.take(chars@.len() as int) =~= chars@);
    r
}

/// The text with every occurrence of a character replaced by a text.
pub open spec fn replaced(s: Seq<char>, c: char, by: Seq<char>) -> Seq<char>
    decreases s.len(),
{
    if s.len() == 0 {
        Seq::empty()
    } else if s.last() == c {
        replaced(s.drop_last(), c, by) + by
    } else {
        replaced(s.drop_last(), c, by).push(s.last())
    }
}

/// Executable [`replaced`].
pub fn replace_all(s: &str, c: char, by: &str) -> (r: String)
    ensures
        r@ == replaced(s@, c, by@),
{
    let chars: Vec<char> = chars_of(s);
    let mut r: String = String::new();
    let mut i: usize = 0;
    assert(chars@.take(0) =~= Seq::<char>::empty());
    while i < chars.len()
        invariant
            i <= chars.len(),
            r@ == replaced(chars@.take(i as int), c, by@),
        decreases chars.len() - i,
    {
        assert(chars@.take(i as int + 1).drop_last() =~= chars@.take(i as int));
        assert(chars@.take(i as int + 1).last() == chars@[i as int]);
        if chars[i] == c {
            r.push_str(by);
        } else {
            r.push(chars[i]);
        }
        i = i + 1;
    }
    assert(chars@.take(chars@.len() as int) =~= chars@);
    r
}

/// A space or a control character of the C0 range.
pub open spec fn is_low(c: char) -> bool {
    c <= ' '
}

/// The text without the leading spaces and C0 controls.
pub open spec fn low_trimmed_start(s: Seq<char>) -> Seq<char>
    decreases s.len(),
{
    if s.len() > 0 && is_low(s[0]) {
        low_trimmed_start(s.skip(1))
    } else {
        s
    }
}

/// The text without the trailing spaces and C0 controls.
pub open spec fn low_trimmed_end(s: Seq<char>) -> Seq<char>
    decreases s.len(),
{
    if s.len() > 0 && is_low(s.last()) {
        low_trimmed_end(s.drop_last())
    } else {
        s
    }
}

/// The text without spaces and C0 controls at either end.
pub fn trim_low(s: &str) -> (r: String)
    ensures
        r@ == low_trimmed_end(low_trimmed_start(s@)),
{
    let chars: Vec<char> = chars_of(s);
    let mut i: usize = 0;
    assert(chars@.skip(0) =~= chars@);
    while i < chars.len() && chars[i] <= ' '
        invariant
            i <= chars.len(),
            low_trimmed_start(chars@) == low_trimmed_start(chars@.skip(i as int)),
        decreases chars.len() - i,
    {
        assert(chars@.skip(i as int)[0] == chars@[i as int]);
        assert(chars@.skip(i as int).skip(1) =~= chars@.skip(i as int + 1));
        i = i + 1;
    }
    assert(i < chars.len() ==> chars@.skip(i as int)[0] == chars@[i as int]);
    let ghost t = chars@.skip(i as int);
    assert(t == low_trimmed_start(chars@));
    let mut j: usize = chars.len();
    assert(chars@.subrange(i as int, j as int) =~= t);
    while j > i && chars[j - 1] <= ' '
        invariant
            i <= j <= chars.len(),
            low_trimmed_end(t) == low_trimmed_end(chars@.subrange(i as int, j as int)),
        decreases j,
    {
        let ghost cur = chars@.subrange(i as int, j as int);
        assert(cur.last() == chars@[j as int - 1]);
        assert(cur.drop_last() =~= chars@.subrange(i as int, j as int - 1));
        j = j - 1;
    }
    assert(j > i ==> chars@.subrange(i as int, j as int).last() == chars@[j as int - 1]);
    text_of(&chars, i, j)
}

/// The lower-case form of an ASCII letter; any other character is itself.
pub open spec fn lower_char(c: char) -> char {
    if 'A' <= c && c <= 'Z' {
        (c as u8 + 32) as char
    } else {
        c
    }
}

/// The text with its ASCII letters in lower case.
pub open spec fn lowered(s: Seq<char>) -> Seq<char> {
    Seq::new(s.len(), |i: int| lower_char(s[i]))
}

/// Executable [`lowered`].
pub fn lower(s: &str) -> (r: String)
    ensures
        r@ == lowered(s@),
{
    let chars: Vec<char> = chars_of(s);
    let mut r: String = String::new();
    let mut i: usize = 0;
    while i < chars.len()
        invariant
            i <= chars.len(),
            r@.len() == i,
            forall|j: int| 0 <= j < i ==> r@[j] == lower_char(chars@[j]),
        decreases chars.len() - i,
    {
        let c: char = chars[i];
        if c >= 'A' && c <= 'Z' {
            r.push((c as u8 + 32) as char);
        } else {
            r.push(c);
        }
        i = i + 1;
    }
    assert(r@ =~= lowered(s@));
    r
}

pub open spec fn is_ascii_letter(c: char) -> bool {
    ('a' <= c && c <= 'z') || ('A' <= c && c <= 'Z')
}

/// Executable [`is_ascii_letter`].
pub fn ascii_letter(c: char) -> (r: bool)
    ensures
        r == is_ascii_letter(c),
{
    (c >= 'a' && c <= 'z') || (c >= 'A' && c <= 'Z')
}

/// Whether every character of a text is a decimal digit.
pub fn digits_only(s: &str) -> (r: bool)
    ensures
        r == text::all_digits(s@),
{
    let chars: Vec<char> = chars_of(s);
    let mut i: usize = 0;
    while i < chars.len()
        invariant
            i <= chars.len(),
            chars@ == s@,
            forall|j: int| 0 <= j < i ==> text::is_digit(#[trigger] s@[j]),
        decreases chars.len() - i,
    {
        let c: char = chars[i];
        if !(c >= '0' && c <= '9') {
            assert(!text::is_digit(s@[i as int]));
            return false;
        }
        i = i + 1;
    }
    true
}

/// The value of a digit in notations up to base sixteen.
pub open spec fn digit_value(c: char) -> Option<nat> {
    if '0' <= c && c <= '9' {
        Some((c as nat - 48) as nat)
    } else if 'a' <= c && c <= 'f' {
        Some((c as nat - 87) as nat)
    } else if 'A' <= c && c <= 'F' {
        Some((c as nat - 55) as nat)
    } else {
        None
    }
}

/// The number that a text of digits denotes in a base, when every character
/// is a digit of that base.
pub open spec fn based_value(s: Seq<char>, base: nat) -> Option<nat>
    decreases s.len(),
{
    if s.len() == 0 {
        Some(0)
    } else {
        match (based_value(s.drop_last(), base), digit_value(s.last())) {
            (Some(v), Some(d)) => if d < base {
                Some(v * base + d)
            } else {
                None
            },
            _ => None,
        }
    }
}

/// The number an unsigned text denotes in a base: an optional plus sign and
/// at least one digit, below two to the sixty-fourth.
pub open spec fn based_number(s: Seq<char>, base: nat) -> Option<u64> {
    let d = text::unsigned_digits(s);
    match based_value(d, base) {
        Some(v) => if d.len() > 0 && v <= u64::MAX {
            Some(v as u64)
        } else {
            None
        },
        None => None,
    }
}

proof fn lemma_based_grows(s: Seq<char>, base: nat, n: int)
    requires
        0 <= n <= s.len(),
        base >= 2,
        based_value(s, base) is Some,
    ensures
        based_value(s.take(n), base) is Some,
        based_value(s.take(n), base)->0 <= based_value(s, base)->0,
    decreases s.len(),
{
    if n == s.len() {
        assert(s.take(n) =~= s);
    } else {
        let t = s.drop_last();
        lemma_based_grows(t, base, n);
        assert(t.take(n) =~= s.take(n));
        let v = based_value(t, base)->0;
        assert(v <= v * base) by (nonlinear_arith)
            requires
                base >= 2,
        ;
    }
}

/// Executable [`based_number`].
pub fn parse_based(s: &str, base: u64) -> (r: Option<u64>)
    requires
        base == 8 || base == 10 || base == 16,
    ensures
        r == based_number(s@, base as nat),
{
    let chars: Vec<char> = chars_of(s);
    let start: usize = if chars.len() > 1 && chars[0] == '+' {
        1
    } else {
        0
    };
    let ghost d = text::unsigned_digits(s@);
    assert(d =~= chars@.skip(start as int));
    if chars.len() == start {
        return None;
    }
    let mut value: u64 = 0;
    let mut i: usize = start;
    assert(d.take(0) =~= Seq::<char>::empty());
    while i < chars.len()
        invariant
            start <= i <= chars.len(),
            base == 8 || base == 10 || base == 16,
            d == chars@.skip(start as int),
            d == text::unsigned_digits(s@),
            d.len() > 0,
            based_value(d.take(i - start), base as nat) == Some(value as nat),
        decreases chars.len() - i,
    {
        let c: char = chars[i];
        let ghost k = i - start;
        assert(d[k] == c);
        assert(d.take(k + 1).drop_last() =~= d.take(k));
        assert(d.take(k + 1).last() == c);
        let v: u64 = if c >= '0' && c <= '9' {
            (c as u32 - 48) as u64
        } else if c >= 'a' && c <= 'f' {
            (c as u32 - 87) as u64
        } else if c >= 'A' && c <= 'F' {
            (c as u32 - 55) as u64
        } else {
            16
        };
        if v >= base {
            proof {
                assert(based_value(d.take(k + 1), base as nat) is None);
                if based_value(d, base as nat) is Some {
                    lemma_based_grows(d, base as nat, k + 1);
                }
            }
            return None;
        }
        assert(based_value(d.take(k + 1), base as nat) == Some(
            (value as nat * base as nat + v as nat) as nat,
        ));
        if value > (u64::MAX - v) / base {
            assert(value * base + v > u64::MAX) by (nonlinear_arith)
                requires
                    value > (u64::MAX - v) / (base as int),
                    base == 8 || base == 10 || base == 16,
                    v < base,
            ;
            proof {
                if based_value(d, base as nat) is Some {
                    lemma_based_grows(d, base as nat, k + 1);
                }
            }
            return None;
        }
        assert(value * base + v <= u64::MAX) by (nonlinear_arith)
            requires
                value <= (u64::MAX - v) / (base as int),
                base == 8 || base == 10 || base == 16,
                v < base,
        ;
        value = value * base + v;
        i = i + 1;
    }
    assert(d.take(d.len() as int) =~= d);
    Some(value)
}

/// The number that digits denote in a base: digits and nothing else, not even
/// a sign.
pub open spec fn digits_number(s: Seq<char>, base: nat) -> Option<u64> {
    if s.len() > 0 && s[0] == '+' {
        None
    } else {
        based_number(s, base)
    }
}

/// Executable [`digits_number`].
pub fn parse_digits(s: &str, base: u64) -> (r: Option<u64>)
    requires
        base == 8 || base == 10 || base == 16,
    ensures
        r == digits_number(s@, base as nat),
{
    let chars: Vec<char> = chars_of(s);
    if chars.len() > 0 && chars[0] == '+' {
        None
    } else {
        parse_based(s, base)
    }
}

} // verus!
