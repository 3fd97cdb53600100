//! Text as a sequence of characters: the handful of string operations that
//! the rest of the crate is written in, each with what it computes stated over
//! `Seq<char>`.

use vstd::prelude::*;
use vstd::slice::slice_subrange;

verus! {

broadcast use vstd::string::group_string_axioms;

/// `String::push` appends one character.
pub assume_specification[ String::push ](s: &mut String, c: char)
    ensures
        final(s)@ == old(s)@.push(c),
;

/// The characters of `s`, in order.
pub fn chars_of(s: &str) -> (chars: Vec<char>)
    ensures
        chars@ == s@,
{
    let mut chars: Vec<char> = Vec::new();
    for c in it: s.chars()
        invariant
            chars@ == it.seq().take(it.index()),
            it.seq() == s@,
    {
        chars.push(c);
    }
    chars
}

/// The string made of `chars`, in order.
pub fn string_of(chars: &[char]) -> (s: String)
    ensures
        s@ == chars@,
{
    let mut s = String::new();
    let mut i: usize = 0;
    while i < chars.len()
        invariant
            i <= chars.len(),
            s@ == chars@.take(i as int),
        decreases chars.len() - i,
    {
        s.push(chars[i]);
        proof {
            assert(chars@.take(i as int + 1) =~= chars@.take(i as int).push(chars@[i as int]));
        }
        i += 1;
    }
    proof {
        assert(chars@.take(chars@.len() as int) =~= chars@);
    }
    s
}

/// Whether two runs of characters are the same.
pub fn same_chars(a: &[char], b: &[char]) -> (same: bool)
    ensures
        same == (a@ == b@),
{
    if a.len() != b.len() {
        return false;
    }
    let mut i: usize = 0;
    while i < a.len()
        invariant
            i <= a.len(),
            a.len() == b.len(),
            forall|j: int| 0 <= j < i ==> a@[j] == b@[j],
        decreases a.len() - i,
    {
        if a[i] != b[i] {
            return false;
        }
        i += 1;
    }
    proof {
        assert(a@ =~= b@);
    }
    true
}

/// Whether two strings are the same.
pub fn same_text(a: &str, b: &str) -> (same: bool)
    ensures
        same == (a@ == b@),
{
    same_chars(chars_of(a).as_slice(), chars_of(b).as_slice())
}

/// The characters with the Unicode property `White_Space`.
pub open spec fn white_space(c: char) -> bool {
    let code = c as u32;
    ||| 0x09 <= code <= 0x0d
    ||| code == 0x20
    ||| code == 0x85
    ||| code == 0xa0
    ||| code == 0x1680
    ||| 0x2000 <= code <= 0x200a
    ||| code == 0x2028
    ||| code == 0x2029
    ||| code == 0x202f
    ||| code == 0x205f
    ||| code == 0x3000
}

/// Whether `c` is white space.
pub fn is_white_space(c: char) -> (yes: bool)
    ensures
        yes == white_space(c),
{
    let code: u32 = c as u32;
    (0x09 <= code && code <= 0x0d) || code == 0x20 || code == 0x85 || code == 0xa0 || code == 0x1680
        || (0x2000 <= code && code <= 0x200a) || code == 0x2028 || code == 0x2029 || code == 0x202f
        || code == 0x205f || code == 0x3000
}

/// `s` without its leading white space.
pub open spec fn trim_start(s: Seq<char>) -> Seq<char>
    decreases s.len(),
{
    if s.len() > 0 && white_space(s[0]) {
        trim_start(s.drop_first())
    } else {
        s
    }
}

/// `s` without its trailing white space.
pub open spec fn trim_end(s: Seq<char>) -> Seq<char>
    decreases s.len(),
{
    if s.len() > 0 && white_space(s.last()) {
        trim_end(s.drop_last())
    } else {
        s
    }
}

/// `s` without the white space around it.
pub open spec fn trim(s: Seq<char>) -> Seq<char> {
    trim_end(trim_start(s))
}

/// The rest of `s` behind its leading white space.
pub fn trim_start_chars(s: &[char]) -> (rest: &[char])
    ensures
        rest@ == trim_start(s@),
{
    let mut i: usize = 0;
    proof {
        assert(s@.skip(0) =~= s@);
    }
    while i < s.len() && is_white_space(s[i])
        invariant
            i <= s.len(),
            trim_start(s@) == trim_start(s@.skip(i as int)),
        decreases s.len() - i,
    {
        proof {
            assert(s@.skip(i as int).drop_first() =~= s@.skip(i as int + 1));
        }
        i += 1;
    }
    proof {
        assert(s@.skip(i as int) =~= s@.subrange(i as int, s@.len() as int));
    }
    slice_subrange(s, i, s.len())
}

/// The part of `s` before its trailing white space.
pub fn trim_end_chars(s: &[char]) -> (rest: &[char])
    ensures
        rest@ == trim_end(s@),
{
    let mut n: usize = s.len();
    proof {
        assert(s@.take(n as int) =~= s@);
    }
    while n > 0 && is_white_space(s[n - 1])
        invariant
            n <= s.len(),
            trim_end(s@) == trim_end(s@.take(n as int)),
        decreases n,
    {
        proof {
            assert(s@.take(n as int).drop_last() =~= s@.take(n as int - 1));
        }
        n -= 1;
    }
    proof {
        assert(s@.take(n as int) =~= s@.subrange(0, n as int));
    }
    slice_subrange(s, 0, n)
}

/// The part of `s` between the white space around it.
pub fn trim_chars(s: &[char]) -> (rest: &[char])
    ensures
        rest@ == trim(s@),
{
    trim_end_chars(trim_start_chars(s))
}

/// Where `c` first stands in `s`, or the length of `s` if it does not.
pub open spec fn position(s: Seq<char>, c: char) -> nat
    decreases s.len(),
{
    if s.len() == 0 || s[0] == c {
        0
    } else {
        1 + position(s.drop_first(), c)
    }
}

/// What stands in `s` before the first `c`; all of `s` if there is none.
pub open spec fn before(s: Seq<char>, c: char) -> Seq<char> {
    s.take(position(s, c) as int)
}

/// A place in a text is not behind its end.
pub proof fn lemma_position_fits(s: Seq<char>, c: char)
    ensures
        position(s, c) <= s.len(),
    decreases s.len(),
{
    if s.len() > 0 && s[0] != c {
        lemma_position_fits(s.drop_first(), c);
    }
}

proof fn lemma_position(s: Seq<char>, c: char, n: int)
    requires
        0 <= n <= s.len(),
        forall|j: int| 0 <= j < n ==> s[j] != c,
        n < s.len() ==> s[n] == c,
    ensures
        position(s, c) == n,
    decreases n,
{
    if n > 0 {
        assert(s[0] != c);
        assert forall|j: int| 0 <= j < n - 1 implies s.drop_first()[j] != c by {
            assert(s[j + 1] != c);
        }
        lemma_position(s.drop_first(), c, n - 1);
    }
}

/// Finds where `c` first stands in `s`.
pub fn position_in(s: &[char], c: char) -> (n: usize)
    ensures
        n == position(s@, c),
        n <= s@.len(),
        n < s@.len() ==> s@[n as int] == c,
{
    let mut n: usize = 0;
    while n < s.len() && s[n] != c
        invariant
            n <= s.len(),
            forall|j: int| 0 <= j < n ==> s@[j] != c,
        decreases s.len() - n,
    {
        n += 1;
    }
    proof {
        lemma_position(s@, c, n as int);
    }
    n
}

/// The part of `s` before the first `c`.
pub fn before_chars(s: &[char], c: char) -> (head: &[char])
    ensures
        head@ == before(s@, c),
{
    let n: usize = position_in(s, c);
    slice_subrange(s, 0, n)
}

/// What stands in `s` behind the last `c`; all of `s` if there is none.
pub open spec fn behind_last(s: Seq<char>, c: char) -> Seq<char>
    decreases s.len(),
{
    if s.len() == 0 || s.last() == c {
        Seq::empty()
    } else {
        behind_last(s.drop_last(), c).push(s.last())
    }
}

/// The part of `s` behind the last `c`.
pub fn behind_last_chars(s: &[char], c: char) -> (tail: &[char])
    ensures
        tail@ == behind_last(s@, c),
{
    let mut n: usize = s.len();
    proof {
        assert(s@.take(n as int) =~= s@);
        assert(behind_last(s@, c) =~= behind_last(s@.take(n as int), c) + s@.skip(n as int));
    }
    while n > 0 && s[n - 1] != c
        invariant
            n <= s.len(),
            behind_last(s@, c) == behind_last(s@.take(n as int), c) + s@.skip(n as int),
        decreases n,
    {
        proof {
            assert(s@.take(n as int).drop_last() =~= s@.take(n as int - 1));
            assert(behind_last(s@, c) =~= behind_last(s@.take(n as int - 1), c) + s@.skip(
                n as int - 1,
            ));
        }
        n -= 1;
    }
    proof {
        assert(behind_last(s@, c) =~= s@.subrange(n as int, s@.len() as int));
    }
    slice_subrange(s, n, s.len())
}

/// The length of the run of other characters that `s` begins with, before
/// its first white space.
pub open spec fn field_len(s: Seq<char>) -> nat
    decreases s.len(),
{
    if s.len() == 0 || white_space(s[0]) {
        0
    } else {
        1 + field_len(s.drop_first())
    }
}

proof fn lemma_field_len(s: Seq<char>, n: int)
    requires
        0 <= n <= s.len(),
        forall|j: int| 0 <= j < n ==> !white_space(s[j]),
        n < s.len() ==> white_space(s[n]),
    ensures
        field_len(s) == n,
    decreases n,
{
    if n > 0 {
        assert(!white_space(s[0]));
        assert forall|j: int| 0 <= j < n - 1 implies !white_space(s.drop_first()[j]) by {
            assert(!white_space(s[j + 1]));
        }
        lemma_field_len(s.drop_first(), n - 1);
    }
}

/// Measures the field that `s` begins with.
pub fn field_len_of(s: &[char]) -> (n: usize)
    ensures
        n == field_len(s@),
        n <= s@.len(),
{
    let mut n: usize = 0;
    while n < s.len() && !is_white_space(s[n])
        invariant
            n <= s.len(),
            forall|j: int| 0 <= j < n ==> !white_space(s@[j]),
        decreases s.len() - n,
    {
        n += 1;
    }
    proof {
        lemma_field_len(s@, n as int);
    }
    n
}

/// Whether `s` begins with `prefix`.
pub fn starts_with_chars(s: &[char], prefix: &[char]) -> (yes: bool)
    ensures
        yes == prefix@.is_prefix_of(s@),
{
    if prefix.len() > s.len() {
        return false;
    }
    same_chars(slice_subrange(s, 0, prefix.len()), prefix)
}

/// Whether `s` begins with `prefix`.
pub fn starts_with(s: &[char], prefix: &str) -> (yes: bool)
    ensures
        yes == prefix@.is_prefix_of(s@),
{
    starts_with_chars(s, chars_of(prefix).as_slice())
}

/// Whether `s` ends with `suffix`.
pub fn ends_with(s: &[char], suffix: &str) -> (yes: bool)
    ensures
        yes == suffix@.is_suffix_of(s@),
{
    let suffix_chars = chars_of(suffix);
    if suffix_chars.len() > s.len() {
        return false;
    }
    same_chars(slice_subrange(s, s.len() - suffix_chars.len(), s.len()), suffix_chars.as_slice())
}

/// Whether `part` stands somewhere in `s`.
pub open spec fn occurs_in(part: Seq<char>, s: Seq<char>) -> bool {
    exists|i: int| 0 <= i <= s.len() - part.len() && #[trigger] s.subrange(i, i + part.len()) == part
}

/// Looks for `part` in `s`.
pub fn contains_text(s: &[char], part: &str) -> (yes: bool)
    ensures
        yes == occurs_in(part@, s@),
{
    let wanted = chars_of(part);
    if wanted.len() > s.len() {
        return false;
    }
    let last: usize = s.len() - wanted.len();
    let mut i: usize = 0;
    while i < last
        invariant
            wanted@ == part@,
            last == s.len() - wanted.len(),
            i <= last,
            forall|j: int| 0 <= j < i ==> #[trigger] s@.subrange(j, j + part@.len()) != part@,
        decreases last - i,
    {
        if same_chars(slice_subrange(s, i, i + wanted.len()), wanted.as_slice()) {
            return true;
        }
        i += 1;
    }
    proof {
        assert(s@.subrange(last as int, s@.len() as int) == s@.subrange(
            last as int,
            last + part@.len(),
        ));
    }
    same_chars(slice_subrange(s, last, s.len()), wanted.as_slice())
}

/// `s` behind `prefix`, where it begins with it.
pub open spec fn strip_prefix(s: Seq<char>, prefix: Seq<char>) -> Option<Seq<char>> {
    if prefix.is_prefix_of(s) {
        Some(s.skip(prefix.len() as int))
    } else {
        None
    }
}

/// The rest of `s` behind `prefix`, where it begins with it.
pub fn strip_prefix_chars<'a>(s: &'a [char], prefix: &str) -> (rest: Option<&'a [char]>)
    ensures
        rest is Some == prefix@.is_prefix_of(s@),
        rest matches Some(r) ==> strip_prefix(s@, prefix@) == Some(r@),
{
    let prefix_chars = chars_of(prefix);
    if starts_with_chars(s, prefix_chars.as_slice()) {
        proof {
            assert(s@.skip(prefix@.len() as int) =~= s@.subrange(
                prefix@.len() as int,
                s@.len() as int,
            ));
        }
        Some(slice_subrange(s, prefix_chars.len(), s.len()))
    } else {
        None
    }
}

/// ASCII capital letters become small ones; every other character stays.
pub open spec fn ascii_lower(c: char) -> char {
    if 'A' <= c <= 'Z' {
        ((c as u8 + 32) as u8) as char
    } else {
        c
    }
}

/// `s` with its ASCII capital letters made small.
pub open spec fn ascii_lowercase(s: Seq<char>) -> Seq<char> {
    s.map_values(|c: char| ascii_lower(c))
}

/// Makes an ASCII capital letter small.
pub fn ascii_lower_of(c: char) -> (l: char)
    ensures
        l == ascii_lower(c),
{
    if 'A' <= c && c <= 'Z' {
        (c as u8 + 32) as char
    } else {
        c
    }
}

/// Makes the ASCII capital letters of `s` small.
pub fn ascii_lowercase_chars(s: &[char]) -> (lower: Vec<char>)
    ensures
        lower@ == ascii_lowercase(s@),
{
    let mut lower: Vec<char> = Vec::new();
    let mut i: usize = 0;
    while i < s.len()
        invariant
            i <= s.len(),
            lower@.len() == i,
            forall|j: int| 0 <= j < i ==> lower@[j] == ascii_lower(s@[j]),
        decreases s.len() - i,
    {
        lower.push(ascii_lower_of(s[i]));
        i += 1;
    }
    proof {
        assert(lower@ =~= ascii_lowercase(s@));
    }
    lower
}

/// Makes the ASCII capital letters of a string small.
pub fn ascii_lowercase_text(s: &str) -> (lower: String)
    ensures
        lower@ == ascii_lowercase(s@),
{
    string_of(ascii_lowercase_chars(chars_of(s).as_slice()).as_slice())
}

/// Whether two runs of characters differ at most in the case of ASCII letters.
pub fn same_ignoring_ascii_case(a: &[char], b: &[char]) -> (same: bool)
    ensures
        same == (ascii_lowercase(a@) == ascii_lowercase(b@)),
{
    same_chars(ascii_lowercase_chars(a).as_slice(), ascii_lowercase_chars(b).as_slice())
}

/// What `str::to_lowercase` makes of a string: the full Unicode lower case.
pub uninterp spec fn unicode_lowercase(s: Seq<char>) -> Seq<char>;

/// `str::to_lowercase`. The result is named, not described: Unicode's lower
/// case is a table. It depends on the string alone.
pub assume_specification[ str::to_lowercase ](s: &str) -> (lower: String)
    ensures
        lower@ == unicode_lowercase(s@),
;

/// `a` and `b` in one string.
pub fn joined(a: &str, b: &str) -> (s: String)
    ensures
        s@ == a@ + b@,
{
    a.to_owned().concat(b)
}

/// The lines of `s`. A line ends at a line feed, or at a carriage return
/// directly before one; the last line needs no end.
pub open spec fn lines(s: Seq<char>) -> Seq<Seq<char>>
    decreases s.len(),
{
    if s.len() == 0 {
        Seq::empty()
    } else {
        let n = position(s, '\n') as int;
        if n < s.len() {
            seq![without_carriage_return(s.take(n))] + lines(s.skip(n + 1))
        } else {
            seq![s]
        }
    }
}

/// A line without the carriage return before its line feed.
pub open spec fn without_carriage_return(line: Seq<char>) -> Seq<char> {
    if line.len() > 0 && line.last() == '\r' {
        line.drop_last()
    } else {
        line
    }
}

/// The views of a list of runs of characters.
pub open spec fn runs(v: Seq<&[char]>) -> Seq<Seq<char>> {
    v.map_values(|r: &[char]| r@)
}

/// The views of a list of strings.
pub open spec fn texts(v: Seq<String>) -> Seq<Seq<char>> {
    v.map_values(|t: String| t@)
}

/// A list of the same strings.
pub fn copies(v: &[String]) -> (copy: Vec<String>)
    ensures
        texts(copy@) == texts(v@),
{
    let mut copy: Vec<String> = Vec::new();
    let mut i: usize = 0;
    while i < v.len()
        invariant
            i <= v.len(),
            copy@.len() == i,
            forall|j: int| 0 <= j < i ==> (#[trigger] copy@[j])@ == v@[j]@,
        decreases v.len() - i,
    {
        copy.push(v[i].clone());
        i += 1;
    }
    proof {
        assert(texts(copy@) =~= texts(v@));
    }
    copy
}

/// The views of a list of string slices.
pub open spec fn words(v: Seq<&str>) -> Seq<Seq<char>> {
    v.map_values(|w: &str| w@)
}

/// Whether `s` is among the options.
pub fn is_one_of(s: &str, options: &[&str]) -> (yes: bool)
    ensures
        yes == words(options@).contains(s@),
{
    let mut i: usize = 0;
    while i < options.len()
        invariant
            i <= options.len(),
            forall|j: int| 0 <= j < i ==> (#[trigger] options@[j])@ != s@,
        decreases options.len() - i,
    {
        if same_text(options[i], s) {
            proof {
                assert(words(options@)[i as int] == s@);
            }
            return true;
        }
        i += 1;
    }
    proof {
        if words(options@).contains(s@) {
            let j = choose|j: int| 0 <= j < words(options@).len() && words(options@)[j] == s@;
            assert(options@[j]@ == s@);
        }
    }
    false
}

/// Splits `s` into its lines.
pub fn lines_of<'a>(s: &'a [char]) -> (v: Vec<&'a [char]>)
    ensures
        runs(v@) == lines(s@),
{
    let mut v: Vec<&'a [char]> = Vec::new();
    let mut rest: &'a [char] = s;
    proof {
        assert(runs(v@) + lines(rest@) =~= lines(s@));
    }
    while rest.len() > 0
        invariant
            runs(v@) + lines(rest@) == lines(s@),
        decreases rest.len(),
    {
        let n: usize = position_in(rest, '\n');
        let ghost seen = runs(v@);
        if n < rest.len() {
            let end: usize = if n > 0 && rest[n - 1] == '\r' {
                n - 1
            } else {
                n
            };
            let line = slice_subrange(rest, 0, end);
            let tail = slice_subrange(rest, n + 1, rest.len());
            proof {
                assert(line@ =~= without_carriage_return(rest@.take(n as int)));
                assert(tail@ =~= rest@.skip(n + 1));
                assert(runs(v@.push(line)) =~= seen.push(line@));
                assert(seen + (seq![line@] + lines(tail@)) =~= seen.push(line@) + lines(tail@));
            }
            v.push(line);
            rest = tail;
        } else {
            proof {
                assert(runs(v@.push(rest)) =~= seen.push(rest@));
                assert(seen + seq![rest@] =~= seen.push(rest@));
                assert(lines(rest@) == seq![rest@]);
            }
            v.push(rest);
            let ended = slice_subrange(rest, n, rest.len());
            proof {
                assert(lines(ended@) =~= Seq::empty());
                assert(runs(v@) + lines(ended@) =~= runs(v@));
            }
            rest = ended;
        }
    }
    proof {
        assert(runs(v@) =~= lines(s@));
    }
    v
}

/// A decimal digit.
pub open spec fn digit(c: char) -> bool {
    '0' <= c <= '9'
}

/// The number that the decimal digits `s` write down.
pub open spec fn number(s: Seq<char>) -> nat
    decreases s.len(),
{
    if s.len() == 0 {
        0
    } else {
        number(s.drop_last()) * 10 + (s.last() as nat - '0' as nat) as nat
    }
}

/// Nothing but decimal digits.
pub open spec fn all_digits(s: Seq<char>) -> bool {
    forall|i: int| 0 <= i < s.len() ==> digit(#[trigger] s[i])
}

/// A number without its plus sign.
pub open spec fn without_plus(s: Seq<char>) -> Seq<char> {
    if s.len() > 0 && s[0] == '+' {
        s.drop_first()
    } else {
        s
    }
}

/// A number that fits in 32 bits, written in decimal digits with or without
/// a plus sign before them.
pub open spec fn parse_u32(s: Seq<char>) -> Option<u32> {
    let digits = without_plus(s);
    if digits.len() > 0 && all_digits(digits) && number(digits) <= u32::MAX {
        Some(number(digits) as u32)
    } else {
        None
    }
}

proof fn lemma_number_grows(s: Seq<char>, i: int)
    requires
        0 <= i <= s.len(),
    ensures
        number(s.take(i)) <= number(s),
    decreases s.len() - i,
{
    if i < s.len() {
        assert(s.take(i + 1).drop_last() =~= s.take(i));
        lemma_number_grows(s, i + 1);
    } else {
        assert(s.take(i) =~= s);
    }
}

/// Reads a number of 32 bits.
pub fn parse_u32_chars(s: &[char]) -> (n: Option<u32>)
    ensures
        n == parse_u32(s@),
{
    let start: usize = if s.len() > 0 && s[0] == '+' {
        1
    } else {
        0
    };
    let digits = slice_subrange(s, start, s.len());
    proof {
        assert(s@.subrange(0, s@.len() as int) =~= s@);
        assert(s@.len() > 0 ==> s@.subrange(1, s@.len() as int) =~= s@.drop_first());
    }
    if digits.len() == 0 {
        return None;
    }
    let mut n: u64 = 0;
    let mut i: usize = 0;
    while i < digits.len()
        invariant
            i <= digits.len(),
            n == number(digits@.take(i as int)),
            n <= u32::MAX,
            forall|j: int| 0 <= j < i ==> digit(digits@[j]),
            digits@.len() > 0,
            digits@ == without_plus(s@),
        decreases digits.len() - i,
    {
        let c = digits[i];
        if !('0' <= c && c <= '9') {
            proof {
                assert(!digit(digits@[i as int]));
            }
            return None;
        }
        let d: u32 = c as u32 - 48;
        proof {
            assert(digits@.take(i + 1).drop_last() =~= digits@.take(i as int));
            lemma_number_grows(digits@, i + 1);
        }
        n = n * 10 + d as u64;
        if n > u32::MAX as u64 {
            return None;
        }
        i += 1;
    }
    proof {
        assert(digits@.take(i as int) =~= digits@);
    }
    Some(n as u32)
}

/// A number without its sign.
pub open spec fn unsigned_part(s: Seq<char>) -> Seq<char> {
    if s.len() > 0 && (s[0] == '+' || s[0] == '-') {
        s.drop_first()
    } else {
        s
    }
}

/// Whether a number has a minus sign.
pub open spec fn negative(s: Seq<char>) -> bool {
    s.len() > 0 && s[0] == '-'
}

/// A number that fits in 64 bits, written in decimal digits with or without a
/// sign before them.
pub open spec fn parse_i64(s: Seq<char>) -> Option<i64> {
    let digits = unsigned_part(s);
    let value: int = if negative(s) {
        -(number(digits) as int)
    } else {
        number(digits) as int
    };
    if digits.len() > 0 && all_digits(digits) && i64::MIN <= value <= i64::MAX {
        Some(value as i64)
    } else {
        None
    }
}

/// Reads a signed number of 64 bits.
pub fn parse_i64_chars(s: &[char]) -> (n: Option<i64>)
    ensures
        n == parse_i64(s@),
{
    let minus = s.len() > 0 && s[0] == '-';
    let start: usize = if s.len() > 0 && (s[0] == '+' || s[0] == '-') {
        1
    } else {
        0
    };
    let digits = slice_subrange(s, start, s.len());
    proof {
        assert(s@.subrange(0, s@.len() as int) =~= s@);
        assert(s@.len() > 0 ==> s@.subrange(1, s@.len() as int) =~= s@.drop_first());
        assert(digits@ == unsigned_part(s@));
    }
    if digits.len() == 0 {
        return None;
    }
    let limit: u128 = if minus {
        0x8000_0000_0000_0000
    } else {
        0x7fff_ffff_ffff_ffff
    };
    let mut n: u128 = 0;
    let mut i: usize = 0;
    while i < digits.len()
        invariant
            i <= digits.len(),
            n == number(digits@.take(i as int)),
            n <= limit,
            limit == (if minus {
                0x8000_0000_0000_0000u128
            } else {
                0x7fff_ffff_ffff_ffffu128
            }),
            minus == negative(s@),
            forall|j: int| 0 <= j < i ==> digit(digits@[j]),
            digits@.len() > 0,
            digits@ == unsigned_part(s@),
        decreases digits.len() - i,
    {
        let c = digits[i];
        if !('0' <= c && c <= '9') {
            proof {
                assert(!digit(digits@[i as int]));
            }
            return None;
        }
        let d: u32 = c as u32 - 48;
        proof {
            assert(digits@.take(i + 1).drop_last() =~= digits@.take(i as int));
            lemma_number_grows(digits@, i + 1);
        }
        n = n * 10 + d as u128;
        if n > limit {
            return None;
        }
        i += 1;
    }
    proof {
        assert(digits@.take(i as int) =~= digits@);
    }
    if minus {
        if n == 0x8000_0000_0000_0000 {
            Some(i64::MIN)
        } else {
            Some(-(n as i64))
        }
    } else {
        Some(n as i64)
    }
}

/// `n` in decimal digits.
pub open spec fn decimal(n: nat) -> Seq<char>
    decreases n,
{
    if n < 10 {
        seq![digit_char(n)]
    } else {
        decimal(n / 10).push(digit_char(n % 10))
    }
}

/// The character of a digit.
pub open spec fn digit_char(d: nat) -> char {
    ('0' as u8 + d) as u8 as char
}

/// Writes a number in decimal digits.
pub fn decimal_text(n: u64) -> (s: String)
    ensures
        s@ == decimal(n as nat),
    decreases n,
{
    if n < 10 {
        let mut s = String::new();
        s.push((48u8 + n as u8) as char);
        proof {
            assert(s@ =~= decimal(n as nat));
        }
        s
    } else {
        let mut s = decimal_text(n / 10);
        s.push((48u8 + (n % 10) as u8) as char);
        s
    }
}

proof fn lemma_decimal_digits(n: nat)
    ensures
        decimal(n).len() > 0,
        all_digits(decimal(n)),
        number(decimal(n)) == n,
    decreases n,
{
    if n < 10 {
        assert(decimal(n).drop_last() =~= Seq::empty());
        assert(number(decimal(n).drop_last()) == 0);
        assert(decimal(n).last() == digit_char(n));
    } else {
        lemma_decimal_digits(n / 10);
        assert(decimal(n).drop_last() =~= decimal(n / 10));
        assert(decimal(n).last() == digit_char(n % 10));
        assert forall|i: int| 0 <= i < decimal(n).len() implies digit(
            #[trigger] decimal(n)[i],
        ) by {
            if i < decimal(n / 10).len() {
                assert(decimal(n)[i] == decimal(n / 10)[i]);
            }
        }
    }
}

/// A number that was written down is read back, and holds no white space.
pub proof fn lemma_decimal_is_read_back(n: u32)
    ensures
        parse_u32(decimal(n as nat)) == Some(n),
        decimal(n as nat).len() > 0,
        forall|i: int| 0 <= i < decimal(n as nat).len() ==> !white_space(#[trigger] decimal(n as nat)[i]),
{
    let d = decimal(n as nat);
    lemma_decimal_digits(n as nat);
    assert(digit(d[0]));
    assert forall|i: int| 0 <= i < d.len() implies !white_space(#[trigger] d[i]) by {
        assert(digit(d[i]));
    }
}

/// Nothing but white space.
pub open spec fn all_white_space(s: Seq<char>) -> bool {
    forall|i: int| 0 <= i < s.len() ==> white_space(#[trigger] s[i])
}

/// White space before a text is trimmed off, and the text is left alone where
/// it begins with something else.
pub proof fn lemma_trim_start(blank: Seq<char>, rest: Seq<char>)
    requires
        all_white_space(blank),
        rest.len() > 0 ==> !white_space(rest[0]),
    ensures
        trim_start(blank + rest) == rest,
    decreases blank.len(),
{
    if blank.len() == 0 {
        assert(blank + rest =~= rest);
    } else {
        assert(white_space(blank[0]));
        assert((blank + rest)[0] == blank[0]);
        assert((blank + rest).drop_first() =~= blank.drop_first() + rest);
        assert forall|i: int| 0 <= i < blank.drop_first().len() implies white_space(
            #[trigger] blank.drop_first()[i],
        ) by {
            assert(white_space(blank[i + 1]));
        }
        lemma_trim_start(blank.drop_first(), rest);
    }
}

/// White space behind a text is trimmed off in the same way.
pub proof fn lemma_trim_end(rest: Seq<char>, blank: Seq<char>)
    requires
        all_white_space(blank),
        rest.len() > 0 ==> !white_space(rest.last()),
    ensures
        trim_end(rest + blank) == rest,
    decreases blank.len(),
{
    if blank.len() == 0 {
        assert(rest + blank =~= rest);
    } else {
        assert(white_space(blank[blank.len() - 1]));
        assert((rest + blank).last() == blank.last());
        assert((rest + blank).drop_last() =~= rest + blank.drop_last());
        assert forall|i: int| 0 <= i < blank.drop_last().len() implies white_space(
            #[trigger] blank.drop_last()[i],
        ) by {
            assert(white_space(blank[i]));
        }
        lemma_trim_end(rest, blank.drop_last());
    }
}

/// Trimming leaves a text that begins with something else, and no longer one.
proof fn lemma_trimmed_start(s: Seq<char>)
    ensures
        trim_start(s).len() <= s.len(),
        trim_start(s).len() > 0 ==> !white_space(trim_start(s)[0]),
        trim_start(trim_start(s)) == trim_start(s),
        field_len(trim_start(s)) <= trim_start(s).len(),
    decreases s.len(),
{
    if s.len() > 0 && white_space(s[0]) {
        lemma_trimmed_start(s.drop_first());
    } else {
        lemma_field_fits(s);
    }
}

proof fn lemma_field_fits(s: Seq<char>)
    ensures
        field_len(s) <= s.len(),
    decreases s.len(),
{
    if s.len() > 0 && !white_space(s[0]) {
        lemma_field_fits(s.drop_first());
    }
}

/// The runs of other characters that white space separates in `s`.
pub open spec fn fields(s: Seq<char>) -> Seq<Seq<char>>
    decreases s.len(),
    via fields_decreases
{
    let rest = trim_start(s);
    if rest.len() == 0 {
        Seq::empty()
    } else {
        let n = field_len(rest) as int;
        seq![rest.take(n)] + fields(rest.skip(n))
    }
}

#[via_fn]
proof fn fields_decreases(s: Seq<char>) {
    lemma_trimmed_start(s);
}

/// Trimming the start of a text does not reach its end, unless there is
/// nothing else in it.
proof fn lemma_trim_start_keeps_end(s: Seq<char>, blank: Seq<char>)
    requires
        all_white_space(blank),
    ensures
        trim_start(s).len() > 0 ==> trim_start(s + blank) == trim_start(s) + blank,
        trim_start(s).len() == 0 ==> trim_start(s + blank).len() == 0,
    decreases s.len(),
{
    if s.len() == 0 {
        assert(s + blank =~= blank + Seq::<char>::empty());
        lemma_trim_start(blank, Seq::empty());
    } else if white_space(s[0]) {
        assert((s + blank).drop_first() =~= s.drop_first() + blank);
        lemma_trim_start_keeps_end(s.drop_first(), blank);
    }
}

proof fn lemma_trim_end_again(s: Seq<char>, blank: Seq<char>)
    requires
        all_white_space(blank),
    ensures
        trim_end(s + blank) == trim_end(s),
    decreases blank.len(),
{
    if blank.len() == 0 {
        assert(s + blank =~= s);
    } else {
        assert(white_space(blank[blank.len() - 1]));
        assert((s + blank).drop_last() =~= s + blank.drop_last());
        assert(all_white_space(blank.drop_last())) by {
            assert forall|i: int| 0 <= i < blank.drop_last().len() implies white_space(
                #[trigger] blank.drop_last()[i],
            ) by {
                assert(white_space(blank[i]));
            }
        }
        lemma_trim_end_again(s, blank.drop_last());
    }
}

/// White space behind a text makes no difference once it is trimmed.
pub proof fn lemma_trim_ignores_end(s: Seq<char>, blank: Seq<char>)
    requires
        all_white_space(blank),
    ensures
        trim(s + blank) == trim(s),
{
    lemma_trim_start_keeps_end(s, blank);
    if trim_start(s).len() > 0 {
        lemma_trim_end_again(trim_start(s), blank);
    } else {
        assert(trim_start(s + blank) =~= trim_start(s));
    }
}

/// White space behind a text adds no field to it.
pub proof fn lemma_fields_ignore_end(s: Seq<char>, blank: Seq<char>)
    requires
        all_white_space(blank),
    ensures
        fields(s + blank) == fields(s),
    decreases s.len(),
{
    lemma_trimmed_start(s);
    lemma_trim_start_keeps_end(s, blank);
    let rest = trim_start(s);
    if rest.len() > 0 {
        let n = field_len(rest) as int;
        lemma_field_is_solid(rest);
        let longer = rest + blank;
        assert forall|j: int| 0 <= j < n implies !white_space(longer[j]) by {
            assert(longer[j] == rest[j]);
        }
        assert(n < longer.len() ==> white_space(longer[n])) by {
            if n < rest.len() {
                assert(longer[n] == rest[n]);
            } else if n < longer.len() {
                assert(longer[n] == blank[0]);
            }
        }
        lemma_field_len(longer, n);
        assert(longer.take(n) =~= rest.take(n));
        assert(longer.skip(n) =~= rest.skip(n) + blank);
        lemma_fields_ignore_end(rest.skip(n), blank);
    }
}

/// A field holds no white space, and some follows it unless it is the last.
proof fn lemma_field_is_solid(s: Seq<char>)
    ensures
        field_len(s) <= s.len(),
        forall|j: int| 0 <= j < field_len(s) ==> !white_space(#[trigger] s[j]),
        field_len(s) < s.len() ==> white_space(s[field_len(s) as int]),
    decreases s.len(),
{
    if s.len() > 0 && !white_space(s[0]) {
        let rest = s.drop_first();
        lemma_field_is_solid(rest);
        assert forall|j: int| 0 <= j < field_len(s) implies !white_space(#[trigger] s[j]) by {
            if j > 0 {
                assert(s[j] == rest[j - 1]);
            }
        }
        if field_len(s) < s.len() {
            assert(s[field_len(s) as int] == rest[field_len(rest) as int]);
        }
    }
}

/// What is trimmed off the end is white space.
proof fn lemma_trimmed_end(s: Seq<char>)
    ensures
        trim_end(s).len() <= s.len(),
        trim_end(s) == s.take(trim_end(s).len() as int),
        all_white_space(s.skip(trim_end(s).len() as int)),
        trim_end(s).len() > 0 ==> !white_space(trim_end(s).last()),
    decreases s.len(),
{
    if s.len() > 0 && white_space(s.last()) {
        let shorter = s.drop_last();
        lemma_trimmed_end(shorter);
        let n = trim_end(s).len() as int;
        assert(shorter.take(n) =~= s.take(n));
        assert forall|i: int| 0 <= i < s.skip(n).len() implies white_space(
            #[trigger] s.skip(n)[i],
        ) by {
            if i < s.skip(n).len() - 1 {
                assert(shorter.skip(n)[i] == s.skip(n)[i]);
            } else {
                assert(s.skip(n)[i] == s.last());
            }
        }
    } else {
        assert(s.take(s.len() as int) =~= s);
    }
}

/// A text and the same text trimmed have the same fields; the latter begins
/// and ends with one.
pub proof fn lemma_fields_of_trimmed(s: Seq<char>)
    ensures
        fields(trim(s)) == fields(s),
        trim_start(trim(s)) == trim(s),
        trim(s).len() > 0 ==> !white_space(trim(s).last()),
{
    let started = trim_start(s);
    lemma_trimmed_start(s);
    lemma_trimmed_end(started);
    let whole = trim(s);
    let blank = started.skip(whole.len() as int);
    assert(started =~= whole + blank);
    lemma_fields_ignore_end(whole, blank);
    assert(fields(started) == fields(s));
    if whole.len() > 0 {
        assert(whole[0] == started[0]);
    }
}

/// A text that ends with a field keeps that end when its start is trimmed.
pub proof fn lemma_end_stays(s: Seq<char>)
    requires
        s.len() > 0,
        !white_space(s.last()),
    ensures
        trim_start(s).len() > 0,
        trim_start(s).last() == s.last(),
        fields(s).len() > 0,
        field_len(trim_start(s)) <= trim_start(s).len(),
    decreases s.len(),
{
    if white_space(s[0]) {
        lemma_end_stays(s.drop_first());
    }
    lemma_trimmed_start(s);
}

/// Two texts with a line feed between them have the lines of the first, each
/// of them ended, and those of the second.
pub proof fn lemma_lines_of_joined(a: Seq<char>, b: Seq<char>)
    ensures
        lines(a.push('\n') + b) == lines(a.push('\n')) + lines(b),
    decreases a.len(),
{
    let ended = a.push('\n');
    let whole = ended + b;
    let n = position(a, '\n') as int;
    lemma_first_line_feed(a);
    assert forall|j: int| 0 <= j < n implies ended[j] != '\n' && whole[j] != '\n' by {
        assert(ended[j] == a[j] && whole[j] == a[j]);
    }
    assert(ended[n] == '\n' && whole[n] == '\n');
    lemma_position(ended, '\n', n);
    lemma_position(whole, '\n', n);
    assert(whole.take(n) =~= ended.take(n));
    let line = seq![without_carriage_return(ended.take(n))];
    if n < a.len() {
        let rest = a.skip(n + 1);
        assert(ended.skip(n + 1) =~= rest.push('\n'));
        assert(whole.skip(n + 1) =~= rest.push('\n') + b);
        lemma_lines_of_joined(rest, b);
        assert(line + (lines(rest.push('\n')) + lines(b)) =~= (line + lines(rest.push('\n')))
            + lines(b));
    } else {
        assert(ended.skip(n + 1) =~= Seq::empty());
        assert(lines(Seq::<char>::empty()) =~= Seq::empty());
        assert(lines(ended) =~= line);
        assert(whole.skip(n + 1) =~= b);
    }
}

proof fn lemma_first_line_feed(s: Seq<char>)
    ensures
        position(s, '\n') <= s.len(),
        forall|j: int| 0 <= j < position(s, '\n') ==> s[j] != '\n',
        position(s, '\n') < s.len() ==> s[position(s, '\n') as int] == '\n',
    decreases s.len(),
{
    if s.len() > 0 && s[0] != '\n' {
        let rest = s.drop_first();
        lemma_first_line_feed(rest);
        assert forall|j: int| 0 <= j < position(s, '\n') implies s[j] != '\n' by {
            if j > 0 {
                assert(s[j] == rest[j - 1]);
            }
        }
    }
}

/// A line feed behind a text ends its last line, or adds an empty one where
/// the last line has an end already or there is none.
pub proof fn lemma_lines_of_ended(a: Seq<char>)
    ensures
        lines(a.push('\n')) == (if a.len() == 0 || a.last() == '\n' {
            lines(a).push(Seq::empty())
        } else {
            lines(a).drop_last().push(without_carriage_return(lines(a).last()))
        }),
        a.len() > 0 ==> lines(a).len() > 0,
    decreases a.len(),
{
    let ended = a.push('\n');
    let n = position(a, '\n') as int;
    lemma_first_line_feed(a);
    assert forall|j: int| 0 <= j < n implies ended[j] != '\n' by {
        assert(ended[j] == a[j]);
    }
    assert(ended[n] == '\n');
    lemma_position(ended, '\n', n);
    assert(ended.take(n) =~= a.take(n));
    let line = seq![without_carriage_return(a.take(n))];
    if n < a.len() {
        let rest = a.skip(n + 1);
        assert(ended.skip(n + 1) =~= rest.push('\n'));
        lemma_lines_of_ended(rest);
        assert(lines(ended) == line + lines(rest.push('\n')));
        assert(lines(a) == line + lines(rest));
        if rest.len() == 0 {
            assert(a.last() == '\n');
            assert(lines(ended) =~= lines(a).push(Seq::empty()));
        } else if rest.last() == '\n' {
            assert(a.last() == '\n');
            assert(lines(ended) =~= lines(a).push(Seq::empty()));
        } else {
            assert(a.last() == rest.last());
            assert(lines(a).last() == lines(rest).last());
            assert(lines(ended) =~= lines(a).drop_last().push(
                without_carriage_return(lines(a).last()),
            ));
        }
    } else {
        assert(ended.skip(n + 1) =~= Seq::empty());
        assert(lines(Seq::<char>::empty()) =~= Seq::empty());
        assert(lines(ended) =~= line);
        assert(a.take(n) =~= a);
        if a.len() == 0 {
            assert(a =~= Seq::empty());
            assert(without_carriage_return(a) =~= Seq::empty());
            assert(lines(ended) =~= lines(a).push(Seq::empty()));
        } else {
            assert(a.last() != '\n');
            assert(lines(a) =~= seq![a]);
            assert(lines(ended) =~= lines(a).drop_last().push(
                without_carriage_return(lines(a).last()),
            ));
        }
    }
}

/// A field ends at the first white space behind it.
pub proof fn lemma_first_field(field: Seq<char>, blank: Seq<char>, rest: Seq<char>)
    requires
        forall|i: int| 0 <= i < field.len() ==> !white_space(#[trigger] field[i]),
        blank.len() > 0,
        white_space(blank[0]),
    ensures
        field_len(field + blank + rest) == field.len(),
{
    let s = field + blank + rest;
    assert forall|j: int| 0 <= j < field.len() implies !white_space(s[j]) by {
        assert(s[j] == field[j]);
    }
    assert(s[field.len() as int] == blank[0]);
    lemma_field_len(s, field.len() as int);
}

/// A part stands in every text that is built around it.
pub proof fn lemma_occurs(head: Seq<char>, part: Seq<char>, tail: Seq<char>)
    ensures
        occurs_in(part, head + part + tail),
{
    let whole = head + part + tail;
    let i = head.len() as int;
    assert(whole.subrange(i, i + part.len()) =~= part);
}

/// What stands in a text is no longer than it, and each of its characters is
/// one of the text's.
pub proof fn lemma_part_is_in_the_whole(part: Seq<char>, s: Seq<char>, c: char)
    requires
        occurs_in(part, s),
        part.contains(c),
    ensures
        part.len() <= s.len(),
        s.contains(c),
{
    let i = choose|i: int|
        0 <= i <= s.len() - part.len() && #[trigger] s.subrange(i, i + part.len()) == part;
    let k = choose|k: int| 0 <= k < part.len() && part[k] == c;
    assert(s.subrange(i, i + part.len())[k] == s[i + k]);
}

/// Two numbers that are written alike are the same.
pub proof fn lemma_decimal_is_injective(a: nat, b: nat)
    requires
        decimal(a) == decimal(b),
    ensures
        a == b,
{
    lemma_decimal_digits(a);
    lemma_decimal_digits(b);
}

/// A number is written in digits alone.
pub proof fn lemma_decimal_is_digits(n: nat)
    ensures
        decimal(n).len() > 0,
        forall|i: int| 0 <= i < decimal(n).len() ==> '0' <= #[trigger] decimal(n)[i] <= '9',
{
    lemma_decimal_digits(n);
    assert forall|i: int| 0 <= i < decimal(n).len() implies '0' <= #[trigger] decimal(n)[i]
        <= '9' by {
        assert(digit(decimal(n)[i]));
    }
}

/// A number with a plus sign is the same number; one that is too large, or a
/// text with anything else in it, is none.
#[verifier::rlimit(40)]
pub proof fn lemma_what_is_a_number(n: u32, large: nat, s: Seq<char>, i: int)
    requires
        large > u32::MAX,
        0 <= i < s.len(),
        !('0' <= s[i] <= '9'),
        i > 0 || s[0] != '+',
    ensures
        parse_u32(seq!['+'] + decimal(n as nat)) == Some(n),
        parse_u32(decimal(large)) is None,
        parse_u32(s) is None,
        parse_u32(Seq::empty()) is None,
        parse_u32(seq!['+']) is None,
{
    let d = decimal(n as nat);
    lemma_decimal_digits(n as nat);
    assert((seq!['+'] + d).drop_first() =~= d);
    lemma_decimal_digits(large);
    assert(digit(decimal(large)[0]));
    assert(digit(d[0]));
    if s[0] == '+' {
        assert(s.drop_first()[i - 1] == s[i]);
    } else {
        assert(!digit(s[i]));
    }
    assert(seq!['+'].drop_first() =~= Seq::empty());
}

/// A signed number that was written down is read back, with either sign.
pub proof fn lemma_signed_number_is_read_back(n: nat)
    requires
        n <= i64::MAX,
    ensures
        parse_i64(decimal(n)) == Some(n as i64),
        parse_i64(seq!['-'] + decimal(n)) == Some((-(n as int)) as i64),
        parse_i64(seq!['+'] + decimal(n)) == Some(n as i64),
{
    let d = decimal(n);
    lemma_decimal_digits(n);
    assert(digit(d[0]));
    assert((seq!['-'] + d).drop_first() =~= d);
    assert((seq!['+'] + d).drop_first() =~= d);
}

/// Lower-casing leaves no ASCII capital, changes nothing else, and a second
/// time changes nothing at all.
pub proof fn lemma_ascii_lowercase(s: Seq<char>, i: int)
    requires
        0 <= i < s.len(),
    ensures
        ascii_lowercase(s).len() == s.len(),
        !('A' <= ascii_lowercase(s)[i] <= 'Z'),
        !('A' <= s[i] <= 'Z') ==> ascii_lowercase(s)[i] == s[i],
        'A' <= s[i] <= 'Z' ==> ascii_lowercase(s)[i] as int == s[i] as int + 32,
        ascii_lowercase(ascii_lowercase(s)) == ascii_lowercase(s),
{
    assert(ascii_lowercase(ascii_lowercase(s)) =~= ascii_lowercase(s));
}

/// Spaces, tabs and the ends of lines are white space; what can be seen in
/// ASCII is not.
pub proof fn lemma_white_space_in_ascii(c: char)
    requires
        (c as u32) < 0x80,
    ensures
        white_space(c) <==> c == ' ' || 0x09 <= c as u32 <= 0x0d,
{
}

/// What stands before the first `c`, and behind the last one.
pub proof fn lemma_cut_at(head: Seq<char>, tail: Seq<char>, c: char)
    ensures
        !head.contains(c) ==> before(head.push(c) + tail, c) == head,
        !head.contains(c) ==> before(head, c) == head,
        !tail.contains(c) ==> behind_last(head.push(c) + tail, c) == tail,
        !tail.contains(c) ==> behind_last(tail, c) == tail,
{
    let whole = head.push(c) + tail;
    if !head.contains(c) {
        assert forall|j: int| 0 <= j < head.len() implies whole[j] != c && head[j] != c by {
            assert(whole[j] == head[j]);
            assert(head.contains(head[j]));
        }
        assert(whole[head.len() as int] == c);
        lemma_position(whole, c, head.len() as int);
        lemma_position(head, c, head.len() as int);
        assert(whole.take(head.len() as int) =~= head);
        assert(head.take(head.len() as int) =~= head);
    }
    if !tail.contains(c) {
        lemma_behind(head.push(c), tail, c);
        lemma_behind(Seq::empty(), tail, c);
        assert(Seq::<char>::empty() + tail =~= tail);
    }
}

proof fn lemma_behind(head: Seq<char>, tail: Seq<char>, c: char)
    requires
        head.len() == 0 || head.last() == c,
        !tail.contains(c),
    ensures
        behind_last(head + tail, c) == tail,
    decreases tail.len(),
{
    let whole = head + tail;
    if tail.len() == 0 {
        assert(whole =~= head);
        assert(tail =~= Seq::empty());
    } else {
        assert(tail.contains(tail.last()));
        assert(whole.last() == tail.last());
        assert(whole.drop_last() =~= head + tail.drop_last());
        assert forall|d: char| tail.drop_last().contains(d) implies tail.contains(d) by {
            let i = choose|i: int| 0 <= i < tail.len() - 1 && tail.drop_last()[i] == d;
            assert(tail[i] == d);
        }
        lemma_behind(head, tail.drop_last(), c);
        assert(tail.drop_last().push(tail.last()) =~= tail);
    }
}

/// A number is written digit by digit, the last for what is left of its tens.
pub proof fn lemma_decimal_in_tens(n: nat, d: nat)
    requires
        n > 0,
        d < 10,
    ensures
        decimal(10 * n + d) == decimal(n) + decimal(d),
{
    let m: nat = 10 * n + d;
    assert(m >= 10);
    assert(m / 10 == n && m % 10 == d);
    assert(decimal(m) =~= decimal(n) + decimal(d));
}

/// A single digit is written as itself.
pub proof fn lemma_decimal_of_a_digit(d: nat)
    requires
        d < 10,
    ensures
        decimal(d).len() == 1,
        decimal(d)[0] as int == '0' as int + d,
{
}

/// A number in a text ends where another character stands, so that it and
/// what follows can be told apart.
pub proof fn lemma_number_ends_at_another_character(
    a: nat,
    s: Seq<char>,
    b: nat,
    t: Seq<char>,
)
    requires
        decimal(a) + s == decimal(b) + t,
        s.len() > 0,
        t.len() > 0,
        !('0' <= s[0] <= '9'),
        !('0' <= t[0] <= '9'),
    ensures
        a == b,
        s == t,
{
    let x = decimal(a);
    let y = decimal(b);
    lemma_decimal_is_digits(a);
    lemma_decimal_is_digits(b);
    assert((x + s)[x.len() as int] == s[0]);
    assert((y + t)[y.len() as int] == t[0]);
    if x.len() < y.len() {
        assert((y + t)[x.len() as int] == y[x.len() as int]);
    } else if y.len() < x.len() {
        assert((x + s)[y.len() as int] == x[y.len() as int]);
    }
    assert((x + s).take(x.len() as int) =~= x);
    assert((y + t).take(y.len() as int) =~= y);
    assert((x + s).skip(x.len() as int) =~= s);
    assert((y + t).skip(y.len() as int) =~= t);
    lemma_decimal_is_injective(a, b);
}

/// Trimming takes the white space around a text, and nothing of the text.
pub proof fn lemma_trim_takes_what_is_around(before: Seq<char>, s: Seq<char>, after: Seq<char>)
    requires
        all_white_space(before),
        all_white_space(after),
        s.len() > 0,
        !white_space(s[0]),
        !white_space(s.last()),
    ensures
        trim(before + s + after) == s,
        trim(before) == Seq::<char>::empty(),
{
    assert(before + s + after =~= before + (s + after));
    lemma_trim_start(before, s + after);
    lemma_trim_end(s, after);
    assert(before + Seq::<char>::empty() =~= before);
    lemma_trim_start(before, Seq::empty());
}

/// Beyond ASCII these are white space, and no others.
pub proof fn lemma_white_space_beyond_ascii(c: char)
    requires
        c as u32 >= 0x80,
    ensures
        white_space(c) <==> c as u32 == 0x85 || c as u32 == 0xa0 || c as u32 == 0x1680 || 0x2000
            <= c as u32 <= 0x200a || c as u32 == 0x2028 || c as u32 == 0x2029 || c as u32 == 0x202f
            || c as u32 == 0x205f || c as u32 == 0x3000,
{
}

/// Stripping a prefix undoes putting it in front, and takes nothing else.
pub proof fn lemma_stripping_a_prefix(prefix: Seq<char>, rest: Seq<char>, s: Seq<char>)
    ensures
        strip_prefix(prefix + rest, prefix) == Some(rest),
        strip_prefix(s, prefix) matches Some(left) ==> s == prefix + left,
        s.len() < prefix.len() ==> strip_prefix(s, prefix) is None,
{
    assert((prefix + rest).subrange(0, prefix.len() as int) =~= prefix);
    assert((prefix + rest).skip(prefix.len() as int) =~= rest);
    if prefix.is_prefix_of(s) {
        assert(s.subrange(0, prefix.len() as int) =~= prefix);
        assert(s =~= prefix + s.skip(prefix.len() as int));
    }
}

/// A line ends at its line feed, with a carriage return before it or without,
/// and the last one may end without.
pub proof fn lemma_where_lines_end(line: Seq<char>, rest: Seq<char>)
    requires
        !line.contains('\n'),
        line.len() > 0 ==> line.last() != '\r',
    ensures
        lines(line.push('\n') + rest) == seq![line] + lines(rest),
        lines(line.push('\r').push('\n') + rest) == seq![line] + lines(rest),
        line.len() > 0 ==> lines(line) == seq![line],
        lines(Seq::empty()) == Seq::<Seq<char>>::empty(),
{
    lemma_one_line(line, rest);
    let ended = line.push('\r');
    assert(!ended.contains('\n')) by {
        if ended.contains('\n') {
            let i = choose|i: int| 0 <= i < ended.len() && ended[i] == '\n';
            if i < line.len() {
                assert(line[i] == '\n');
            }
        }
    }
    lemma_one_line(ended, rest);
    assert(without_carriage_return(line) == line);
    assert(without_carriage_return(ended) =~= line);
    if line.len() > 0 {
        assert forall|j: int| 0 <= j < line.len() implies line[j] != '\n' by {
            assert(line.contains(line[j]));
        }
        lemma_position(line, '\n', line.len() as int);
    }
}

proof fn lemma_one_line(line: Seq<char>, rest: Seq<char>)
    requires
        !line.contains('\n'),
    ensures
        lines(line.push('\n') + rest) == seq![without_carriage_return(line)] + lines(rest),
{
    let s = line.push('\n') + rest;
    let n = line.len() as int;
    assert forall|j: int| 0 <= j < n implies s[j] != '\n' by {
        assert(s[j] == line[j]);
        assert(line.contains(line[j]));
    }
    assert(s[n] == '\n');
    lemma_position(s, '\n', n);
    assert(s.take(n) =~= line);
    assert(s.skip(n + 1) =~= rest);
}

/// A signed number is digits behind at most one sign, and fits; nothing else
/// is one.
#[verifier::rlimit(40)]
pub proof fn lemma_what_is_a_signed_number(large: nat, s: Seq<char>, i: int)
    requires
        large > i64::MAX,
        0 <= i < s.len(),
        !('0' <= s[i] <= '9'),
        i > 0 || (s[0] != '+' && s[0] != '-'),
    ensures
        parse_i64(decimal(large)) is None,
        parse_i64(seq!['+'] + decimal(large)) is None,
        parse_i64(seq!['-'] + decimal(large + 1)) is None,
        parse_i64(s) is None,
        parse_i64(Seq::empty()) is None,
        parse_i64(seq!['+']) is None,
        parse_i64(seq!['-']) is None,
{
    let d = decimal(large);
    let e = decimal(large + 1);
    lemma_decimal_digits(large);
    lemma_decimal_digits(large + 1);
    assert(digit(d[0]) && digit(e[0]));
    assert((seq!['+'] + d).drop_first() =~= d);
    assert((seq!['-'] + e).drop_first() =~= e);
    assert(seq!['+'].drop_first() =~= Seq::empty());
    assert(seq!['-'].drop_first() =~= Seq::empty());
    if s[0] == '+' || s[0] == '-' {
        assert(s.drop_first()[i - 1] == s[i]);
        assert(!digit(s.drop_first()[i - 1]));
    } else {
        assert(!digit(s[i]));
    }
}

} // verus!
