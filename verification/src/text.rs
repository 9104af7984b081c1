//! Character-level helpers shared by the registry ordering and the module
//! output parsers.
//!
//! Every function here works on the characters of a `&str` (its view, a
//! `Seq<char>`) and hands back slices of its argument, so the parsers built on
//! top of it never copy more than the fields they keep.

use vstd::prelude::*;
use vstd::string::*;

verus! {

/// The views of a vector of string slices, piece by piece.
pub open spec fn views_of(pieces: Seq<&str>) -> Seq<Seq<char>> {
    Seq::new(pieces.len(), |i: int| pieces[i]@)
}

/// Whether `c` carries the Unicode `White_Space` property.
pub open spec fn is_whitespace(c: char) -> bool {
    let u = c as u32;
    ||| 0x09 <= u <= 0x0D
    ||| u == 0x20
    ||| u == 0x85
    ||| u == 0xA0
    ||| u == 0x1680
    ||| 0x2000 <= u <= 0x200A
    ||| u == 0x2028
    ||| u == 0x2029
    ||| u == 0x202F
    ||| u == 0x205F
    ||| u == 0x3000
}

/// `s` without its leading whitespace.
pub open spec fn trimmed_start(s: Seq<char>) -> Seq<char>
    decreases s.len(),
{
    if s.len() > 0 && is_whitespace(s[0]) {
        trimmed_start(s.drop_first())
    } else {
        s
    }
}

/// `s` without its trailing whitespace.
pub open spec fn trimmed_end(s: Seq<char>) -> Seq<char>
    decreases s.len(),
{
    if s.len() > 0 && is_whitespace(s.last()) {
        trimmed_end(s.drop_last())
    } else {
        s
    }
}

/// `s` without leading and trailing whitespace.
pub open spec fn trimmed(s: Seq<char>) -> Seq<char> {
    trimmed_end(trimmed_start(s))
}

/// Copies the characters of `s` into a vector, so that later passes can index
/// them in constant time.
pub fn chars_of(s: &str) -> (out: Vec<char>)
    ensures
        out@ == s@,
{
    let mut out: Vec<char> = Vec::new();
    for c in it: s.chars()
        invariant
            out@ == it.seq().take(it.index()),
    {
        out.push(c);
    }
    out
}

/// Tests a character for the Unicode `White_Space` property.
pub fn char_is_whitespace(c: char) -> (b: bool)
    ensures
        b == is_whitespace(c),
{
    let u: u32 = c as u32;
    (0x09 <= u && u <= 0x0D) || u == 0x20 || u == 0x85 || u == 0xA0 || u == 0x1680 || (0x2000 <= u
        && u <= 0x200A) || u == 0x2028 || u == 0x2029 || u == 0x202F || u == 0x205F || u == 0x3000
}

/// Removes leading and trailing whitespace.
pub fn trim(s: &str) -> (out: &str)
    ensures
        out@ == trimmed(s@),
{
    let chars = chars_of(s);
    let n = chars.len();
    let mut start: usize = 0;
    assert(chars@.skip(0) =~= chars@);
    while start < n && char_is_whitespace(chars[start])
        invariant
            start <= n,
            n == chars@.len(),
            trimmed_start(chars@) == trimmed_start(chars@.skip(start as int)),
        decreases n - start,
    {
        assert(chars@.skip(start as int).drop_first() =~= chars@.skip(start as int + 1));
        start = start + 1;
    }
    assert(trimmed_start(chars@) == chars@.skip(start as int));
    let mut end: usize = n;
    while end > start && char_is_whitespace(chars[end - 1])
        invariant
            start <= end <= n,
            n == chars@.len(),
            trimmed_end(chars@.skip(start as int)) == trimmed_end(
                chars@.subrange(start as int, end as int),
            ),
        decreases end,
    {
        assert(chars@.subrange(start as int, end as int).drop_last() =~= chars@.subrange(
            start as int,
            end as int - 1,
        ));
        end = end - 1;
    }
    assert(chars@.skip(start as int) =~= chars@.subrange(start as int, n as int));
    s.substring_char(start, end)
}

/// Whether two string slices hold the same characters.
pub fn same_text(a: &str, b: &str) -> (eq: bool)
    ensures
        eq == (a@ == b@),
{
    let x = chars_of(a);
    let y = chars_of(b);
    if x.len() != y.len() {
        return false;
    }
    let n = x.len();
    let mut i: usize = 0;
    while i < n
        invariant
            i <= n,
            n == x@.len(),
            n == y@.len(),
            x@ == a@,
            y@ == b@,
            x@.take(i as int) == y@.take(i as int),
        decreases n - i,
    {
        if x[i] != y[i] {
            assert(x@[i as int] != y@[i as int]);
            return false;
        }
        assert(x@.take(i as int + 1) =~= x@.take(i as int).push(x@[i as int]));
        assert(y@.take(i as int + 1) =~= y@.take(i as int).push(y@[i as int]));
        i = i + 1;
    }
    assert(x@ =~= x@.take(n as int));
    assert(y@ =~= y@.take(n as int));
    true
}

/// Whether `s` begins with `prefix`.
pub fn starts_with(s: &str, prefix: &str) -> (b: bool)
    ensures
        b == prefix@.is_prefix_of(s@),
{
    let x = chars_of(s);
    let p = chars_of(prefix);
    if p.len() > x.len() {
        return false;
    }
    let n = p.len();
    let mut i: usize = 0;
    while i < n
        invariant
            i <= n,
            n == p@.len(),
            n <= x@.len(),
            x@ == s@,
            p@ == prefix@,
            forall|k: int| 0 <= k < i ==> x@[k] == p@[k],
        decreases n - i,
    {
        if x[i] != p[i] {
            assert(x@.subrange(0, n as int)[i as int] != p@[i as int]);
            return false;
        }
        i = i + 1;
    }
    assert(p@ =~= x@.subrange(0, n as int));
    true
}


/// The pieces of `s` between occurrences of `sep`: one more piece than there
/// are separators, empty pieces included.
pub open spec fn split_on(s: Seq<char>, sep: char) -> Seq<Seq<char>>
    decreases s.len(),
{
    if s.len() == 0 {
        seq![Seq::<char>::empty()]
    } else {
        let before = split_on(s.drop_last(), sep);
        if s.last() == sep {
            before.push(Seq::<char>::empty())
        } else {
            before.drop_last().push(before.last().push(s.last()))
        }
    }
}

/// Splits `s` at every occurrence of `sep`.
pub fn split<'a>(s: &'a str, sep: char) -> (out: Vec<&'a str>)
    ensures
        views_of(out@) == split_on(s@, sep),
        out@.len() >= 1,
{
    let chars = chars_of(s);
    let n = chars.len();
    let mut out: Vec<&'a str> = Vec::new();
    let mut piece_start: usize = 0;
    let mut i: usize = 0;
    assert(s@.subrange(0, 0) =~= Seq::<char>::empty());
    assert(views_of(out@).push(s@.subrange(0, 0)) =~= split_on(s@.take(0), sep));
    while i < n
        invariant
            piece_start <= i <= n,
            n == s@.len(),
            chars@ == s@,
            views_of(out@).push(s@.subrange(piece_start as int, i as int)) == split_on(
                s@.take(i as int),
                sep,
            ),
        decreases n - i,
    {
        let ghost before = split_on(s@.take(i as int), sep);
        let ghost done = views_of(out@);
        assert(s@.take(i as int + 1).drop_last() =~= s@.take(i as int));
        assert(before.drop_last() =~= done);
        if chars[i] == sep {
            let piece = s.substring_char(piece_start, i);
            out.push(piece);
            piece_start = i + 1;
            assert(views_of(out@) =~= done.push(piece@));
            assert(s@.subrange(piece_start as int, i as int + 1) =~= Seq::<char>::empty());
        } else {
            assert(s@.subrange(piece_start as int, i as int + 1) =~= s@.subrange(
                piece_start as int,
                i as int,
            ).push(s@[i as int]));
        }
        i = i + 1;
    }
    assert(s@.take(n as int) =~= s@);
    let ghost done = views_of(out@);
    let last = s.substring_char(piece_start, n);
    out.push(last);
    assert(views_of(out@) =~= done.push(last@));
    out
}

/// `p` without one trailing carriage return.
pub open spec fn without_cr(p: Seq<char>) -> Seq<char> {
    if p.len() > 0 && p.last() == '\r' {
        p.drop_last()
    } else {
        p
    }
}

/// The lines of `s`: every piece that ends in a line feed, without the line
/// feed and without a carriage return just before it, then what follows the
/// last line feed if anything does.
pub open spec fn lines_of(s: Seq<char>) -> Seq<Seq<char>> {
    let pieces = split_on(s, '\n');
    let closed = Seq::new((pieces.len() - 1) as nat, |i: int| without_cr(pieces[i]));
    if pieces.last().len() == 0 {
        closed
    } else {
        closed.push(pieces.last())
    }
}

/// Splits `s` into lines, ended by `\n` or `\r\n`; a last line needs no ending.
pub fn lines<'a>(s: &'a str) -> (out: Vec<&'a str>)
    ensures
        views_of(out@) == lines_of(s@),
{
    let pieces = split(s, '\n');
    let k = pieces.len() - 1;
    let mut out: Vec<&'a str> = Vec::new();
    let mut i: usize = 0;
    while i < k
        invariant
            i <= k,
            k + 1 == pieces@.len(),
            views_of(pieces@) == split_on(s@, '\n'),
            out@.len() == i,
            forall|j: int| 0 <= j < i ==> (#[trigger] out@[j])@ == without_cr(pieces@[j]@),
        decreases k - i,
    {
        let piece = pieces[i];
        let chars = chars_of(piece);
        let m = chars.len();
        if m > 0 && chars[m - 1] == '\r' {
            out.push(piece.substring_char(0, m - 1));
        } else {
            out.push(piece);
        }
        i = i + 1;
    }
    let last = pieces[k];
    let ghost all = split_on(s@, '\n');
    assert(all[k as int] == last@);
    assert(forall|j: int| 0 <= j < k ==> all[j] == (#[trigger] pieces@[j])@);
    if chars_of(last).len() > 0 {
        out.push(last);
    }
    assert(views_of(out@) =~= lines_of(s@));
    out
}

/// The maximal runs of non-whitespace characters in `s`, in order.
pub open spec fn words_of(s: Seq<char>) -> Seq<Seq<char>>
    decreases s.len(),
{
    if s.len() == 0 {
        Seq::<Seq<char>>::empty()
    } else {
        let before = words_of(s.drop_last());
        if is_whitespace(s.last()) {
            before
        } else if s.len() >= 2 && !is_whitespace(s[s.len() - 2]) {
            before.drop_last().push(before.last().push(s.last()))
        } else {
            before.push(seq![s.last()])
        }
    }
}

/// While a word is open at the end of `s`, `words_of(s)` ends with it.
proof fn lemma_words_open(s: Seq<char>, start: int)
    requires
        0 <= start < s.len(),
        forall|k: int| start <= k < s.len() ==> !is_whitespace(s[k]),
        start == 0 || is_whitespace(s[start - 1]),
    ensures
        words_of(s).len() >= 1,
        words_of(s).last() == s.subrange(start, s.len() as int),
        words_of(s).drop_last() == words_of(s.take(start)),
    decreases s.len(),
{
    let init = s.drop_last();
    if start == s.len() - 1 {
        assert(init =~= s.take(start));
        assert(s.subrange(start, s.len() as int) =~= seq![s.last()]);
        assert(words_of(s) == words_of(init).push(seq![s.last()]));
        assert(words_of(s).drop_last() =~= words_of(init));
    } else {
        lemma_words_open(init, start);
        assert(init.subrange(start, init.len() as int).push(s.last()) =~= s.subrange(
            start,
            s.len() as int,
        ));
        assert(init.take(start) =~= s.take(start));
        let before = words_of(init);
        assert(words_of(s) == before.drop_last().push(before.last().push(s.last())));
        assert(words_of(s).drop_last() =~= before.drop_last());
    }
}

/// Trailing whitespace adds no word.
proof fn lemma_words_closed(s: Seq<char>, end: int)
    requires
        0 <= end <= s.len(),
        forall|k: int| end <= k < s.len() ==> is_whitespace(s[k]),
    ensures
        words_of(s) == words_of(s.take(end)),
    decreases s.len(),
{
    if end == s.len() {
        assert(s.take(end) =~= s);
    } else {
        lemma_words_closed(s.drop_last(), end);
        assert(s.drop_last().take(end) =~= s.take(end));
    }
}

/// Splits `s` at runs of whitespace and keeps the non-empty pieces.
pub fn split_whitespace<'a>(s: &'a str) -> (out: Vec<&'a str>)
    ensures
        views_of(out@) == words_of(s@),
{
    let chars = chars_of(s);
    let n = chars.len();
    let mut out: Vec<&'a str> = Vec::new();
    let mut i: usize = 0;
    assert(s@.take(0) =~= Seq::<char>::empty());
    assert(views_of(out@) =~= words_of(s@.take(0)));
    while i < n
        invariant
            i <= n,
            n == s@.len(),
            chars@ == s@,
            views_of(out@) == words_of(s@.take(i as int)),
            i == 0 || i == n || is_whitespace(s@[i as int - 1]),
        decreases n - i,
    {
        if char_is_whitespace(chars[i]) {
            proof {
                lemma_words_closed(s@.take(i as int + 1), i as int);
                assert(s@.take(i as int + 1).take(i as int) =~= s@.take(i as int));
            }
            i = i + 1;
        } else {
            let start = i;
            while i < n && !char_is_whitespace(chars[i])
                invariant
                    start <= i <= n,
                    n == s@.len(),
                    chars@ == s@,
                    forall|k: int| start <= k < i ==> !is_whitespace(s@[k]),
                decreases n - i,
            {
                i = i + 1;
            }
            let ghost done = views_of(out@);
            let word = s.substring_char(start, i);
            out.push(word);
            proof {
                let t = s@.take(i as int);
                lemma_words_open(t, start as int);
                assert(t.take(start as int) =~= s@.take(start as int));
                assert(t.subrange(start as int, i as int) =~= s@.subrange(start as int, i as int));
                assert(views_of(out@) =~= done.push(word@));
                assert(words_of(t) =~= words_of(t).drop_last().push(words_of(t).last()));
            }
            if i < n {
                proof {
                    lemma_words_closed(s@.take(i as int + 1), i as int);
                    assert(s@.take(i as int + 1).take(i as int) =~= s@.take(i as int));
                }
                i = i + 1;
            }
        }
    }
    assert(s@.take(n as int) =~= s@);
    out
}


/// Whether `c` is one of the ASCII digits `0` to `9`.
pub open spec fn is_digit(c: char) -> bool {
    '0' <= c <= '9'
}

/// The number that a string of ASCII digits writes in base ten; meaningful
/// where every character is a digit.
pub open spec fn decimal_value(digits: Seq<char>) -> nat
    decreases digits.len(),
{
    if digits.len() == 0 {
        0
    } else {
        (decimal_value(digits.drop_last()) * 10 + (digits.last() as u32 - '0' as u32)) as nat
    }
}

/// What is left of `s` once one leading `+` is removed.
pub open spec fn unsigned_digits(s: Seq<char>) -> Seq<char> {
    if s.len() > 0 && s[0] == '+' {
        s.drop_first()
    } else {
        s
    }
}

/// The value of `s` read as an unsigned decimal number no greater than `max`:
/// an optional `+`, then one or more ASCII digits and nothing else.
pub open spec fn parsed_unsigned(s: Seq<char>, max: nat) -> Option<nat> {
    let digits = unsigned_digits(s);
    if digits.len() > 0 && (forall|i: int| 0 <= i < digits.len() ==> is_digit(#[trigger] digits[i]))
        && decimal_value(digits) <= max {
        Some(decimal_value(digits))
    } else {
        None
    }
}

/// A longer string of digits never writes a smaller number than its prefix.
proof fn lemma_decimal_value_grows(digits: Seq<char>, i: int)
    requires
        0 <= i <= digits.len(),
        forall|k: int| 0 <= k < digits.len() ==> is_digit(#[trigger] digits[k]),
    ensures
        decimal_value(digits.take(i)) <= decimal_value(digits),
    decreases digits.len() - i,
{
    if i == digits.len() {
        assert(digits.take(i) =~= digits);
    } else {
        lemma_decimal_value_grows(digits, i + 1);
        assert(digits.take(i + 1).drop_last() =~= digits.take(i));
        assert(is_digit(digits[i]));
    }
}

/// Reads `s` as an unsigned decimal number no greater than `max`.
pub fn parse_unsigned(s: &str, max: u32) -> (out: Option<u32>)
    ensures
        match parsed_unsigned(s@, max as nat) {
            Some(v) => out == Some(v as u32),
            None => out is None,
        },
{
    let chars = chars_of(s);
    let n = chars.len();
    let start: usize = if n > 0 && chars[0] == '+' {
        1
    } else {
        0
    };
    let ghost digits = unsigned_digits(s@);
    assert(digits =~= s@.skip(start as int));
    if start == n {
        return None;
    }
    let mut value: u64 = 0;
    let mut i: usize = start;
    assert(digits.take(0) =~= Seq::<char>::empty());
    while i < n
        invariant
            start <= i <= n,
            n == s@.len(),
            chars@ == s@,
            digits == s@.skip(start as int),
            digits == unsigned_digits(s@),
            forall|k: int| 0 <= k < i - start ==> is_digit(#[trigger] digits[k]),
            value == decimal_value(digits.take(i - start)),
            value <= max,
        decreases n - i,
    {
        let c = chars[i];
        if !('0' <= c && c <= '9') {
            assert(digits[i - start] == c);
            assert(!is_digit(digits[i - start]));
            return None;
        }
        let d: u64 = (c as u32 - '0' as u32) as u64;
        let next: u64 = value * 10 + d;
        proof {
            assert(digits.take(i - start + 1).drop_last() =~= digits.take(i - start));
            assert(digits.take(i - start + 1).last() == c);
            assert(next == decimal_value(digits.take(i - start + 1)));
        }
        if next > max as u64 {
            proof {
                if forall|k: int| 0 <= k < digits.len() ==> is_digit(#[trigger] digits[k]) {
                    lemma_decimal_value_grows(digits, i - start + 1);
                }
            }
            return None;
        }
        value = next;
        i = i + 1;
    }
    assert(digits.take(n - start) =~= digits);
    Some(value as u32)
}

/// Reads `s` as a `u8`.
pub fn parse_u8(s: &str) -> (out: Option<u8>)
    ensures
        match parsed_unsigned(s@, 255) {
            Some(v) => out == Some(v as u8),
            None => out is None,
        },
{
    match parse_unsigned(s, 255) {
        Some(v) => Some(v as u8),
        None => None,
    }
}

/// The character that writes the digit `d`.
pub open spec fn digit_char(d: nat) -> char {
    if d == 0 {
        '0'
    } else if d == 1 {
        '1'
    } else if d == 2 {
        '2'
    } else if d == 3 {
        '3'
    } else if d == 4 {
        '4'
    } else if d == 5 {
        '5'
    } else if d == 6 {
        '6'
    } else if d == 7 {
        '7'
    } else if d == 8 {
        '8'
    } else {
        '9'
    }
}

/// `n` written in base ten, without leading zeros.
pub open spec fn decimal_digits(n: nat) -> Seq<char>
    decreases n,
{
    if n < 10 {
        seq![digit_char(n)]
    } else {
        decimal_digits(n / 10).push(digit_char(n % 10))
    }
}

/// The one-character string for a digit.
fn digit_text(d: u32) -> (out: &'static str)
    requires
        d < 10,
    ensures
        out@ == seq![digit_char(d as nat)],
{
    proof {
        reveal_strlit("0");
        reveal_strlit("1");
        reveal_strlit("2");
        reveal_strlit("3");
        reveal_strlit("4");
        reveal_strlit("5");
        reveal_strlit("6");
        reveal_strlit("7");
        reveal_strlit("8");
        reveal_strlit("9");
    }
    let out = if d == 0 {
        "0"
    } else if d == 1 {
        "1"
    } else if d == 2 {
        "2"
    } else if d == 3 {
        "3"
    } else if d == 4 {
        "4"
    } else if d == 5 {
        "5"
    } else if d == 6 {
        "6"
    } else if d == 7 {
        "7"
    } else if d == 8 {
        "8"
    } else {
        "9"
    };
    assert(out@ =~= seq![digit_char(d as nat)]);
    out
}

/// Writes `n` in base ten.
pub fn decimal_text(n: u32) -> (out: String)
    ensures
        out@ == decimal_digits(n as nat),
    decreases n,
{
    if n < 10 {
        digit_text(n).to_owned()
    } else {
        let mut out = decimal_text(n / 10);
        let ghost before = out@;
        out.append(digit_text(n % 10));
        assert(out@ =~= before.push(digit_char((n % 10) as nat)));
        out
    }
}


/// `s` with every occurrence of `pattern` taken out, reading from the left
/// and never looking again at what an occurrence covered.
pub open spec fn without(s: Seq<char>, pattern: Seq<char>) -> Seq<char>
    decreases s.len(),
{
    if pattern.len() == 0 || s.len() < pattern.len() {
        s
    } else if pattern.is_prefix_of(s) {
        without(s.skip(pattern.len() as int), pattern)
    } else {
        seq![s[0]] + without(s.drop_first(), pattern)
    }
}

/// Whether `pattern` stands in `s` at position `at`.
fn occurs_at(s: &Vec<char>, at: usize, pattern: &Vec<char>) -> (b: bool)
    requires
        at <= s@.len(),
    ensures
        b == pattern@.is_prefix_of(s@.skip(at as int)),
{
    let m = pattern.len();
    if s.len() - at < m {
        return false;
    }
    let mut k: usize = 0;
    while k < m
        invariant
            k <= m,
            m == pattern@.len(),
            at + m <= s@.len(),
            s@.len() <= usize::MAX,
            forall|j: int| 0 <= j < k ==> s@[at + j] == pattern@[j],
        decreases m - k,
    {
        if s[at + k] != pattern[k] {
            assert(s@.skip(at as int).subrange(0, m as int)[k as int] != pattern@[k as int]);
            return false;
        }
        k = k + 1;
    }
    assert(pattern@ =~= s@.skip(at as int).subrange(0, m as int));
    true
}

/// Takes every occurrence of `pattern` out of `s`.
pub fn remove_all(s: &str, pattern: &str) -> (out: String)
    ensures
        out@ == without(s@, pattern@),
{
    let chars = chars_of(s);
    let pat = chars_of(pattern);
    let n = chars.len();
    let m = pat.len();
    if m == 0 {
        return s.to_owned();
    }
    let mut out = String::new();
    let mut i: usize = 0;
    assert(s@.skip(0) =~= s@);
    while i < n
        invariant
            i <= n,
            n == s@.len(),
            m == pattern@.len(),
            m > 0,
            chars@ == s@,
            pat@ == pattern@,
            out@ + without(s@.skip(i as int), pattern@) == without(s@, pattern@),
        decreases n - i,
    {
        let ghost rest = s@.skip(i as int);
        if n - i < m {
            let tail = s.substring_char(i, n);
            assert(tail@ =~= rest);
            out.append(tail);
            i = n;
            assert(s@.skip(n as int) =~= Seq::<char>::empty());
        } else if occurs_at(&chars, i, &pat) {
            assert(rest.skip(m as int) =~= s@.skip(i as int + m as int));
            i = i + m;
        } else {
            let ghost before = out@;
            let one = s.substring_char(i, i + 1);
            assert(one@ =~= seq![rest[0]]);
            assert(rest.drop_first() =~= s@.skip(i as int + 1));
            out.append(one);
            assert(out@ + without(s@.skip(i as int + 1), pattern@) =~= before + without(
                rest,
                pattern@,
            ));
            i = i + 1;
        }
    }
    assert(s@.skip(n as int) =~= Seq::<char>::empty());
    assert(out@ + Seq::<char>::empty() =~= out@);
    out
}

/// The parts written one after the other with `separator` between them.
pub open spec fn joined(parts: Seq<Seq<char>>, separator: Seq<char>) -> Seq<char>
    decreases parts.len(),
{
    if parts.len() == 0 {
        Seq::<char>::empty()
    } else if parts.len() == 1 {
        parts[0]
    } else {
        joined(parts.drop_last(), separator) + separator + parts.last()
    }
}

/// The views of a vector of strings, one by one.
pub open spec fn string_views(strings: Seq<String>) -> Seq<Seq<char>> {
    Seq::new(strings.len(), |i: int| strings[i]@)
}

/// Writes the parts one after the other with `separator` between them.
pub fn join(parts: &Vec<String>, separator: &str) -> (out: String)
    ensures
        out@ == joined(string_views(parts@), separator@),
{
    let ghost views = string_views(parts@);
    let mut out = String::new();
    let n = parts.len();
    let mut i: usize = 0;
    assert(views.take(0) =~= Seq::<Seq<char>>::empty());
    while i < n
        invariant
            i <= n,
            n == parts@.len(),
            views == string_views(parts@),
            out@ == joined(views.take(i as int), separator@),
        decreases n - i,
    {
        let ghost before = out@;
        assert(views.take(i as int + 1).drop_last() =~= views.take(i as int));
        assert(views.take(i as int + 1).last() == parts@[i as int]@);
        if i > 0 {
            out.append(separator);
        }
        out.append(parts[i].as_str());
        proof {
            if i == 0 {
                assert(out@ =~= parts@[i as int]@);
                assert(views.take(1)[0] == parts@[0]@);
            } else {
                assert(out@ =~= before + separator@ + parts@[i as int]@);
            }
        }
        i = i + 1;
    }
    assert(views.take(n as int) =~= views);
    out
}

} // verus!
