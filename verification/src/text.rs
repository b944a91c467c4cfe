//! Text as sequences of characters: searching, trimming, numbers in decimal,
//! replacing a pattern, and what the Unicode tables say about a text.
//!
//! Contracts speak of a string through its view, a `Seq<char>`.

use unicode_segmentation::UnicodeSegmentation;
use unicode_width::UnicodeWidthStr;
use vstd::prelude::*;

verus! {

// The number of terminal columns that a text takes when it is shown.
pub uninterp spec fn display_width(text: Seq<char>) -> nat;

// The extended grapheme clusters of a text, in the order of the text.
pub uninterp spec fn grapheme_clusters(text: Seq<char>) -> Seq<Seq<char>>;

// The pieces into which the word boundaries of a text divide it, in order.
pub uninterp spec fn word_pieces(text: Seq<char>) -> Seq<Seq<char>>;

// Whether a character has the Unicode property White_Space.
pub uninterp spec fn white_space(c: char) -> bool;

/// The columns that `text` takes on a terminal.
///
/// Calls `UnicodeWidthStr::width` of unicode-width. Its result is a function
/// of the text alone, fixed by the crate's tables; the contract gives it the
/// name `display_width` and claims nothing else of it.
#[verifier::external_body]
pub(crate) fn width_of(text: &str) -> (w: usize)
    ensures
        w == display_width(text@),
{
    UnicodeWidthStr::width(text)
}

/// The extended grapheme clusters of `text`, each as a string of its own.
///
/// Calls `UnicodeSegmentation::graphemes` of unicode-segmentation with
/// `is_extended` set, and copies each cluster that the iterator yields. The
/// contract names the list `grapheme_clusters` and claims nothing else of it.
#[verifier::external_body]
pub(crate) fn graphemes_of(text: &str) -> (parts: Vec<String>)
    ensures
        parts.deep_view() == grapheme_clusters(text@),
{
    UnicodeSegmentation::graphemes(text, true).map(|g| g.to_string()).collect()
}

/// The pieces of `text` between its word boundaries, each as a string of its
/// own.
///
/// Calls `UnicodeSegmentation::split_word_bound_indices` of
/// unicode-segmentation and copies the piece of each item that the iterator
/// yields. The contract names the list `word_pieces` and claims nothing else
/// of it.
#[verifier::external_body]
pub(crate) fn words_of(text: &str) -> (parts: Vec<String>)
    ensures
        parts.deep_view() == word_pieces(text@),
{
    UnicodeSegmentation::split_word_bound_indices(text).map(|p| p.1.to_string()).collect()
}

/// Whether `c` is white space.
///
/// Calls `char::is_whitespace`, which tells whether the character has the
/// Unicode property White_Space. The contract names that property
/// `white_space`.
#[verifier::external_body]
pub(crate) fn is_space(c: char) -> (b: bool)
    ensures
        b == white_space(c),
{
    c.is_whitespace()
}

/// Appends one character to a string.
///
/// Calls `String::push`, which adds the character at the end and leaves what
/// came before it as it was.
#[verifier::external_body]
pub(crate) fn push_char(s: &mut String, c: char)
    ensures
        final(s)@ == old(s)@.push(c),
{
    s.push(c);
}

/// Removes the last character of a string.
///
/// Calls `String::pop`, which takes the last character off and returns it, and
/// returns `None` and changes nothing when the string is empty.
#[verifier::external_body]
pub(crate) fn pop_char(s: &mut String) -> (c: Option<char>)
    ensures
        old(s)@.len() == 0 ==> c is None && final(s)@ == old(s)@,
        old(s)@.len() > 0 ==> c == Some(old(s)@.last()) && final(s)@ == old(s)@.drop_last(),
{
    s.pop()
}

/// The characters of a string, in order.
pub fn chars_of(s: &str) -> (v: Vec<char>)
    ensures
        v@ == s@,
{
    let mut v: Vec<char> = Vec::new();
    for c in it: s.chars()
        invariant
            it.seq() == s@,
            v@ == s@.take(it.index()),
    {
        v.push(c);
    }
    assert(v@ == s@);
    v
}

/// The string made of the characters `chars[from..to]`.
pub fn text_of(chars: &Vec<char>, from: usize, to: usize) -> (s: String)
    requires
        from <= to <= chars.len(),
    ensures
        s@ == chars@.subrange(from as int, to as int),
{
    let mut s = String::new();
    let mut i: usize = from;
    while i < to
        invariant
            from <= i <= to <= chars.len(),
            s@ == chars@.subrange(from as int, i as int),
        decreases to - i,
    {
        push_char(&mut s, chars[i]);
        i += 1;
        assert(s@ == chars@.subrange(from as int, i as int));
    }
    s
}

/// Whether two strings hold the same characters.
pub fn same_text(a: &str, b: &str) -> (r: bool)
    ensures
        r == (a@ == b@),
{
    let x = chars_of(a);
    let y = chars_of(b);
    if x.len() != y.len() {
        return false;
    }
    let mut i: usize = 0;
    while i < x.len()
        invariant
            x.len() == y.len(),
            i <= x.len(),
            x@ == a@,
            y@ == b@,
            x@.take(i as int) == y@.take(i as int),
        decreases x.len() - i,
    {
        if x[i] != y[i] {
            assert(a@[i as int] != b@[i as int]);
            return false;
        }
        i += 1;
        assert(x@.take(i as int) == x@.take(i - 1).push(x@[i - 1]));
        assert(y@.take(i as int) == y@.take(i - 1).push(y@[i - 1]));
    }
    assert(x@ == x@.take(i as int));
    assert(y@ == y@.take(i as int));
    true
}

/// The index of the first `c` in `s`, or the length of `s` where it holds none.
pub open spec fn position(s: Seq<char>, c: char) -> int
    decreases s.len(),
{
    if s.len() == 0 || s[0] == c {
        0
    } else {
        1 + position(s.drop_first(), c)
    }
}

/// The index of the last `c` in `s`, or -1 where it holds none.
pub open spec fn last_position(s: Seq<char>, c: char) -> int
    decreases s.len(),
{
    if s.len() == 0 {
        -1
    } else if s.last() == c {
        s.len() - 1
    } else {
        last_position(s.drop_last(), c)
    }
}

/// `position` is the least index that holds `c`.
pub proof fn lemma_position(s: Seq<char>, c: char)
    ensures
        0 <= position(s, c) <= s.len(),
        position(s, c) < s.len() ==> s[position(s, c)] == c,
        forall|j: int| 0 <= j < position(s, c) ==> s[j] != c,
    decreases s.len(),
{
    if s.len() == 0 || s[0] == c {
    } else {
        let rest = s.drop_first();
        lemma_position(rest, c);
        assert forall|j: int| 0 <= j < position(s, c) implies s[j] != c by {
            if j > 0 {
                assert(s[j] == rest[j - 1]);
            }
        }
    }
}

/// `last_position` is the greatest index that holds `c`.
pub proof fn lemma_last_position(s: Seq<char>, c: char)
    ensures
        -1 <= last_position(s, c) < s.len(),
        last_position(s, c) >= 0 ==> s[last_position(s, c)] == c,
        forall|j: int| last_position(s, c) < j < s.len() ==> s[j] != c,
    decreases s.len(),
{
    if s.len() == 0 || s.last() == c {
    } else {
        let rest = s.drop_last();
        lemma_last_position(rest, c);
        assert forall|j: int| last_position(s, c) < j < s.len() implies s[j] != c by {
            if j < s.len() - 1 {
                assert(s[j] == rest[j]);
            }
        }
    }
}

/// The index of the first `c` in `chars[from..to]`, counted from `from`.
pub fn find_char(chars: &Vec<char>, from: usize, to: usize, c: char) -> (i: usize)
    requires
        from <= to <= chars.len(),
    ensures
        i == position(chars@.subrange(from as int, to as int), c),
        i <= to - from,
{
    let ghost s = chars@.subrange(from as int, to as int);
    let mut i: usize = 0;
    assert(s.skip(0) == s);
    while from + i < to
        invariant
            from <= to <= chars.len(),
            i <= to - from,
            s == chars@.subrange(from as int, to as int),
            position(s, c) == i + position(s.skip(i as int), c),
        decreases to - from - i,
    {
        proof {
            let rest = s.skip(i as int);
            assert(rest[0] == chars@[from + i]);
            assert(rest.drop_first() == s.skip(i + 1));
        }
        if chars[from + i] == c {
            return i;
        }
        i += 1;
    }
    assert(s.skip(i as int).len() == 0);
    i
}

/// The index of the last `c` in `chars[from..to]`, counted from `from`, or
/// `None` where there is none.
pub fn find_last_char(chars: &Vec<char>, from: usize, to: usize, c: char) -> (r: Option<usize>)
    requires
        from <= to <= chars.len(),
    ensures
        match r {
            Some(i) => i == last_position(chars@.subrange(from as int, to as int), c),
            None => last_position(chars@.subrange(from as int, to as int), c) == -1,
        },
{
    let ghost s = chars@.subrange(from as int, to as int);
    let mut n: usize = to - from;
    assert(s.take(n as int) == s);
    while n > 0
        invariant
            from <= to <= chars.len(),
            n <= to - from,
            s == chars@.subrange(from as int, to as int),
            last_position(s, c) == last_position(s.take(n as int), c),
        decreases n,
    {
        proof {
            let head = s.take(n as int);
            assert(head.last() == chars@[from + n - 1]);
            assert(head.drop_last() == s.take(n - 1));
        }
        if chars[from + n - 1] == c {
            return Some(n - 1);
        }
        n -= 1;
    }
    assert(s.take(0).len() == 0);
    None
}

/// `s` without the white space at its start.
pub open spec fn trim_start(s: Seq<char>) -> Seq<char>
    decreases s.len(),
{
    if s.len() > 0 && white_space(s[0]) {
        trim_start(s.drop_first())
    } else {
        s
    }
}

/// `s` without the white space at its end.
pub open spec fn trim_end(s: Seq<char>) -> Seq<char>
    decreases s.len(),
{
    if s.len() > 0 && white_space(s.last()) {
        trim_end(s.drop_last())
    } else {
        s
    }
}

/// `s` without the white space at either end.
pub open spec fn trim(s: Seq<char>) -> Seq<char> {
    trim_end(trim_start(s))
}

/// The bounds of `chars[from..to]` without the white space at its start.
pub fn skip_space(chars: &Vec<char>, from: usize, to: usize) -> (lo: usize)
    requires
        from <= to <= chars.len(),
    ensures
        from <= lo <= to,
        chars@.subrange(lo as int, to as int) == trim_start(
            chars@.subrange(from as int, to as int),
        ),
{
    let mut lo: usize = from;
    while lo < to
        invariant
            from <= lo <= to <= chars.len(),
            trim_start(chars@.subrange(lo as int, to as int)) == trim_start(
                chars@.subrange(from as int, to as int),
            ),
        decreases to - lo,
    {
        proof {
            let s = chars@.subrange(lo as int, to as int);
            assert(s[0] == chars@[lo as int]);
            assert(s.drop_first() == chars@.subrange(lo + 1, to as int));
        }
        if !is_space(chars[lo]) {
            return lo;
        }
        lo += 1;
    }
    lo
}

/// The bounds of `chars[from..to]` without the white space at its end.
pub fn drop_space(chars: &Vec<char>, from: usize, to: usize) -> (hi: usize)
    requires
        from <= to <= chars.len(),
    ensures
        from <= hi <= to,
        chars@.subrange(from as int, hi as int) == trim_end(
            chars@.subrange(from as int, to as int),
        ),
{
    let mut hi: usize = to;
    while hi > from
        invariant
            from <= hi <= to <= chars.len(),
            trim_end(chars@.subrange(from as int, hi as int)) == trim_end(
                chars@.subrange(from as int, to as int),
            ),
        decreases hi,
    {
        proof {
            let s = chars@.subrange(from as int, hi as int);
            assert(s.last() == chars@[hi - 1]);
            assert(s.drop_last() == chars@.subrange(from as int, hi - 1));
        }
        if !is_space(chars[hi - 1]) {
            return hi;
        }
        hi -= 1;
    }
    hi
}

/// Whether `c` is one of the ten decimal digits.
pub open spec fn is_digit(c: char) -> bool {
    '0' <= c && c <= '9'
}

/// The value of a decimal digit.
pub open spec fn digit_value(c: char) -> nat {
    (c as int - '0' as int) as nat
}

/// Whether `s` holds decimal digits only.
pub open spec fn all_digits(s: Seq<char>) -> bool {
    forall|i: int| 0 <= i < s.len() ==> is_digit(#[trigger] s[i])
}

/// The number that the decimal digits `s` write, the digit of least weight
/// last.
pub open spec fn digits_value(s: Seq<char>) -> nat
    decreases s.len(),
{
    if s.len() == 0 {
        0
    } else {
        digits_value(s.drop_last()) * 10 + digit_value(s.last())
    }
}

/// `s` without a plus sign at its start.
pub open spec fn unsigned(s: Seq<char>) -> Seq<char> {
    if s.len() > 0 && s[0] == '+' {
        s.drop_first()
    } else {
        s
    }
}

/// The number that `s` writes in decimal: an optional plus sign, then one
/// digit or more, with a value that a `u32` can hold. `None` for any other
/// text.
pub open spec fn number(s: Seq<char>) -> Option<u32> {
    let body = unsigned(s);
    if body.len() > 0 && all_digits(body) && digits_value(body) <= u32::MAX {
        Some(digits_value(body) as u32)
    } else {
        None
    }
}

proof fn lemma_digits_grow(s: Seq<char>, k: int)
    requires
        0 <= k <= s.len(),
    ensures
        digits_value(s.take(k)) <= digits_value(s),
    decreases s.len() - k,
{
    if k < s.len() {
        lemma_digits_grow(s, k + 1);
        assert(s.take(k + 1).drop_last() == s.take(k));
    } else {
        assert(s.take(k) == s);
    }
}

/// Reads `chars[from..to]` as a decimal number.
pub fn parse_number(chars: &Vec<char>, from: usize, to: usize) -> (r: Option<u32>)
    requires
        from <= to <= chars.len(),
    ensures
        r == number(chars@.subrange(from as int, to as int)),
{
    let ghost s = chars@.subrange(from as int, to as int);
    let start: usize = if from < to && chars[from] == '+' {
        from + 1
    } else {
        from
    };
    let ghost body = unsigned(s);
    assert(body == chars@.subrange(start as int, to as int));
    if start == to {
        return None;
    }
    let mut value: u64 = 0;
    let mut i: usize = start;
    while i < to
        invariant
            from <= start <= i <= to <= chars.len(),
            body == chars@.subrange(start as int, to as int),
            body == unsigned(chars@.subrange(from as int, to as int)),
            all_digits(body.take(i - start)),
            value == digits_value(body.take(i - start)),
            value <= u32::MAX,
        decreases to - i,
    {
        let c = chars[i];
        assert(body[i - start] == c);
        let ghost next = body.take(i - start + 1);
        assert(next.drop_last() == body.take(i - start));
        assert(next.last() == c);
        if !(c >= '0' && c <= '9') {
            assert(!is_digit(body[i - start]));
            return None;
        }
        let d: u64 = (c as u32 - '0' as u32) as u64;
        value = value * 10 + d;
        assert(value == digits_value(next));
        assert(all_digits(next));
        if value > 0xffff_ffff {
            proof {
                lemma_digits_grow(body, i - start + 1);
            }
            return None;
        }
        i += 1;
    }
    assert(body.take(i - start) == body);
    Some(value as u32)
}

/// The character that writes the digit `d`.
pub open spec fn digit_char(d: nat) -> char {
    ('0' as int + d) as char
}

/// `n` in decimal, without leading zeros.
pub open spec fn decimal(n: nat) -> Seq<char>
    decreases n,
{
    if n < 10 {
        seq![digit_char(n)]
    } else {
        decimal(n / 10).push(digit_char(n % 10))
    }
}

/// `text` with as many `fill` before it as it takes to reach `width`
/// characters.
pub open spec fn padded(text: Seq<char>, width: nat, fill: char) -> Seq<char> {
    if text.len() >= width {
        text
    } else {
        Seq::new((width - text.len()) as nat, |i: int| fill) + text
    }
}

/// `n` in decimal with two digits at least.
pub open spec fn two_digits(n: nat) -> Seq<char> {
    padded(decimal(n), 2, '0')
}

/// A decimal number has one digit at least.
pub proof fn lemma_decimal_len(n: nat)
    ensures
        decimal(n).len() >= 1,
        n < 10 ==> decimal(n).len() == 1,
        n >= 10 ==> decimal(n).len() >= 2,
    decreases n,
{
    if n >= 10 {
        lemma_decimal_len(n / 10);
    }
}

/// Appends `n` in decimal to `out`.
pub fn push_decimal(out: &mut String, n: u32)
    ensures
        final(out)@ == old(out)@ + decimal(n as nat),
    decreases n,
{
    if n >= 10 {
        push_decimal(out, n / 10);
    }
    let d: u8 = (n % 10) as u8;
    push_char(out, (48u8 + d) as char);
    assert(final(out)@ == old(out)@ + decimal(n as nat));
}

/// Appends `n` in decimal to `out`, with a zero before a single digit.
pub fn push_two_digits(out: &mut String, n: u32)
    ensures
        final(out)@ == old(out)@ + two_digits(n as nat),
{
    proof {
        lemma_decimal_len(n as nat);
    }
    if n < 10 {
        push_char(out, '0');
        assert(Seq::new(1, |i: int| '0') == seq!['0']);
    }
    push_decimal(out, n);
    assert(final(out)@ == old(out)@ + two_digits(n as nat));
}

/// Appends the characters of `text` to `out`.
pub fn push_text(out: &mut String, text: &str)
    ensures
        final(out)@ == old(out)@ + text@,
{
    let chars = chars_of(text);
    let mut i: usize = 0;
    while i < chars.len()
        invariant
            i <= chars.len(),
            chars@ == text@,
            out@ == old(out)@ + chars@.take(i as int),
        decreases chars.len() - i,
    {
        push_char(out, chars[i]);
        i += 1;
        assert(chars@.take(i as int) == chars@.take(i - 1).push(chars@[i - 1]));
    }
    assert(chars@.take(i as int) == chars@);
}

/// Whether `s` begins with `pattern`.
pub open spec fn starts_with(s: Seq<char>, pattern: Seq<char>) -> bool {
    pattern.len() <= s.len() && s.take(pattern.len() as int) == pattern
}

/// `s` with each occurrence of `pattern` replaced by `with`, the occurrences
/// found from the left and not overlapping. An empty pattern occurs nowhere.
pub open spec fn replaced(s: Seq<char>, pattern: Seq<char>, with: Seq<char>) -> Seq<char>
    decreases s.len(),
{
    if s.len() == 0 {
        s
    } else if pattern.len() > 0 && starts_with(s, pattern) {
        with + replaced(s.skip(pattern.len() as int), pattern, with)
    } else {
        seq![s[0]] + replaced(s.drop_first(), pattern, with)
    }
}

/// Whether `chars` holds `pattern` at index `at`.
fn matches_at(chars: &Vec<char>, at: usize, pattern: &Vec<char>) -> (r: bool)
    requires
        at <= chars.len(),
    ensures
        r == starts_with(chars@.skip(at as int), pattern@),
{
    if pattern.len() > chars.len() - at {
        return false;
    }
    let ghost s = chars@.skip(at as int);
    let mut k: usize = 0;
    while k < pattern.len()
        invariant
            at <= chars.len(),
            pattern.len() <= chars.len() - at,
            k <= pattern.len(),
            s == chars@.skip(at as int),
            s.take(k as int) == pattern@.take(k as int),
        decreases pattern.len() - k,
    {
        if chars[at + k] != pattern[k] {
            assert(s.take(pattern.len() as int)[k as int] != pattern@[k as int]);
            return false;
        }
        k += 1;
        assert(s.take(k as int) == s.take(k - 1).push(s[k - 1]));
        assert(pattern@.take(k as int) == pattern@.take(k - 1).push(pattern@[k - 1]));
    }
    assert(pattern@.take(k as int) == pattern@);
    true
}

/// `text` with each occurrence of `pattern` replaced by `with`.
pub fn replace(text: &str, pattern: &str, with: &str) -> (out: String)
    ensures
        out@ == replaced(text@, pattern@, with@),
{
    let chars = chars_of(text);
    let pat = chars_of(pattern);
    let mut out = String::new();
    let mut i: usize = 0;
    assert(chars@.skip(0) == chars@);
    assert(out@ + replaced(chars@, pat@, with@) == replaced(chars@, pat@, with@));
    while i < chars.len()
        invariant
            i <= chars.len(),
            chars@ == text@,
            pat@ == pattern@,
            out@ + replaced(chars@.skip(i as int), pat@, with@) == replaced(chars@, pat@, with@),
        decreases chars.len() - i,
    {
        let ghost rest = chars@.skip(i as int);
        let ghost before = out@;
        if pat.len() > 0 && matches_at(&chars, i, &pat) {
            push_text(&mut out, with);
            assert(rest.skip(pat.len() as int) == chars@.skip(i + pat.len()));
            i += pat.len();
            assert(out@ + replaced(chars@.skip(i as int), pat@, with@) == before + (with@
                + replaced(chars@.skip(i as int), pat@, with@)));
        } else {
            push_char(&mut out, chars[i]);
            assert(rest.drop_first() == chars@.skip(i + 1));
            assert(rest[0] == chars@[i as int]);
            i += 1;
            assert(out@ + replaced(chars@.skip(i as int), pat@, with@) == before + (seq![rest[0]]
                + replaced(chars@.skip(i as int), pat@, with@)));
        }
    }
    assert(chars@.skip(i as int).len() == 0);
    assert(out@ + Seq::<char>::empty() == out@);
    out
}

/// The first `limit` of `clusters` in one text with `mark` after them, where
/// there are more than `limit`; `None` where there are not.
pub open spec fn shortened(clusters: Seq<Seq<char>>, limit: nat, mark: Option<char>) -> Option<
    Seq<char>,
> {
    if clusters.len() > limit {
        let kept = clusters.take(limit as int).flatten();
        Some(
            match mark {
                Some(c) => kept.push(c),
                None => kept,
            },
        )
    } else {
        None
    }
}

/// Joins the first `limit` of `clusters` and appends `mark`, where there are
/// more than `limit` of them.
pub fn shorten(clusters: &Vec<String>, limit: usize, mark: Option<char>) -> (r: Option<String>)
    ensures
        match r {
            Some(s) => shortened(clusters.deep_view(), limit as nat, mark) == Some(s@),
            None => shortened(clusters.deep_view(), limit as nat, mark) is None,
        },
{
    if clusters.len() <= limit {
        return None;
    }
    let ghost parts = clusters.deep_view();
    let mut out = String::new();
    let mut k: usize = 0;
    while k < limit
        invariant
            k <= limit < clusters.len(),
            parts == clusters.deep_view(),
            out@ == parts.take(k as int).flatten(),
        decreases limit - k,
    {
        push_text(&mut out, clusters[k].as_str());
        proof {
            assert(parts[k as int] == clusters@[k as int]@);
            assert(parts.take(k + 1) == parts.take(k as int).push(parts[k as int]));
            parts.take(k as int).lemma_flatten_push(parts[k as int]);
        }
        k += 1;
    }
    match mark {
        Some(c) => push_char(&mut out, c),
        None => {},
    }
    Some(out)
}

/// What is left of `text` when it is cut to `limit` grapheme clusters and
/// marked with `ellipse`; `text` itself where it has no more than `limit`.
pub open spec fn truncated(text: Seq<char>, limit: nat, ellipse: char) -> Seq<char> {
    match shortened(grapheme_clusters(text), limit, Some(ellipse)) {
        Some(s) => s,
        None => text,
    }
}

/// Cuts `input` to `limit` grapheme clusters and appends `ellipse`, where it
/// has more than `limit`.
pub fn grapheme_truncate(input: &mut String, limit: usize, ellipse: char)
    ensures
        final(input)@ == truncated(old(input)@, limit as nat, ellipse),
{
    let clusters = graphemes_of(input.as_str());
    match shorten(&clusters, limit, Some(ellipse)) {
        Some(s) => {
            *input = s;
        },
        None => {},
    }
}

/// Cuts `input` to `limit` grapheme clusters, where it has more.
pub fn unicode_truncate(input: &mut String, limit: usize)
    ensures
        final(input)@ == (match shortened(grapheme_clusters(old(input)@), limit as nat, None) {
            Some(s) => s,
            None => old(input)@,
        }),
{
    let clusters = graphemes_of(input.as_str());
    match shorten(&clusters, limit, None) {
        Some(s) => {
            *input = s;
        },
        None => {},
    }
}

/// What `count` is as a `u16`: the count itself, or the largest `u16` where
/// the count is above it.
pub open spec fn capped(count: nat) -> u16 {
    if count > u16::MAX {
        u16::MAX
    } else {
        count as u16
    }
}

/// A count as a `u16`, the largest `u16` standing for all above it.
pub fn cap(count: usize) -> (r: u16)
    ensures
        r == capped(count as nat),
{
    if count > 0xffff {
        0xffff
    } else {
        count as u16
    }
}

/// The number of grapheme clusters of `input`, as far as a `u16` counts.
pub fn unicode_length(input: &str) -> (n: u16)
    ensures
        n == capped(grapheme_clusters(input@).len()),
{
    let clusters = graphemes_of(input);
    cap(clusters.len())
}

} // verus!
