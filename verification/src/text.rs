//! Text as the kernel and the firmware hand it out: lines, words, trimming
//! and plain numbers.
//!
//! Every operation is described over the sequence of characters of a string.
//! The slices handed out borrow from the text they were cut from.

use vstd::prelude::*;
use vstd::string::StrSliceExecFns;
use vstd::string::StringExecFns;

verus! {

/// The characters with the Unicode property `White_Space`.
pub open spec fn is_white(c: char) -> bool {
    ||| '\u{9}' <= c <= '\u{d}'
    ||| c == ' '
    ||| c == '\u{85}'
    ||| c == '\u{a0}'
    ||| c == '\u{1680}'
    ||| '\u{2000}' <= c <= '\u{200a}'
    ||| c == '\u{2028}'
    ||| c == '\u{2029}'
    ||| c == '\u{202f}'
    ||| c == '\u{205f}'
    ||| c == '\u{3000}'
}

pub open spec fn is_digit(c: char) -> bool {
    '0' <= c <= '9'
}

/// How many characters at the front of `s` satisfy `p` before the first that
/// does not.
pub open spec fn span(s: Seq<char>, p: spec_fn(char) -> bool) -> nat
    decreases s.len(),
{
    if s.len() > 0 && p(s[0]) {
        1 + span(s.drop_first(), p)
    } else {
        0
    }
}

/// How many characters at the back of `s` satisfy `p` after the last that
/// does not.
pub open spec fn rspan(s: Seq<char>, p: spec_fn(char) -> bool) -> nat
    decreases s.len(),
{
    if s.len() > 0 && p(s.last()) {
        1 + rspan(s.drop_last(), p)
    } else {
        0
    }
}

pub open spec fn white() -> spec_fn(char) -> bool {
    |c: char| is_white(c)
}

pub open spec fn dark() -> spec_fn(char) -> bool {
    |c: char| !is_white(c)
}

pub open spec fn digit() -> spec_fn(char) -> bool {
    |c: char| is_digit(c)
}

/// Whatever cannot end a decimal number.
pub open spec fn unit_mark() -> spec_fn(char) -> bool {
    |c: char| !is_digit(c) && c != '.'
}

pub open spec fn other_than(c: char) -> spec_fn(char) -> bool {
    |x: char| x != c
}

pub open spec fn trim_start(s: Seq<char>) -> Seq<char> {
    s.skip(span(s, white()) as int)
}

pub open spec fn trim_end(s: Seq<char>) -> Seq<char> {
    s.take(s.len() - rspan(s, white()))
}

/// `s` without the white space at its two ends.
pub open spec fn trim(s: Seq<char>) -> Seq<char> {
    trim_end(trim_start(s))
}

/// A digit of either width as an ASCII digit: East Asian locales write the
/// digits from `\u{ff10}` to `\u{ff19}`. Every other character stays as it is.
pub open spec fn narrow_digit(c: char) -> char {
    if '\u{ff10}' <= c <= '\u{ff19}' {
        digit_char((c as int - '\u{ff10}' as int) as nat)
    } else {
        c
    }
}

/// `s` with all its digits in ASCII.
pub open spec fn narrowed(s: Seq<char>) -> Seq<char> {
    Seq::new(s.len(), |i: int| narrow_digit(s[i]))
}

/// `s` without whatever follows the last digit or point.
pub open spec fn trim_unit(s: Seq<char>) -> Seq<char> {
    s.take(s.len() - rspan(s, unit_mark()))
}

/// A line without the carriage return that belongs to its line feed.
pub open spec fn without_return(s: Seq<char>) -> Seq<char> {
    if s.len() > 0 && s.last() == '\r' {
        s.drop_last()
    } else {
        s
    }
}

/// The lines of `s`. A line feed, or a carriage return and a line feed, ends a
/// line and is no part of it; the last line may lack its line feed.
pub open spec fn lines(s: Seq<char>) -> Seq<Seq<char>>
    decreases s.len(),
{
    let n = span(s, other_than('\n')) as int;
    if s.len() == 0 {
        seq![]
    } else if n >= s.len() {
        seq![s]
    } else {
        seq![without_return(s.take(n))] + lines(s.skip(n + 1))
    }
}

/// The words of `s`: its longest stretches without white space.
pub open spec fn words(s: Seq<char>) -> Seq<Seq<char>>
    decreases s.len(),
{
    let t = trim_start(s);
    let n = span(t, dark()) as int;
    if t.len() == 0 {
        seq![]
    } else {
        proof {
            lemma_span_holds(s, white());
            lemma_span_holds(t, dark());
            assert(t[0] == s[span(s, white()) as int]);
        }
        seq![t.take(n)] + words(t.skip(n))
    }
}

/// What stands before and after the first `mark`, if there is one.
pub open spec fn split_once(s: Seq<char>, mark: char) -> Option<(Seq<char>, Seq<char>)> {
    let n = span(s, other_than(mark)) as int;
    if n >= s.len() {
        None
    } else {
        Some((s.take(n), s.skip(n + 1)))
    }
}

/// What stands before the first `mark`, or the whole text without one.
pub open spec fn before_mark(s: Seq<char>, mark: char) -> Seq<char> {
    s.take(span(s, other_than(mark)) as int)
}

/// What stands after the last `mark`, or the whole text without one.
pub open spec fn after_last(s: Seq<char>, mark: char) -> Seq<char> {
    s.skip(s.len() - rspan(s, other_than(mark)))
}

pub open spec fn starts_with(s: Seq<char>, prefix: Seq<char>) -> bool {
    prefix.len() <= s.len() && s.take(prefix.len() as int) == prefix
}

pub open spec fn strip_prefix(s: Seq<char>, prefix: Seq<char>) -> Option<Seq<char>> {
    if starts_with(s, prefix) {
        Some(s.skip(prefix.len() as int))
    } else {
        None
    }
}

/// `s` without the copies of a nonempty `prefix` that it starts with.
pub open spec fn strip_repeated(s: Seq<char>, prefix: Seq<char>) -> Seq<char>
    decreases s.len(),
{
    if prefix.len() > 0 && starts_with(s, prefix) {
        strip_repeated(s.skip(prefix.len() as int), prefix)
    } else {
        s
    }
}

/// Whether `part` stands in `s` from position `at` on.
pub open spec fn stands_at(s: Seq<char>, part: Seq<char>, at: int) -> bool {
    0 <= at && at + part.len() <= s.len() && s.subrange(at, at + part.len()) == part
}

pub open spec fn holds_text(s: Seq<char>, part: Seq<char>) -> bool {
    exists|at: int| stands_at(s, part, at)
}

/// The value of one digit in a base of at most sixteen.
pub open spec fn digit_value(c: char, radix: nat) -> Option<nat> {
    let v: int = if '0' <= c <= '9' {
        c as int - '0' as int
    } else if 'a' <= c <= 'f' {
        c as int - 'a' as int + 10
    } else if 'A' <= c <= 'F' {
        c as int - 'A' as int + 10
    } else {
        16
    };
    if v < radix {
        Some(v as nat)
    } else {
        None
    }
}

/// The number that a run of digits writes down, most significant digit first.
pub open spec fn digits_value(s: Seq<char>, radix: nat) -> Option<nat>
    decreases s.len(),
{
    if s.len() == 0 {
        Some(0)
    } else {
        match (digits_value(s.drop_last(), radix), digit_value(s.last(), radix)) {
            (Some(front), Some(d)) => Some(front * radix + d),
            _ => None,
        }
    }
}

pub open spec fn without_plus(s: Seq<char>) -> Seq<char> {
    if s.len() > 0 && s[0] == '+' {
        s.skip(1)
    } else {
        s
    }
}

/// The unsigned number that `s` writes down: an optional plus sign and at least
/// one digit, of a value no greater than `max`.
pub open spec fn unsigned(s: Seq<char>, radix: nat, max: nat) -> Option<nat> {
    let digits = without_plus(s);
    if digits.len() == 0 {
        None
    } else {
        match digits_value(digits, radix) {
            Some(v) => if v <= max {
                Some(v)
            } else {
                None
            },
            None => None,
        }
    }
}

/// The number that `s` writes down in base ten, if a `u64` can hold it.
pub open spec fn u64_of(s: Seq<char>) -> Option<u64> {
    match unsigned(s, 10, u64::MAX as nat) {
        Some(v) => Some(v as u64),
        None => None,
    }
}

/// The number that `s` writes down in base sixteen, if a `u32` can hold it.
pub open spec fn hex_u32_of(s: Seq<char>) -> Option<u32> {
    match unsigned(s, 16, u32::MAX as nat) {
        Some(v) => Some(v as u32),
        None => None,
    }
}

pub open spec fn digit_char(d: nat) -> char {
    ('0' as int + d) as char
}

/// `n` in base ten without leading zeros.
pub open spec fn decimal(n: nat) -> Seq<char>
    decreases n,
{
    if n < 10 {
        seq![digit_char(n)]
    } else {
        decimal(n / 10).push(digit_char(n % 10))
    }
}

/// The parts in their order with `glue` between neighbours.
pub open spec fn join(parts: Seq<Seq<char>>, glue: Seq<char>) -> Seq<char>
    decreases parts.len(),
{
    if parts.len() == 0 {
        seq![]
    } else if parts.len() == 1 {
        parts[0]
    } else {
        join(parts.drop_last(), glue) + glue + parts.last()
    }
}

/// The order of texts: by the first character in which they differ, a proper
/// prefix before what it starts.
pub open spec fn sorts_before(a: Seq<char>, b: Seq<char>) -> bool
    decreases b.len(),
{
    if b.len() == 0 {
        false
    } else if a.len() == 0 {
        true
    } else if a[0] != b[0] {
        a[0] < b[0]
    } else {
        sorts_before(a.drop_first(), b.drop_first())
    }
}

/// The views of a list of texts.
pub open spec fn views(list: Seq<&str>) -> Seq<Seq<char>> {
    Seq::new(list.len(), |i: int| list[i]@)
}

/// The view of a text that may be missing.
pub open spec fn text_of(text: Option<String>) -> Option<Seq<char>> {
    match text {
        Some(s) => Some(s@),
        None => None,
    }
}

/// The views of a list of owned texts.
pub open spec fn texts_of(list: Seq<String>) -> Seq<Seq<char>> {
    Seq::new(list.len(), |i: int| list[i]@)
}

/// `span` is the one length at which `p` has held throughout and then fails or
/// the text ends.
pub proof fn lemma_span(s: Seq<char>, p: spec_fn(char) -> bool, n: nat)
    requires
        n <= s.len(),
        forall|i: int| 0 <= i < n ==> p(#[trigger] s[i]),
        n == s.len() || !p(s[n as int]),
    ensures
        span(s, p) == n,
    decreases s.len(),
{
    if n > 0 {
        assert(p(s[0]));
        let t = s.drop_first();
        assert forall|i: int| 0 <= i < n - 1 implies p(#[trigger] t[i]) by {
            assert(t[i] == s[i + 1]);
        }
        if n < s.len() {
            assert(t[n - 1] == s[n as int]);
        }
        lemma_span(t, p, (n - 1) as nat);
    }
}

pub proof fn lemma_span_holds(s: Seq<char>, p: spec_fn(char) -> bool)
    ensures
        span(s, p) <= s.len(),
        forall|i: int| 0 <= i < span(s, p) ==> p(#[trigger] s[i]),
        span(s, p) < s.len() ==> !p(s[span(s, p) as int]),
    decreases s.len(),
{
    if s.len() > 0 && p(s[0]) {
        let t = s.drop_first();
        lemma_span_holds(t, p);
        assert forall|i: int| 0 <= i < span(s, p) implies p(#[trigger] s[i]) by {
            if i > 0 {
                assert(s[i] == t[i - 1]);
            }
        }
        if span(s, p) < s.len() {
            assert(s[span(s, p) as int] == t[span(t, p) as int]);
        }
    }
}

/// `rspan` is the one length at the back at which `p` has held throughout and
/// then fails or the text ends.
pub proof fn lemma_rspan(s: Seq<char>, p: spec_fn(char) -> bool, n: nat)
    requires
        n <= s.len(),
        forall|i: int| s.len() - n <= i < s.len() ==> p(#[trigger] s[i]),
        n == s.len() || !p(s[s.len() - n - 1]),
    ensures
        rspan(s, p) == n,
    decreases s.len(),
{
    if n > 0 {
        assert(p(s[s.len() - 1]));
        let t = s.drop_last();
        assert forall|i: int| t.len() - (n - 1) <= i < t.len() implies p(#[trigger] t[i]) by {
            assert(t[i] == s[i]);
        }
        lemma_rspan(t, p, (n - 1) as nat);
    }
}

pub proof fn lemma_rspan_holds(s: Seq<char>, p: spec_fn(char) -> bool)
    ensures
        rspan(s, p) <= s.len(),
        forall|i: int| s.len() - rspan(s, p) <= i < s.len() ==> p(#[trigger] s[i]),
        rspan(s, p) < s.len() ==> !p(s[s.len() - rspan(s, p) - 1]),
    decreases s.len(),
{
    if s.len() > 0 && p(s.last()) {
        let t = s.drop_last();
        lemma_rspan_holds(t, p);
        assert forall|i: int| s.len() - rspan(s, p) <= i < s.len() implies p(#[trigger] s[i]) by {
            if i < s.len() - 1 {
                assert(s[i] == t[i]);
            }
        }
        if rspan(s, p) < s.len() {
            assert(s[s.len() - rspan(s, p) - 1] == t[t.len() - rspan(t, p) - 1]);
        }
    }
}

/// The characters of a text.
pub(crate) fn chars(s: &str) -> (r: Vec<char>)
    ensures
        r@ == s@,
{
    let mut out: Vec<char> = Vec::new();
    for c in it: s.chars()
        invariant
            out@ == it.seq().take(it.index()),
            it.seq() == s@,
    {
        out.push(c);
        assert(out@ == it.seq().take(it.index() + 1));
    }
    out
}

pub(crate) fn white_char(c: char) -> (r: bool)
    ensures
        r == is_white(c),
{
    ('\u{9}' <= c && c <= '\u{d}') || c == ' ' || c == '\u{85}' || c == '\u{a0}' || c == '\u{1680}'
        || ('\u{2000}' <= c && c <= '\u{200a}') || c == '\u{2028}' || c == '\u{2029}'
        || c == '\u{202f}' || c == '\u{205f}' || c == '\u{3000}'
}

pub(crate) fn digit_mark(c: char) -> (r: bool)
    ensures
        r == is_digit(c),
{
    '0' <= c && c <= '9'
}


/// Where the text stops being white from position `from` on.
fn end_of_white(cs: &Vec<char>, from: usize) -> (r: usize)
    requires
        from <= cs@.len(),
    ensures
        from <= r <= cs@.len(),
        r == from + span(cs@.skip(from as int), white()),
{
    let mut i: usize = from;
    while i < cs.len() && white_char(cs[i])
        invariant
            from <= i <= cs@.len(),
            forall|k: int| from <= k < i ==> is_white(#[trigger] cs@[k]),
        decreases cs@.len() - i,
    {
        i = i + 1;
    }
    proof {
        lemma_span(cs@.skip(from as int), white(), (i - from) as nat);
    }
    i
}

/// Where the text turns white from position `from` on.
fn end_of_dark(cs: &Vec<char>, from: usize) -> (r: usize)
    requires
        from <= cs@.len(),
    ensures
        from <= r <= cs@.len(),
        r == from + span(cs@.skip(from as int), dark()),
{
    let mut i: usize = from;
    while i < cs.len() && !white_char(cs[i])
        invariant
            from <= i <= cs@.len(),
            forall|k: int| from <= k < i ==> !is_white(#[trigger] cs@[k]),
        decreases cs@.len() - i,
    {
        i = i + 1;
    }
    proof {
        lemma_span(cs@.skip(from as int), dark(), (i - from) as nat);
    }
    i
}

/// Where `mark` first stands from position `from` on, or the end.
fn find_mark(cs: &Vec<char>, from: usize, mark: char) -> (r: usize)
    requires
        from <= cs@.len(),
    ensures
        from <= r <= cs@.len(),
        r == from + span(cs@.skip(from as int), other_than(mark)),
{
    let mut i: usize = from;
    while i < cs.len() && cs[i] != mark
        invariant
            from <= i <= cs@.len(),
            forall|k: int| from <= k < i ==> #[trigger] cs@[k] != mark,
        decreases cs@.len() - i,
    {
        i = i + 1;
    }
    proof {
        lemma_span(cs@.skip(from as int), other_than(mark), (i - from) as nat);
    }
    i
}

/// `s` without the white space at its two ends.
pub fn trimmed<'a>(s: &'a str) -> (r: &'a str)
    ensures
        r@ == trim(s@),
{
    let cs = chars(s);
    let from = end_of_white(&cs, 0);
    let ghost t = s@.skip(from as int);
    assert(cs@.skip(0) == s@);
    let mut to: usize = cs.len();
    while to > from && white_char(cs[to - 1])
        invariant
            from <= to <= cs@.len(),
            forall|k: int| to <= k < cs@.len() ==> is_white(#[trigger] cs@[k]),
        decreases to,
    {
        to = to - 1;
    }
    proof {
        lemma_rspan(t, white(), (cs@.len() - to) as nat);
        assert(t.take(t.len() - rspan(t, white())) == s@.subrange(from as int, to as int));
    }
    s.substring_char(from, to)
}

/// `s` without the white space at its front.
pub fn trimmed_start<'a>(s: &'a str) -> (r: &'a str)
    ensures
        r@ == trim_start(s@),
{
    let cs = chars(s);
    let from = end_of_white(&cs, 0);
    assert(cs@.skip(0) == s@);
    assert(s@.skip(from as int) == s@.subrange(from as int, s@.len() as int));
    s.substring_char(from, cs.len())
}

/// `s` without whatever follows the last digit or point.
pub fn without_unit<'a>(s: &'a str) -> (r: &'a str)
    ensures
        r@ == trim_unit(s@),
{
    let cs = chars(s);
    let mut to: usize = cs.len();
    while to > 0 && !digit_mark(cs[to - 1]) && cs[to - 1] != '.'
        invariant
            to <= cs@.len(),
            forall|k: int| to <= k < cs@.len() ==> !is_digit(#[trigger] cs@[k]) && cs@[k] != '.',
        decreases to,
    {
        to = to - 1;
    }
    proof {
        lemma_rspan(s@, unit_mark(), (cs@.len() - to) as nat);
        assert(s@.take(to as int) == s@.subrange(0, to as int));
    }
    s.substring_char(0, to)
}

/// `s` without the digits at its front.
pub fn without_index<'a>(s: &'a str) -> (r: &'a str)
    ensures
        r@ == s@.skip(span(s@, digit()) as int),
        span(s@, digit()) <= s@.len(),
{
    let cs = chars(s);
    let mut i: usize = 0;
    while i < cs.len() && digit_mark(cs[i])
        invariant
            i <= cs@.len(),
            forall|k: int| 0 <= k < i ==> is_digit(#[trigger] cs@[k]),
        decreases cs@.len() - i,
    {
        i = i + 1;
    }
    proof {
        lemma_span(s@, digit(), i as nat);
        assert(s@.skip(i as int) == s@.subrange(i as int, s@.len() as int));
    }
    s.substring_char(i, cs.len())
}

/// The lines of a text.
pub fn split_lines<'a>(s: &'a str) -> (r: Vec<&'a str>)
    ensures
        views(r@) == lines(s@),
{
    let cs = chars(s);
    let mut out: Vec<&'a str> = Vec::new();
    let mut i: usize = 0;
    assert(s@.skip(0) == s@);
    assert(views(out@) + lines(s@) == lines(s@));
    while i < cs.len()
        invariant
            i <= cs@.len(),
            cs@ == s@,
            lines(s@) == views(out@) + lines(s@.skip(i as int)),
        decreases cs@.len() - i,
    {
        let ghost before = views(out@);
        let ghost rest = s@.skip(i as int);
        let n = find_mark(&cs, i, '\n');
        if n == cs.len() {
            assert(s@.subrange(i as int, n as int) == rest);
            out.push(s.substring_char(i, n));
            proof {
                assert(lines(rest) == seq![rest]);
                assert(views(out@) == before + seq![rest]);
                assert(s@.skip(n as int).len() == 0);
                assert(views(out@) == views(out@) + lines(s@.skip(n as int)));
            }
            i = n;
        } else {
            let end: usize = if n > i && cs[n - 1] == '\r' {
                n - 1
            } else {
                n
            };
            out.push(s.substring_char(i, end));
            proof {
                let line = rest.take(n - i);
                assert(without_return(line) == s@.subrange(i as int, end as int));
                assert(views(out@) == before + seq![without_return(line)]);
                assert(rest.skip(n - i + 1) == s@.skip(n + 1));
                assert(lines(rest) == seq![without_return(line)] + lines(s@.skip(n + 1)));
                assert(before + (seq![without_return(line)] + lines(s@.skip(n + 1))) == (before
                    + seq![without_return(line)]) + lines(s@.skip(n + 1)));
            }
            i = n + 1;
        }
    }
    proof {
        assert(s@.skip(i as int).len() == 0);
        assert(views(out@) + lines(s@.skip(i as int)) == views(out@));
    }
    out
}

/// The words of a text.
pub fn split_words<'a>(s: &'a str) -> (r: Vec<&'a str>)
    ensures
        views(r@) == words(s@),
{
    let cs = chars(s);
    let mut out: Vec<&'a str> = Vec::new();
    let mut i: usize = 0;
    assert(s@.skip(0) == s@);
    assert(views(out@) + words(s@) == words(s@));
    loop
        invariant
            i <= cs@.len(),
            cs@ == s@,
            words(s@) == views(out@) + words(s@.skip(i as int)),
        decreases cs@.len() - i,
    {
        let ghost before = views(out@);
        let ghost rest = s@.skip(i as int);
        let from = end_of_white(&cs, i);
        let ghost t = trim_start(rest);
        assert(t == s@.skip(from as int));
        if from == cs.len() {
            assert(words(rest) == Seq::<Seq<char>>::empty());
            assert(before + words(rest) == before);
            return out;
        }
        let to = end_of_dark(&cs, from);
        proof {
            lemma_span_holds(rest, white());
            lemma_span_holds(t, dark());
            assert(t[0] == rest[from - i]);
        }
        out.push(s.substring_char(from, to));
        proof {
            assert(t.take(to - from) == s@.subrange(from as int, to as int));
            assert(t.skip(to - from) == s@.skip(to as int));
            assert(views(out@) == before + seq![t.take(to - from)]);
            assert(before + (seq![t.take(to - from)] + words(t.skip(to - from))) == (before
                + seq![t.take(to - from)]) + words(s@.skip(to as int)));
        }
        i = to;
    }
}

/// What stands before and after the first `mark`.
pub fn parted<'a>(s: &'a str, mark: char) -> (r: Option<(&'a str, &'a str)>)
    ensures
        match split_once(s@, mark) {
            None => r is None,
            Some(parts) => r is Some && (r->0).0@ == parts.0 && (r->0).1@ == parts.1,
        },
{
    let cs = chars(s);
    assert(cs@.skip(0) == s@);
    let n = find_mark(&cs, 0, mark);
    if n == cs.len() {
        return None;
    }
    proof {
        assert(s@.take(n as int) == s@.subrange(0, n as int));
        assert(s@.skip(n + 1) == s@.subrange(n + 1, s@.len() as int));
    }
    Some((s.substring_char(0, n), s.substring_char(n + 1, cs.len())))
}

/// What stands before the first `mark`.
pub fn head<'a>(s: &'a str, mark: char) -> (r: &'a str)
    ensures
        r@ == before_mark(s@, mark),
{
    let cs = chars(s);
    assert(cs@.skip(0) == s@);
    let n = find_mark(&cs, 0, mark);
    assert(s@.take(n as int) == s@.subrange(0, n as int));
    s.substring_char(0, n)
}

/// What stands after the last `mark`.
pub fn tail<'a>(s: &'a str, mark: char) -> (r: &'a str)
    ensures
        r@ == after_last(s@, mark),
{
    let cs = chars(s);
    let mut from: usize = cs.len();
    while from > 0 && cs[from - 1] != mark
        invariant
            from <= cs@.len(),
            forall|k: int| from <= k < cs@.len() ==> #[trigger] cs@[k] != mark,
        decreases from,
    {
        from = from - 1;
    }
    proof {
        lemma_rspan(s@, other_than(mark), (cs@.len() - from) as nat);
        assert(s@.skip(from as int) == s@.subrange(from as int, s@.len() as int));
    }
    s.substring_char(from, cs.len())
}

/// Whether a text holds a character.
pub fn has_char(s: &str, c: char) -> (r: bool)
    ensures
        r == s@.contains(c),
{
    let cs = chars(s);
    let n = find_mark(&cs, 0, c);
    proof {
        assert(cs@.skip(0) == s@);
        lemma_span_holds(s@, other_than(c));
        if n < cs@.len() {
            assert(s@[n as int] == c);
        } else if s@.contains(c) {
            let k = choose|k: int| 0 <= k < s@.len() && s@[k] == c;
            assert(other_than(c)(s@[k]));
        }
    }
    n < cs.len()
}

fn matches_at(cs: &Vec<char>, part: &Vec<char>, at: usize) -> (r: bool)
    ensures
        r == stands_at(cs@, part@, at as int),
{
    if part.len() > cs.len() || at > cs.len() - part.len() {
        return false;
    }
    let mut i: usize = 0;
    while i < part.len()
        invariant
            i <= part@.len(),
            at + part@.len() <= cs.len(),
            forall|k: int| 0 <= k < i ==> cs@[at + k] == #[trigger] part@[k],
        decreases part@.len() - i,
    {
        if cs[at + i] != part[i] {
            proof {
                let window = cs@.subrange(at as int, at + part@.len());
                assert(window[i as int] == cs@[at + i]);
            }
            return false;
        }
        i = i + 1;
    }
    assert(cs@.subrange(at as int, at + part@.len()) == part@);
    true
}

/// Whether a text starts with another.
pub fn begins(s: &str, prefix: &str) -> (r: bool)
    ensures
        r == starts_with(s@, prefix@),
{
    let r = matches_at(&chars(s), &chars(prefix), 0);
    proof {
        if prefix@.len() <= s@.len() {
            assert(s@.take(prefix@.len() as int) == s@.subrange(0, prefix@.len() as int));
        }
    }
    r
}

/// What follows a prefix.
pub fn stripped<'a>(s: &'a str, prefix: &str) -> (r: Option<&'a str>)
    ensures
        match strip_prefix(s@, prefix@) {
            None => r is None,
            Some(rest) => r is Some && r->0@ == rest,
        },
{
    if begins(s, prefix) {
        let n = prefix.unicode_len();
        let end = s.unicode_len();
        assert(s@.skip(n as int) == s@.subrange(n as int, end as int));
        Some(s.substring_char(n, end))
    } else {
        None
    }
}

/// What follows the copies of a nonempty prefix.
pub fn stripped_repeatedly<'a>(s: &'a str, prefix: &str) -> (r: &'a str)
    ensures
        r@ == strip_repeated(s@, prefix@),
{
    let mut rest: &'a str = s;
    if prefix.unicode_len() == 0 {
        return rest;
    }
    loop
        invariant
            prefix@.len() > 0,
            strip_repeated(rest@, prefix@) == strip_repeated(s@, prefix@),
        decreases rest@.len(),
    {
        match stripped(rest, prefix) {
            Some(shorter) => {
                rest = shorter;
            },
            None => {
                return rest;
            },
        }
    }
}

/// Whether a text holds another.
pub fn has_text(s: &str, part: &str) -> (r: bool)
    ensures
        r == holds_text(s@, part@),
{
    let cs = chars(s);
    let ps = chars(part);
    let mut at: usize = 0;
    while at < cs.len()
        invariant
            at <= cs@.len(),
            cs@ == s@,
            ps@ == part@,
            forall|k: int| 0 <= k < at ==> !stands_at(s@, part@, k),
        decreases cs@.len() - at,
    {
        if matches_at(&cs, &ps, at) {
            return true;
        }
        at = at + 1;
    }
    let r = matches_at(&cs, &ps, at);
    proof {
        assert(forall|k: int| k > at ==> !stands_at(s@, part@, k));
    }
    r
}

/// Whether two texts are the same.
pub fn same(a: &str, b: &str) -> (r: bool)
    ensures
        r == (a@ == b@),
{
    let cs = chars(a);
    let ds = chars(b);
    if cs.len() != ds.len() {
        return false;
    }
    let r = matches_at(&cs, &ds, 0);
    assert(a@ == cs@.subrange(0, cs@.len() as int));
    r
}

/// Whether a text comes before another in the order of texts.
pub fn precedes(a: &str, b: &str) -> (r: bool)
    ensures
        r == sorts_before(a@, b@),
{
    let cs = chars(a);
    let ds = chars(b);
    let mut i: usize = 0;
    assert(a@.skip(0) == a@);
    assert(b@.skip(0) == b@);
    while i < cs.len() && i < ds.len()
        invariant
            i <= cs@.len(),
            i <= ds@.len(),
            cs@ == a@,
            ds@ == b@,
            sorts_before(a@, b@) == sorts_before(a@.skip(i as int), b@.skip(i as int)),
        decreases cs@.len() - i,
    {
        if cs[i] != ds[i] {
            return cs[i] < ds[i];
        }
        assert(a@.skip(i as int).drop_first() == a@.skip(i + 1));
        assert(b@.skip(i as int).drop_first() == b@.skip(i + 1));
        i = i + 1;
    }
    i < ds.len()
}

proof fn lemma_digits_prefix(s: Seq<char>, radix: nat, n: int)
    requires
        0 <= n <= s.len(),
        radix > 0,
        digits_value(s, radix) is Some,
    ensures
        digits_value(s.take(n), radix) is Some,
        digits_value(s.take(n), radix)->0 <= digits_value(s, radix)->0,
    decreases s.len(),
{
    if n == s.len() {
        assert(s.take(n) == s);
    } else {
        assert(s.drop_last().take(n) == s.take(n));
        lemma_digits_prefix(s.drop_last(), radix, n);
        let front = digits_value(s.drop_last(), radix)->0;
        assert(front <= front * radix) by (nonlinear_arith)
            requires
                radix > 0,
        ;
    }
}

fn digit_in(c: char, radix: u64) -> (r: Option<u64>)
    requires
        radix <= 16,
    ensures
        match digit_value(c, radix as nat) {
            None => r is None,
            Some(v) => r == Some(v as u64) && v < 16,
        },
{
    let v: u64 = if '0' <= c && c <= '9' {
        (c as u32 - '0' as u32) as u64
    } else if 'a' <= c && c <= 'f' {
        (c as u32 - 'a' as u32 + 10) as u64
    } else if 'A' <= c && c <= 'F' {
        (c as u32 - 'A' as u32 + 10) as u64
    } else {
        16
    };
    if v < radix {
        Some(v)
    } else {
        None
    }
}

fn parse_unsigned(s: &str, radix: u64, max: u64) -> (r: Option<u64>)
    requires
        radix == 10 || radix == 16,
    ensures
        match unsigned(s@, radix as nat, max as nat) {
            None => r is None,
            Some(v) => r == Some(v as u64),
        },
{
    let cs = chars(s);
    let from: usize = if cs.len() > 0 && cs[0] == '+' {
        1
    } else {
        0
    };
    let ghost digits = without_plus(s@);
    assert(digits == s@.skip(from as int));
    if from == cs.len() {
        return None;
    }
    let mut value: u64 = 0;
    let mut i: usize = from;
    assert(digits.take(0) == Seq::<char>::empty());
    while i < cs.len()
        invariant
            radix == 10 || radix == 16,
            from <= i <= cs@.len(),
            from < cs@.len(),
            cs@ == s@,
            digits == s@.skip(from as int),
            digits == without_plus(s@),
            digits_value(digits.take(i - from), radix as nat) == Some(value as nat),
            value <= max,
        decreases cs@.len() - i,
    {
        let ghost prefix = digits.take(i + 1 - from);
        proof {
            assert(prefix.drop_last() == digits.take(i - from));
            assert(prefix.last() == cs@[i as int]);
            if digits_value(digits, radix as nat) is Some {
                lemma_digits_prefix(digits, radix as nat, i + 1 - from);
            }
        }
        let d = match digit_in(cs[i], radix) {
            Some(d) => d,
            None => {
                return None;
            },
        };
        let ghost next = value * radix + d;
        assert(digits_value(prefix, radix as nat) == Some(next as nat));
        if value > max / radix {
            proof {
                assert(value * radix > max) by (nonlinear_arith)
                    requires
                        value > max / radix,
                        radix == 10 || radix == 16,
                ;
            }
            return None;
        }
        proof {
            assert(value * radix <= max) by (nonlinear_arith)
                requires
                    value <= max / radix,
                    radix == 10 || radix == 16,
            ;
        }
        let scaled: u64 = value * radix;
        if d > max - scaled {
            return None;
        }
        value = scaled + d;
        i = i + 1;
    }
    assert(digits.take(i - from) == digits);
    Some(value)
}

/// The number that a text writes down in base ten.
pub fn parse_u64(s: &str) -> (r: Option<u64>)
    ensures
        r == u64_of(s@),
{
    parse_unsigned(s, 10, u64::MAX)
}

/// The number that a text writes down in base sixteen.
pub fn parse_hex(s: &str) -> (r: Option<u32>)
    ensures
        r == hex_u32_of(s@),
{
    match parse_unsigned(s, 16, 0xffff_ffff) {
        Some(v) => Some(v as u32),
        None => None,
    }
}

fn digit_text(d: u64) -> (r: &'static str)
    requires
        d < 10,
    ensures
        r@ == seq![digit_char(d as nat)],
{
    proof {
        reveal_strlit("0");
        reveal_strlit("1");
        reveal_strlit("2");
        reveal_strlit("3");
        reveal_strlit("4");
        reveal_strlit("5");
        reveal_strlit("6");
        reveal_strlit("7");
        reveal_strlit("8");
        reveal_strlit("9");
    }
    match d {
        0 => "0",
        1 => "1",
        2 => "2",
        3 => "3",
        4 => "4",
        5 => "5",
        6 => "6",
        7 => "7",
        8 => "8",
        _ => "9",
    }
}

/// Appends a number in base ten.
pub fn push_decimal(out: &mut String, n: u64)
    ensures
        final(out)@ == old(out)@ + decimal(n as nat),
    decreases n,
{
    if n < 10 {
        out.append(digit_text(n));
    } else {
        push_decimal(out, n / 10);
        out.append(digit_text(n % 10));
        proof {
            let front = decimal((n / 10) as nat);
            let last = digit_char((n % 10) as nat);
            assert((old(out)@ + front) + seq![last] == old(out)@ + front.push(last));
        }
    }
}

/// `s` with all its digits in ASCII.
pub fn narrow(s: &str) -> (r: String)
    ensures
        r@ == narrowed(s@),
{
    let cs = chars(s);
    let mut out = String::new();
    let mut i: usize = 0;
    assert(out@ == narrowed(s@.take(0)));
    while i < cs.len()
        invariant
            i <= cs@.len(),
            cs@ == s@,
            out@ == narrowed(s@.take(i as int)),
        decreases cs@.len() - i,
    {
        let c = cs[i];
        if '\u{ff10}' <= c && c <= '\u{ff19}' {
            out.append(digit_text((c as u32 - 0xff10) as u64));
        } else {
            out.append(s.substring_char(i, i + 1));
        }
        assert(out@ =~= narrowed(s@.take(i + 1)));
        i = i + 1;
    }
    assert(s@.take(i as int) == s@);
    out
}

/// The parts in their order with `glue` between neighbours.
pub fn joined(parts: &Vec<&str>, glue: &str) -> (r: String)
    ensures
        r@ == join(views(parts@), glue@),
{
    let mut out = String::new();
    let mut i: usize = 0;
    let ghost all = views(parts@);
    while i < parts.len()
        invariant
            i <= parts@.len(),
            all == views(parts@),
            out@ == join(all.take(i as int), glue@),
        decreases parts@.len() - i,
    {
        let ghost next = all.take(i + 1);
        assert(next.drop_last() == all.take(i as int));
        if i > 0 {
            out.append(glue);
        } else {
            assert(next[0] == all[0]);
            assert(join(all.take(0), glue@) + all[0] == all[0]);
        }
        out.append(parts[i]);
        i = i + 1;
    }
    assert(all.take(i as int) == all);
    out
}

/// The width of digits does not matter to what white space surrounds a text.
pub proof fn lemma_narrowed_trim(a: Seq<char>, b: Seq<char>)
    requires
        narrowed(a) == narrowed(b),
    ensures
        narrowed(trim(a)) == narrowed(trim(b)),
{
    lemma_narrowed_ends(a, b);
    let n = span(a, white()) as int;
    let s = trim_start(a);
    let t = trim_start(b);
    assert(narrowed(s) =~= narrowed(a).skip(n));
    assert(narrowed(t) =~= narrowed(b).skip(n));
    lemma_narrowed_ends(s, t);
    let m = s.len() - rspan(s, white());
    assert(narrowed(trim(a)) =~= narrowed(s).take(m));
    assert(narrowed(trim(b)) =~= narrowed(t).take(m));
}

/// Texts with the same ASCII form agree in each character but for its width.
pub proof fn lemma_narrowed_chars(a: Seq<char>, b: Seq<char>)
    requires
        narrowed(a) == narrowed(b),
    ensures
        a.len() == b.len(),
        forall|i: int| 0 <= i < a.len() ==> narrow_digit(#[trigger] a[i]) == narrow_digit(b[i]),
{
    assert(narrowed(a).len() == a.len());
    assert(narrowed(b).len() == b.len());
    assert forall|i: int| 0 <= i < a.len() implies narrow_digit(#[trigger] a[i]) == narrow_digit(
        b[i],
    ) by {
        assert(narrowed(a)[i] == narrow_digit(a[i]));
        assert(narrowed(b)[i] == narrow_digit(b[i]));
    }
}

proof fn lemma_narrowed_ends(a: Seq<char>, b: Seq<char>)
    requires
        narrowed(a) == narrowed(b),
    ensures
        a.len() == b.len(),
        span(a, white()) == span(b, white()) <= a.len(),
        rspan(a, white()) == rspan(b, white()) <= a.len(),
{
    lemma_narrowed_chars(a, b);
    assert forall|i: int| 0 <= i < b.len() implies is_white(#[trigger] b[i]) == is_white(a[i]) by {
        assert(narrow_digit(a[i]) == narrow_digit(b[i]));
    }
    lemma_span_holds(a, white());
    lemma_span(b, white(), span(a, white()));
    lemma_rspan_holds(a, white());
    lemma_rspan(b, white(), rspan(a, white()));
}

/// No text comes before itself.
pub proof fn lemma_order_irreflexive(a: Seq<char>)
    ensures
        !sorts_before(a, a),
    decreases a.len(),
{
    if a.len() > 0 {
        lemma_order_irreflexive(a.drop_first());
    }
}

/// The order of texts is transitive.
pub proof fn lemma_order_transitive(a: Seq<char>, b: Seq<char>, c: Seq<char>)
    requires
        sorts_before(a, b),
        sorts_before(b, c),
    ensures
        sorts_before(a, c),
    decreases c.len(),
{
    if a.len() > 0 && b.len() > 0 && a[0] == b[0] && b[0] == c[0] {
        lemma_order_transitive(a.drop_first(), b.drop_first(), c.drop_first());
    }
}

/// Of two different texts one comes before the other.
pub proof fn lemma_order_total(a: Seq<char>, b: Seq<char>)
    ensures
        a == b || sorts_before(a, b) || sorts_before(b, a),
    decreases a.len(),
{
    if a.len() > 0 && b.len() > 0 && a[0] == b[0] {
        lemma_order_total(a.drop_first(), b.drop_first());
        if a.drop_first() == b.drop_first() {
            assert(a == seq![a[0]] + a.drop_first());
            assert(b == seq![b[0]] + b.drop_first());
        }
    } else if a.len() == 0 && b.len() == 0 {
        assert(a == b);
    }
}

} // verus!
