//! What the text functions promise: how the parts of a text make up what is
//! read out of it.

use vstd::prelude::*;

use crate::sensors::{gencmd_number, temp_number};
use crate::text::{
    after_last, before_mark, begins, dark, decimal, digits_value, hex_u32_of, holds_text, is_digit,
    is_white, join, lemma_rspan, lemma_span, lines, narrowed, other_than, sorts_before, split_once,
    stands_at, strip_prefix, strip_repeated, trim, trim_start, trim_unit, trimmed_start, u64_of,
    unit_mark, unsigned, white, words,
};

verus! {

/// All characters are white space.
pub open spec fn blank(s: Seq<char>) -> bool {
    forall|i: int| 0 <= i < s.len() ==> is_white(#[trigger] s[i])
}

/// No character is white space.
pub open spec fn solid(s: Seq<char>) -> bool {
    forall|i: int| 0 <= i < s.len() ==> !is_white(#[trigger] s[i])
}

/// White space is what Unicode calls so.
pub proof fn law_white_space(c: char)
    ensures
        is_white(c) <==> (0x9 <= c as int <= 0xd || c as int == 0x20 || c as int == 0x85 || c as int
            == 0xa0 || c as int == 0x1680 || 0x2000 <= c as int <= 0x200a || c as int == 0x2028
            || c as int == 0x2029 || c as int == 0x202f || c as int == 0x205f || c as int
            == 0x3000),
{
}

/// Trimming takes the white space off both ends and nothing else.
pub proof fn law_trim(a: Seq<char>, t: Seq<char>, b: Seq<char>)
    requires
        blank(a),
        blank(b),
        t.len() > 0 ==> !is_white(t[0]) && !is_white(t.last()),
    ensures
        trim(a + t + b) == t,
{
    let s = a + t + b;
    if t.len() > 0 {
        assert forall|i: int| 0 <= i < a.len() implies white()(#[trigger] s[i]) by {
            assert(s[i] == a[i]);
        }
        assert(s[a.len() as int] == t[0]);
        lemma_span(s, white(), a.len());
        let u = trim_start(s);
        assert(u =~= t + b);
        assert forall|i: int| u.len() - b.len() <= i < u.len() implies white()(
            #[trigger] u[i],
        ) by {
            assert(u[i] == b[i - t.len()]);
        }
        assert(u[u.len() - b.len() - 1] == t.last());
        lemma_rspan(u, white(), b.len());
        assert(trim(s) =~= t);
    } else {
        assert forall|i: int| 0 <= i < s.len() implies white()(#[trigger] s[i]) by {
            if i < a.len() {
                assert(s[i] == a[i]);
            } else {
                assert(s[i] == b[i - a.len()]);
            }
        }
        lemma_span(s, white(), s.len());
        assert(trim_start(s) =~= seq![]);
        assert(trim(s) =~= t);
    }
}

/// At the front only the white space there comes off.
pub proof fn law_trim_start(a: Seq<char>, t: Seq<char>, s: &str, r: &str)
    requires
        call_ensures(trimmed_start, (s,), r),
        blank(a),
        t.len() > 0 ==> !is_white(t[0]),
        s@ == a + t,
    ensures
        r@ == t,
{
    assert forall|i: int| 0 <= i < a.len() implies white()(#[trigger] s@[i]) by {
        assert(s@[i] == a[i]);
    }
    if t.len() > 0 {
        assert(s@[a.len() as int] == t[0]);
    }
    lemma_span(s@, white(), a.len());
    assert(r@ =~= t);
}

/// The lines of a text are what stands before its first line feed, without a
/// carriage return there, and the lines of what follows.
pub proof fn law_lines(l: Seq<char>, rest: Seq<char>)
    requires
        !l.contains('\n'),
    ensures
        lines(l + seq!['\n'] + rest) == seq![
            if l.len() > 0 && l.last() == '\r' {
                l.drop_last()
            } else {
                l
            },
        ] + lines(rest),
        l.len() > 0 ==> lines(l) == seq![l],
        l.len() == 0 ==> lines(l) == Seq::<Seq<char>>::empty(),
{
    let s = l + seq!['\n'] + rest;
    assert forall|i: int| 0 <= i < l.len() implies other_than('\n')(#[trigger] s[i]) by {
        assert(s[i] == l[i]);
        assert(l.contains(l[i]));
    }
    assert(s[l.len() as int] == '\n');
    lemma_span(s, other_than('\n'), l.len());
    assert(s.take(l.len() as int) =~= l);
    assert(s.skip(l.len() as int + 1) =~= rest);
    assert forall|i: int| 0 <= i < l.len() implies other_than('\n')(#[trigger] l[i]) by {
        assert(l.contains(l[i]));
    }
    lemma_span(l, other_than('\n'), l.len());
}

/// The words of a text are its first stretch without white space and the words
/// of what follows.
pub proof fn law_words(a: Seq<char>, w: Seq<char>, rest: Seq<char>)
    requires
        blank(a),
        solid(w),
        w.len() > 0,
        rest.len() > 0 ==> is_white(rest[0]),
    ensures
        words(a + w + rest) == seq![w] + words(rest),
        words(a) == Seq::<Seq<char>>::empty(),
{
    let s = a + w + rest;
    assert forall|i: int| 0 <= i < a.len() implies white()(#[trigger] s[i]) by {
        assert(s[i] == a[i]);
    }
    assert(s[a.len() as int] == w[0]);
    lemma_span(s, white(), a.len());
    let t = trim_start(s);
    assert(t =~= w + rest);
    assert forall|i: int| 0 <= i < w.len() implies dark()(#[trigger] t[i]) by {
        assert(t[i] == w[i]);
    }
    if rest.len() > 0 {
        assert(t[w.len() as int] == rest[0]);
    }
    lemma_span(t, dark(), w.len());
    assert(t.take(w.len() as int) =~= w);
    assert(t.skip(w.len() as int) =~= rest);
    lemma_span(a, white(), a.len());
    assert(trim_start(a) =~= seq![]);
}

/// A text is parted at the first mark, and not at all without one.
pub proof fn law_parted(name: Seq<char>, mark: char, rest: Seq<char>)
    requires
        !name.contains(mark),
    ensures
        split_once(name + seq![mark] + rest, mark) == Some((name, rest)),
        before_mark(name + seq![mark] + rest, mark) == name,
        split_once(name, mark) is None,
        before_mark(name, mark) == name,
{
    let s = name + seq![mark] + rest;
    assert forall|k: int| 0 <= k < name.len() implies other_than(mark)(#[trigger] s[k]) by {
        assert(s[k] == name[k]);
        assert(name.contains(name[k]));
    }
    lemma_span(s, other_than(mark), name.len());
    assert(s.take(name.len() as int) =~= name);
    assert(s.skip(name.len() as int + 1) =~= rest);
    assert forall|k: int| 0 <= k < name.len() implies other_than(mark)(#[trigger] name[k]) by {
        assert(name.contains(name[k]));
    }
    lemma_span(name, other_than(mark), name.len());
    assert(name.take(name.len() as int) =~= name);
}

/// What stands after the last mark, or the whole text without one.
pub proof fn law_after_last(a: Seq<char>, mark: char, b: Seq<char>)
    requires
        !b.contains(mark),
    ensures
        after_last(a + seq![mark] + b, mark) == b,
        after_last(b, mark) == b,
{
    let s = a + seq![mark] + b;
    assert forall|i: int| s.len() - b.len() <= i < s.len() implies other_than(mark)(
        #[trigger] s[i],
    ) by {
        assert(s[i] == b[i - a.len() - 1]);
        assert(b.contains(b[i - a.len() - 1]));
    }
    assert(s[a.len() as int] == mark);
    lemma_rspan(s, other_than(mark), b.len());
    assert(s.skip(s.len() - b.len()) =~= b);
    assert forall|i: int| 0 <= i < b.len() implies other_than(mark)(#[trigger] b[i]) by {
        assert(b.contains(b[i]));
    }
    lemma_rspan(b, other_than(mark), b.len());
    assert(b.skip(0) =~= b);
}

/// A prefix comes off a text that has it, and off no other.
pub proof fn law_strip_prefix(s: Seq<char>, prefix: Seq<char>, rest: Seq<char>)
    ensures
        strip_prefix(prefix + rest, prefix) == Some(rest),
        strip_prefix(s, prefix) is Some <==> prefix.is_prefix_of(s),
        prefix.len() > 0 ==> strip_repeated(prefix + rest, prefix) == strip_repeated(rest, prefix),
        !prefix.is_prefix_of(s) ==> strip_repeated(s, prefix) == s,
{
    let t = prefix + rest;
    assert(t.take(prefix.len() as int) =~= prefix);
    assert(t.skip(prefix.len() as int) =~= rest);
    if prefix.len() <= s.len() {
        assert(s.take(prefix.len() as int) =~= s.subrange(0, prefix.len() as int));
    }
}

/// A text holds its parts and nothing else.
pub proof fn law_holds_text(s: Seq<char>, a: Seq<char>, part: Seq<char>, b: Seq<char>)
    ensures
        holds_text(a + part + b, part),
        holds_text(s, part) <==> exists|x: Seq<char>, y: Seq<char>| s == #[trigger] (x + part + y),
{
    let t = a + part + b;
    assert(t.subrange(a.len() as int, (a.len() + part.len()) as int) =~= part);
    assert(stands_at(t, part, a.len() as int));
    if holds_text(s, part) {
        let at = choose|at: int| stands_at(s, part, at);
        let x = s.take(at);
        let y = s.skip(at + part.len());
        assert(s =~= x + part + y) by {
            assert(s.subrange(at, at + part.len()) == part);
            assert forall|i: int| 0 <= i < s.len() implies s[i] == (x + part + y)[i] by {
                if at <= i < at + part.len() {
                    assert(s.subrange(at, at + part.len())[i - at] == s[i]);
                }
            }
        }
    }
    if exists|x: Seq<char>, y: Seq<char>| s == #[trigger] (x + part + y) {
        let (x, y) = choose|x: Seq<char>, y: Seq<char>| s == #[trigger] (x + part + y);
        assert(s.subrange(x.len() as int, (x.len() + part.len()) as int) =~= part);
        assert(stands_at(s, part, x.len() as int));
    }
}

// ------------------------------------------------------------------- numbers

/// A number in base ten is the number without its last digit, if that leaves
/// anything, and that digit.
pub proof fn law_decimal(n: nat, d: nat)
    requires
        d < 10,
    ensures
        decimal(d) == seq![('0' as int + d) as char],
        n > 0 ==> decimal(10 * n + d) == decimal(n).push(('0' as int + d) as char),
{
    if n > 0 {
        assert((10 * n + d) / 10 == n);
        assert((10 * n + d) % 10 == d);
    }
}

/// A decimal text is read digit by digit: another digit makes ten times the
/// number and the digit, unless that is too much.
pub proof fn law_u64_by_digits(s: Seq<char>, v: u64, c: char)
    requires
        '0' <= c <= '9',
    ensures
        u64_of(seq![c]) == Some((c as int - '0' as int) as u64),
        u64_of(s) == Some(v) && 10 * v + (c as int - '0' as int) <= u64::MAX ==> u64_of(s.push(c))
            == Some((10 * v + (c as int - '0' as int)) as u64),
        u64_of(s) == Some(v) && 10 * v + (c as int - '0' as int) > u64::MAX ==> u64_of(s.push(c))
            is None,
{
    if u64_of(s) is Some {
        lemma_unsigned_push(s, c, 10, u64::MAX as nat);
    }
    lemma_single(c, 10, u64::MAX as nat);
}

/// A hexadecimal text is read digit by digit.
pub proof fn law_hex_by_digits(s: Seq<char>, v: u32, c: char, d: u32)
    requires
        ('0' <= c <= '9' && d == c as int - '0' as int) || ('a' <= c <= 'f' && d == c as int
            - 'a' as int + 10) || ('A' <= c <= 'F' && d == c as int - 'A' as int + 10),
    ensures
        hex_u32_of(seq![c]) == Some(d),
        hex_u32_of(s) == Some(v) && 16 * v + d <= u32::MAX ==> hex_u32_of(s.push(c)) == Some(
            (16 * v + d) as u32,
        ),
        hex_u32_of(s) == Some(v) && 16 * v + d > u32::MAX ==> hex_u32_of(s.push(c)) is None,
{
    if hex_u32_of(s) is Some {
        lemma_unsigned_push(s, c, 16, u32::MAX as nat);
    }
    lemma_single(c, 16, u32::MAX as nat);
}

proof fn lemma_single(c: char, radix: nat, max: nat)
    requires
        crate::text::digit_value(c, radix) is Some,
        radix == 10 || radix == 16,
        max >= 15,
    ensures
        unsigned(seq![c], radix, max) == crate::text::digit_value(c, radix),
{
    let s = seq![c];
    assert(s.drop_last() =~= seq![]);
    reveal_with_fuel(digits_value, 2);
    assert(0 * radix == 0) by (nonlinear_arith);
}

proof fn lemma_unsigned_push(s: Seq<char>, c: char, radix: nat, max: nat)
    requires
        crate::text::digit_value(c, radix) is Some,
        radix == 10 || radix == 16,
        unsigned(s, radix, max) is Some,
    ensures
        ({
            let v = unsigned(s, radix, max)->0;
            let d = crate::text::digit_value(c, radix)->0;
            unsigned(s.push(c), radix, max) == if v * radix + d <= max {
                Some(v * radix + d)
            } else {
                None
            }
        }),
{
    let t = s.push(c);
    let u = crate::text::without_plus(s);
    assert(t[0] == s[0]);
    assert(crate::text::without_plus(t) =~= u.push(c));
    assert(u.push(c).drop_last() =~= u);
}

/// What is read as a number has digits alone, but for one plus sign in front;
/// and nothing else is left out.
pub proof fn law_u64_rejects(s: Seq<char>)
    ensures
        u64_of(s) is Some ==> s.len() > 0 && (s[0] == '+' || '0' <= s[0] <= '9') && (s[0] == '+'
            ==> s.len() > 1) && forall|i: int| 1 <= i < s.len() ==> '0' <= #[trigger] s[i] <= '9',
{
    if u64_of(s) is Some {
        let u = crate::text::without_plus(s);
        lemma_all_digits(u);
        assert forall|i: int| 1 <= i < s.len() implies '0' <= #[trigger] s[i] <= '9' by {
            if s[0] == '+' {
                assert(u[i - 1] == s[i]);
            } else {
                assert(u[i] == s[i]);
            }
        }
        if s[0] != '+' {
            assert(u[0] == s[0]);
        }
    }
}

proof fn lemma_all_digits(u: Seq<char>)
    requires
        digits_value(u, 10) is Some,
    ensures
        forall|i: int| 0 <= i < u.len() ==> '0' <= #[trigger] u[i] <= '9',
    decreases u.len(),
{
    if u.len() > 0 {
        lemma_all_digits(u.drop_last());
        assert forall|i: int| 0 <= i < u.len() implies '0' <= #[trigger] u[i] <= '9' by {
            if i < u.len() - 1 {
                assert(u.drop_last()[i] == u[i]);
            }
        }
    }
}

/// What is read as a hexadecimal number has hexadecimal digits alone, but for one
/// plus sign in front.
pub proof fn law_hex_rejects(s: Seq<char>)
    ensures
        hex_u32_of(s) is Some ==> s.len() > 0 && (s[0] == '+' ==> s.len() > 1) && forall|i: int|
            0 <= i < s.len() ==> (i == 0 && #[trigger] s[i] == '+') || '0' <= s[i] <= '9' || 'a'
                <= s[i] <= 'f' || 'A' <= s[i] <= 'F',
{
    if hex_u32_of(s) is Some {
        let u = crate::text::without_plus(s);
        lemma_all_hex(u);
        assert forall|i: int| 0 <= i < s.len() implies (i == 0 && #[trigger] s[i] == '+') || '0'
            <= s[i] <= '9' || 'a' <= s[i] <= 'f' || 'A' <= s[i] <= 'F' by {
            if s[0] == '+' {
                if i > 0 {
                    assert(u[i - 1] == s[i]);
                }
            } else {
                assert(u[i] == s[i]);
            }
        }
    }
}

proof fn lemma_all_hex(u: Seq<char>)
    requires
        digits_value(u, 16) is Some,
    ensures
        forall|i: int|
            0 <= i < u.len() ==> '0' <= #[trigger] u[i] <= '9' || 'a' <= u[i] <= 'f' || 'A' <= u[i]
                <= 'F',
    decreases u.len(),
{
    if u.len() > 0 {
        lemma_all_hex(u.drop_last());
        assert forall|i: int| 0 <= i < u.len() implies '0' <= #[trigger] u[i] <= '9' || 'a' <= u[i]
            <= 'f' || 'A' <= u[i] <= 'F' by {
            if i < u.len() - 1 {
                assert(u.drop_last()[i] == u[i]);
            }
        }
    }
}

/// A plus sign in front of a number makes no difference, and a second one no
/// number. What is too much or no number stays so with another digit.
pub proof fn law_plus_sign(s: Seq<char>, c: char)
    ensures
        s.len() > 0 && s[0] != '+' ==> u64_of(seq!['+'] + s) == u64_of(s) && hex_u32_of(
            seq!['+'] + s,
        ) == hex_u32_of(s),
        s.len() > 0 && s[0] == '+' ==> u64_of(seq!['+'] + s) is None && hex_u32_of(
            seq!['+'] + s,
        ) is None,
        s.len() > 0 && s != seq!['+'] && u64_of(s) is None ==> u64_of(s.push(c)) is None,
        s.len() > 0 && s != seq!['+'] && hex_u32_of(s) is None ==> hex_u32_of(s.push(c)) is None,
{
    let t = seq!['+'] + s;
    assert(t.skip(1) =~= s);
    if s.len() > 0 && s[0] == '+' {
        lemma_first_digit(s, 10);
        lemma_first_digit(s, 16);
    }
    if s.len() > 0 && s != seq!['+'] {
        let u = crate::text::without_plus(s);
        let v = s.push(c);
        assert(v[0] == s[0]);
        assert(crate::text::without_plus(v) =~= u.push(c));
        assert(u.push(c).drop_last() =~= u);
        if u.len() == 0 {
            assert(s =~= seq!['+']);
        }
        lemma_more(digits_value(u, 10), 10, u64::MAX as nat);
        lemma_more(digits_value(u, 16), 16, u32::MAX as nat);
    }
}

proof fn lemma_more(front: Option<nat>, radix: nat, max: nat)
    requires
        radix >= 1,
    ensures
        front matches Some(n) ==> (n > max ==> forall|d: nat| #[trigger] (n * radix + d) > max),
{
    if let Some(n) = front {
        assert(n * radix >= n) by (nonlinear_arith)
            requires
                radix >= 1,
        ;
    }
}

proof fn lemma_first_digit(s: Seq<char>, radix: nat)
    requires
        s.len() > 0,
        s[0] == '+',
        radix <= 16,
    ensures
        digits_value(s, radix) is None,
    decreases s.len(),
{
    if s.len() > 1 {
        assert(s.drop_last()[0] == s[0]);
        lemma_first_digit(s.drop_last(), radix);
    } else {
        assert(s.last() == '+');
    }
}

/// A text starts with another exactly when that is a prefix of it.
pub proof fn law_starts_with(s: &str, prefix: &str, r: bool)
    requires
        call_ensures(begins, (s, prefix), r),
    ensures
        r <==> prefix@.is_prefix_of(s@),
{
    if prefix@.len() <= s@.len() {
        assert(s@.take(prefix@.len() as int) =~= s@.subrange(0, prefix@.len() as int));
    }
}

/// A number written out in base ten is read back.
pub proof fn law_decimal_is_read_back(n: u64)
    ensures
        u64_of(decimal(n as nat)) == Some(n),
    decreases n,
{
    let d = (n % 10) as nat;
    let c = ('0' as int + d) as char;
    if n < 10 {
        law_u64_by_digits(seq![], 0, c);
    } else {
        law_decimal_is_read_back(n / 10);
        law_u64_by_digits(decimal((n / 10) as nat), n / 10, c);
    }
}

/// Parts are joined with the glue between neighbours.
pub proof fn law_join(parts: Seq<Seq<char>>, glue: Seq<char>, x: Seq<char>)
    ensures
        join(seq![x], glue) == x,
        parts.len() > 0 ==> join(parts.push(x), glue) == join(parts, glue) + glue + x,
{
    assert(parts.push(x).drop_last() =~= parts);
}

/// Texts are ordered by the first character in which they differ, and a text
/// before what it starts.
pub proof fn law_order(p: Seq<char>, x: char, a: Seq<char>, y: char, b: Seq<char>)
    requires
        x != y,
    ensures
        sorts_before(p + seq![x] + a, p + seq![y] + b) <==> x < y,
        sorts_before(p, p + seq![x] + a),
        !sorts_before(p + seq![x] + a, p),
    decreases p.len(),
{
    let s = p + seq![x] + a;
    let t = p + seq![y] + b;
    if p.len() > 0 {
        let q = p.drop_first();
        law_order(q, x, a, y, b);
        assert(s[0] == p[0] && t[0] == p[0]);
        assert(s.drop_first() =~= q + seq![x] + a);
        assert(t.drop_first() =~= q + seq![y] + b);
    } else {
        assert(s[0] == x && t[0] == y);
    }
}

// ------------------------------------------------------------------- answers

/// A firmware answer's number stands between the prefix and the unit; it may be
/// missing.
pub proof fn law_answer_number(prefix: Seq<char>, number: Seq<char>, unit: Seq<char>)
    requires
        prefix.len() > 0,
        !is_white(prefix[0]) && !is_white((prefix + number + unit).last()),
        number.len() > 0 ==> '0' <= number.last() <= '9' || number.last() == '.',
        forall|i: int|
            0 <= i < unit.len() ==> !('0' <= #[trigger] unit[i] <= '9') && unit[i] != '.',
    ensures
        gencmd_number(prefix + number + unit, prefix) == Some(number),
{
    let s = prefix + number + unit;
    assert(s[0] == prefix[0]);
    law_trim(seq![], s, seq![]);
    assert(seq![] + s + seq![] =~= s);
    assert(s =~= prefix + (number + unit));
    law_strip_prefix(s, prefix, number + unit);
    lemma_unit(number, unit);
}

proof fn lemma_unit(number: Seq<char>, unit: Seq<char>)
    requires
        number.len() > 0 ==> is_digit(number.last()) || number.last() == '.',
        forall|i: int| 0 <= i < unit.len() ==> !is_digit(#[trigger] unit[i]) && unit[i] != '.',
    ensures
        trim_unit(number + unit) == number,
{
    let t = number + unit;
    assert forall|i: int| t.len() - unit.len() <= i < t.len() implies unit_mark()(
        #[trigger] t[i],
    ) by {
        assert(t[i] == unit[i - number.len()]);
    }
    if number.len() > 0 {
        assert(t[t.len() - unit.len() - 1] == number.last());
    }
    lemma_rspan(t, unit_mark(), unit.len());
    assert(t.take(number.len() as int) =~= number);
}

/// A temperature's number stands between `temp=` and the unit. Its digits may be
/// of either width, and are read as the ASCII digits they stand for.
pub proof fn law_temperature_number(wide: Seq<char>, number: Seq<char>, unit: Seq<char>)
    requires
        wide.len() == number.len(),
        !is_white(("temp="@ + wide + unit).last()),
        number.len() > 0 ==> '0' <= number.last() <= '9' || number.last() == '.',
        forall|i: int|
            0 <= i < number.len() ==> {
                ||| #[trigger] wide[i] == number[i] && !(0xff10 <= wide[i] as int <= 0xff19)
                ||| '0' <= number[i] <= '9' && wide[i] as int == number[i] as int - '0' as int
                    + 0xff10
            },
        forall|i: int|
            0 <= i < unit.len() ==> !('0' <= #[trigger] unit[i] <= '9') && unit[i] != '.' && !(
            0xff10 <= unit[i] as int <= 0xff19),
    ensures
        temp_number("temp="@ + wide + unit) == Some(number),
{
    reveal_strlit("temp=");
    let prefix = "temp="@;
    let s = prefix + wide + unit;
    assert(s[0] == prefix[0]);
    law_trim(seq![], s, seq![]);
    assert(seq![] + s + seq![] =~= s);
    assert(s =~= prefix + (wide + unit));
    law_strip_prefix(s, prefix, wide + unit);
    assert(narrowed(wide + unit) =~= number + unit) by {
        assert forall|i: int| 0 <= i < wide.len() implies narrowed(wide + unit)[i] == number[i] by {
            assert((wide + unit)[i] == wide[i]);
        }
        assert forall|i: int| wide.len() <= i < wide.len() + unit.len() implies narrowed(
            wide + unit,
        )[i] == unit[i - wide.len()] by {
            assert((wide + unit)[i] == unit[i - wide.len()]);
        }
    }
    lemma_unit(number, unit);
}

} // verus!
