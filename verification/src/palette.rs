//! The colors that a desktop theme's text names.

use vstd::prelude::*;
use vstd::string::StrSliceExecFns;

use crate::text::{
    chars, lemma_rspan, lemma_span, lines, parted, rspan, same, span, split_lines, split_once,
    text_of, trim, trimmed, views,
};

verus! {

pub open spec fn quote() -> spec_fn(char) -> bool {
    |c: char| c == '"'
}

/// A text without the quotes at its two ends.
pub open spec fn unquoted(s: Seq<char>) -> Seq<char> {
    let t = s.skip(span(s, quote()) as int);
    t.take(t.len() - rspan(t, quote()))
}

/// The color that a line such as `accent = "#7aa2f7"` gives to a key.
pub open spec fn color_line(line: Seq<char>, key: Seq<char>) -> Option<Seq<char>> {
    match split_once(line, '=') {
        Some((name, value)) => if trim(name) == key {
            Some(unquoted(trim(value)))
        } else {
            None
        },
        None => None,
    }
}

/// The color that the last line with a key gives to it.
pub open spec fn color_under(ls: Seq<Seq<char>>, key: Seq<char>) -> Option<Seq<char>>
    decreases ls.len(),
{
    if ls.len() == 0 {
        None
    } else {
        match color_line(ls.last(), key) {
            Some(color) => Some(color),
            None => color_under(ls.drop_last(), key),
        }
    }
}

fn without_quotes<'a>(s: &'a str) -> (r: &'a str)
    ensures
        r@ == unquoted(s@),
{
    let cs = chars(s);
    let mut from: usize = 0;
    while from < cs.len() && cs[from] == '"'
        invariant
            from <= cs@.len(),
            forall|k: int| 0 <= k < from ==> #[trigger] cs@[k] == '"',
        decreases cs@.len() - from,
    {
        from = from + 1;
    }
    let mut to: usize = cs.len();
    while to > from && cs[to - 1] == '"'
        invariant
            from <= to <= cs@.len(),
            forall|k: int| to <= k < cs@.len() ==> #[trigger] cs@[k] == '"',
        decreases to,
    {
        to = to - 1;
    }
    proof {
        lemma_span(s@, quote(), from as nat);
        let t = s@.skip(from as int);
        assert forall|i: int| to - from <= i < t.len() implies #[trigger] t[i] == '"' by {
            assert(t[i] == cs@[from + i]);
        }
        lemma_rspan(t, quote(), (cs@.len() - to) as nat);
        assert(t.take(to - from) =~= s@.subrange(from as int, to as int));
    }
    s.substring_char(from, to)
}

/// The colors that a window takes from a theme, as far as it names them.
#[derive(Debug)]
pub struct ThemeColors {
    pub background: Option<String>,
    pub foreground: Option<String>,
    pub accent: Option<String>,
}

/// Reads the colors out of a theme's text. Of several lines with the same key
/// the last one counts.
pub fn theme_colors(raw: &str) -> (r: ThemeColors)
    ensures
        text_of(r.background) == color_under(lines(raw@), "background"@),
        text_of(r.foreground) == color_under(lines(raw@), "foreground"@),
        text_of(r.accent) == color_under(lines(raw@), "accent"@),
{
    let ls = split_lines(raw);
    let ghost all = lines(raw@);
    let mut colors = ThemeColors { background: None, foreground: None, accent: None };
    let mut i: usize = 0;
    while i < ls.len()
        invariant
            i <= ls@.len(),
            all == views(ls@),
            text_of(colors.background) == color_under(all.take(i as int), "background"@),
            text_of(colors.foreground) == color_under(all.take(i as int), "foreground"@),
            text_of(colors.accent) == color_under(all.take(i as int), "accent"@),
        decreases ls@.len() - i,
    {
        assert(all.take(i + 1).drop_last() =~= all.take(i as int));
        assert(all.take(i + 1).last() == ls@[i as int]@);
        if let Some((name, value)) = parted(ls[i], '=') {
            let key = trimmed(name);
            let color = without_quotes(trimmed(value));
            if same(key, "background") {
                colors.background = Some(color.to_owned());
            }
            if same(key, "foreground") {
                colors.foreground = Some(color.to_owned());
            }
            if same(key, "accent") {
                colors.accent = Some(color.to_owned());
            }
        }
        i = i + 1;
    }
    assert(all.take(i as int) =~= all);
    colors
}

} // verus!
