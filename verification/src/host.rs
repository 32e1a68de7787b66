//! What a probe of the running machine decides around its reads: which paths a
//! pattern stands for, and what counts as an answer of the firmware tool.

use vstd::prelude::*;

use crate::probe::{
    ask_file, join_path, may_read, model_supported, names_raspberry_pi, path_in, Probe,
};
use crate::sensors::{DEVICE_MODEL, VCGENCMD};
use crate::text::{
    before_mark, begins, has_char, head, lemma_order_irreflexive, lemma_order_total,
    lemma_order_transitive, precedes, sorts_before, starts_with, text_of, texts_of, trim, trimmed,
};

verus! {

/// The settings of a probe against the real Pi filesystem and firmware.
#[derive(Debug)]
pub struct SystemProbe {
    vcgencmd_path: String,
}

impl SystemProbe {
    /// Where the firmware tool is looked for.
    pub closed spec fn tool(self) -> Seq<char> {
        self.vcgencmd_path@
    }

    pub fn new() -> (r: SystemProbe)
        ensures
            r.tool() == VCGENCMD@,
    {
        SystemProbe { vcgencmd_path: VCGENCMD.to_owned() }
    }

    /// Where the firmware tool is looked for.
    pub fn vcgencmd_path(&self) -> (r: &str)
        ensures
            r@ == self.tool(),
    {
        self.vcgencmd_path.as_str()
    }

    /// True when the machine behind a probe looks like a Raspberry Pi we can
    /// probe: its firmware device tree names one.
    pub fn device_supported<P: Probe>(&self, probe: &P) -> (r: bool)
        ensures
            exists|model: Option<Seq<char>>|
                {
                    &&& #[trigger] may_read(probe, DEVICE_MODEL@, model)
                    &&& r == model_supported(model)
                },
    {
        let model = ask_file(probe, DEVICE_MODEL);
        assert(may_read(probe, DEVICE_MODEL@, text_of(model)));
        names_raspberry_pi(&model)
    }
}

impl Default for SystemProbe {
    fn default() -> (r: SystemProbe)
        ensures
            r.tool() == VCGENCMD@,
    {
        SystemProbe::new()
    }
}

/// The answer of a firmware tool that has run: its output without the white
/// space around it, unless it failed.
pub open spec fn answer(success: bool, output: Seq<char>) -> Option<Seq<char>> {
    if success {
        Some(trim(output))
    } else {
        None
    }
}

/// The answer of a firmware tool that has run.
pub fn tool_answer(success: bool, output: &str) -> (r: Option<String>)
    ensures
        text_of(r) == answer(success, output@),
{
    if success {
        Some(trimmed(output).to_owned())
    } else {
        None
    }
}

/// How to expand a pattern.
#[derive(Debug)]
pub enum GlobPlan {
    /// It stands for no path.
    Nothing,
    /// It stands for itself, where that exists.
    Itself,
    /// It stands for the entries of its directory that begin with a prefix.
    Entries { prefix: String },
}

/// Decides how to expand a pattern. Only one trailing `*` component is
/// supported, which is all the sensor paths need.
///
/// The arguments are whether the pattern has a directory, and its last
/// component.
pub fn glob_plan(has_parent: bool, last: Option<&str>) -> (r: GlobPlan)
    ensures
        match last {
            Some(name) if has_parent => if name@.contains('*') {
                r matches GlobPlan::Entries { prefix } && prefix@ == before_mark(name@, '*')
            } else {
                r is Itself
            },
            _ => r is Nothing,
        },
{
    if !has_parent {
        return GlobPlan::Nothing;
    }
    match last {
        Some(name) => if has_char(name, '*') {
            GlobPlan::Entries { prefix: head(name, '*').to_owned() }
        } else {
            GlobPlan::Itself
        },
        None => GlobPlan::Nothing,
    }
}

/// Whether no text stands before a smaller one.
pub open spec fn ascending(s: Seq<Seq<char>>) -> bool {
    forall|i: int, j: int| 0 <= i < j < s.len() ==> !sorts_before(#[trigger] s[j], #[trigger] s[i])
}

/// The paths of the directory entries that begin with a prefix.
pub open spec fn entry_paths(
    dir: Seq<char>,
    prefix: Seq<char>,
    names: Seq<Seq<char>>,
) -> Seq<Seq<char>>
    decreases names.len(),
{
    if names.len() == 0 {
        seq![]
    } else {
        let front = entry_paths(dir, prefix, names.drop_last());
        if starts_with(names.last(), prefix) {
            front.push(path_in(dir, names.last()))
        } else {
            front
        }
    }
}

/// Puts a path where it belongs among sorted ones.
fn place(paths: &mut Vec<String>, path: String)
    requires
        ascending(texts_of(old(paths)@)),
    ensures
        ascending(texts_of(final(paths)@)),
        texts_of(final(paths)@).to_multiset() == texts_of(old(paths)@).to_multiset().insert(path@),
{
    let ghost before = texts_of(paths@);
    let mut i: usize = 0;
    while i < paths.len() && !precedes(path.as_str(), paths[i].as_str())
        invariant
            i <= paths@.len(),
            paths@ == old(paths)@,
            before == texts_of(paths@),
            forall|j: int| 0 <= j < i ==> !sorts_before(path@, #[trigger] before[j]),
        decreases paths@.len() - i,
    {
        i = i + 1;
    }
    let ghost text = path@;
    paths.insert(i, path);
    proof {
        let after = texts_of(paths@);
        assert(after =~= before.insert(i as int, text));
        lemma_insert_multiset(before, i as int, text);
        assert forall|a: int, b: int| 0 <= a < b < after.len() implies !sorts_before(
            #[trigger] after[b],
            #[trigger] after[a],
        ) by {
            if b == i {
                assert(after[a] == before[a]);
            } else if a == i {
                if sorts_before(before[b - 1], text) {
                    lemma_order_transitive(before[b - 1], text, before[i as int]);
                    lemma_order_irreflexive(before[i as int]);
                }
            } else {
                let p = if a < i {
                    a
                } else {
                    a - 1
                };
                let q = if b < i {
                    b
                } else {
                    b - 1
                };
                assert(after[a] == before[p] && after[b] == before[q]);
            }
        }
    }
}

proof fn lemma_insert_multiset(s: Seq<Seq<char>>, i: int, x: Seq<char>)
    requires
        0 <= i <= s.len(),
    ensures
        s.insert(i, x).to_multiset() == s.to_multiset().insert(x),
{
    broadcast use vstd::seq_lib::group_to_multiset_ensures;

    let t = s.insert(i, x);
    assert(t.remove(i) =~= s);
    assert(t[i] == x);
    assert(t.contains(x));
    assert(t.to_multiset() =~= s.to_multiset().insert(x));
}

/// The paths of the directory entries that begin with a prefix, sorted.
pub fn glob_matches(dir: &str, prefix: &str, names: &Vec<String>) -> (r: Vec<String>)
    ensures
        ascending(texts_of(r@)),
        texts_of(r@).to_multiset() == entry_paths(dir@, prefix@, texts_of(names@)).to_multiset(),
{
    let mut paths: Vec<String> = Vec::new();
    let ghost all = texts_of(names@);
    let mut i: usize = 0;
    assert(texts_of(paths@) =~= entry_paths(dir@, prefix@, all.take(0)));
    while i < names.len()
        invariant
            i <= names@.len(),
            all == texts_of(names@),
            ascending(texts_of(paths@)),
            texts_of(paths@).to_multiset() == entry_paths(
                dir@,
                prefix@,
                all.take(i as int),
            ).to_multiset(),
        decreases names@.len() - i,
    {
        assert(all.take(i + 1).drop_last() =~= all.take(i as int));
        assert(all.take(i + 1).last() == names@[i as int]@);
        let ghost front = entry_paths(dir@, prefix@, all.take(i as int));
        let name = names[i].as_str();
        if begins(name, prefix) {
            place(&mut paths, join_path(dir, name));
            proof {
                vstd::seq_lib::to_multiset_build(front, path_in(dir@, name@));
            }
        }
        i = i + 1;
    }
    assert(all.take(i as int) =~= all);
    paths
}

/// The paths that a pattern stands for, in no particular order: by its plan,
/// given whether it exists as a path and what its directory holds.
pub open spec fn glob_paths(
    plan: GlobPlan,
    pattern: Seq<char>,
    exists: bool,
    dir: Seq<char>,
    names: Seq<Seq<char>>,
) -> Seq<Seq<char>> {
    match plan {
        GlobPlan::Nothing => seq![],
        GlobPlan::Itself => if exists {
            seq![pattern]
        } else {
            seq![]
        },
        GlobPlan::Entries { prefix } => entry_paths(dir, prefix@, names),
    }
}

impl SystemProbe {
    /// The paths that a pattern stands for, sorted: by its plan, given whether it
    /// exists as a path and what its directory holds.
    pub fn glob(
        &self,
        plan: &GlobPlan,
        pattern: &str,
        exists: bool,
        dir: &str,
        names: &Vec<String>,
    ) -> (r: Vec<String>)
        ensures
            ascending(texts_of(r@)),
            texts_of(r@).to_multiset() == glob_paths(
                *plan,
                pattern@,
                exists,
                dir@,
                texts_of(names@),
            ).to_multiset(),
    {
        let mut paths: Vec<String> = Vec::new();
        match plan {
            GlobPlan::Nothing => {},
            GlobPlan::Itself => {
                if exists {
                    paths.push(pattern.to_owned());
                }
            },
            GlobPlan::Entries { prefix } => {
                return glob_matches(dir, prefix.as_str(), names);
            },
        }
        assert(texts_of(paths@) =~= glob_paths(
            *plan,
            pattern@,
            exists,
            dir@,
            texts_of(names@),
        ));
        paths
    }
}

/// A listing is expanded to the paths of all its entries with the prefix and to
/// nothing else.
pub proof fn law_glob_lists_the_entries(
    dir: Seq<char>,
    prefix: Seq<char>,
    names: Seq<Seq<char>>,
    paths: Seq<Seq<char>>,
    path: Seq<char>,
)
    requires
        paths.to_multiset() == entry_paths(dir, prefix, names).to_multiset(),
    ensures
        paths.contains(path) <==> exists|i: int|
            {
                &&& 0 <= i < names.len()
                &&& starts_with(#[trigger] names[i], prefix)
                &&& path == path_in(dir, names[i])
            },
{
    broadcast use vstd::seq_lib::group_to_multiset_ensures;

    let all = entry_paths(dir, prefix, names);
    assert(paths.contains(path) <==> paths.to_multiset().count(path) > 0);
    assert(all.contains(path) <==> all.to_multiset().count(path) > 0);
    lemma_entries(dir, prefix, names, path);
}

proof fn lemma_entries(
    dir: Seq<char>,
    prefix: Seq<char>,
    names: Seq<Seq<char>>,
    path: Seq<char>,
)
    ensures
        entry_paths(dir, prefix, names).contains(path) <==> exists|i: int|
            {
                &&& 0 <= i < names.len()
                &&& starts_with(#[trigger] names[i], prefix)
                &&& path == path_in(dir, names[i])
            },
    decreases names.len(),
{
    let all = entry_paths(dir, prefix, names);
    if names.len() > 0 {
        let rest = names.drop_last();
        let front = entry_paths(dir, prefix, rest);
        lemma_entries(dir, prefix, rest, path);
        if all.contains(path) {
            let k = choose|k: int| 0 <= k < all.len() && all[k] == path;
            if k < front.len() {
                assert(front[k] == path);
                let i = choose|i: int|
                    {
                        &&& 0 <= i < rest.len()
                        &&& starts_with(#[trigger] rest[i], prefix)
                        &&& path == path_in(dir, rest[i])
                    };
                assert(names[i] == rest[i]);
            } else {
                assert(names[names.len() - 1] == names.last());
            }
        }
        if exists|i: int|
            {
                &&& 0 <= i < names.len()
                &&& starts_with(#[trigger] names[i], prefix)
                &&& path == path_in(dir, names[i])
            } {
            let i = choose|i: int|
                {
                    &&& 0 <= i < names.len()
                    &&& starts_with(#[trigger] names[i], prefix)
                    &&& path == path_in(dir, names[i])
                };
            if i < rest.len() {
                assert(rest[i] == names[i]);
                assert(front.contains(path));
                let k = choose|k: int| 0 <= k < front.len() && front[k] == path;
                assert(all[k] == path);
            } else {
                assert(all[all.len() - 1] == path);
            }
        }
    }
}

/// Two expansions of a pattern over the same directory are the same list,
/// whatever the order in which the directory was walked.
pub proof fn law_glob_ignores_the_walk(
    plan: GlobPlan,
    pattern: Seq<char>,
    exists: bool,
    dir: Seq<char>,
    walk: Seq<Seq<char>>,
    other_walk: Seq<Seq<char>>,
    paths: Seq<Seq<char>>,
    other_paths: Seq<Seq<char>>,
)
    requires
        walk.to_multiset() == other_walk.to_multiset(),
        ascending(paths),
        ascending(other_paths),
        paths.to_multiset() == glob_paths(plan, pattern, exists, dir, walk).to_multiset(),
        other_paths.to_multiset() == glob_paths(
            plan,
            pattern,
            exists,
            dir,
            other_walk,
        ).to_multiset(),
    ensures
        paths == other_paths,
{
    if let GlobPlan::Entries { prefix } = plan {
        lemma_entries_permuted(dir, prefix@, walk, other_walk);
    }
    law_order_of_entries(paths, other_paths);
}

proof fn lemma_entries_permuted(
    dir: Seq<char>,
    prefix: Seq<char>,
    a: Seq<Seq<char>>,
    b: Seq<Seq<char>>,
)
    requires
        a.to_multiset() == b.to_multiset(),
    ensures
        entry_paths(dir, prefix, a).to_multiset() == entry_paths(dir, prefix, b).to_multiset(),
    decreases a.len(),
{
    broadcast use vstd::seq_lib::group_to_multiset_ensures;

    assert(a.to_multiset().len() == a.len());
    assert(b.to_multiset().len() == b.len());
    if a.len() > 0 {
        let n = a.len() - 1;
        assert(a.contains(a[n]));
        assert(b.to_multiset().count(a[n]) > 0);
        assert(b.contains(a[n]));
        let i = choose|i: int| 0 <= i < b.len() && b[i] == a[n];
        assert(a.remove(n) =~= a.drop_last());
        assert(b.remove(i).to_multiset() =~= a.drop_last().to_multiset());
        lemma_entries_permuted(dir, prefix, a.drop_last(), b.remove(i));
        lemma_entries_remove(dir, prefix, b, i);
        lemma_entries_remove(dir, prefix, a, n);
    } else {
        assert(a =~= b);
    }
}

proof fn lemma_entries_remove(dir: Seq<char>, prefix: Seq<char>, names: Seq<Seq<char>>, i: int)
    requires
        0 <= i < names.len(),
    ensures
        ({
            let rest = entry_paths(dir, prefix, names.remove(i)).to_multiset();
            entry_paths(dir, prefix, names).to_multiset() == if starts_with(names[i], prefix) {
                rest.insert(path_in(dir, names[i]))
            } else {
                rest
            }
        }),
    decreases names.len(),
{
    let front = names.drop_last();
    let last = path_in(dir, names.last());
    vstd::seq_lib::to_multiset_build(entry_paths(dir, prefix, front), last);
    if i == names.len() - 1 {
        assert(names.remove(i) =~= front);
    } else {
        let rest = names.remove(i);
        assert(rest.drop_last() =~= front.remove(i));
        assert(rest.last() == names.last());
        assert(front[i] == names[i]);
        lemma_entries_remove(dir, prefix, front, i);
        vstd::seq_lib::to_multiset_build(entry_paths(dir, prefix, front.remove(i)), last);
        let base = entry_paths(dir, prefix, front.remove(i)).to_multiset();
        let x = path_in(dir, names[i]);
        assert(base.insert(x).insert(last) =~= base.insert(last).insert(x));
    }
}

/// Sorted lists of the same paths are the same: the order in which a directory
/// is walked does not show.
pub proof fn law_order_of_entries(a: Seq<Seq<char>>, b: Seq<Seq<char>>)
    requires
        ascending(a),
        ascending(b),
        a.to_multiset() == b.to_multiset(),
    ensures
        a == b,
    decreases a.len(),
{
    broadcast use vstd::seq_lib::group_to_multiset_ensures;

    assert(a.to_multiset().len() == a.len());
    assert(b.to_multiset().len() == b.len());
    if a.len() > 0 {
        let n = a.len() - 1;
        assert(a.contains(a[n]));
        assert(b.contains(b[n]));
        assert(a.to_multiset().count(a[n]) > 0);
        assert(b.to_multiset().count(b[n]) > 0);
        assert(b.contains(a[n]));
        assert(a.contains(b[n]));
        let i = choose|i: int| 0 <= i < b.len() && b[i] == a[n];
        let j = choose|j: int| 0 <= j < a.len() && a[j] == b[n];
        lemma_order_irreflexive(a[n]);
        lemma_order_irreflexive(b[n]);
        lemma_order_total(a[n], b[n]);
        assert(a[n] == b[n]);
        let front = a.drop_last();
        let other = b.drop_last();
        assert(a =~= front.push(a[n]));
        assert(b =~= other.push(b[n]));
        assert(a.remove(n) =~= front);
        assert(b.remove(n) =~= other);
        law_order_of_entries(front, other);
    } else {
        assert(a =~= b);
    }
}

} // verus!
