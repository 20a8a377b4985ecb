//! Per-language statistics: the entry type stored in the cache, saturating
//! aggregation, the descending stable sort by code lines, type filtering and
//! language ranking.

use vstd::prelude::*;
use vstd::string::StringExecFns;
use crate::strutil::{contains_str, spec_split_comma, split_comma};

verus! {

/// Line counts for one language: code, comment and blank lines, and the
/// number of files scanned.
#[derive(Clone, Copy, PartialEq, Eq, Structural, Debug)]
pub struct LangStats {
    pub code: u64,
    pub comments: u64,
    pub blanks: u64,
    pub files: u64,
}

/// One element of a statistics entry: a language name with its counts.
pub struct LangEntry {
    pub name: String,
    pub stats: LangStats,
}

/// Clips a mathematical sum to the `u64` range.
pub open spec fn spec_clip(n: int) -> nat {
    if n > u64::MAX {
        u64::MAX as nat
    } else if n < 0 {
        0
    } else {
        n as nat
    }
}

/// Saturating addition on `u64`.
pub fn sat_add(a: u64, b: u64) -> (r: u64)
    ensures
        r as nat == spec_clip(a + b),
{
    if a <= u64::MAX - b {
        a + b
    } else {
        u64::MAX
    }
}

/// Total lines of a stats record: code plus comments plus blanks, saturating.
pub open spec fn spec_lines(s: LangStats) -> nat {
    spec_clip(s.code + s.comments + s.blanks)
}

/// Derived total line count; never stored.
pub fn lines(s: &LangStats) -> (r: u64)
    ensures
        r as nat == spec_lines(*s),
{
    sat_add(sat_add(s.code, s.comments), s.blanks)
}

/// Field-wise saturating sum of two stats records.
pub open spec fn spec_combine(a: LangStats, b: LangStats) -> LangStats {
    LangStats {
        code: spec_clip(a.code + b.code) as u64,
        comments: spec_clip(a.comments + b.comments) as u64,
        blanks: spec_clip(a.blanks + b.blanks) as u64,
        files: spec_clip(a.files + b.files) as u64,
    }
}

/// The all-zero stats record.
pub open spec fn spec_zero_stats() -> LangStats {
    LangStats { code: 0, comments: 0, blanks: 0, files: 0 }
}

/// Field-wise saturating sum over a sequence of entries.
pub open spec fn spec_aggregate(s: Seq<LangEntry>) -> LangStats
    decreases s.len(),
{
    if s.len() == 0 {
        spec_zero_stats()
    } else {
        spec_combine(spec_aggregate(s.drop_last()), s.last().stats)
    }
}

/// Sums the (possibly filtered) entries into one combined stats record.
pub fn aggregate(entries: &Vec<LangEntry>) -> (r: LangStats)
    ensures
        r == spec_aggregate(entries@),
{
    let mut acc = LangStats { code: 0, comments: 0, blanks: 0, files: 0 };
    let mut i: usize = 0;
    proof {
        assert(entries@.take(0) =~= Seq::<LangEntry>::empty());
    }
    while i < entries.len()
        invariant
            i <= entries.len(),
            acc == spec_aggregate(entries@.take(i as int)),
        decreases entries.len() - i,
    {
        let e = &entries[i];
        acc =
        LangStats {
            code: sat_add(acc.code, e.stats.code),
            comments: sat_add(acc.comments, e.stats.comments),
            blanks: sat_add(acc.blanks, e.stats.blanks),
            files: sat_add(acc.files, e.stats.files),
        };
        proof {
            assert(entries@.take(i + 1).drop_last() =~= entries@.take(i as int));
            assert(entries@.take(i + 1).last() == entries@[i as int]);
        }
        i += 1;
    }
    proof {
        assert(entries@.take(entries@.len() as int) =~= entries@);
    }
    acc
}

/// An exact copy of an entry.
pub fn clone_entry(e: &LangEntry) -> (r: LangEntry)
    ensures
        r == *e,
{
    LangEntry { name: e.name.clone(), stats: e.stats }
}

/// An exact copy of an entry sequence.
pub fn clone_entries(v: &Vec<LangEntry>) -> (r: Vec<LangEntry>)
    ensures
        r@ == v@,
{
    let mut out: Vec<LangEntry> = Vec::new();
    let mut i: usize = 0;
    while i < v.len()
        invariant
            i <= v.len(),
            out@ =~= v@.take(i as int),
        decreases v.len() - i,
    {
        out.push(clone_entry(&v[i]));
        i += 1;
    }
    proof {
        assert(v@.take(v@.len() as int) =~= v@);
    }
    out
}

/// Stable insertion of `x` into a sequence already sorted descending by code
/// count: `x` goes after every element with at least as many code lines.
pub open spec fn spec_insert_desc(s: Seq<LangEntry>, x: LangEntry) -> Seq<LangEntry>
    decreases s.len(),
{
    if s.len() == 0 {
        seq![x]
    } else if s.last().stats.code >= x.stats.code {
        s.push(x)
    } else {
        spec_insert_desc(s.drop_last(), x).push(s.last())
    }
}

/// Stable insertion sort, descending by code count: ties keep their original
/// relative order.
pub open spec fn spec_sort_desc(s: Seq<LangEntry>) -> Seq<LangEntry>
    decreases s.len(),
{
    if s.len() == 0 {
        Seq::empty()
    } else {
        spec_insert_desc(spec_sort_desc(s.drop_last()), s.last())
    }
}

fn insert_desc(v: &mut Vec<LangEntry>, x: LangEntry)
    ensures
        final(v)@ == spec_insert_desc(old(v)@, x),
    decreases old(v)@.len(),
{
    let ghost before = v@;
    if v.len() == 0 {
        v.push(x);
        proof {
            assert(v@ =~= seq![x]);
        }
    } else {
        let last_code = v[v.len() - 1].stats.code;
        if last_code >= x.stats.code {
            v.push(x);
        } else {
            let y = v.pop().unwrap();
            proof {
                assert(v@ =~= before.drop_last());
                assert(y == before.last());
            }
            insert_desc(v, x);
            v.push(y);
        }
    }
}

/// Sorts a statistics entry descending by code-line count with a stable
/// insertion sort; entries with equal counts keep their original order.
pub fn sort_by_code_desc(input: Vec<LangEntry>) -> (r: Vec<LangEntry>)
    ensures
        r@ == spec_sort_desc(input@),
    decreases input@.len(),
{
    let ghost orig = input@;
    let mut v = input;
    if v.len() == 0 {
        return v;
    }
    let x = v.pop().unwrap();
    proof {
        assert(orig.drop_last() =~= v@);
        assert(orig.last() == x);
    }
    let mut sorted = sort_by_code_desc(v);
    insert_desc(&mut sorted, x);
    sorted
}

/// Descending order by code count.
pub open spec fn spec_sorted_desc(s: Seq<LangEntry>) -> bool {
    forall|i: int, j: int|
        0 <= i < j < s.len() ==> s[i].stats.code >= s[j].stats.code
}

/// Inserting into a descending-sorted sequence keeps it sorted.
proof fn lemma_insert_desc_sorted(s: Seq<LangEntry>, x: LangEntry)
    requires
        spec_sorted_desc(s),
    ensures
        spec_sorted_desc(spec_insert_desc(s, x)),
        spec_insert_desc(s, x).to_multiset() == s.to_multiset().insert(x),
        spec_insert_desc(s, x).len() == s.len() + 1,
        forall|i: int|
            0 <= i < spec_insert_desc(s, x).len() ==> (spec_insert_desc(s, x)[i] == x
                || s.to_multiset().contains(#[trigger] spec_insert_desc(s, x)[i])),
    decreases s.len(),
{
    broadcast use vstd::seq_lib::group_seq_properties;
    broadcast use vstd::seq_lib::group_to_multiset_ensures;

    if s.len() == 0 {
        assert(s =~= Seq::<LangEntry>::empty());
        assert(seq![x] =~= s.push(x));
    } else if s.last().stats.code >= x.stats.code {
        assert(s =~= s.drop_last().push(s.last()));
        assert forall|i: int| 0 <= i < s.len() implies s[i].stats.code >= x.stats.code by {
            assert(s[i].stats.code >= s[s.len() - 1].stats.code);
        }
    } else {
        lemma_insert_desc_sorted(s.drop_last(), x);
        let d = s.drop_last();
        let t = spec_insert_desc(d, x);
        let out = t.push(s.last());
        assert(s =~= d.push(s.last()));
        assert(s.to_multiset() == d.to_multiset().insert(s.last()));
        assert(d.to_multiset().insert(x).insert(s.last()) =~= d.to_multiset().insert(
            s.last(),
        ).insert(x));
        assert forall|i: int, j: int|
            0 <= i < j < out.len() implies out[i].stats.code >= out[j].stats.code by {
            if j < t.len() {
            } else {
                assert(out[j] == s.last());
                if i < t.len() && t[i] != x {
                    assert(d.to_multiset().contains(t[i]));
                    assert(d.contains(t[i]));
                    let k = choose|k: int| 0 <= k < d.len() && d[k] == t[i];
                    assert(s[k] == t[i]);
                    assert(s[k].stats.code >= s[s.len() - 1].stats.code);
                }
            }
        }
        assert forall|i: int|
            0 <= i < out.len() implies (out[i] == x || s.to_multiset().contains(
            #[trigger] out[i],
        )) by {
            if i < t.len() {
                if t[i] != x {
                    assert(d.to_multiset().contains(t[i]));
                    assert(d.contains(t[i]));
                    let k = choose|k: int| 0 <= k < d.len() && d[k] == t[i];
                    assert(s[k] == t[i]);
                    assert(s.contains(s[k]));
                }
            } else {
                assert(out[i] == s.last());
                assert(s.contains(s.last()));
            }
        }
    }
}

/// The sort is a permutation that orders entries descending by code count.
///
/// Stability is part of the definition of [`spec_sort_desc`]: an element is
/// inserted after every earlier element with at least as many code lines, so
/// entries with equal counts keep their original relative order.
pub proof fn lemma_sort_desc_correct(s: Seq<LangEntry>)
    ensures
        spec_sorted_desc(spec_sort_desc(s)),
        spec_sort_desc(s).to_multiset() == s.to_multiset(),
        spec_sort_desc(s).len() == s.len(),
    decreases s.len(),
{
    broadcast use vstd::seq_lib::group_seq_properties;

    if s.len() == 0 {
    } else {
        lemma_sort_desc_correct(s.drop_last());
        lemma_insert_desc_sorted(spec_sort_desc(s.drop_last()), s.last());
        assert(s =~= s.drop_last().push(s.last()));
        assert(s.to_multiset() =~= s.drop_last().to_multiset().insert(s.last()));
    }
}

/// Stable insertion keeps the subsequence of entries with any one code
/// count: the inserted entry goes to that subsequence's end, everything else
/// is untouched.
proof fn lemma_insert_desc_filter(t: Seq<LangEntry>, x: LangEntry, c: u64)
    ensures
        x.stats.code == c ==> spec_insert_desc(t, x).filter(|e: LangEntry| e.stats.code == c)
            == t.filter(|e: LangEntry| e.stats.code == c).push(x),
        x.stats.code != c ==> spec_insert_desc(t, x).filter(|e: LangEntry| e.stats.code == c)
            == t.filter(|e: LangEntry| e.stats.code == c),
    decreases t.len(),
{
    reveal(Seq::filter);
    let p = |e: LangEntry| e.stats.code == c;
    if t.len() == 0 {
        assert(spec_insert_desc(t, x) =~= seq![x]);
        assert(seq![x].drop_last() =~= t);
        if p(x) {
            assert(spec_insert_desc(t, x).filter(p) =~= t.filter(p).push(x));
        } else {
            assert(spec_insert_desc(t, x).filter(p) =~= t.filter(p));
        }
    } else if t.last().stats.code >= x.stats.code {
        assert(t.push(x).drop_last() =~= t);
        assert(t.push(x).last() == x);
    } else {
        lemma_insert_desc_filter(t.drop_last(), x, c);
        let u = spec_insert_desc(t.drop_last(), x);
        assert(spec_insert_desc(t, x) == u.push(t.last()));
        assert(u.push(t.last()).drop_last() =~= u);
        assert(u.push(t.last()).last() == t.last());
        if p(x) {
            // x has the observed count; t.last() has a smaller one.
            assert(!p(t.last()));
            assert(u.push(t.last()).filter(p) == u.filter(p));
            assert(t.filter(p) == t.drop_last().filter(p));
        } else {
            assert(u.push(t.last()).filter(p) == (if p(t.last()) {
                u.filter(p).push(t.last())
            } else {
                u.filter(p)
            }));
            assert(t.filter(p) == (if p(t.last()) {
                t.drop_last().filter(p).push(t.last())
            } else {
                t.drop_last().filter(p)
            }));
        }
    }
}

/// The sort is stable: for every code count, the entries carrying it appear
/// in the sorted sequence exactly as they appeared in the input — ties keep
/// their original enumeration order.
pub proof fn lemma_sort_desc_stable(s: Seq<LangEntry>, c: u64)
    ensures
        spec_sort_desc(s).filter(|e: LangEntry| e.stats.code == c) == s.filter(
            |e: LangEntry| e.stats.code == c,
        ),
    decreases s.len(),
{
    reveal(Seq::filter);
    let p = |e: LangEntry| e.stats.code == c;
    if s.len() == 0 {
        assert(spec_sort_desc(s) =~= s);
    } else {
        lemma_sort_desc_stable(s.drop_last(), c);
        lemma_insert_desc_filter(spec_sort_desc(s.drop_last()), s.last(), c);
        assert(s.filter(p) == (if p(s.last()) {
            s.drop_last().filter(p).push(s.last())
        } else {
            s.drop_last().filter(p)
        }));
    }
}

/// Restricts the entries to the languages named in `allowed`; an empty
/// `allowed` set keeps every entry.
pub open spec fn spec_filter_entries(s: Seq<LangEntry>, allowed: Seq<Seq<char>>) -> Seq<LangEntry> {
    if allowed.len() == 0 {
        s
    } else {
        s.filter(|e: LangEntry| allowed.contains(e.name@))
    }
}

/// Keeps the entries whose language is named in `allowed`; an empty filter
/// set keeps the whole entry list.
pub fn filter_entries(entries: Vec<LangEntry>, allowed: &Vec<String>) -> (r: Vec<LangEntry>)
    ensures
        r@ == spec_filter_entries(entries@, allowed.deep_view()),
{
    broadcast use vstd::seq_lib::group_seq_properties;

    if allowed.len() == 0 {
        proof {
            assert(allowed.deep_view().len() == 0);
        }
        return entries;
    }
    let mut out: Vec<LangEntry> = Vec::new();
    let mut i: usize = 0;
    proof {
        reveal(Seq::filter);
        assert(entries@.take(0int).filter(|e: LangEntry| allowed.deep_view().contains(e.name@))
            =~= Seq::<LangEntry>::empty());
    }
    while i < entries.len()
        invariant
            i <= entries.len(),
            allowed.deep_view().len() > 0,
            out@ == entries@.take(i as int).filter(
                |e: LangEntry| allowed.deep_view().contains(e.name@),
            ),
        decreases entries.len() - i,
    {
        let keep = contains_str(allowed, entries[i].name.as_str());
        let ghost pre = entries@.take(i as int);
        proof {
            reveal(Seq::filter);
            assert(entries@.take(i + 1).drop_last() =~= pre);
            assert(entries@.take(i + 1).last() == entries@[i as int]);
        }
        if keep {
            out.push(clone_entry(&entries[i]));
        }
        i += 1;
    }
    proof {
        assert(entries@.take(entries@.len() as int) =~= entries@);
    }
    out
}

/// The canonical language name a filter token parses to, when the line
/// counter recognizes it; a fixed function of the token's characters.
pub uninterp spec fn language_token_name(s: Seq<char>) -> Option<Seq<char>>;

/// Relies on tokei::LanguageType's FromStr and name: a token either names a
/// known language, whose canonical name depends on the token alone, or is
/// not recognized.
#[verifier::external_body]
fn parse_language_token(s: &str) -> (r: Option<String>)
    ensures
        r matches Some(n) ==> language_token_name(s@) == Some(n@),
        r is None ==> language_token_name(s@) is None,
{
    s.parse::<tokei::LanguageType>().ok().map(|lt| lt.name().to_owned())
}

/// The recognized canonical names among a piece list, in order; tokens that
/// name no known language are silently dropped.
pub open spec fn spec_token_names(pieces: Seq<Seq<char>>) -> Seq<Seq<char>>
    decreases pieces.len(),
{
    if pieces.len() == 0 {
        Seq::empty()
    } else {
        let rest = spec_token_names(pieces.drop_last());
        match language_token_name(pieces.last()) {
            Some(n) => rest.push(n),
            None => rest,
        }
    }
}

/// The language filter a comma-separated `type` parameter selects.
pub open spec fn spec_language_filter(s: Seq<char>) -> Seq<Seq<char>> {
    spec_token_names(spec_split_comma(s))
}

/// Parses the comma-separated `type` query parameter into the canonical
/// names of the recognized languages; unrecognized tokens are silently
/// dropped, so an unrecognized filter restricts nothing.
pub fn parse_language_filter(raw: &str) -> (r: Vec<String>)
    ensures
        r.deep_view() == spec_language_filter(raw@),
{
    let pieces = split_comma(raw);
    let mut out: Vec<String> = Vec::new();
    let mut i: usize = 0;
    proof {
        assert(pieces.deep_view().take(0int) =~= Seq::<Seq<char>>::empty());
        assert(out.deep_view() =~= Seq::<Seq<char>>::empty());
    }
    while i < pieces.len()
        invariant
            i <= pieces.len(),
            pieces.deep_view().len() == pieces@.len(),
            out.deep_view() == spec_token_names(pieces.deep_view().take(i as int)),
        decreases pieces.len() - i,
    {
        let ghost pre = out.deep_view();
        proof {
            assert(pieces.deep_view().take(i + 1).drop_last() =~= pieces.deep_view().take(
                i as int,
            ));
            assert(pieces.deep_view().take(i + 1).last() == pieces.deep_view()[i as int]);
            assert(pieces.deep_view()[i as int] == pieces@[i as int]@);
        }
        match parse_language_token(pieces[i].as_str()) {
            Some(name) => {
                let ghost n = name@;
                out.push(name);
                proof {
                    assert(out.deep_view() =~= pre.push(n));
                }
            },
            None => {},
        }
        i += 1;
    }
    proof {
        assert(pieces.deep_view().take(pieces.deep_view().len() as int) =~= pieces.deep_view());
    }
    out
}

/// The ranked-language label: empty when ranking is off, `"No Languages"`
/// for an empty entry list, `"N/A"` for a rank of zero or past the end, and
/// otherwise the name of the entry at the one-based rank.
pub open spec fn spec_ranking_label(
    show: bool,
    rank: nat,
    entries: Seq<LangEntry>,
) -> Seq<char> {
    if !show {
        Seq::empty()
    } else if entries.len() == 0 {
        "No Languages"@
    } else if rank == 0 || rank > entries.len() {
        "N/A"@
    } else {
        entries[rank as int - 1].name@
    }
}

/// Selects the ranked-language badge label.
pub fn ranking_label(show: bool, rank: usize, entries: &Vec<LangEntry>) -> (r: String)
    ensures
        r@ == spec_ranking_label(show, rank as nat, entries@),
{
    if !show {
        let s = String::new();
        proof {
            assert(s@ =~= Seq::<char>::empty());
        }
        s
    } else if entries.len() == 0 {
        "No Languages".to_owned()
    } else if rank == 0 || rank > entries.len() {
        "N/A".to_owned()
    } else {
        entries[rank - 1].name.clone()
    }
}

} // verus!
