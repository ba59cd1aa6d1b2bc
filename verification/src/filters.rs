//! The module-path filter engine: parses a filter specification string into a
//! lookup structure and resolves whether a record's module path and severity
//! are enabled, by hierarchical most-specific-ancestor matching.

use vstd::prelude::*;

use crate::level::Level;
use crate::level::LevelFilter;
use crate::level::level_passes_spec;
use crate::level::max_filter_spec;
use crate::level::parse_level;
use crate::level::parse_level_spec;
use crate::text::contains_char;
use crate::text::has_char_spec;
use crate::text::split_char;
use crate::text::split_spec;
use crate::text::str_eq;

verus! {

/// Abstract content of a filter engine: the configured (module path,
/// threshold) pairs in lookup order, and the optional global minimum level.
pub ghost struct FiltersV {
    pub pairs: Seq<(Seq<char>, LevelFilter)>,
    pub minimum: Option<LevelFilter>,
}

/// Lookup shape, chosen by entry count: no entries, a small ordered list, or
/// a deduplicated keyed table for larger counts.
enum FiltersKind {
    Default,
    List(Vec<(String, LevelFilter)>),
    Keyed(Vec<(String, LevelFilter)>),
}

/// A filter engine derived from a specification string such as
/// `"debug,foo::bar=off,foo=info"`.
pub struct Filters {
    kind: FiltersKind,
    minimum: Option<LevelFilter>,
}

/// The character-level content of a vector of (path, threshold) pairs.
pub open spec fn pairs_view(v: Seq<(String, LevelFilter)>) -> Seq<(Seq<char>, LevelFilter)> {
    Seq::new(v.len(), |i: int| (v[i].0@, v[i].1))
}

/// The threshold of the first pair whose path equals `m`, if any.
pub open spec fn first_match(ps: Seq<(Seq<char>, LevelFilter)>, m: Seq<char>) -> Option<
    LevelFilter,
>
    decreases ps.len(),
{
    if ps.len() == 0 {
        None
    } else if ps[0].0 == m {
        Some(ps[0].1)
    } else {
        first_match(ps.drop_first(), m)
    }
}

/// Exact lookup of a full module path among the configured pairs.
pub open spec fn spec_find_exact(v: FiltersV, m: Seq<char>) -> Option<LevelFilter> {
    first_match(v.pairs, m)
}

/// The state of the separator-pairing flag when the right-to-left walk over
/// `m` reaches position `i`: true exactly when the character to the right is
/// a `:` that did not itself close a `::` pair.
pub open spec fn last_state(m: Seq<char>, i: int) -> bool
    decreases m.len() - i,
{
    if i >= m.len() - 1 {
        false
    } else if last_state(m, i + 1) {
        false
    } else {
        m[i + 1] == ':'
    }
}

/// Whether the walk tries the prefix `m[..i]`: position `i` holds the first
/// `:` of a `::` separator, found walking right to left.
pub open spec fn cut_at(m: Seq<char>, i: int) -> bool {
    0 <= i < m.len() && m[i] == ':' && last_state(m, i)
}

/// The first configured threshold among the prefixes of `m` cut at `::`
/// separators at positions at most `i`, tried from the most specific
/// (longest) prefix down.
pub open spec fn walk_from(v: FiltersV, m: Seq<char>, i: int) -> Option<LevelFilter>
    decreases i + 1,
{
    if i < 0 {
        None
    } else if cut_at(m, i) {
        match spec_find_exact(v, m.take(i)) {
            Some(l) => Some(l),
            None => walk_from(v, m, i - 1),
        }
    } else {
        walk_from(v, m, i - 1)
    }
}

/// Hierarchical resolution of a module path: with no entries nothing is
/// enabled; otherwise the exact path wins, then the most specific configured
/// ancestor, then the global minimum.
pub open spec fn spec_find_module(v: FiltersV, m: Seq<char>) -> Option<LevelFilter> {
    if v.pairs.len() == 0 {
        None
    } else {
        match spec_find_exact(v, m) {
            Some(l) => Some(l),
            None => match walk_from(v, m, m.len() - 1) {
                Some(l) => Some(l),
                None => v.minimum,
            },
        }
    }
}

/// Whether a record of severity `l` with module path `m` is enabled.
pub open spec fn spec_is_enabled(v: FiltersV, l: Level, m: Seq<char>) -> bool {
    match spec_find_module(v, m) {
        Some(f) => level_passes_spec(l, f),
        None => false,
    }
}

/// The (path, threshold) pair denoted by one comma-separated token, if the
/// token has the form `path=level`; text after a second `=` is ignored.
pub open spec fn parse_pair_spec(t: Seq<char>) -> Option<(Seq<char>, LevelFilter)> {
    let ps = split_spec(t, '=');
    if ps.len() < 2 {
        None
    } else {
        match parse_level_spec(ps[1]) {
            Some(l) => Some((ps[0], l)),
            None => None,
        }
    }
}

/// The pairs denoted by a token sequence, keeping token order and silently
/// dropping malformed tokens.
pub open spec fn pairs_of_tokens(ts: Seq<Seq<char>>) -> Seq<(Seq<char>, LevelFilter)>
    decreases ts.len(),
{
    if ts.len() == 0 {
        Seq::empty()
    } else {
        let rest = pairs_of_tokens(ts.drop_first());
        match parse_pair_spec(ts[0]) {
            Some(p) => seq![p] + rest,
            None => rest,
        }
    }
}

/// The global-minimum contribution of one token: a bare level name other
/// than `off`.
pub open spec fn min_contrib(t: Seq<char>) -> Option<LevelFilter> {
    if !has_char_spec(t, '=') {
        match parse_level_spec(t) {
            Some(l) => if l != LevelFilter::Off {
                Some(l)
            } else {
                None
            },
            None => None,
        }
    } else {
        None
    }
}

/// The more verbose of two optional thresholds.
pub open spec fn combine_min(a: Option<LevelFilter>, b: Option<LevelFilter>) -> Option<
    LevelFilter,
> {
    match (a, b) {
        (Some(x), Some(y)) => Some(max_filter_spec(x, y)),
        (Some(x), None) => Some(x),
        (None, Some(y)) => Some(y),
        (None, None) => None,
    }
}

/// The global minimum denoted by a token sequence: the maximum of the bare
/// level tokens, excluding `off`.
pub open spec fn min_of_tokens(ts: Seq<Seq<char>>) -> Option<LevelFilter>
    decreases ts.len(),
{
    if ts.len() == 0 {
        None
    } else {
        combine_min(min_contrib(ts[0]), min_of_tokens(ts.drop_first()))
    }
}

/// Whether some pair in `ps` has path `k`.
pub open spec fn contains_key_spec(ps: Seq<(Seq<char>, LevelFilter)>, k: Seq<char>) -> bool {
    exists|i: int| 0 <= i < ps.len() && ps[i].0 == k
}

/// `ps` with every pair dropped whose path already occurred earlier or lies
/// in `seen`; the first occurrence of each path wins.
pub open spec fn dedup_keys(
    ps: Seq<(Seq<char>, LevelFilter)>,
    seen: Set<Seq<char>>,
) -> Seq<(Seq<char>, LevelFilter)>
    decreases ps.len(),
{
    if ps.len() == 0 {
        Seq::empty()
    } else if seen.contains(ps[0].0) {
        dedup_keys(ps.drop_first(), seen)
    } else {
        seq![ps[0]] + dedup_keys(ps.drop_first(), seen.insert(ps[0].0))
    }
}

/// The abstract filter engine denoted by a specification string: its pairs
/// (deduplicated when the keyed shape is chosen, at 15 entries and above)
/// and its global minimum.
pub open spec fn parse_spec(s: Seq<char>) -> FiltersV {
    let ts = split_spec(s, ',');
    let ps = pairs_of_tokens(ts);
    FiltersV {
        pairs: if ps.len() >= 15 {
            dedup_keys(ps, Set::empty())
        } else {
            ps
        },
        minimum: min_of_tokens(ts),
    }
}

impl View for Filters {
    type V = FiltersV;

    closed spec fn view(&self) -> FiltersV {
        FiltersV {
            pairs: match self.kind {
                FiltersKind::Default => Seq::empty(),
                FiltersKind::List(v) => pairs_view(v@),
                FiltersKind::Keyed(v) => pairs_view(v@),
            },
            minimum: self.minimum,
        }
    }
}

impl Filters {
    /// The stored shapes never hold an empty pair vector, so an empty view
    /// means the entry-less shape.
    #[verifier::type_invariant]
    closed spec fn wf(self) -> bool {
        match self.kind {
            FiltersKind::Default => true,
            FiltersKind::List(v) => v@.len() > 0,
            FiltersKind::Keyed(v) => v@.len() > 0,
        }
    }
}

impl Default for Filters {
    /// An engine with no entries and no global minimum: nothing is enabled.
    fn default() -> (r: Self)
        ensures
            r@ == (FiltersV { pairs: Seq::empty(), minimum: None }),
    {
        Filters { kind: FiltersKind::Default, minimum: None }
    }
}

/// Appending a token contributes its pair, if well formed, at the end.
proof fn lemma_pairs_push(ts: Seq<Seq<char>>, t: Seq<char>)
    ensures
        pairs_of_tokens(ts.push(t)) == pairs_of_tokens(ts) + (match parse_pair_spec(t) {
            Some(p) => seq![p],
            None => Seq::<(Seq<char>, LevelFilter)>::empty(),
        }),
    decreases ts.len(),
{
    let tail = match parse_pair_spec(t) {
        Some(p) => seq![p],
        None => Seq::<(Seq<char>, LevelFilter)>::empty(),
    };
    if ts.len() == 0 {
        assert(ts.push(t).drop_first() =~= ts);
        assert(pairs_of_tokens(ts.push(t)) =~= pairs_of_tokens(ts) + tail);
    } else {
        assert(ts.push(t).drop_first() =~= ts.drop_first().push(t));
        lemma_pairs_push(ts.drop_first(), t);
        assert(pairs_of_tokens(ts.push(t)) =~= pairs_of_tokens(ts) + tail);
    }
}

/// Combining minima is associative.
proof fn lemma_combine_min_assoc(a: Option<LevelFilter>, b: Option<LevelFilter>, c: Option<
    LevelFilter,
>)
    ensures
        combine_min(combine_min(a, b), c) == combine_min(a, combine_min(b, c)),
{
}

/// Appending a token folds its minimum contribution in at the end.
proof fn lemma_min_push(ts: Seq<Seq<char>>, t: Seq<char>)
    ensures
        min_of_tokens(ts.push(t)) == combine_min(min_of_tokens(ts), min_contrib(t)),
    decreases ts.len(),
{
    if ts.len() == 0 {
        assert(ts.push(t).drop_first() =~= ts);
    } else {
        assert(ts.push(t).drop_first() =~= ts.drop_first().push(t));
        lemma_min_push(ts.drop_first(), t);
        lemma_combine_min_assoc(
            min_contrib(ts[0]),
            min_of_tokens(ts.drop_first()),
            min_contrib(t),
        );
    }
}

/// Appending a pair keeps it exactly when its path is new.
proof fn lemma_dedup_push(
    qs: Seq<(Seq<char>, LevelFilter)>,
    p: (Seq<char>, LevelFilter),
    seen: Set<Seq<char>>,
)
    ensures
        dedup_keys(qs.push(p), seen) == dedup_keys(qs, seen) + (if seen.contains(p.0)
            || contains_key_spec(qs, p.0) {
            Seq::<(Seq<char>, LevelFilter)>::empty()
        } else {
            seq![p]
        }),
    decreases qs.len(),
{
    let tail = if seen.contains(p.0) || contains_key_spec(qs, p.0) {
        Seq::<(Seq<char>, LevelFilter)>::empty()
    } else {
        seq![p]
    };
    if qs.len() == 0 {
        reveal_with_fuel(dedup_keys, 2);
        assert(qs.push(p)[0] == p);
        assert(!contains_key_spec(qs, p.0));
        assert(qs.push(p).drop_first() =~= qs);
        assert(dedup_keys(qs.push(p), seen) =~= dedup_keys(qs, seen) + tail);
    } else {
        let h = qs[0];
        assert(qs.push(p)[0] == h);
        assert(qs.push(p).drop_first() =~= qs.drop_first().push(p));
        if seen.contains(h.0) {
            lemma_dedup_push(qs.drop_first(), p, seen);
            assert((seen.contains(p.0) || contains_key_spec(qs.drop_first(), p.0)) == (
            seen.contains(p.0) || contains_key_spec(qs, p.0))) by {
                if contains_key_spec(qs, p.0) && !seen.contains(p.0) && !contains_key_spec(
                    qs.drop_first(),
                    p.0,
                ) {
                    let i = choose|i: int| 0 <= i < qs.len() && qs[i].0 == p.0;
                    if i != 0 {
                        assert(qs.drop_first()[i - 1].0 == p.0);
                    }
                    assert(i == 0);
                }
                if contains_key_spec(qs.drop_first(), p.0) {
                    let i = choose|i: int|
                        0 <= i < qs.drop_first().len() && qs.drop_first()[i].0 == p.0;
                    assert(qs[i + 1].0 == p.0);
                }
            }
            assert(dedup_keys(qs.push(p), seen) =~= dedup_keys(qs, seen) + tail);
        } else {
            lemma_dedup_push(qs.drop_first(), p, seen.insert(h.0));
            assert((seen.insert(h.0).contains(p.0) || contains_key_spec(qs.drop_first(), p.0))
                == (seen.contains(p.0) || contains_key_spec(qs, p.0))) by {
                if contains_key_spec(qs, p.0) && p.0 != h.0 && !contains_key_spec(
                    qs.drop_first(),
                    p.0,
                ) {
                    let i = choose|i: int| 0 <= i < qs.len() && qs[i].0 == p.0;
                    if i != 0 {
                        assert(qs.drop_first()[i - 1].0 == p.0);
                    }
                    assert(i == 0);
                }
                if contains_key_spec(qs.drop_first(), p.0) {
                    let i = choose|i: int|
                        0 <= i < qs.drop_first().len() && qs.drop_first()[i].0 == p.0;
                    assert(qs[i + 1].0 == p.0);
                }
                if p.0 == h.0 {
                    assert(qs[0].0 == p.0);
                }
            }
            assert(dedup_keys(qs.push(p), seen) =~= dedup_keys(qs, seen) + tail);
        }
    }
}

/// A path occurs in the deduplicated pairs exactly when it occurs in the
/// input pairs and is not already seen.
proof fn lemma_dedup_keys_occur(
    qs: Seq<(Seq<char>, LevelFilter)>,
    seen: Set<Seq<char>>,
    k: Seq<char>,
)
    ensures
        contains_key_spec(dedup_keys(qs, seen), k) == (contains_key_spec(qs, k)
            && !seen.contains(k)),
    decreases qs.len(),
{
    if qs.len() == 0 {
    } else {
        let h = qs[0];
        if seen.contains(h.0) {
            lemma_dedup_keys_occur(qs.drop_first(), seen, k);
        } else {
            lemma_dedup_keys_occur(qs.drop_first(), seen.insert(h.0), k);
        }
        assert(contains_key_spec(qs, k) == (h.0 == k || contains_key_spec(qs.drop_first(), k)))
            by {
            if contains_key_spec(qs, k) && h.0 != k {
                let i = choose|i: int| 0 <= i < qs.len() && qs[i].0 == k;
                assert(qs.drop_first()[i - 1].0 == k);
            }
            if contains_key_spec(qs.drop_first(), k) {
                let i = choose|i: int|
                    0 <= i < qs.drop_first().len() && qs.drop_first()[i].0 == k;
                assert(qs[i + 1].0 == k);
            }
        }
        let d = if seen.contains(h.0) {
            dedup_keys(qs.drop_first(), seen)
        } else {
            dedup_keys(qs.drop_first(), seen.insert(h.0))
        };
        if !seen.contains(h.0) {
            assert(dedup_keys(qs, seen) == seq![h] + d);
            assert(contains_key_spec(seq![h] + d, k) == (h.0 == k || contains_key_spec(d, k)))
                by {
                if contains_key_spec(seq![h] + d, k) {
                    let i = choose|i: int|
                        0 <= i < (seq![h] + d).len() && (seq![h] + d)[i].0 == k;
                    if i > 0 {
                        assert(d[i - 1].0 == k);
                    } else {
                        assert((seq![h] + d)[0] == h);
                    }
                }
                if h.0 == k {
                    assert((seq![h] + d)[0].0 == k);
                }
                if contains_key_spec(d, k) {
                    let i = choose|i: int| 0 <= i < d.len() && d[i].0 == k;
                    assert((seq![h] + d)[i + 1].0 == k);
                }
            }
        }
    }
}

/// The deduplicated pairs carry pairwise distinct paths: the keyed shape is
/// a genuine mapping from module path to threshold.
pub proof fn lemma_dedup_keys_unique(qs: Seq<(Seq<char>, LevelFilter)>, seen: Set<Seq<char>>)
    ensures
        forall|i: int, j: int|
            0 <= i < j < dedup_keys(qs, seen).len() ==> dedup_keys(qs, seen)[i].0 != dedup_keys(
                qs,
                seen,
            )[j].0,
    decreases qs.len(),
{
    if qs.len() == 0 {
    } else {
        let h = qs[0];
        if seen.contains(h.0) {
            lemma_dedup_keys_unique(qs.drop_first(), seen);
            assert(dedup_keys(qs, seen) == dedup_keys(qs.drop_first(), seen));
        } else {
            lemma_dedup_keys_unique(qs.drop_first(), seen.insert(h.0));
            lemma_dedup_keys_occur(qs.drop_first(), seen.insert(h.0), h.0);
            let d = dedup_keys(qs.drop_first(), seen.insert(h.0));
            assert(!contains_key_spec(d, h.0));
            assert(dedup_keys(qs, seen) == seq![h] + d);
            assert forall|i: int, j: int|
                0 <= i < j < dedup_keys(qs, seen).len() implies dedup_keys(qs, seen)[i].0
                != dedup_keys(qs, seen)[j].0 by {
                if i == 0 {
                    assert(dedup_keys(qs, seen)[0] == h);
                    assert(dedup_keys(qs, seen)[j] == d[j - 1]);
                    if d[j - 1].0 == h.0 {
                        assert(contains_key_spec(d, h.0));
                    }
                } else {
                    assert(dedup_keys(qs, seen)[i] == d[i - 1]);
                    assert(dedup_keys(qs, seen)[j] == d[j - 1]);
                }
            }
        }
    }
}

/// Whether some stored pair has path `k`.
fn contains_key(v: &Vec<(String, LevelFilter)>, k: &str) -> (r: bool)
    ensures
        r == contains_key_spec(pairs_view(v@), k@),
{
    let n = v.len();
    let mut i: usize = 0;
    while i < n
        invariant
            0 <= i <= n == v@.len(),
            forall|j: int| 0 <= j < i ==> pairs_view(v@)[j].0 != k@,
        decreases n - i,
    {
        if str_eq(v[i].0.as_str(), k) {
            assert(pairs_view(v@)[i as int].0 == k@);
            return true;
        }
        i += 1;
    }
    false
}

/// Drops every pair whose path occurred earlier, keeping first occurrences.
fn dedup_pairs(ps: Vec<(String, LevelFilter)>) -> (r: Vec<(String, LevelFilter)>)
    ensures
        pairs_view(r@) == dedup_keys(pairs_view(ps@), Set::empty()),
        ps@.len() > 0 ==> r@.len() > 0,
{
    let n = ps.len();
    let mut r: Vec<(String, LevelFilter)> = Vec::new();
    let mut i: usize = 0;
    proof {
        assert(pairs_view(ps@).take(0) =~= Seq::<(Seq<char>, LevelFilter)>::empty());
        assert(pairs_view(r@) =~= dedup_keys(pairs_view(ps@).take(0), Set::empty()));
    }
    while i < n
        invariant
            0 <= i <= n == ps@.len(),
            pairs_view(r@) == dedup_keys(pairs_view(ps@).take(i as int), Set::empty()),
            i > 0 ==> r@.len() > 0,
        decreases n - i,
    {
        let ghost prefix = pairs_view(ps@).take(i as int);
        let ghost p = pairs_view(ps@)[i as int];
        proof {
            assert(pairs_view(ps@).take(i + 1) =~= prefix.push(p));
            lemma_dedup_push(prefix, p, Set::empty());
            lemma_dedup_keys_occur(prefix, Set::empty(), p.0);
        }
        let dup = contains_key(&r, ps[i].0.as_str());
        if !dup {
            let pair = (ps[i].0.clone(), ps[i].1);
            let ghost old_r = pairs_view(r@);
            r.push(pair);
            proof {
                assert(pairs_view(r@) =~= old_r + seq![p]);
            }
        } else {
            proof {
                assert(dedup_keys(prefix.push(p), Set::empty()) =~= pairs_view(r@));
            }
        }
        i += 1;
    }
    proof {
        assert(pairs_view(ps@).take(n as int) =~= pairs_view(ps@));
    }
    r
}

/// Parses one comma-separated token of the form `path=level` into a pair;
/// a token without `=` or with an unknown level name yields `None`.
pub fn parse(input: &str) -> (r: Option<(String, LevelFilter)>)
    ensures
        (r is Some) == (parse_pair_spec(input@) is Some),
        r matches Some(p) ==> parse_pair_spec(input@) == Some((p.0@, p.1)),
{
    let pieces = split_char(input, '=');
    if pieces.len() < 2 {
        return None;
    }
    assert(pieces.deep_view()[0] == pieces@[0]@);
    assert(pieces.deep_view()[1] == pieces@[1]@);
    match parse_level(pieces[1].as_str()) {
        Some(l) => {
            let path = pieces[0].clone();
            Some((path, l))
        },
        None => None,
    }
}

impl Filters {
    /// Parses a filter specification string: comma-separated tokens, each a
    /// `path=level` pair or a bare level naming the global minimum;
    /// malformed tokens are silently dropped.
    pub fn from_str(input: &str) -> (r: Filters)
        ensures
            r@ == parse_spec(input@),
    {
        let tokens = split_char(input, ',');
        let ghost ts = split_spec(input@, ',');
        let n = tokens.len();
        let mut mapping: Vec<(String, LevelFilter)> = Vec::new();
        let mut minimum: Option<LevelFilter> = None;
        let mut i: usize = 0;
        proof {
            assert(ts.take(0) =~= Seq::<Seq<char>>::empty());
            assert(pairs_view(mapping@) =~= pairs_of_tokens(ts.take(0)));
        }
        while i < n
            invariant
                0 <= i <= n == tokens@.len(),
                tokens.deep_view() == ts,
                pairs_view(mapping@) == pairs_of_tokens(ts.take(i as int)),
                minimum == min_of_tokens(ts.take(i as int)),
            decreases n - i,
        {
            let ghost prefix = ts.take(i as int);
            proof {
                assert(tokens.deep_view()[i as int] == tokens@[i as int]@);
                assert(ts.take(i + 1) =~= prefix.push(ts[i as int]));
                lemma_pairs_push(prefix, ts[i as int]);
                lemma_min_push(prefix, ts[i as int]);
            }
            let token = &tokens[i];
            match parse(token.as_str()) {
                Some(pair) => {
                    let ghost old_m = pairs_view(mapping@);
                    mapping.push(pair);
                    proof {
                        assert(pairs_view(mapping@) =~= old_m + seq![
                            (pair.0@, pair.1),
                        ]);
                    }
                },
                None => {
                    proof {
                        assert(pairs_of_tokens(prefix.push(ts[i as int])) =~= pairs_view(
                            mapping@,
                        ));
                    }
                },
            }
            if !contains_char(token.as_str(), '=') {
                match parse_level(token.as_str()) {
                    Some(l) => {
                        if !(l == LevelFilter::Off) {
                            minimum = Some(
                                match minimum {
                                    Some(m) => m.max(l),
                                    None => l,
                                },
                            );
                        }
                    },
                    None => {},
                }
            }
            i += 1;
        }
        proof {
            assert(ts.take(n as int) =~= ts);
        }
        let kind = if mapping.len() == 0 {
            FiltersKind::Default
        } else if mapping.len() < 15 {
            FiltersKind::List(mapping)
        } else {
            FiltersKind::Keyed(dedup_pairs(mapping))
        };
        let r = Filters { kind, minimum };
        proof {
            assert(r@.pairs =~= parse_spec(input@).pairs);
        }
        r
    }

    /// Exact lookup of `module` among the configured pairs.
    pub fn find_exact(&self, module: &str) -> (r: Option<LevelFilter>)
        ensures
            r == spec_find_exact(self@, module@),
    {
        match &self.kind {
            FiltersKind::Default => None,
            FiltersKind::List(v) => scan_pairs(v, module),
            FiltersKind::Keyed(v) => scan_pairs(v, module),
        }
    }

    /// Resolves `module` hierarchically: the exact path first, then each
    /// ancestor cut at a `::` separator from most to least specific, then
    /// the global minimum; an engine without entries resolves nothing.
    pub fn find_module(&self, module: &str) -> (r: Option<LevelFilter>)
        ensures
            r == spec_find_module(self@, module@),
    {
        proof {
            use_type_invariant(self);
        }
        match &self.kind {
            FiltersKind::Default => {
                return None;
            },
            _ => {},
        }
        if let Some(level) = self.find_exact(module) {
            return Some(level);
        }
        let ghost m = module@;
        let n = module.unicode_len();
        let mut i: usize = n;
        let mut last = false;
        while i > 0
            invariant
                m == module@,
                0 <= i <= n == m.len(),
                i >= 1 ==> last == last_state(m, i - 1),
                walk_from(self@, m, n - 1) == walk_from(self@, m, i - 1),
                spec_find_exact(self@, m) is None,
                self@.pairs.len() > 0,
            decreases i,
        {
            i -= 1;
            let ch = module.get_char(i);
            if last {
                last = false;
                if ch == ':' {
                    assert(cut_at(m, i as int));
                    let prefix = module.substring_char(0, i);
                    proof {
                        assert(prefix@ =~= m.take(i as int));
                    }
                    if let Some(level) = self.find_exact(prefix) {
                        return Some(level);
                    }
                } else {
                    assert(!cut_at(m, i as int));
                }
            } else {
                assert(!cut_at(m, i as int));
                if ch == ':' {
                    last = true;
                }
            }
            proof {
                if i >= 1 {
                    assert(last == last_state(m, i - 1));
                }
            }
        }
        self.minimum
    }

    /// Whether a record of severity `level` with module path `target` is
    /// enabled under this engine.
    pub fn is_enabled(&self, level: Level, target: &str) -> (r: bool)
        ensures
            r == spec_is_enabled(self@, level, target@),
    {
        match self.find_module(target) {
            Some(f) => level.passes(f),
            None => false,
        }
    }
}

/// The threshold of the first stored pair whose path equals `m`.
fn scan_pairs(v: &Vec<(String, LevelFilter)>, m: &str) -> (r: Option<LevelFilter>)
    ensures
        r == first_match(pairs_view(v@), m@),
{
    let n = v.len();
    let mut i: usize = 0;
    proof {
        assert(pairs_view(v@).skip(0) =~= pairs_view(v@));
    }
    while i < n
        invariant
            0 <= i <= n == v@.len(),
            first_match(pairs_view(v@), m@) == first_match(
                pairs_view(v@).skip(i as int),
                m@,
            ),
        decreases n - i,
    {
        let ghost rest = pairs_view(v@).skip(i as int);
        proof {
            assert(rest[0] == pairs_view(v@)[i as int]);
            assert(rest.drop_first() =~= pairs_view(v@).skip(i + 1));
        }
        if str_eq(v[i].0.as_str(), m) {
            return Some(v[i].1);
        }
        i += 1;
    }
    proof {
        assert(pairs_view(v@).skip(n as int) =~= Seq::<(Seq<char>, LevelFilter)>::empty());
    }
    None
}

/// Resolution consults only the configured entries at the module path itself
/// and at its `::`-cut ancestors, and the global minimum: two engines that
/// agree there resolve every record of that path alike. In particular an
/// entry configured for a strict descendant of a path never influences the
/// path's own resolution.
pub proof fn lemma_resolution_uses_ancestors_only(v1: FiltersV, v2: FiltersV, m: Seq<char>)
    requires
        (v1.pairs.len() == 0) == (v2.pairs.len() == 0),
        v1.minimum == v2.minimum,
        spec_find_exact(v1, m) == spec_find_exact(v2, m),
        forall|i: int| #[trigger]
            cut_at(m, i) ==> spec_find_exact(v1, m.take(i)) == spec_find_exact(v2, m.take(i)),
    ensures
        spec_find_module(v1, m) == spec_find_module(v2, m),
{
    lemma_walk_congruent(v1, v2, m, m.len() - 1);
}

/// The ancestor walk is determined by the lookups at cut prefixes alone.
proof fn lemma_walk_congruent(v1: FiltersV, v2: FiltersV, m: Seq<char>, i: int)
    requires
        forall|j: int| #[trigger]
            cut_at(m, j) ==> spec_find_exact(v1, m.take(j)) == spec_find_exact(v2, m.take(j)),
    ensures
        walk_from(v1, m, i) == walk_from(v2, m, i),
    decreases i + 1,
{
    if i >= 0 {
        lemma_walk_congruent(v1, v2, m, i - 1);
    }
}

/// Appending a pair leaves every lookup of another path unchanged, and a
/// lookup of its own path unchanged where one already matched.
proof fn lemma_first_match_push(
    ps: Seq<(Seq<char>, LevelFilter)>,
    p: (Seq<char>, LevelFilter),
    k: Seq<char>,
)
    ensures
        first_match(ps.push(p), k) == (match first_match(ps, k) {
            Some(l) => Some(l),
            None => if p.0 == k {
                Some(p.1)
            } else {
                None
            },
        }),
    decreases ps.len(),
{
    if ps.len() == 0 {
        reveal_with_fuel(first_match, 2);
        assert(ps.push(p)[0] == p);
        assert(ps.push(p).drop_first() =~= ps);
    } else {
        assert(ps.push(p)[0] == ps[0]);
        assert(ps.push(p).drop_first() =~= ps.drop_first().push(p));
        lemma_first_match_push(ps.drop_first(), p, k);
    }
}

/// A configured entry for a strict descendant of a module path never
/// affects that path's own resolution: matching runs in the ancestor
/// direction only. Adding an entry whose path is longer than `m` leaves
/// `m`'s resolution exactly as it was.
pub proof fn lemma_descendant_entry_never_consulted(
    v: FiltersV,
    e: (Seq<char>, LevelFilter),
    m: Seq<char>,
)
    requires
        v.pairs.len() > 0,
        e.0.len() > m.len(),
    ensures
        spec_find_module(FiltersV { pairs: v.pairs.push(e), minimum: v.minimum }, m)
            == spec_find_module(v, m),
{
    let v2 = FiltersV { pairs: v.pairs.push(e), minimum: v.minimum };
    lemma_first_match_push(v.pairs, e, m);
    assert forall|i: int| #[trigger]
        cut_at(m, i) implies spec_find_exact(v2, m.take(i)) == spec_find_exact(
        v,
        m.take(i),
    ) by {
        lemma_first_match_push(v.pairs, e, m.take(i));
        assert(m.take(i).len() < e.0.len());
    }
    lemma_resolution_uses_ancestors_only(v2, v, m);
}

/// Parsing is deterministic: any two engines built from the same
/// specification string enable exactly the same records.
pub proof fn lemma_parse_deterministic(s: Seq<char>, v1: FiltersV, v2: FiltersV)
    requires
        v1 == parse_spec(s),
        v2 == parse_spec(s),
    ensures
        forall|l: Level, m: Seq<char>| spec_is_enabled(v1, l, m) == spec_is_enabled(v2, l, m),
{
}

} // verus!
