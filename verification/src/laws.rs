//! Library-level properties of the filter and renamer engines, stated and
//! proved over their specification functions.

use vstd::prelude::*;

use crate::filters::{
    count_counters, spec_capture, spec_caps_from, spec_filter_parse, spec_filter_parse_from,
    spec_matches, spec_scan_end, WildcardKind,
};
use crate::renamer::{spec_render, spec_render_from};
use crate::text::{lemma_spec_find, spec_find, spec_i32_dec};

verus! {

/// A filter with no wildcard accepts exactly the one name that equals its
/// single literal.
pub proof fn lemma_literal_only_matches(lits: Seq<Seq<char>>, name: Seq<char>)
    requires
        lits.len() == 1,
    ensures
        spec_matches(lits, name) <==> name == lits[0],
{
}

/// A scan that finds no wildcard leaves one literal: the rest of the
/// string.
proof fn lemma_no_wildcards_single_literal(s: Seq<char>, w: char, i: int, seg: int)
    requires
        0 <= seg <= i <= s.len(),
        spec_filter_parse_from(s, w, i, seg).kinds.len() == 0,
    ensures
        spec_filter_parse_from(s, w, i, seg).lits =~= seq![s.subrange(seg, s.len() as int)],
    decreases s.len() - i,
{
    if i >= s.len() {
    } else if s[i] == w {
    } else if s[i] == '{' {
        match crate::filters::counter_auto(s, i + 1, 1, 0, 0) {
            Some(r) => {},
            None => {
                lemma_no_wildcards_single_literal(s, w, i + 1, seg);
            },
        }
    } else {
        lemma_no_wildcards_single_literal(s, w, i + 1, seg);
    }
}

/// A filter string that compiles to no wildcard accepts exactly one name:
/// the filter string itself.
pub proof fn lemma_literal_only_filter(s: Seq<char>, w: char, name: Seq<char>)
    requires
        spec_filter_parse(s, w).kinds.len() == 0,
    ensures
        spec_matches(spec_filter_parse(s, w).lits, name) <==> name == s,
{
    lemma_no_wildcards_single_literal(s, w, 0, 0);
    assert(s.subrange(0, s.len() as int) =~= s);
    lemma_literal_only_matches(spec_filter_parse(s, w).lits, name);
}

/// A filter with a single text wildcard between literals `a` and `b`
/// accepts exactly the names that start with `a`, end with `b`, and are
/// long enough to hold both without overlap.
pub proof fn lemma_single_wildcard_matches(a: Seq<char>, b: Seq<char>, name: Seq<char>)
    ensures
        spec_matches(seq![a, b], name) <==> (a.len() + b.len() <= name.len() && name.subrange(
            0,
            a.len() as int,
        ) == a && name.subrange(name.len() - b.len(), name.len() as int) == b),
{
    let lits = seq![a, b];
    assert(lits[0] == a);
    assert(lits[1] == b);
    assert(spec_scan_end(name, lits, 1, a.len() as int) == Some(a.len() as int));
}

/// On a name it accepts, a filter with a single text wildcard between
/// literals `a` and `b` captures everything strictly between the leading
/// `a` and the trailing `b`.
pub proof fn lemma_single_wildcard_capture(
    a: Seq<char>,
    b: Seq<char>,
    ctrs: Seq<(int, int)>,
    name: Seq<char>,
)
    requires
        spec_matches(seq![a, b], name),
    ensures
        spec_capture(seq![a, b], seq![WildcardKind::Text], ctrs, name) == Some(
            seq![name.subrange(a.len() as int, name.len() - b.len())],
        ),
{
    let lits = seq![a, b];
    let kinds = seq![WildcardKind::Text];
    lemma_single_wildcard_matches(a, b, name);
    let cap = name.subrange(a.len() as int, name.len() - b.len());
    assert(spec_caps_from(name, lits, kinds, ctrs, 1, name.len() as int, 0) == Some(Seq::<
        Seq<char>,
    >::empty()));
    assert(seq![cap] + Seq::<Seq<char>>::empty() =~= seq![cap]);
}

/// The number of captures equals the number of wildcards.
proof fn lemma_caps_from_len(
    name: Seq<char>,
    lits: Seq<Seq<char>>,
    kinds: Seq<WildcardKind>,
    ctrs: Seq<(int, int)>,
    i: int,
    pos: int,
    cj: int,
)
    requires
        0 <= i <= kinds.len(),
        spec_caps_from(name, lits, kinds, ctrs, i, pos, cj) is Some,
    ensures
        spec_caps_from(name, lits, kinds, ctrs, i, pos, cj).unwrap().len() == kinds.len() - i,
    decreases kinds.len() - i,
{
    if i < kinds.len() {
        let w = kinds.len() as int;
        let next_cj = if kinds[i] is Counter {
            cj + 1
        } else {
            cj
        };
        if i == w - 1 {
            lemma_caps_from_len(name, lits, kinds, ctrs, i + 1, name.len() as int, next_cj);
        } else {
            match spec_find(name, lits[i + 1], pos) {
                Some(m) => {
                    lemma_caps_from_len(name, lits, kinds, ctrs, i + 1, m + lits[i + 1].len(), next_cj);
                },
                None => {},
            }
        }
    }
}

/// What a counter wildcard captures, stated from any point of the capture
/// scan: the decimal rendering of the counter that the wildcard refers to,
/// whose index counts the counter wildcards before it.
proof fn lemma_caps_from_counter_slot(
    name: Seq<char>,
    lits: Seq<Seq<char>>,
    kinds: Seq<WildcardKind>,
    ctrs: Seq<(int, int)>,
    i: int,
    pos: int,
    cj: int,
    t: int,
)
    requires
        0 <= i <= t < kinds.len(),
        spec_caps_from(name, lits, kinds, ctrs, i, pos, cj) is Some,
        kinds[t] is Counter,
    ensures
        spec_caps_from(name, lits, kinds, ctrs, i, pos, cj).unwrap()[t - i] == spec_i32_dec(
            ctrs[cj + count_counters(kinds.subrange(i, t))].0,
        ),
    decreases t - i,
{
    let w = kinds.len() as int;
    let full = spec_caps_from(name, lits, kinds, ctrs, i, pos, cj);
    lemma_caps_from_len(name, lits, kinds, ctrs, i, pos, cj);
    let next_cj = if kinds[i] is Counter {
        cj + 1
    } else {
        cj
    };
    if i < w - 1 && spec_find(name, lits[i + 1], pos) is None {
        assert(full is None);
    }
    let next_pos = if i == w - 1 {
        name.len() as int
    } else {
        spec_find(name, lits[i + 1], pos).unwrap() + lits[i + 1].len()
    };
    let gap_end = if i == w - 1 {
        name.len() - lits[w].len()
    } else {
        spec_find(name, lits[i + 1], pos).unwrap()
    };
    let cap = if kinds[i] is Counter {
        spec_i32_dec(ctrs[cj].0)
    } else {
        name.subrange(pos, gap_end)
    };
    let rest = spec_caps_from(name, lits, kinds, ctrs, i + 1, next_pos, next_cj);
    assert(full == Some(seq![cap] + rest.unwrap()));
    if i == t {
        assert(full.unwrap()[0] == cap);
        assert(kinds.subrange(i, t) =~= Seq::<WildcardKind>::empty());
        assert(count_counters(Seq::<WildcardKind>::empty()) == 0);
    } else {
        lemma_caps_from_counter_slot(name, lits, kinds, ctrs, i + 1, next_pos, next_cj, t);
        assert((seq![cap] + rest.unwrap()).skip(1) =~= rest.unwrap());
        assert(full.unwrap().skip(1)[t - i - 1] == full.unwrap()[t - i]);
        assert(kinds.subrange(i, t)[0] == kinds[i]);
        assert(kinds.subrange(i, t).skip(1) =~= kinds.subrange(i + 1, t));
    }
}

/// Counter independence: the token a counter wildcard captures is the
/// decimal rendering of its counter's current value, whatever the matching
/// name. Two accepted names therefore see the same counter token, and the
/// counter's advance between captures depends only on its increment.
pub proof fn lemma_counter_capture_independent(
    lits: Seq<Seq<char>>,
    kinds: Seq<WildcardKind>,
    ctrs: Seq<(int, int)>,
    name1: Seq<char>,
    name2: Seq<char>,
    t: int,
)
    requires
        lits.len() == kinds.len() + 1,
        kinds.len() >= 1,
        spec_capture(lits, kinds, ctrs, name1) is Some,
        spec_capture(lits, kinds, ctrs, name2) is Some,
        0 <= t < kinds.len(),
        kinds[t] is Counter,
    ensures
        spec_capture(lits, kinds, ctrs, name1).unwrap()[t] == spec_i32_dec(
            ctrs[count_counters(kinds.take(t))].0,
        ),
        spec_capture(lits, kinds, ctrs, name1).unwrap()[t] == spec_capture(
            lits,
            kinds,
            ctrs,
            name2,
        ).unwrap()[t],
{
    assert(kinds.subrange(0, t) =~= kinds.take(t));
    lemma_caps_from_counter_slot(name1, lits, kinds, ctrs, 0, lits[0].len() as int, 0, t);
    lemma_caps_from_counter_slot(name2, lits, kinds, ctrs, 0, lits[0].len() as int, 0, t);
}

/// One step of the round trip: from any slot on, rendering the remaining
/// literals and captures of an all-text filter rebuilds the tail of the
/// name, starting just before the literal that precedes the slot.
proof fn lemma_round_trip_from(
    name: Seq<char>,
    lits: Seq<Seq<char>>,
    kinds: Seq<WildcardKind>,
    ctrs: Seq<(int, int)>,
    caps_all: Seq<Seq<char>>,
    order: Seq<int>,
    i: int,
    pos: int,
    cj: int,
)
    requires
        lits.len() == kinds.len() + 1,
        kinds.len() >= 1,
        forall|j: int| 0 <= j < kinds.len() ==> #[trigger] kinds[j] is Text,
        order.len() == kinds.len(),
        forall|j: int| 0 <= j < order.len() ==> #[trigger] order[j] == j,
        0 <= i < kinds.len(),
        lits[i].len() <= pos <= name.len(),
        name.subrange(pos - lits[i].len(), pos) == lits[i],
        name.len() >= lits[kinds.len() as int].len(),
        name.subrange(name.len() - lits[kinds.len() as int].len(), name.len() as int)
            == lits[kinds.len() as int],
        spec_caps_from(name, lits, kinds, ctrs, i, pos, cj) == Some(caps_all.skip(i)),
        caps_all.len() == kinds.len(),
    ensures
        spec_render_from(lits, order, caps_all, i) == Some(
            name.subrange(pos - lits[i].len(), name.len() as int),
        ),
    decreases kinds.len() - i,
{
    let w = kinds.len() as int;
    if i == w - 1 {
        let gap_end = name.len() - lits[w].len();
        let cap = name.subrange(pos, gap_end);
        assert(kinds[i] is Text);
        let rest = spec_caps_from(name, lits, kinds, ctrs, w, name.len() as int, cj);
        assert(rest == Some(Seq::<Seq<char>>::empty()));
        assert(spec_caps_from(name, lits, kinds, ctrs, i, pos, cj) == Some(seq![cap]
            + rest.unwrap()));
        assert(caps_all.skip(i) == seq![cap] + rest.unwrap());
        assert(caps_all.skip(i)[0] == cap);
        assert(caps_all[i] == caps_all.skip(i)[0]);
        assert(spec_render_from(lits, order, caps_all, i + 1) == Some(lits[w]));
        assert(lits[i] + cap + lits[w] =~= name.subrange(pos - lits[i].len(), name.len() as int));
    } else {
        match spec_find(name, lits[i + 1], pos) {
            Some(m) => {
                lemma_spec_find(name, lits[i + 1], pos);
                let cap = name.subrange(pos, m);
                let next_pos = m + lits[i + 1].len();
                let next_cj = cj;
                let rest = spec_caps_from(name, lits, kinds, ctrs, i + 1, next_pos, next_cj);
                assert(caps_all.skip(i) == seq![cap] + rest.unwrap());
                assert(caps_all[i] == (seq![cap] + rest.unwrap())[0]);
                assert(caps_all.skip(i + 1) =~= caps_all.skip(i).skip(1));
                assert(caps_all.skip(i).skip(1) =~= rest.unwrap());
                lemma_round_trip_from(
                    name,
                    lits,
                    kinds,
                    ctrs,
                    caps_all,
                    order,
                    i + 1,
                    next_pos,
                    next_cj,
                );
                assert(lits[i] + cap + name.subrange(m, name.len() as int) =~= name.subrange(
                    pos - lits[i].len(),
                    name.len() as int,
                ));
            },
            None => {
                assert(false);
            },
        }
    }
}

/// Render round-trip: a template whose literals equal those of an all-text
/// filter, with one sequential slot per wildcard, rebuilds every accepted
/// name from the captures that the filter extracts from it.
pub proof fn lemma_render_round_trip(
    lits: Seq<Seq<char>>,
    kinds: Seq<WildcardKind>,
    ctrs: Seq<(int, int)>,
    order: Seq<int>,
    name: Seq<char>,
)
    requires
        lits.len() == kinds.len() + 1,
        forall|j: int| 0 <= j < kinds.len() ==> #[trigger] kinds[j] is Text,
        order.len() == kinds.len(),
        forall|j: int| 0 <= j < order.len() ==> #[trigger] order[j] == j,
        spec_matches(lits, name),
        spec_capture(lits, kinds, ctrs, name) is Some,
    ensures
        spec_render(lits, order, spec_capture(lits, kinds, ctrs, name).unwrap()) == Some(name),
{
    let w = kinds.len() as int;
    if w == 0 {
        assert(spec_render_from(lits, order, spec_capture(lits, kinds, ctrs, name).unwrap(), 0)
            == Some(lits[0]));
    } else {
        let caps_all = spec_capture(lits, kinds, ctrs, name).unwrap();
        lemma_caps_from_len(name, lits, kinds, ctrs, 0, lits[0].len() as int, 0);
        assert(caps_all.skip(0) =~= caps_all);
        crate::filters::lemma_scan_end_ge(name, lits, 1, lits[0].len() as int);
        lemma_round_trip_from(
            name,
            lits,
            kinds,
            ctrs,
            caps_all,
            order,
            0,
            lits[0].len() as int,
            0,
        );
        assert(name.subrange(0 - 0 + lits[0].len() - lits[0].len(), name.len() as int)
            =~= name);
    }
}

} // verus!
