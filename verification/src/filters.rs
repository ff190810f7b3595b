//! The filter engine: compiles a filter string into literal segments and
//! wildcards, decides whether a filename matches, and extracts the captured
//! token for each wildcard.
//!
//! Matching is non-greedy: each intermediate literal is located at its
//! leftmost occurrence after the previous one, so text wildcards take the
//! shortest span at the left edge of each gap. The first literal anchors the
//! start of the name and the last literal anchors its end.

use vstd::pervasive::VecAdditionalExecFns;
use vstd::prelude::*;

use crate::text::{
    dec_digit, digit_val, find_from, i32_dec, is_dec_digit, lemma_spec_find, sat_acc, sat_acc_i32,
    spec_find, spec_i32_dec, str_eq, sub_eq_at,
};

verus! {

/// Stateful integer generator. Advancing yields the pre-advance value and
/// then adds `increment` (wrapping on overflow, so it never panics).
#[derive(Clone, Copy, Debug)]
pub struct Counter {
    pub counter: i32,
    pub increment: i32,
}

impl Counter {
    pub fn new(counter: i32, increment: i32) -> (c: Counter)
        ensures
            c.counter == counter,
            c.increment == increment,
    {
        Counter { counter, increment }
    }

    /// Returns the current value and advances by the increment.
    pub fn count(&mut self) -> (value: i32)
        ensures
            value == old(self).counter,
            *final(self) == spec_advance(*old(self)),
    {
        let value = self.counter;
        self.counter = self.counter.wrapping_add(self.increment);
        value
    }
}

/// The state of a counter after one advance.
pub open spec fn spec_advance(c: Counter) -> Counter {
    Counter {
        counter: vstd::wrapping::i32_specs::wrapping_add(c.counter, c.increment),
        increment: c.increment,
    }
}

/// What a wildcard slot captures: text from the filename, or the next value
/// of an embedded counter.
#[derive(Clone, Copy, Debug, PartialEq, Eq)]
pub enum WildcardKind {
    Text,
    Counter,
}

/// The counter form `{ start : increment }`, scanned one character at a time
/// starting just after the opening brace. Returns the index of the closing
/// brace together with the two parsed numbers, or `None` when the form is
/// malformed. Digit accumulation saturates at `i32::MAX`.
pub open spec fn counter_auto(
    s: Seq<char>,
    i: int,
    state: int,
    start: int,
    inc: int,
) -> Option<(int, int, int)>
    decreases s.len() - i,
{
    if i < 0 || i >= s.len() {
        None
    } else {
        let c = s[i];
        if state == 1 {
            if c == ' ' {
                counter_auto(s, i + 1, 1, start, inc)
            } else if is_dec_digit(c) {
                counter_auto(s, i + 1, 2, digit_val(c), inc)
            } else {
                None
            }
        } else if state == 2 {
            if is_dec_digit(c) {
                counter_auto(s, i + 1, 2, sat_acc(start, digit_val(c)), inc)
            } else if c == ' ' {
                counter_auto(s, i + 1, 3, start, inc)
            } else if c == ':' {
                counter_auto(s, i + 1, 4, start, inc)
            } else {
                None
            }
        } else if state == 3 {
            if c == ' ' {
                counter_auto(s, i + 1, 3, start, inc)
            } else if c == ':' {
                counter_auto(s, i + 1, 4, start, inc)
            } else {
                None
            }
        } else if state == 4 {
            if c == ' ' {
                counter_auto(s, i + 1, 4, start, inc)
            } else if is_dec_digit(c) {
                counter_auto(s, i + 1, 5, start, digit_val(c))
            } else {
                None
            }
        } else if state == 5 {
            if is_dec_digit(c) {
                counter_auto(s, i + 1, 5, start, sat_acc(inc, digit_val(c)))
            } else if c == ' ' {
                counter_auto(s, i + 1, 6, start, inc)
            } else if c == '}' {
                Some((i, start, inc))
            } else {
                None
            }
        } else if state == 6 {
            if c == ' ' {
                counter_auto(s, i + 1, 6, start, inc)
            } else if c == '}' {
                Some((i, start, inc))
            } else {
                None
            }
        } else {
            None
        }
    }
}

/// A successful run of the counter automaton ends at a closing brace inside
/// the string, to the right of where it started.
pub proof fn lemma_counter_auto_bounds(s: Seq<char>, i: int, state: int, start: int, inc: int)
    ensures
        match counter_auto(s, i, state, start, inc) {
            Some(r) => i <= r.0 < s.len() && s[r.0] == '}' && r.1 >= 0 && r.2 >= 0 || !(start >= 0
                && inc >= 0),
            None => true,
        },
    decreases s.len() - i,
{
    if i < 0 || i >= s.len() {
    } else {
        lemma_counter_auto_bounds(s, i + 1, 1, start, inc);
        lemma_counter_auto_bounds(s, i + 1, 2, digit_val(s[i]), inc);
        lemma_counter_auto_bounds(s, i + 1, 2, sat_acc(start, digit_val(s[i])), inc);
        lemma_counter_auto_bounds(s, i + 1, 3, start, inc);
        lemma_counter_auto_bounds(s, i + 1, 4, start, inc);
        lemma_counter_auto_bounds(s, i + 1, 5, start, digit_val(s[i]));
        lemma_counter_auto_bounds(s, i + 1, 5, start, sat_acc(inc, digit_val(s[i])));
        lemma_counter_auto_bounds(s, i + 1, 6, start, inc);
    }
}

/// The compiled form of a filter string: literal segments, the wildcard
/// between each pair of neighbouring segments, and the counters in order.
pub ghost struct FilterParts {
    pub lits: Seq<Seq<char>>,
    pub kinds: Seq<WildcardKind>,
    pub counters: Seq<(int, int)>,
}

/// How many counter wildcards a kind sequence holds.
pub open spec fn count_counters(kinds: Seq<WildcardKind>) -> int
    decreases kinds.len(),
{
    if kinds.len() == 0 {
        0
    } else {
        (if kinds[0] is Counter {
            1int
        } else {
            0int
        }) + count_counters(kinds.skip(1))
    }
}

/// Scanning a filter string left to right from position `i`, with the
/// current literal segment having started at `seg`: a wildcard character
/// ends the segment and records a text wildcard; a well-formed counter form
/// ends the segment and records a counter wildcard; anything else, including
/// a malformed counter form, stays literal text.
pub open spec fn spec_filter_parse_from(s: Seq<char>, w: char, i: int, seg: int) -> FilterParts
    decreases s.len() - i,
    when 0 <= seg <= i <= s.len()
{
    if i >= s.len() {
        FilterParts {
            lits: seq![s.subrange(seg, s.len() as int)],
            kinds: seq![],
            counters: seq![],
        }
    } else if s[i] == w {
        let rest = spec_filter_parse_from(s, w, i + 1, i + 1);
        FilterParts {
            lits: seq![s.subrange(seg, i)] + rest.lits,
            kinds: seq![WildcardKind::Text] + rest.kinds,
            counters: rest.counters,
        }
    } else if s[i] == '{' {
        match counter_auto(s, i + 1, 1, 0, 0) {
            Some(r) => {
                proof {
                    lemma_counter_auto_bounds(s, i + 1, 1, 0, 0);
                }
                let rest = spec_filter_parse_from(s, w, r.0 + 1, r.0 + 1);
                FilterParts {
                    lits: seq![s.subrange(seg, i)] + rest.lits,
                    kinds: seq![WildcardKind::Counter] + rest.kinds,
                    counters: seq![(r.1, r.2)] + rest.counters,
                }
            },
            None => spec_filter_parse_from(s, w, i + 1, seg),
        }
    } else {
        spec_filter_parse_from(s, w, i + 1, seg)
    }
}

/// The compiled form of a whole filter string.
pub open spec fn spec_filter_parse(s: Seq<char>, w: char) -> FilterParts {
    spec_filter_parse_from(s, w, 0, 0)
}

/// Structure of the compiled form: one more literal than wildcards, and one
/// counter per counter wildcard.
pub proof fn lemma_filter_parse_wf(s: Seq<char>, w: char, i: int, seg: int)
    requires
        0 <= seg <= i <= s.len(),
    ensures
        spec_filter_parse_from(s, w, i, seg).lits.len() == spec_filter_parse_from(
            s,
            w,
            i,
            seg,
        ).kinds.len() + 1,
        spec_filter_parse_from(s, w, i, seg).counters.len() == count_counters(
            spec_filter_parse_from(s, w, i, seg).kinds,
        ),
    decreases s.len() - i,
{
    if i >= s.len() {
    } else if s[i] == w {
        lemma_filter_parse_wf(s, w, i + 1, i + 1);
        let rest = spec_filter_parse_from(s, w, i + 1, i + 1);
        assert((seq![WildcardKind::Text] + rest.kinds).skip(1) =~= rest.kinds);
    } else if s[i] == '{' {
        match counter_auto(s, i + 1, 1, 0, 0) {
            Some(r) => {
                lemma_counter_auto_bounds(s, i + 1, 1, 0, 0);
                lemma_filter_parse_wf(s, w, r.0 + 1, r.0 + 1);
                let rest = spec_filter_parse_from(s, w, r.0 + 1, r.0 + 1);
                assert((seq![WildcardKind::Counter] + rest.kinds).skip(1) =~= rest.kinds);
            },
            None => {
                lemma_filter_parse_wf(s, w, i + 1, seg);
            },
        }
    } else {
        lemma_filter_parse_wf(s, w, i + 1, seg);
    }
}

/// Runs the counter automaton over the string, starting just after the
/// opening brace at `open_index`.
fn find_counter_automata(s: &str, open_index: usize) -> (r: Option<(usize, i32, i32)>)
    requires
        open_index < s@.len(),
    ensures
        match r {
            Some(t) => counter_auto(s@, open_index + 1, 1, 0, 0) == Some(
                (t.0 as int, t.1 as int, t.2 as int),
            ) && open_index < t.0 < s@.len() && t.1 >= 0 && t.2 >= 0,
            None => counter_auto(s@, open_index + 1, 1, 0, 0) is None,
        },
{
    let len = s.unicode_len();
    let mut i: usize = open_index + 1;
    let mut state: u8 = 1;
    let mut start: i32 = 0;
    let mut inc: i32 = 0;
    loop
        invariant
            open_index + 1 <= i,
            len == s@.len(),
            open_index < len,
            1 <= state <= 6,
            start >= 0,
            inc >= 0,
            counter_auto(s@, open_index + 1, 1, 0, 0) == counter_auto(
                s@,
                i as int,
                state as int,
                start as int,
                inc as int,
            ),
        decreases len - i,
    {
        if i >= len {
            return None;
        }
        let c = s.get_char(i);
        if state == 1 {
            if c == ' ' {
            } else if let Some(d) = dec_digit(c) {
                start = d as i32;
                state = 2;
            } else {
                return None;
            }
        } else if state == 2 {
            if let Some(d) = dec_digit(c) {
                start = sat_acc_i32(start, d);
            } else if c == ' ' {
                state = 3;
            } else if c == ':' {
                state = 4;
            } else {
                return None;
            }
        } else if state == 3 {
            if c == ' ' {
            } else if c == ':' {
                state = 4;
            } else {
                return None;
            }
        } else if state == 4 {
            if c == ' ' {
            } else if let Some(d) = dec_digit(c) {
                inc = d as i32;
                state = 5;
            } else {
                return None;
            }
        } else if state == 5 {
            if let Some(d) = dec_digit(c) {
                inc = sat_acc_i32(inc, d);
            } else if c == ' ' {
                state = 6;
            } else if c == '}' {
                proof {
                    lemma_counter_auto_bounds(s@, open_index + 1, 1, 0, 0);
                }
                return Some((i, start, inc));
            } else {
                return None;
            }
        } else {
            if c == ' ' {
            } else if c == '}' {
                proof {
                    lemma_counter_auto_bounds(s@, open_index + 1, 1, 0, 0);
                }
                return Some((i, start, inc));
            } else {
                return None;
            }
        }
        i += 1;
    }
}

/// A compiled filter pattern: the literal segments of the filter string, the
/// kind of each wildcard between them, and the counters backing the counter
/// wildcards, in order of appearance.
pub struct RenameFilter {
    pub string_representation: String,
    pub fixed_str: Vec<String>,
    pub counters: Vec<Counter>,
    pub wildcard_type: Vec<WildcardKind>,
}

impl RenameFilter {
    /// The literal segments as character sequences.
    pub open spec fn lits(&self) -> Seq<Seq<char>> {
        self.fixed_str@.map_values(|t: String| t@)
    }

    /// The wildcard kinds.
    pub open spec fn kinds(&self) -> Seq<WildcardKind> {
        self.wildcard_type@
    }

    /// Counter states as plain value pairs.
    pub open spec fn counter_view(&self) -> Seq<(int, int)> {
        self.counters@.map_values(|c: Counter| (c.counter as int, c.increment as int))
    }

    /// Structural invariant: one more literal than wildcards, and exactly
    /// one counter per counter wildcard.
    pub open spec fn wf(&self) -> bool {
        &&& self.lits().len() == self.kinds().len() + 1
        &&& self.counters@.len() == count_counters(self.kinds())
    }

    /// Compiles a filter string. Every character is literal text except the
    /// wildcard character and well-formed `{start:increment}` counter forms;
    /// a malformed counter form stays literal text.
    pub fn new(string_representation: String, wildcard_char: char) -> (rf: RenameFilter)
        ensures
            rf.string_representation == string_representation,
            rf.lits() == spec_filter_parse(string_representation@, wildcard_char).lits,
            rf.kinds() == spec_filter_parse(string_representation@, wildcard_char).kinds,
            rf.counter_view() == spec_filter_parse(string_representation@, wildcard_char).counters,
            rf.wf(),
    {
        let ghost target = spec_filter_parse(string_representation@, wildcard_char);
        let mut fixed_str: Vec<String> = Vec::new();
        let mut counters: Vec<Counter> = Vec::new();
        let mut wildcard_type: Vec<WildcardKind> = Vec::new();

        let s = string_representation.as_str();
        let len = s.unicode_len();
        let mut start_index: usize = 0;
        let mut end_index: usize = 0;
        while end_index < len
            invariant
                0 <= start_index <= end_index <= len,
                len == s@.len(),
                s@ == string_representation@,
                target == spec_filter_parse(string_representation@, wildcard_char),
                target.lits =~= fixed_str@.map_values(|t: String| t@) + spec_filter_parse_from(
                    s@,
                    wildcard_char,
                    end_index as int,
                    start_index as int,
                ).lits,
                target.kinds =~= wildcard_type@ + spec_filter_parse_from(
                    s@,
                    wildcard_char,
                    end_index as int,
                    start_index as int,
                ).kinds,
                target.counters =~= counters@.map_values(
                    |c: Counter| (c.counter as int, c.increment as int),
                ) + spec_filter_parse_from(
                    s@,
                    wildcard_char,
                    end_index as int,
                    start_index as int,
                ).counters,
            decreases len - end_index,
        {
            let ghost rest = spec_filter_parse_from(
                s@,
                wildcard_char,
                end_index as int,
                start_index as int,
            );
            let ghost prev_lits = fixed_str@.map_values(|t: String| t@);
            let ghost prev_counters = counters@.map_values(
                |c: Counter| (c.counter as int, c.increment as int),
            );
            let ghost lit_view = s@.subrange(start_index as int, end_index as int);
            let c = s.get_char(end_index);
            if c == wildcard_char {
                let lit = String::from_str(s.substring_char(start_index, end_index));
                fixed_str.push(lit);
                wildcard_type.push(WildcardKind::Text);
                start_index = end_index + 1;
                end_index = end_index + 1;
                proof {
                    assert(fixed_str@.map_values(|t: String| t@) =~= prev_lits + seq![lit_view]);
                }
            } else if c == '{' {
                match find_counter_automata(s, end_index) {
                    Some((close_index, counter_start, counter_increment)) => {
                        let lit = String::from_str(s.substring_char(start_index, end_index));
                        fixed_str.push(lit);
                        counters.push(Counter::new(counter_start, counter_increment));
                        wildcard_type.push(WildcardKind::Counter);
                        start_index = close_index + 1;
                        end_index = close_index + 1;
                        proof {
                            assert(fixed_str@.map_values(|t: String| t@) =~= prev_lits + seq![
                                lit_view,
                            ]);
                            assert(counters@.map_values(
                                |c: Counter| (c.counter as int, c.increment as int),
                            ) =~= prev_counters + seq![
                                (counter_start as int, counter_increment as int),
                            ]);
                        }
                    },
                    None => {
                        end_index += 1;
                    },
                }
            } else {
                end_index += 1;
            }
        }
        let ghost prev_lits = fixed_str@.map_values(|t: String| t@);
        let last = String::from_str(s.substring_char(start_index, end_index));
        fixed_str.push(last);
        proof {
            assert(fixed_str@.map_values(|t: String| t@) =~= prev_lits + seq![
                s@.subrange(start_index as int, end_index as int),
            ]);
            assert(target.lits =~= fixed_str@.map_values(|t: String| t@));
            lemma_filter_parse_wf(string_representation@, wildcard_char, 0, 0);
        }
        RenameFilter { string_representation, fixed_str, counters, wildcard_type }
    }

    pub fn get_fixed_str(&self) -> (r: Vec<String>)
        ensures
            r@.map_values(|t: String| t@) == self.lits(),
    {
        self.fixed_str.clone()
    }

    /// Whether the filename matches this pattern: it must start with the
    /// first literal, end with the last one, and contain every intermediate
    /// literal in order, each at its leftmost occurrence after the previous
    /// match.
    pub fn does_fulfill(&self, filename: &str) -> (r: bool)
        requires
            self.wf(),
        ensures
            r == spec_matches(self.lits(), filename@),
    {
        let ghost lits = self.lits();
        let name_len = filename.unicode_len();
        let n = self.fixed_str.len();
        let w = n - 1;
        if w == 0 {
            return str_eq(filename, self.fixed_str[0].as_str());
        }
        let first_len = self.fixed_str[0].unicode_len();
        if first_len > name_len {
            return false;
        }
        if !sub_eq_at(filename, 0, self.fixed_str[0].as_str()) {
            return false;
        }
        let mut pos: usize = first_len;
        let mut k: usize = 1;
        while k < w
            invariant
                1 <= k <= w,
                w == lits.len() - 1,
                self.wf(),
                lits == self.lits(),
                name_len == filename@.len(),
                pos <= name_len,
                spec_scan_end(filename@, lits, 1, lits[0].len() as int) == spec_scan_end(
                    filename@,
                    lits,
                    k as int,
                    pos as int,
                ),
            decreases w - k,
        {
            match find_from(filename, self.fixed_str[k].as_str(), pos) {
                Some(m) => {
                    proof {
                        crate::text::lemma_spec_find(filename@, lits[k as int], pos as int);
                    }
                    pos = m + self.fixed_str[k].unicode_len();
                },
                None => {
                    return false;
                },
            }
            k += 1;
        }
        let last_len = self.fixed_str[w].unicode_len();
        if last_len > name_len || pos > name_len - last_len {
            return false;
        }
        sub_eq_at(filename, name_len - last_len, self.fixed_str[w].as_str())
    }

    /// Extracts the captured token of every wildcard from a matching
    /// filename: the text between neighbouring literal matches for a text
    /// wildcard, the decimal rendering of the counter's next value for a
    /// counter wildcard. Every counter advances exactly once per matching
    /// filename; a non-matching filename yields an empty list and leaves
    /// the counters untouched.
    pub fn collect_wildcards(&mut self, filename: &str) -> (r: Vec<String>)
        requires
            old(self).wf(),
        ensures
            final(self).wf(),
            final(self).string_representation == old(self).string_representation,
            final(self).fixed_str == old(self).fixed_str,
            final(self).wildcard_type == old(self).wildcard_type,
            spec_matches(old(self).lits(), filename@) ==> Some(r@.map_values(|t: String| t@))
                == spec_capture(
                old(self).lits(),
                old(self).kinds(),
                old(self).counter_view(),
                filename@,
            ) && final(self).counters@ == old(self).counters@.map_values(
                |c: Counter| spec_advance(c),
            ),
            !spec_matches(old(self).lits(), filename@) ==> r@.len() == 0 && final(self).counters@
                == old(self).counters@,
    {
        let ghost lits = old(self).lits();
        let ghost kinds0 = old(self).kinds();
        let ghost ctrs0 = old(self).counter_view();
        if self.wildcard_type.len() == 0 {
            proof {
                assert(self.counters@.map_values(|c: Counter| spec_advance(c)) =~= self.counters@);
            }
            let r: Vec<String> = Vec::new();
            proof {
                assert(r@.map_values(|t: String| t@) =~= Seq::<Seq<char>>::empty());
            }
            return r;
        }
        if !self.does_fulfill(filename) {
            let r: Vec<String> = Vec::new();
            return r;
        }
        proof {
            lemma_scan_caps(filename@, lits, kinds0, ctrs0, 0, lits[0].len() as int, 0);
        }
        let name_len = filename.unicode_len();
        let w = self.wildcard_type.len();
        let mut caught: Vec<String> = Vec::new();
        let mut pos: usize = self.fixed_str[0].unicode_len();
        let mut cj: usize = 0;
        let mut i: usize = 0;
        proof {
            assert(kinds0.take(0) =~= Seq::<WildcardKind>::empty());
            assert(caught@.map_values(|t: String| t@) =~= Seq::<Seq<char>>::empty());
            assert(Seq::<Seq<char>>::empty() + spec_caps_from(
                filename@,
                lits,
                kinds0,
                ctrs0,
                0,
                pos as int,
                0,
            ).unwrap() =~= spec_caps_from(
                filename@,
                lits,
                kinds0,
                ctrs0,
                0,
                pos as int,
                0,
            ).unwrap());
        }
        while i < w
            invariant
                0 <= i <= w,
                w == kinds0.len(),
                lits.len() == w + 1,
                lits == old(self).lits(),
                kinds0 == old(self).kinds(),
                ctrs0 == old(self).counter_view(),
                self.fixed_str == old(self).fixed_str,
                self.wildcard_type == old(self).wildcard_type,
                self.string_representation == old(self).string_representation,
                self.counters@.len() == old(self).counters@.len(),
                old(self).wf(),
                name_len == filename@.len(),
                pos <= name_len,
                cj == count_counters(kinds0.take(i as int)),
                cj <= self.counters@.len(),
                forall|j: int|
                    cj <= j < self.counters@.len() ==> self.counters@[j] == old(
                        self,
                    ).counters@[j],
                forall|j: int|
                    0 <= j < cj ==> self.counters@[j] == spec_advance(old(self).counters@[j]),
                spec_caps_from(filename@, lits, kinds0, ctrs0, i as int, pos as int, cj as int)
                    is Some,
                spec_caps_from(filename@, lits, kinds0, ctrs0, 0, lits[0].len() as int, 0)
                    == Some(
                    caught@.map_values(|t: String| t@) + spec_caps_from(
                        filename@,
                        lits,
                        kinds0,
                        ctrs0,
                        i as int,
                        pos as int,
                        cj as int,
                    ).unwrap(),
                ),
            decreases w - i,
        {
            let ghost rest = spec_caps_from(
                filename@,
                lits,
                kinds0,
                ctrs0,
                i as int,
                pos as int,
                cj as int,
            );
            let ghost prev_caps = caught@.map_values(|t: String| t@);
            let gap_end: usize;
            let next_pos: usize;
            if i == w - 1 {
                let last_len = self.fixed_str[w].unicode_len();
                gap_end = name_len - last_len;
                next_pos = name_len;
            } else {
                match find_from(filename, self.fixed_str[i + 1].as_str(), pos) {
                    Some(m) => {
                        proof {
                            lemma_spec_find(filename@, lits[i + 1], pos as int);
                        }
                        gap_end = m;
                        next_pos = m + self.fixed_str[i + 1].unicode_len();
                    },
                    None => {
                        proof {
                            assert(false);
                        }
                        gap_end = 0;
                        next_pos = 0;
                    },
                }
            }
            let cap: String;
            match self.wildcard_type[i] {
                WildcardKind::Counter => {
                    let n_ctrs = self.counters.len();
                    proof {
                        lemma_count_split(kinds0, i as int);
                        assert(kinds0.skip(i as int)[0] == kinds0[i as int]);
                        assert(kinds0.skip(i as int).skip(1) =~= kinds0.skip(i as int + 1));
                        lemma_count_nonneg(kinds0.skip(i as int + 1));
                        assert(count_counters(kinds0) >= cj + 1);
                        assert(cj < n_ctrs);
                    }
                    let mut ctr = self.counters[cj];
                    let value = ctr.count();
                    self.counters.set(cj, ctr);
                    cap = i32_dec(value);
                    cj += 1;
                },
                WildcardKind::Text => {
                    cap = String::from_str(filename.substring_char(pos, gap_end));
                },
            }
            caught.push(cap);
            proof {
                lemma_count_push(kinds0.take(i as int), kinds0[i as int]);
                assert(kinds0.take(i as int).push(kinds0[i as int]) =~= kinds0.take(i as int + 1));
                let next_rest = spec_caps_from(
                    filename@,
                    lits,
                    kinds0,
                    ctrs0,
                    i as int + 1,
                    next_pos as int,
                    cj as int,
                );
                assert(rest == Some(seq![cap@] + next_rest.unwrap()));
                assert(caught@.map_values(|t: String| t@) =~= prev_caps + seq![cap@]);
                assert(prev_caps + (seq![cap@] + next_rest.unwrap()) =~= (prev_caps + seq![cap@])
                    + next_rest.unwrap());
            }
            pos = next_pos;
            i += 1;
        }
        proof {
            assert(kinds0.take(w as int) =~= kinds0);
            assert(spec_caps_from(filename@, lits, kinds0, ctrs0, w as int, pos as int, cj as int)
                == Some(Seq::<Seq<char>>::empty()));
            assert(caught@.map_values(|t: String| t@) + Seq::<Seq<char>>::empty()
                =~= caught@.map_values(|t: String| t@));
            assert(self.counters@ =~= old(self).counters@.map_values(
                |c: Counter| spec_advance(c),
            ));
        }
        caught
    }
}

impl Default for RenameFilter {
    /// An empty filter: no text, no literals, no wildcards, no counters.
    fn default() -> (d: RenameFilter)
        ensures
            d.string_representation@ == Seq::<char>::empty(),
            d.fixed_str@ == Seq::<String>::empty(),
            d.counters@ == Seq::<Counter>::empty(),
            d.wildcard_type@ == Seq::<WildcardKind>::empty(),
    {
        RenameFilter {
            string_representation: String::new(),
            fixed_str: Vec::new(),
            counters: Vec::new(),
            wildcard_type: Vec::new(),
        }
    }
}

/// End position after locating the intermediate literals `lits[k..W]`, each
/// at its leftmost occurrence at or after the end of the previous one,
/// starting the search at `pos`. `None` when some literal does not occur.
pub open spec fn spec_scan_end(name: Seq<char>, lits: Seq<Seq<char>>, k: int, pos: int) -> Option<
    int,
>
    decreases lits.len() - k,
{
    if k >= lits.len() - 1 {
        Some(pos)
    } else {
        match spec_find(name, lits[k], pos) {
            Some(m) => spec_scan_end(name, lits, k + 1, m + lits[k].len()),
            None => None,
        }
    }
}

/// Counters never count negatively many wildcards.
pub proof fn lemma_count_nonneg(kinds: Seq<WildcardKind>)
    ensures
        count_counters(kinds) >= 0,
    decreases kinds.len(),
{
    if kinds.len() > 0 {
        lemma_count_nonneg(kinds.skip(1));
    }
}

/// Appending one wildcard adds its contribution to the counter count.
pub proof fn lemma_count_push(kinds: Seq<WildcardKind>, x: WildcardKind)
    ensures
        count_counters(kinds.push(x)) == count_counters(kinds) + (if x is Counter {
            1int
        } else {
            0int
        }),
    decreases kinds.len(),
{
    if kinds.len() == 0 {
        assert(kinds.push(x).skip(1) =~= Seq::<WildcardKind>::empty());
        assert(count_counters(Seq::<WildcardKind>::empty()) == 0);
        assert(kinds.push(x)[0] == x);
    } else {
        lemma_count_push(kinds.skip(1), x);
        assert(kinds.push(x).skip(1) =~= kinds.skip(1).push(x));
        assert(kinds.push(x)[0] == kinds[0]);
    }
}

/// The counter count splits across any cut of the kind sequence.
pub proof fn lemma_count_split(kinds: Seq<WildcardKind>, i: int)
    requires
        0 <= i <= kinds.len(),
    ensures
        count_counters(kinds) == count_counters(kinds.take(i)) + count_counters(kinds.skip(i)),
    decreases i,
{
    if i == 0 {
        assert(kinds.take(0) =~= Seq::<WildcardKind>::empty());
        assert(kinds.skip(0) =~= kinds);
    } else {
        lemma_count_split(kinds, i - 1);
        assert(kinds.take(i) =~= kinds.take(i - 1).push(kinds[i - 1]));
        lemma_count_push(kinds.take(i - 1), kinds[i - 1]);
        assert(kinds.skip(i - 1)[0] == kinds[i - 1]);
        assert(kinds.skip(i - 1).skip(1) =~= kinds.skip(i));
    }
}

/// The captured tokens for wildcards `i..W`, where the literal before
/// wildcard `i` has been matched ending at position `pos` and `cj` counters
/// have been consumed so far. A text wildcard captures the span of the name
/// up to the next literal match (or up to the final literal, anchored at the
/// end of the name); a counter wildcard captures the decimal rendering of
/// its counter's current value.
pub open spec fn spec_caps_from(
    name: Seq<char>,
    lits: Seq<Seq<char>>,
    kinds: Seq<WildcardKind>,
    ctrs: Seq<(int, int)>,
    i: int,
    pos: int,
    cj: int,
) -> Option<Seq<Seq<char>>>
    recommends
        lits.len() == kinds.len() + 1,
    decreases kinds.len() - i,
{
    if i < 0 || i >= kinds.len() {
        Some(seq![])
    } else {
        let w = kinds.len() as int;
        let bounds = if i == w - 1 {
            if lits[w].len() <= name.len() && pos <= name.len() - lits[w].len() {
                Some((name.len() - lits[w].len(), name.len() as int))
            } else {
                None
            }
        } else {
            match spec_find(name, lits[i + 1], pos) {
                Some(m) => Some((m, m + lits[i + 1].len())),
                None => None,
            }
        };
        match bounds {
            Some(b) => {
                let cap = if kinds[i] is Counter {
                    spec_i32_dec(ctrs[cj].0)
                } else {
                    name.subrange(pos, b.0)
                };
                let next_cj = if kinds[i] is Counter {
                    cj + 1
                } else {
                    cj
                };
                match spec_caps_from(name, lits, kinds, ctrs, i + 1, b.1, next_cj) {
                    Some(rest) => Some(seq![cap] + rest),
                    None => None,
                }
            },
            None => None,
        }
    }
}

/// The captured tokens of a whole matching name, one per wildcard.
pub open spec fn spec_capture(
    lits: Seq<Seq<char>>,
    kinds: Seq<WildcardKind>,
    ctrs: Seq<(int, int)>,
    name: Seq<char>,
) -> Option<Seq<Seq<char>>>
    recommends
        lits.len() == kinds.len() + 1,
{
    if kinds.len() == 0 {
        Some(seq![])
    } else {
        spec_caps_from(name, lits, kinds, ctrs, 0, lits[0].len() as int, 0)
    }
}

/// On a matching name every capture is defined: a successful scan of the
/// intermediate literals yields a successful capture scan.
pub proof fn lemma_scan_caps(
    name: Seq<char>,
    lits: Seq<Seq<char>>,
    kinds: Seq<WildcardKind>,
    ctrs: Seq<(int, int)>,
    i: int,
    pos: int,
    cj: int,
)
    requires
        lits.len() == kinds.len() + 1,
        kinds.len() >= 1,
        0 <= i <= kinds.len(),
        0 <= pos <= name.len(),
        match spec_scan_end(name, lits, i + 1, pos) {
            Some(e) => e + lits[kinds.len() as int].len() <= name.len(),
            None => false,
        },
    ensures
        spec_caps_from(name, lits, kinds, ctrs, i, pos, cj) is Some,
    decreases kinds.len() - i,
{
    let w = kinds.len() as int;
    if i >= w {
    } else if i == w - 1 {
        let next_cj = if kinds[i] is Counter {
            cj + 1
        } else {
            cj
        };
        assert(spec_caps_from(name, lits, kinds, ctrs, i + 1, name.len() as int, next_cj)
            is Some);
    } else {
        match spec_find(name, lits[i + 1], pos) {
            Some(m) => {
                lemma_spec_find(name, lits[i + 1], pos);
                let next_cj = if kinds[i] is Counter {
                    cj + 1
                } else {
                    cj
                };
                lemma_scan_caps(name, lits, kinds, ctrs, i + 1, m + lits[i + 1].len(), next_cj);
                assert(spec_caps_from(name, lits, kinds, ctrs, i + 1, m + lits[i + 1].len(), next_cj)
                    is Some);
            },
            None => {
                assert(spec_scan_end(name, lits, i + 1, pos) is None);
            },
        }
    }
}

/// The scan of the intermediate literals never moves left.
pub proof fn lemma_scan_end_ge(name: Seq<char>, lits: Seq<Seq<char>>, k: int, pos: int)
    requires
        0 <= pos,
    ensures
        match spec_scan_end(name, lits, k, pos) {
            Some(e) => e >= pos,
            None => true,
        },
    decreases lits.len() - k,
{
    if k >= lits.len() - 1 {
    } else {
        match spec_find(name, lits[k], pos) {
            Some(m) => {
                lemma_spec_find(name, lits[k], pos);
                lemma_scan_end_ge(name, lits, k + 1, m + lits[k].len());
            },
            None => {},
        }
    }
}

/// Whether a name matches a compiled pattern: it begins with the first
/// literal, ends with the last one, and holds the intermediate literals in
/// order in between. With no wildcard the single literal must equal the
/// whole name.
pub open spec fn spec_matches(lits: Seq<Seq<char>>, name: Seq<char>) -> bool
    recommends
        lits.len() >= 1,
{
    let w = lits.len() - 1;
    if w == 0 {
        name == lits[0]
    } else {
        &&& lits[0].len() <= name.len()
        &&& name.subrange(0, lits[0].len() as int) == lits[0]
        &&& match spec_scan_end(name, lits, 1, lits[0].len() as int) {
            Some(e) => e + lits[w].len() <= name.len() && name.subrange(
                name.len() - lits[w].len(),
                name.len() as int,
            ) == lits[w],
            None => false,
        }
    }
}

} // verus!
