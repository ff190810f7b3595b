//! The renamer engine: compiles a rename template into literal segments and
//! slots, then produces a concrete output filename from the captured tokens
//! of the filter engine. A slot is either the wildcard character, which
//! consumes the next unused capture in order, or an explicit position
//! reference wrapped in a configurable bracket pair.

use vstd::prelude::*;

use crate::text::{dec_digit, digit_val, is_dec_digit, sat_acc_pos, sat_acc_usize};

verus! {

/// Rendering failed: a position reference names a capture index at or past
/// the number of captured tokens.
#[derive(Clone, Copy, Debug, PartialEq, Eq)]
pub enum RenderError {
    MissingCapture,
}

/// The position form `( digits )`, scanned one character at a time starting
/// just after the opening bracket. Returns the index of the closing bracket
/// together with the parsed position, or `None` when the form is malformed.
/// Digit accumulation saturates at `usize::MAX`.
pub open spec fn position_auto(s: Seq<char>, close: char, i: int, state: int, p: int) -> Option<
    (int, int),
>
    decreases s.len() - i,
{
    if i < 0 || i >= s.len() {
        None
    } else {
        let c = s[i];
        if state == 1 {
            if c == ' ' {
                position_auto(s, close, i + 1, 1, p)
            } else if is_dec_digit(c) {
                position_auto(s, close, i + 1, 2, digit_val(c))
            } else {
                None
            }
        } else if state == 2 {
            if is_dec_digit(c) {
                position_auto(s, close, i + 1, 2, sat_acc_pos(p, digit_val(c)))
            } else if c == ' ' {
                position_auto(s, close, i + 1, 3, p)
            } else if c == close {
                Some((i, p))
            } else {
                None
            }
        } else if state == 3 {
            if c == ' ' {
                position_auto(s, close, i + 1, 3, p)
            } else if c == close {
                Some((i, p))
            } else {
                None
            }
        } else {
            None
        }
    }
}

/// A successful run of the position automaton ends at the closing bracket
/// inside the string, to the right of where it started, with a non-negative
/// position.
pub proof fn lemma_position_auto_bounds(s: Seq<char>, close: char, i: int, state: int, p: int)
    ensures
        match position_auto(s, close, i, state, p) {
            Some(r) => i <= r.0 < s.len() && s[r.0] == close && r.1 >= 0 || !(p >= 0),
            None => true,
        },
    decreases s.len() - i,
{
    if i < 0 || i >= s.len() {
    } else {
        lemma_position_auto_bounds(s, close, i + 1, 1, p);
        lemma_position_auto_bounds(s, close, i + 1, 2, digit_val(s[i]));
        lemma_position_auto_bounds(s, close, i + 1, 2, sat_acc_pos(p, digit_val(s[i])));
        lemma_position_auto_bounds(s, close, i + 1, 3, p);
    }
}

/// The compiled form of a rename template: literal segments and, between
/// each pair of neighbouring segments, the capture index that the slot
/// there reads.
pub ghost struct RenamerParts {
    pub lits: Seq<Seq<char>>,
    pub order: Seq<int>,
}

/// Scanning a template left to right from position `i`, with the current
/// literal segment having started at `seg` and `wc` sequential slots seen
/// so far: the wildcard character ends the segment and takes the next
/// sequential capture index; a well-formed position form ends the segment
/// and takes its explicit index; anything else, including a malformed
/// position form, stays literal text.
pub open spec fn spec_renamer_parse_from(
    s: Seq<char>,
    w: char,
    open: char,
    close: char,
    i: int,
    seg: int,
    wc: int,
) -> RenamerParts
    decreases s.len() - i,
    when 0 <= seg <= i <= s.len()
{
    if i >= s.len() {
        RenamerParts { lits: seq![s.subrange(seg, s.len() as int)], order: seq![] }
    } else if s[i] == w {
        let rest = spec_renamer_parse_from(s, w, open, close, i + 1, i + 1, wc + 1);
        RenamerParts { lits: seq![s.subrange(seg, i)] + rest.lits, order: seq![wc] + rest.order }
    } else if s[i] == open {
        match position_auto(s, close, i + 1, 1, 0) {
            Some(r) => {
                proof {
                    lemma_position_auto_bounds(s, close, i + 1, 1, 0);
                }
                let rest = spec_renamer_parse_from(s, w, open, close, r.0 + 1, r.0 + 1, wc);
                RenamerParts {
                    lits: seq![s.subrange(seg, i)] + rest.lits,
                    order: seq![r.1] + rest.order,
                }
            },
            None => spec_renamer_parse_from(s, w, open, close, i + 1, seg, wc),
        }
    } else {
        spec_renamer_parse_from(s, w, open, close, i + 1, seg, wc)
    }
}

/// The compiled form of a whole rename template.
pub open spec fn spec_renamer_parse(s: Seq<char>, w: char, open: char, close: char) -> RenamerParts {
    spec_renamer_parse_from(s, w, open, close, 0, 0, 0)
}

/// Structure of the compiled template: one more literal than slots, and
/// every slot reads a non-negative capture index.
pub proof fn lemma_renamer_parse_wf(
    s: Seq<char>,
    w: char,
    open: char,
    close: char,
    i: int,
    seg: int,
    wc: int,
)
    requires
        0 <= seg <= i <= s.len(),
        0 <= wc,
    ensures
        spec_renamer_parse_from(s, w, open, close, i, seg, wc).lits.len()
            == spec_renamer_parse_from(s, w, open, close, i, seg, wc).order.len() + 1,
        forall|j: int|
            0 <= j < spec_renamer_parse_from(s, w, open, close, i, seg, wc).order.len()
                ==> #[trigger] spec_renamer_parse_from(s, w, open, close, i, seg, wc).order[j]
                >= 0,
    decreases s.len() - i,
{
    if i >= s.len() {
    } else if s[i] == w {
        lemma_renamer_parse_wf(s, w, open, close, i + 1, i + 1, wc + 1);
    } else if s[i] == open {
        match position_auto(s, close, i + 1, 1, 0) {
            Some(r) => {
                lemma_position_auto_bounds(s, close, i + 1, 1, 0);
                lemma_renamer_parse_wf(s, w, open, close, r.0 + 1, r.0 + 1, wc);
            },
            None => {
                lemma_renamer_parse_wf(s, w, open, close, i + 1, seg, wc);
            },
        }
    } else {
        lemma_renamer_parse_wf(s, w, open, close, i + 1, seg, wc);
    }
}

/// The rendered name from slot `i` on: the literal before each remaining
/// slot, the capture that the slot reads, and the final literal. `None`
/// when some slot reads past the end of the captures.
pub open spec fn spec_render_from(
    lits: Seq<Seq<char>>,
    order: Seq<int>,
    caps: Seq<Seq<char>>,
    i: int,
) -> Option<Seq<char>>
    recommends
        lits.len() == order.len() + 1,
    decreases order.len() - i,
{
    if i < 0 || i >= order.len() {
        Some(lits[order.len() as int])
    } else if 0 <= order[i] < caps.len() {
        match spec_render_from(lits, order, caps, i + 1) {
            Some(rest) => Some(lits[i] + caps[order[i]] + rest),
            None => None,
        }
    } else {
        None
    }
}

/// The whole rendered name, or `None` when some slot reads past the end of
/// the captures.
pub open spec fn spec_render(
    lits: Seq<Seq<char>>,
    order: Seq<int>,
    caps: Seq<Seq<char>>,
) -> Option<Seq<char>> {
    spec_render_from(lits, order, caps, 0)
}

/// Rendering succeeds exactly when every slot reads an index within the
/// captures.
pub proof fn lemma_render_defined(
    lits: Seq<Seq<char>>,
    order: Seq<int>,
    caps: Seq<Seq<char>>,
    i: int,
)
    requires
        0 <= i <= order.len(),
    ensures
        (spec_render_from(lits, order, caps, i) is Some) <==> (forall|j: int|
            i <= j < order.len() ==> 0 <= #[trigger] order[j] < caps.len()),
    decreases order.len() - i,
{
    if i < order.len() {
        lemma_render_defined(lits, order, caps, i + 1);
    }
}

/// A compiled rename template: the literal segments of the template string
/// and the capture index each slot reads, together with the raw template
/// and its configuration.
#[allow(non_snake_case)]
pub struct Renamer {
    pub StringRepresentation: String,
    pub WildcardChar: char,
    pub FixedStrings: Vec<String>,
    pub PositionSelectWrapper: (char, char),
    pub PositionsOrder: Vec<usize>,
}

impl Renamer {
    /// The literal segments as character sequences.
    pub open spec fn lits(&self) -> Seq<Seq<char>> {
        self.FixedStrings@.map_values(|t: String| t@)
    }

    /// The capture index that each slot reads.
    pub open spec fn order(&self) -> Seq<int> {
        self.PositionsOrder@.map_values(|u: usize| u as int)
    }

    /// Structural invariant: one more literal than slots.
    pub open spec fn wf(&self) -> bool {
        self.lits().len() == self.order().len() + 1
    }

    /// Compiles a rename template. Every character is literal text except
    /// the wildcard character and well-formed position forms; a malformed
    /// position form stays literal text.
    #[allow(non_snake_case)]
    pub fn new(
        StringRepresentation: String,
        WildcardChar: char,
        PositionSelectWrapper: (char, char),
    ) -> (rn: Renamer)
        ensures
            rn.StringRepresentation == StringRepresentation,
            rn.WildcardChar == WildcardChar,
            rn.PositionSelectWrapper == PositionSelectWrapper,
            rn.lits() == spec_renamer_parse(
                StringRepresentation@,
                WildcardChar,
                PositionSelectWrapper.0,
                PositionSelectWrapper.1,
            ).lits,
            rn.order() == spec_renamer_parse(
                StringRepresentation@,
                WildcardChar,
                PositionSelectWrapper.0,
                PositionSelectWrapper.1,
            ).order,
            rn.wf(),
    {
        let open = PositionSelectWrapper.0;
        let close = PositionSelectWrapper.1;
        let ghost target = spec_renamer_parse(StringRepresentation@, WildcardChar, open, close);
        let mut FixedStrings: Vec<String> = Vec::new();
        let mut PositionsOrder: Vec<usize> = Vec::new();

        let s = StringRepresentation.as_str();
        let len = s.unicode_len();
        let mut start_index: usize = 0;
        let mut end_index: usize = 0;
        let mut wildcard_counter: usize = 0;
        while end_index < len
            invariant
                0 <= start_index <= end_index <= len,
                len == s@.len(),
                s@ == StringRepresentation@,
                wildcard_counter <= end_index,
                target == spec_renamer_parse(StringRepresentation@, WildcardChar, open, close),
                target.lits =~= FixedStrings@.map_values(|t: String| t@)
                    + spec_renamer_parse_from(
                    s@,
                    WildcardChar,
                    open,
                    close,
                    end_index as int,
                    start_index as int,
                    wildcard_counter as int,
                ).lits,
                target.order =~= PositionsOrder@.map_values(|u: usize| u as int)
                    + spec_renamer_parse_from(
                    s@,
                    WildcardChar,
                    open,
                    close,
                    end_index as int,
                    start_index as int,
                    wildcard_counter as int,
                ).order,
            decreases len - end_index,
        {
            let ghost prev_lits = FixedStrings@.map_values(|t: String| t@);
            let ghost prev_order = PositionsOrder@.map_values(|u: usize| u as int);
            let ghost lit_view = s@.subrange(start_index as int, end_index as int);
            let c = s.get_char(end_index);
            if c == WildcardChar {
                let lit = String::from_str(s.substring_char(start_index, end_index));
                FixedStrings.push(lit);
                PositionsOrder.push(wildcard_counter);
                start_index = end_index + 1;
                end_index = end_index + 1;
                wildcard_counter = wildcard_counter + 1;
                proof {
                    assert(FixedStrings@.map_values(|t: String| t@) =~= prev_lits + seq![
                        lit_view,
                    ]);
                    assert(PositionsOrder@.map_values(|u: usize| u as int) =~= prev_order + seq![
                        wildcard_counter - 1,
                    ]);
                }
            } else if c == open {
                match selector_wrapper_automata(s, close, end_index) {
                    Some((close_index, position)) => {
                        let lit = String::from_str(s.substring_char(start_index, end_index));
                        FixedStrings.push(lit);
                        PositionsOrder.push(position);
                        start_index = close_index + 1;
                        end_index = close_index + 1;
                        proof {
                            assert(FixedStrings@.map_values(|t: String| t@) =~= prev_lits + seq![
                                lit_view,
                            ]);
                            assert(PositionsOrder@.map_values(|u: usize| u as int) =~= prev_order
                                + seq![position as int]);
                        }
                    },
                    None => {
                        end_index += 1;
                    },
                }
            } else {
                end_index += 1;
            }
        }
        let ghost prev_lits = FixedStrings@.map_values(|t: String| t@);
        let last = String::from_str(s.substring_char(start_index, end_index));
        FixedStrings.push(last);
        proof {
            assert(FixedStrings@.map_values(|t: String| t@) =~= prev_lits + seq![
                s@.subrange(start_index as int, end_index as int),
            ]);
            assert(target.lits =~= FixedStrings@.map_values(|t: String| t@));
            lemma_renamer_parse_wf(StringRepresentation@, WildcardChar, open, close, 0, 0, 0);
        }
        Renamer {
            StringRepresentation,
            WildcardChar,
            FixedStrings,
            PositionSelectWrapper,
            PositionsOrder,
        }
    }

    pub fn get_fixed_strings(&self) -> (r: Vec<String>)
        ensures
            r@.map_values(|t: String| t@) == self.lits(),
    {
        self.FixedStrings.clone()
    }

    /// Builds the output filename: the literal before each slot, then the
    /// capture that the slot reads, then the final literal. Fails when a
    /// slot reads a capture index at or past the number of captures.
    pub fn generate_rename_filename(&self, filename: &String, wildcard_catched: &Vec<String>) -> (r:
        Result<String, RenderError>)
        requires
            self.wf(),
        ensures
            match r {
                Ok(out) => spec_render(
                    self.lits(),
                    self.order(),
                    wildcard_catched@.map_values(|t: String| t@),
                ) == Some(out@),
                Err(e) => spec_render(
                    self.lits(),
                    self.order(),
                    wildcard_catched@.map_values(|t: String| t@),
                ) is None && e == RenderError::MissingCapture,
            },
    {
        let ghost lits = self.lits();
        let ghost order = self.order();
        let ghost caps = wildcard_catched@.map_values(|t: String| t@);
        let n_slots = self.PositionsOrder.len();
        let n_caps = wildcard_catched.len();
        let mut result = String::new();
        let mut i: usize = 0;
        proof {
            assert(result@ =~= Seq::<char>::empty());
        }
        while i < n_slots
            invariant
                0 <= i <= n_slots,
                n_slots == order.len(),
                n_caps == caps.len(),
                lits == self.lits(),
                order == self.order(),
                caps == wildcard_catched@.map_values(|t: String| t@),
                self.wf(),
                forall|j: int| 0 <= j < i ==> 0 <= #[trigger] order[j] < caps.len(),
                spec_render(lits, order, caps) is Some ==> spec_render_from(lits, order, caps, i as int)
                    is Some && spec_render(lits, order, caps) == Some(
                    result@ + spec_render_from(lits, order, caps, i as int).unwrap(),
                ),
            decreases n_slots - i,
        {
            let idx = self.PositionsOrder[i];
            if idx >= n_caps {
                proof {
                    lemma_render_defined(lits, order, caps, 0);
                }
                return Err(RenderError::MissingCapture);
            }
            let ghost prev = result@;
            result.append(self.FixedStrings[i].as_str());
            result.append(wildcard_catched[idx].as_str());
            proof {
                if spec_render(lits, order, caps) is Some {
                    let rest = spec_render_from(lits, order, caps, i as int);
                    let next_rest = spec_render_from(lits, order, caps, i as int + 1);
                    assert(rest == Some(lits[i as int] + caps[order[i as int]]
                        + next_rest.unwrap()));
                    assert(prev + (lits[i as int] + caps[order[i as int]] + next_rest.unwrap())
                        =~= (prev + lits[i as int] + caps[order[i as int]]) + next_rest.unwrap());
                }
            }
            i += 1;
        }
        result.append(self.FixedStrings[n_slots].as_str());
        proof {
            lemma_render_defined(lits, order, caps, 0);
            assert(spec_render_from(lits, order, caps, n_slots as int) == Some(
                lits[n_slots as int],
            ));
        }
        Ok(result)
    }
}

/// Runs the position automaton over the string, starting just after the
/// opening bracket at `open_index`.
fn selector_wrapper_automata(s: &str, close: char, open_index: usize) -> (r: Option<
    (usize, usize),
>)
    requires
        open_index < s@.len(),
    ensures
        match r {
            Some(t) => position_auto(s@, close, open_index + 1, 1, 0) == Some(
                (t.0 as int, t.1 as int),
            ) && open_index < t.0 < s@.len(),
            None => position_auto(s@, close, open_index + 1, 1, 0) is None,
        },
{
    let len = s.unicode_len();
    let mut i: usize = open_index + 1;
    let mut state: u8 = 1;
    let mut position: usize = 0;
    loop
        invariant
            open_index + 1 <= i,
            len == s@.len(),
            open_index < len,
            1 <= state <= 3,
            position_auto(s@, close, open_index + 1, 1, 0) == position_auto(
                s@,
                close,
                i as int,
                state as int,
                position as int,
            ),
        decreases len - i,
    {
        if i >= len {
            return None;
        }
        let c = s.get_char(i);
        if state == 1 {
            if c == ' ' {
            } else if let Some(d) = dec_digit(c) {
                position = d as usize;
                state = 2;
            } else {
                return None;
            }
        } else if state == 2 {
            if let Some(d) = dec_digit(c) {
                position = sat_acc_usize(position, d);
            } else if c == ' ' {
                state = 3;
            } else if c == close {
                proof {
                    lemma_position_auto_bounds(s@, close, open_index + 1, 1, 0);
                }
                return Some((i, position));
            } else {
                return None;
            }
        } else {
            if c == ' ' {
            } else if c == close {
                proof {
                    lemma_position_auto_bounds(s@, close, open_index + 1, 1, 0);
                }
                return Some((i, position));
            } else {
                return None;
            }
        }
        i += 1;
    }
}

} // verus!
