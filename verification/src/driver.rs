//! The per-filename decision of a renaming run: match the name against the
//! filter, extract its captures, and render the new name. Walking
//! directories and performing the rename on disk are left to the
//! surrounding program.

use vstd::prelude::*;

use crate::filters::{spec_advance, spec_capture, spec_matches, Counter, RenameFilter};
use crate::renamer::{spec_render, RenderError, Renamer};

verus! {

/// Decides what happens to one filename: `None` when the filter rejects it
/// (nothing advances), otherwise the rendered new name, or the render error
/// for it. Counters advance on every accepted name, whether or not the
/// render then succeeds.
pub fn plan_rename(filter: &mut RenameFilter, renamer: &Renamer, filename: &str) -> (r: Option<
    Result<String, RenderError>,
>)
    requires
        old(filter).wf(),
        renamer.wf(),
    ensures
        final(filter).wf(),
        final(filter).string_representation == old(filter).string_representation,
        final(filter).fixed_str == old(filter).fixed_str,
        final(filter).wildcard_type == old(filter).wildcard_type,
        !spec_matches(old(filter).lits(), filename@) ==> r is None && final(filter).counters@
            == old(filter).counters@,
        spec_matches(old(filter).lits(), filename@) ==> {
            let caps = spec_capture(
                old(filter).lits(),
                old(filter).kinds(),
                old(filter).counter_view(),
                filename@,
            );
            &&& final(filter).counters@ == old(filter).counters@.map_values(
                |c: Counter| spec_advance(c),
            )
            &&& caps is Some
            &&& match r {
                Some(Ok(out)) => spec_render(renamer.lits(), renamer.order(), caps.unwrap())
                    == Some(out@),
                Some(Err(e)) => spec_render(renamer.lits(), renamer.order(), caps.unwrap())
                    is None && e == RenderError::MissingCapture,
                None => false,
            }
        },
{
    if !filter.does_fulfill(filename) {
        return None;
    }
    let caught = filter.collect_wildcards(filename);
    let owned_name = String::from_str(filename);
    Some(renamer.generate_rename_filename(&owned_name, &caught))
}

} // verus!
