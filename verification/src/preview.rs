//! The dry-run reporter: runs the action executor against a record
//! held in memory and renders the would-be result for inspection,
//! classified for display. Nothing here touches storage; the caller
//! discards the transformed copy.

use vstd::prelude::*;

use crate::actions::Actions;
use crate::deid::{apply_policy, deid_text};
use crate::entries::{all_tagging, entry_matches, lines_of, SerializableDicomEntry};
use crate::field::FieldId;
use crate::policy::{policy_fields, Policy};
use crate::record::{record_order, record_text, record_vrs, Record};

verus! {

/// Transform the in-memory record as the policy and action dictate,
/// and render every field of the result: one entry and one colorized
/// line each, plus the fields warned about. The record is only
/// transformed in memory; persisting or discarding it is the
/// caller's choice, and a dry run discards it.
pub fn preview(
    path: &str,
    obj: &mut Record,
    policy: &Policy,
    action: &Actions,
    out_string: &mut String,
) -> (r: (Vec<FieldId>, Vec<SerializableDicomEntry>))
    ensures
        record_text(*final(obj)) == deid_text(
            record_text(*old(obj)),
            policy_fields(*policy),
            *action,
        ),
        r.0@ == policy_fields(*policy).filter(
            |f: FieldId| !record_text(*old(obj)).dom().contains(f.key()),
        ),
        r.1@.len() == record_order(record_text(*final(obj))).len(),
        forall|i: int|
            0 <= i < r.1@.len() ==> entry_matches(
                r.1@[i],
                path@,
                record_order(record_text(*final(obj)))[i],
                record_text(*final(obj)),
                record_vrs(*final(obj)),
            ),
        final(out_string)@ == old(out_string)@ + lines_of(
            record_order(record_text(*final(obj))),
            record_text(*final(obj)),
            record_vrs(*final(obj)),
        ),
{
    let warned = apply_policy(obj, policy, action);
    let entries = all_tagging(path, obj, false, out_string);
    (warned, entries)
}

} // verus!
