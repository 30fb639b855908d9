//! Action semantics: the three blunt mutation strategies applied to a
//! field, and the standard's finer-grained action codes kept for
//! reference.

use vstd::prelude::*;

use crate::field::FieldId;
use crate::text::lower_seq;

verus! {

/// The mutation applied to each field the policy names.
#[derive(Clone, Copy, PartialEq, Eq, Debug, Structural)]
pub enum Actions {
    /// Substitute a fixed replacement literal.
    Replace,
    /// Substitute a zero-like sentinel literal.
    Zero,
    /// Delete the field entirely.
    Remove,
}

/// The de-identification action codes of the imaging standard's
/// confidentiality profiles.
pub enum ActionCode {
    /// Replace with dummy value
    D,
    /// Zero-length or dummy
    Z,
    /// Remove
    X,
    /// Keep
    K,
    /// Clean
    C,
    /// Replace with consistent UID
    U,
    /// Z unless D required for conformance
    ZD,
    /// X unless Z required for conformance
    XZ,
    /// X unless D required for conformance
    XD,
    /// X unless Z/D required for conformance
    XZD,
    /// X unless Z/U required for conformance
    XZU,
}

/// One field's action codes under the standard's base profile and its
/// retention options.
pub struct PolicyAction {
    /// the field
    tag: FieldId,
    /// Base profile
    basic: ActionCode,
    /// Retain safe private
    ret_sf_priv: Option<ActionCode>,
    /// Retain UID
    ret_uids: Option<ActionCode>,
    /// Retain device identity
    ret_dev_id: Option<ActionCode>,
    /// Retain institution ID
    ret_inst_id: Option<ActionCode>,
    /// Retain patient characteristic
    ret_pt_char: Option<ActionCode>,
    /// Retain long full dates
    ret_lg_full_dt: Option<ActionCode>,
    /// Retain long modified dates
    ret_lg_mod_dt: Option<ActionCode>,
    /// Clean descriptors
    cln_desc: Option<ActionCode>,
    /// Clean structured content
    cln_struc_cnt: Option<ActionCode>,
    /// Clean graphics
    cln_graph: Option<ActionCode>,
}

/// The literal written into a field by the replace action.
pub open spec fn replace_literal() -> Seq<char> {
    "Anonymized"@
}

/// The literal written into a field by the zero action.
pub open spec fn zero_literal() -> Seq<char> {
    "0"@
}

/// The text an action substitutes, if it substitutes one.
pub open spec fn action_literal(a: Actions) -> Option<Seq<char>> {
    match a {
        Actions::Replace => Some(replace_literal()),
        Actions::Zero => Some(zero_literal()),
        Actions::Remove => None,
    }
}

/// What a user-supplied action keyword denotes, ASCII-case-insensitively.
pub open spec fn parse_actions_spec(s: Seq<char>) -> Option<Actions> {
    if lower_seq(s) == "replace"@ {
        Some(Actions::Replace)
    } else if lower_seq(s) == "remove"@ {
        Some(Actions::Remove)
    } else if lower_seq(s) == "zero"@ {
        Some(Actions::Zero)
    } else {
        None
    }
}

/// Parse an action keyword; any other input is rejected with a fixed
/// message.
pub fn parse_actions(input: &str) -> (r: Result<Actions, String>)
    ensures
        r is Ok <==> parse_actions_spec(input@) is Some,
        r matches Ok(a) ==> parse_actions_spec(input@) == Some(a),
        r matches Err(m) ==> m@ == "should be either: 'replace', 'remove' or 'zero'"@,
{
    proof {
        lemma_action_keywords_are_lowercase();
    }
    if crate::text::eq_ignore_case(input, "replace") {
        Ok(Actions::Replace)
    } else if crate::text::eq_ignore_case(input, "remove") {
        Ok(Actions::Remove)
    } else if crate::text::eq_ignore_case(input, "zero") {
        Ok(Actions::Zero)
    } else {
        Err(String::from_str("should be either: 'replace', 'remove' or 'zero'"))
    }
}

proof fn lemma_action_keywords_are_lowercase()
    ensures
        lower_seq("replace"@) == "replace"@,
        lower_seq("remove"@) == "remove"@,
        lower_seq("zero"@) == "zero"@,
{
    reveal_strlit("replace");
    reveal_strlit("remove");
    reveal_strlit("zero");
    assert(lower_seq("replace"@) =~= "replace"@);
    assert(lower_seq("remove"@) =~= "remove"@);
    assert(lower_seq("zero"@) =~= "zero"@);
}

} // verus!
