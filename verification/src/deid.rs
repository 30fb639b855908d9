//! The action executor: applies one action to one field of a record,
//! and a whole policy's field list to a record. A field absent from
//! the record is never an error: the action is skipped and the field
//! reported as a warning.

use vstd::prelude::*;

use crate::actions::{replace_literal, zero_literal, Actions};
use crate::field::FieldId;
use crate::policy::{policy_fields, Policy};
use crate::record::{
    field_present, has_key, record_text, record_vrs, remove_field, set_field_text, Record,
};

verus! {

/// One action's effect on the rendering map: nothing if the field is
/// absent, else substitution or removal.
pub open spec fn apply_step_text(
    m: Map<(u16, u16), Option<Seq<char>>>,
    f: FieldId,
    a: Actions,
) -> Map<(u16, u16), Option<Seq<char>>> {
    if !m.dom().contains(f.key()) {
        m
    } else {
        match a {
            Actions::Replace => m.insert(f.key(), Some(replace_literal())),
            Actions::Zero => m.insert(f.key(), Some(zero_literal())),
            Actions::Remove => m.remove(f.key()),
        }
    }
}

/// One action's effect on the value-representation map: substitution
/// keeps it, removal of a present field drops its entry.
pub open spec fn apply_step_vrs(
    v: Map<(u16, u16), Seq<char>>,
    present: bool,
    f: FieldId,
    a: Actions,
) -> Map<(u16, u16), Seq<char>> {
    if present && a == Actions::Remove {
        v.remove(f.key())
    } else {
        v
    }
}

/// Apply one action to one field of the record.
///
/// If the field is absent the record is left unchanged and exactly one
/// warning is reported; otherwise the field's value is substituted or
/// the field removed, and nothing else changes.
pub fn apply_action(obj: &mut Record, f: FieldId, action: &Actions) -> (warned: bool)
    ensures
        warned == !record_text(*old(obj)).dom().contains(f.key()),
        record_text(*final(obj)) == apply_step_text(record_text(*old(obj)), f, *action),
        record_vrs(*final(obj)) == apply_step_vrs(
            record_vrs(*old(obj)),
            record_text(*old(obj)).dom().contains(f.key()),
            f,
            *action,
        ),
        warned ==> record_text(*final(obj)) == record_text(*old(obj)) && record_vrs(*final(obj))
            == record_vrs(*old(obj)),
{
    if !field_present(obj, f) {
        return true;
    }
    match action {
        Actions::Zero => {
            proof {
                reveal_strlit("0");
            }
            set_field_text(obj, f, "0");
        },
        Actions::Replace => {
            proof {
                reveal_strlit("Anonymized");
            }
            set_field_text(obj, f, "Anonymized");
        },
        Actions::Remove => {
            remove_field(obj, f);
        },
    }
    false
}

/// The rendering map after applying the action to each field of the
/// list in order.
pub open spec fn deid_text(
    m: Map<(u16, u16), Option<Seq<char>>>,
    fields: Seq<FieldId>,
    a: Actions,
) -> Map<(u16, u16), Option<Seq<char>>>
    decreases fields.len(),
{
    if fields.len() == 0 {
        m
    } else {
        apply_step_text(deid_text(m, fields.drop_last(), a), fields.last(), a)
    }
}

/// The value-representation map after applying the action to each
/// field of the list in order.
pub open spec fn deid_vrs(
    m: Map<(u16, u16), Option<Seq<char>>>,
    v: Map<(u16, u16), Seq<char>>,
    fields: Seq<FieldId>,
    a: Actions,
) -> Map<(u16, u16), Seq<char>>
    decreases fields.len(),
{
    if fields.len() == 0 {
        v
    } else {
        apply_step_vrs(
            deid_vrs(m, v, fields.drop_last(), a),
            deid_text(m, fields.drop_last(), a).dom().contains(fields.last().key()),
            fields.last(),
            a,
        )
    }
}

/// The fields of the list found absent at their turn.
pub open spec fn deid_warned(
    m: Map<(u16, u16), Option<Seq<char>>>,
    fields: Seq<FieldId>,
    a: Actions,
) -> Seq<FieldId>
    decreases fields.len(),
{
    if fields.len() == 0 {
        Seq::empty()
    } else {
        let w = deid_warned(m, fields.drop_last(), a);
        if !deid_text(m, fields.drop_last(), a).dom().contains(fields.last().key()) {
            w.push(fields.last())
        } else {
            w
        }
    }
}

/// Apply the action to every field of the list, in order, reporting
/// the fields that were absent.
pub fn apply_fields(obj: &mut Record, fields: &Vec<FieldId>, action: &Actions) -> (warned: Vec<
    FieldId,
>)
    ensures
        record_text(*final(obj)) == deid_text(record_text(*old(obj)), fields@, *action),
        record_vrs(*final(obj)) == deid_vrs(
            record_text(*old(obj)),
            record_vrs(*old(obj)),
            fields@,
            *action,
        ),
        warned@ == deid_warned(record_text(*old(obj)), fields@, *action),
{
    let ghost m0 = record_text(*old(obj));
    let ghost v0 = record_vrs(*old(obj));
    let mut warned: Vec<FieldId> = Vec::new();
    let mut i: usize = 0;
    while i < fields.len()
        invariant
            i <= fields@.len(),
            record_text(*obj) == deid_text(m0, fields@.take(i as int), *action),
            record_vrs(*obj) == deid_vrs(m0, v0, fields@.take(i as int), *action),
            warned@ == deid_warned(m0, fields@.take(i as int), *action),
        decreases fields@.len() - i,
    {
        let f = fields[i];
        let w = apply_action(obj, f, action);
        if w {
            warned.push(f);
        }
        i += 1;
        proof {
            assert(fields@.take(i as int).drop_last() =~= fields@.take(i - 1));
            assert(fields@.take(i as int).last() == fields@[i - 1]);
        }
    }
    proof {
        assert(fields@.take(fields@.len() as int) =~= fields@);
    }
    warned
}

/// De-identify one record: apply the action to every field the policy
/// names, in catalog order.
///
/// Fields the policy does not name keep their value and representation
/// exactly; named fields that are present are substituted or removed;
/// named fields that are absent are returned as warnings, one each,
/// and the record is otherwise untouched by them.
#[verifier::rlimit(50)]
pub fn apply_policy(obj: &mut Record, policy: &Policy, action: &Actions) -> (warned: Vec<FieldId>)
    ensures
        record_text(*final(obj)) == deid_text(
            record_text(*old(obj)),
            policy_fields(*policy),
            *action,
        ),
        record_vrs(*final(obj)) == deid_vrs(
            record_text(*old(obj)),
            record_vrs(*old(obj)),
            policy_fields(*policy),
            *action,
        ),
        warned@ == policy_fields(*policy).filter(
            |f: FieldId| !record_text(*old(obj)).dom().contains(f.key()),
        ),
        forall|k: (u16, u16)|
            !has_key(policy_fields(*policy), k) ==> #[trigger] record_text(
                *final(obj),
            ).dom().contains(k) == record_text(*old(obj)).dom().contains(k) && (record_text(
                *old(obj),
            ).dom().contains(k) ==> record_text(*final(obj))[k] == record_text(*old(obj))[k])
                && record_vrs(*final(obj)).dom().contains(k) == record_vrs(
                *old(obj),
            ).dom().contains(k) && (record_vrs(*old(obj)).dom().contains(k) ==> record_vrs(
                *final(obj),
            )[k] == record_vrs(*old(obj))[k]),
        forall|i: int|
            0 <= i < policy_fields(*policy).len() ==> {
                let k = (#[trigger] policy_fields(*policy)[i]).key();
                match *action {
                    Actions::Remove => !record_text(*final(obj)).dom().contains(k),
                    Actions::Replace => record_text(*final(obj)).dom().contains(k)
                        == record_text(*old(obj)).dom().contains(k) && (record_text(
                        *old(obj),
                    ).dom().contains(k) ==> record_text(*final(obj))[k] == Some(replace_literal())),
                    Actions::Zero => record_text(*final(obj)).dom().contains(k) == record_text(
                        *old(obj),
                    ).dom().contains(k) && (record_text(*old(obj)).dom().contains(k)
                        ==> record_text(*final(obj))[k] == Some(zero_literal())),
                }
            },
{
    let tags = policy.tags();
    let warned = apply_fields(obj, &tags, action);
    proof {
        crate::policy::lemma_catalog_no_duplicates();
        lemma_deid_warned_filter(record_text(*old(obj)), policy_fields(*policy), *action);
        lemma_deid_pointwise(
            record_text(*old(obj)),
            record_vrs(*old(obj)),
            record_text(*final(obj)),
            record_vrs(*final(obj)),
            policy_fields(*policy),
            *action,
        );
    }
    warned
}

/// The pointwise reading of a whole pass: unlisted keys are untouched,
/// and each listed key ends substituted or removed.
proof fn lemma_deid_pointwise(
    m0: Map<(u16, u16), Option<Seq<char>>>,
    v0: Map<(u16, u16), Seq<char>>,
    mf: Map<(u16, u16), Option<Seq<char>>>,
    vf: Map<(u16, u16), Seq<char>>,
    fs: Seq<FieldId>,
    a: Actions,
)
    requires
        fs.no_duplicates(),
        mf == deid_text(m0, fs, a),
        vf == deid_vrs(m0, v0, fs, a),
    ensures
        forall|k: (u16, u16)|
            !has_key(fs, k) ==> #[trigger] mf.dom().contains(k) == m0.dom().contains(k) && (
            m0.dom().contains(k) ==> mf[k] == m0[k]) && vf.dom().contains(k) == v0.dom().contains(
                k,
            ) && (v0.dom().contains(k) ==> vf[k] == v0[k]),
        forall|i: int|
            0 <= i < fs.len() ==> {
                let k = (#[trigger] fs[i]).key();
                match a {
                    Actions::Remove => !mf.dom().contains(k),
                    Actions::Replace => mf.dom().contains(k) == m0.dom().contains(k) && (
                    m0.dom().contains(k) ==> mf[k] == Some(replace_literal())),
                    Actions::Zero => mf.dom().contains(k) == m0.dom().contains(k) && (
                    m0.dom().contains(k) ==> mf[k] == Some(zero_literal())),
                }
            },
{
    assert forall|k: (u16, u16)| !has_key(fs, k) implies #[trigger] mf.dom().contains(k)
        == m0.dom().contains(k) && (m0.dom().contains(k) ==> mf[k] == m0[k]) && vf.dom().contains(
        k,
    ) == v0.dom().contains(k) && (v0.dom().contains(k) ==> vf[k] == v0[k]) by {
        lemma_deid_untouched(m0, v0, fs, a, k);
    }
    assert forall|i: int| 0 <= i < fs.len() implies {
        let k = (#[trigger] fs[i]).key();
        match a {
            Actions::Remove => !mf.dom().contains(k),
            Actions::Replace => mf.dom().contains(k) == m0.dom().contains(k) && (
            m0.dom().contains(k) ==> mf[k] == Some(replace_literal())),
            Actions::Zero => mf.dom().contains(k) == m0.dom().contains(k) && (m0.dom().contains(k)
                ==> mf[k] == Some(zero_literal())),
        }
    } by {
        lemma_deid_applied(m0, fs, a, i);
    }
}

/// Substitution never alters a value representation: only removal
/// touches the representation map.
pub proof fn lemma_substitution_keeps_vrs(
    m: Map<(u16, u16), Option<Seq<char>>>,
    v: Map<(u16, u16), Seq<char>>,
    fields: Seq<FieldId>,
    a: Actions,
)
    requires
        a != Actions::Remove,
    ensures
        deid_vrs(m, v, fields, a) == v,
    decreases fields.len(),
{
    if fields.len() > 0 {
        lemma_substitution_keeps_vrs(m, v, fields.drop_last(), a);
    }
}

/// A key no listed field carries is untouched by the whole pass.
pub proof fn lemma_deid_untouched(
    m: Map<(u16, u16), Option<Seq<char>>>,
    v: Map<(u16, u16), Seq<char>>,
    fields: Seq<FieldId>,
    a: Actions,
    k: (u16, u16),
)
    requires
        !has_key(fields, k),
    ensures
        deid_text(m, fields, a).dom().contains(k) == m.dom().contains(k),
        m.dom().contains(k) ==> deid_text(m, fields, a)[k] == m[k],
        deid_vrs(m, v, fields, a).dom().contains(k) == v.dom().contains(k),
        v.dom().contains(k) ==> deid_vrs(m, v, fields, a)[k] == v[k],
    decreases fields.len(),
{
    if fields.len() > 0 {
        assert(!has_key(fields.drop_last(), k)) by {
            assert forall|i: int|
                0 <= i < fields.drop_last().len() implies (#[trigger] fields.drop_last()[i]).key()
                != k by {
                assert(fields[i].key() != k);
            }
        }
        lemma_deid_untouched(m, v, fields.drop_last(), a, k);
        assert(fields.last().key() != k) by {
            assert(fields[fields.len() - 1].key() != k);
        }
    }
}

/// Each listed field ends substituted or removed, according to the
/// action, provided the list names no field twice.
pub proof fn lemma_deid_applied(
    m: Map<(u16, u16), Option<Seq<char>>>,
    fields: Seq<FieldId>,
    a: Actions,
    i: int,
)
    requires
        fields.no_duplicates(),
        0 <= i < fields.len(),
    ensures
        a == Actions::Remove ==> !deid_text(m, fields, a).dom().contains(fields[i].key()),
        a != Actions::Remove ==> deid_text(m, fields, a).dom().contains(fields[i].key())
            == m.dom().contains(fields[i].key()),
        a == Actions::Replace && m.dom().contains(fields[i].key()) ==> deid_text(m, fields, a)[
            fields[i].key()] == Some(replace_literal()),
        a == Actions::Zero && m.dom().contains(fields[i].key()) ==> deid_text(m, fields, a)[
            fields[i].key()] == Some(zero_literal()),
    decreases fields.len(),
{
    let k = fields[i].key();
    let prev = deid_text(m, fields.drop_last(), a);
    if i == fields.len() - 1 {
        assert(!has_key(fields.drop_last(), k)) by {
            assert forall|j: int|
                0 <= j < fields.drop_last().len() implies (#[trigger] fields.drop_last()[j]).key()
                != k by {
                assert(fields[j] != fields[i]);
                assert(fields[j].key() == k ==> fields[j] == fields[i]);
            }
        }
        lemma_deid_untouched(m, Map::empty(), fields.drop_last(), a, k);
    } else {
        assert(fields.drop_last().no_duplicates()) by {
            assert(forall|p: int, q: int|
                0 <= p < q < fields.drop_last().len() ==> fields.drop_last()[p] == fields[p]
                    && fields.drop_last()[q] == fields[q]);
        }
        lemma_deid_applied(m, fields.drop_last(), a, i);
        assert(fields.last().key() != k) by {
            assert(fields[fields.len() - 1] != fields[i]);
            assert(fields[fields.len() - 1].key() == k ==> fields[fields.len() - 1] == fields[i]);
        }
    }
}

/// With a duplicate-free list, the warned fields are exactly those
/// absent from the record to begin with, in list order.
pub proof fn lemma_deid_warned_filter(
    m: Map<(u16, u16), Option<Seq<char>>>,
    fields: Seq<FieldId>,
    a: Actions,
)
    requires
        fields.no_duplicates(),
    ensures
        deid_warned(m, fields, a) == fields.filter(
            |f: FieldId| !m.dom().contains(f.key()),
        ),
    decreases fields.len(),
{
    reveal(Seq::filter);
    if fields.len() > 0 {
        let last = fields.last();
        let rest = fields.drop_last();
        assert(rest.no_duplicates()) by {
            assert(forall|p: int, q: int|
                0 <= p < q < rest.len() ==> rest[p] == fields[p] && rest[q] == fields[q]);
        }
        lemma_deid_warned_filter(m, rest, a);
        assert(!has_key(rest, last.key())) by {
            assert forall|j: int| 0 <= j < rest.len() implies (#[trigger] rest[j]).key()
                != last.key() by {
                assert(fields[j] != fields[fields.len() - 1]);
                assert(fields[j].key() == last.key() ==> fields[j] == fields[fields.len() - 1]);
            }
        }
        lemma_deid_untouched(m, Map::empty(), rest, a, last.key());
    }
}

} // verus!
