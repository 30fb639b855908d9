//! The record model. A record is an in-memory element store of the
//! imaging format, owned by the `dicom_object` crate; this module
//! declares that store to the verifier and gives its operations
//! contracts over two abstract maps: the textual rendering of each
//! field's value, and each field's value-representation code.
//!
//! The rendering of a field holds `Some(text)` where the value is
//! primitive (its clean-string form, trailing spaces and NULs
//! trimmed), and `None` where the value is a nested sequence that has
//! no such form.

use vstd::prelude::*;

use crate::field::FieldId;
use dicom_core::dictionary::DataDictionary;
use dicom_dictionary_std::StandardDataDictionary;
use dicom_object::InMemDicomObject;

verus! {

#[verifier::external_type_specification]
#[verifier::external_body]
#[verifier::reject_recursive_types(D)]
pub struct ExInMemDicomObject<D>(InMemDicomObject<D>);

#[verifier::external_type_specification]
#[verifier::external_body]
pub struct ExStandardDataDictionary(StandardDataDictionary);

/// One record's element store.
pub type Record = InMemDicomObject<StandardDataDictionary>;

/// The textual rendering of each field present in the record.
pub uninterp spec fn record_text(r: Record) -> Map<(u16, u16), Option<Seq<char>>>;

/// The value-representation code of each field present in the record.
pub uninterp spec fn record_vrs(r: Record) -> Map<(u16, u16), Seq<char>>;

/// The standard dictionary's keyword for a field identifier, if the
/// field is listed there.
pub uninterp spec fn dict_alias(group: u16, element: u16) -> Option<Seq<char>>;

/// Whether the record holds the field.
///
/// Relies on `InMemDicomObject::get`, a lookup in the record's element
/// map.
#[verifier::external_body]
pub(crate) fn field_present(obj: &Record, f: FieldId) -> (r: bool)
    ensures
        r == record_text(*obj).dom().contains(f.key()),
{
    obj.get(dicom_core::Tag(f.group, f.element)).is_some()
}

/// The textual rendering of the field's value: `None` if the field is
/// absent, `Some(None)` if its value has no clean-string form,
/// `Some(Some(text))` otherwise.
///
/// Relies on `InMemDicomObject::get` and `Value::to_str`; the latter
/// renders any primitive value as a clean string and refuses nested
/// sequences.
#[verifier::external_body]
pub(crate) fn field_text(obj: &Record, f: FieldId) -> (r: Option<Option<String>>)
    ensures
        match r {
            None => !record_text(*obj).dom().contains(f.key()),
            Some(None) => record_text(*obj).dom().contains(f.key()) && record_text(*obj)[f.key()]
                is None,
            Some(Some(t)) => record_text(*obj).dom().contains(f.key()) && record_text(*obj)[
                f.key()] == Some(t@),
        },
{
    match obj.get(dicom_core::Tag(f.group, f.element)) {
        None => None,
        Some(el) => match el.value().to_str() {
            Ok(s) => Some(Some(s.into_owned())),
            Err(_) => Some(None),
        },
    }
}

/// The field's two-letter value-representation code, if the field is
/// present.
///
/// Relies on `InMemDicomObject::get`, `DataElement::vr` and
/// `VR::to_string`.
#[verifier::external_body]
pub(crate) fn field_vr_text(obj: &Record, f: FieldId) -> (r: Option<String>)
    ensures
        match r {
            None => !record_text(*obj).dom().contains(f.key()),
            Some(v) => record_text(*obj).dom().contains(f.key()) && record_vrs(*obj)[f.key()]
                == v@,
        },
{
    obj.get(dicom_core::Tag(f.group, f.element)).map(|el| el.vr().to_string().to_owned())
}

/// Whether a text may be written as a field value without its
/// rendering coming back changed: the clean-string form trims trailing
/// spaces and NULs.
pub open spec fn clean_text(t: Seq<char>) -> bool {
    t.len() == 0 || (t.last() != ' ' && t.last() != '\u{0}')
}

/// Overwrite the value of a present field with the given text, keeping
/// the field's value representation.
///
/// Relies on `InMemDicomObject::element` to read the current value
/// representation, and `InMemDicomObject::put_str`, which replaces the
/// element at that tag in the record's element map.
#[verifier::external_body]
pub(crate) fn set_field_text(obj: &mut Record, f: FieldId, text: &str)
    requires
        record_text(*old(obj)).dom().contains(f.key()),
        clean_text(text@),
    ensures
        record_text(*final(obj)) == record_text(*old(obj)).insert(f.key(), Some(text@)),
        record_vrs(*final(obj)) == record_vrs(*old(obj)),
{
    let tag = dicom_core::Tag(f.group, f.element);
    let vr = match obj.element(tag) {
        Ok(el) => el.vr(),
        Err(_) => dicom_core::VR::LO,
    };
    obj.put_str(tag, vr, text);
}

/// Delete the field from the record, reporting whether it was present.
///
/// Relies on `InMemDicomObject::remove_element`, which removes the
/// element at that tag from the record's element map.
#[verifier::external_body]
pub(crate) fn remove_field(obj: &mut Record, f: FieldId) -> (r: bool)
    ensures
        r == record_text(*old(obj)).dom().contains(f.key()),
        record_text(*final(obj)) == record_text(*old(obj)).remove(f.key()),
        record_vrs(*final(obj)) == record_vrs(*old(obj)).remove(f.key()),
{
    obj.remove_element(dicom_core::Tag(f.group, f.element))
}

/// Whether the field identifiers come strictly ascending in the
/// format's (group, element) order.
pub open spec fn sorted_by_code(fs: Seq<FieldId>) -> bool {
    forall|i: int, j: int|
        0 <= i < j < fs.len() ==> fs[i].group < fs[j].group || (fs[i].group == fs[j].group
            && fs[i].element < fs[j].element)
}

/// Whether some field in the list has the given key.
pub open spec fn has_key(fs: Seq<FieldId>, k: (u16, u16)) -> bool {
    exists|i: int| 0 <= i < fs.len() && (#[trigger] fs[i]).key() == k
}

/// Whether `fs` enumerates exactly the fields of the model map `m`, in
/// strictly ascending order.
pub open spec fn enumerates(fs: Seq<FieldId>, m: Map<(u16, u16), Option<Seq<char>>>) -> bool {
    &&& sorted_by_code(fs)
    &&& forall|i: int| 0 <= i < fs.len() ==> m.dom().contains((#[trigger] fs[i]).key())
    &&& forall|k: (u16, u16)| #[trigger] m.dom().contains(k) ==> has_key(fs, k)
}

/// The fields present in the record, in ascending (group, element)
/// order.
///
/// Relies on `InMemDicomObject::iter`, which walks the record's
/// element map in ascending tag order, and `Header::tag` on each
/// element.
#[verifier::external_body]
fn field_list_raw(obj: &Record) -> (r: Vec<FieldId>)
    ensures
        enumerates(r@, record_text(*obj)),
        r@.map_values(|f: FieldId| f.key()).to_set() == record_text(*obj).dom(),
{
    obj.iter()
        .map(|el| {
            let t = el.header().tag;
            FieldId { group: t.0, element: t.1 }
        })
        .collect()
}

/// The standard dictionary's keyword for the field, if it names one.
///
/// Relies on `StandardDataDictionary::by_tag`, a lookup in the
/// standard's fixed tag table, and its entries' `alias`.
#[verifier::external_body]
pub(crate) fn field_alias(f: FieldId) -> (r: Option<String>)
    ensures
        match r {
            None => dict_alias(f.group, f.element) is None,
            Some(a) => dict_alias(f.group, f.element) == Some(a@),
        },
{
    StandardDataDictionary
        .by_tag(dicom_core::Tag(f.group, f.element))
        .map(|entry| entry.alias.to_owned())
}

/// The unique strictly ascending enumeration of a record model's
/// fields.
pub open spec fn record_order(m: Map<(u16, u16), Option<Seq<char>>>) -> Seq<FieldId> {
    choose|fs: Seq<FieldId>| enumerates(fs, m)
}

/// The fields present in the record, in ascending (group, element)
/// order.
pub fn record_fields(obj: &Record) -> (r: Vec<FieldId>)
    ensures
        record_text(*obj).dom().finite(),
        r@ == record_order(record_text(*obj)),
        enumerates(r@, record_text(*obj)),
        r@.no_duplicates(),
{
    let r = field_list_raw(obj);
    proof {
        let m = record_text(*obj);
        vstd::seq_lib::seq_to_set_is_finite(r@.map_values(|f: FieldId| f.key()));
        assert(enumerates(record_order(m), m)) by {
            assert(enumerates(r@, m));
        }
        lemma_enumeration_unique(r@, record_order(m), m);
        lemma_sorted_no_duplicates(r@);
    }
    r
}

proof fn lemma_sorted_no_duplicates(fs: Seq<FieldId>)
    requires
        sorted_by_code(fs),
    ensures
        fs.no_duplicates(),
{
    assert forall|i: int, j: int| 0 <= i < j < fs.len() implies fs[i] != fs[j] by {
        assert(fs[i].group < fs[j].group || (fs[i].group == fs[j].group && fs[i].element
            < fs[j].element));
    }
}

/// A model map has exactly one strictly ascending enumeration.
proof fn lemma_enumeration_unique(
    a: Seq<FieldId>,
    b: Seq<FieldId>,
    m: Map<(u16, u16), Option<Seq<char>>>,
)
    requires
        enumerates(a, m),
        enumerates(b, m),
    ensures
        a == b,
    decreases a.len(),
{
    if a.len() == 0 {
        if b.len() != 0 {
            assert(m.dom().contains(b[0].key()));
            assert(has_key(a, b[0].key()));
        }
        assert(a =~= b);
    } else if b.len() == 0 {
        assert(m.dom().contains(a[0].key()));
        assert(has_key(b, a[0].key()));
        assert(a =~= b);
    } else {
        // The heads are both the minimum key of m, hence equal.
        assert(m.dom().contains(b[0].key()));
        assert(has_key(a, b[0].key()));
        let ia = choose|i: int| 0 <= i < a.len() && (#[trigger] a[i]).key() == b[0].key();
        assert(m.dom().contains(a[0].key()));
        assert(has_key(b, a[0].key()));
        let ib = choose|i: int| 0 <= i < b.len() && (#[trigger] b[i]).key() == a[0].key();
        assert(a[0] == b[0]) by {
            if ia > 0 {
                assert(a[0].group < a[ia].group || (a[0].group == a[ia].group && a[0].element
                    < a[ia].element));
            }
            if ib > 0 {
                assert(b[0].group < b[ib].group || (b[0].group == b[ib].group && b[0].element
                    < b[ib].element));
            }
        }
        let ta = a.skip(1);
        let tb = b.skip(1);
        let tm = m.remove(a[0].key());
        assert(forall|i: int, j: int|
            0 <= i < j < ta.len() ==> ta[i] == a[i + 1] && ta[j] == a[j + 1]);
        assert(forall|i: int, j: int|
            0 <= i < j < tb.len() ==> tb[i] == b[i + 1] && tb[j] == b[j + 1]);
        assert(enumerates(ta, tm)) by {
            lemma_tail_enumerates(a, m);
        }
        assert(enumerates(tb, tm)) by {
            lemma_tail_enumerates(b, m);
        }
        lemma_enumeration_unique(ta, tb, tm);
        assert(a.len() == b.len());
        assert(forall|i: int| 1 <= i < a.len() ==> a[i] == ta[i - 1] && b[i] == tb[i - 1]);
        assert(a =~= b);
    }
}

/// Dropping a sorted enumeration's head enumerates the model without
/// the head's key.
proof fn lemma_tail_enumerates(a: Seq<FieldId>, m: Map<(u16, u16), Option<Seq<char>>>)
    requires
        enumerates(a, m),
        a.len() > 0,
    ensures
        enumerates(a.skip(1), m.remove(a[0].key())),
{
    let t = a.skip(1);
    let tm = m.remove(a[0].key());
    assert(forall|i: int| 0 <= i < t.len() ==> t[i] == a[i + 1]);
    assert(sorted_by_code(t));
    assert forall|i: int| 0 <= i < t.len() implies tm.dom().contains((#[trigger] t[i]).key()) by {
        assert(a[0].group < a[i + 1].group || (a[0].group == a[i + 1].group && a[0].element < a[i
            + 1].element));
        assert(m.dom().contains(a[i + 1].key()));
    }
    assert forall|k: (u16, u16)| #[trigger] tm.dom().contains(k) implies has_key(t, k) by {
        assert(m.dom().contains(k));
        assert(has_key(a, k));
        let i = choose|i: int| 0 <= i < a.len() && (#[trigger] a[i]).key() == k;
        assert(i != 0);
        assert(t[i - 1] == a[i]);
        assert((#[trigger] t[i - 1]).key() == k);
    }
}

} // verus!
