//! Tag listings: which tags of a record are listed, the exportable
//! entry built for each, its sensitivity classification for display,
//! and the colorized rendering of one listing line.

use vstd::prelude::*;

use crate::field::{spec_is_phi_field, spec_is_warning_field, FieldId};
use crate::record::{
    dict_alias, field_alias, field_text, field_vr_text, record_order, record_fields, record_text,
    record_vrs, Record,
};
use crate::text::{
    eq_ignore_case, hex4, hex4_seq, keywords, lower_seq, pad_right, padded_right, split_keywords,
    str_eq, to_ascii_lower,
};

verus! {

/// Which tags a listing covers.
#[derive(Clone, PartialEq, Eq, Debug)]
pub enum TagFlags {
    /// All tags
    All,
    /// Important tags (patient name, study date, modality, series
    /// description)
    Short,
    /// Comma-separated list of specific tag keywords
    Specific(Vec<String>),
}

/// What a user-supplied listing-kind text denotes: a keyword for one
/// of the fixed listings, or a comma-separated keyword list.
pub fn parse_tag_flags(s: &str) -> (r: Result<TagFlags, String>)
    ensures
        r is Ok,
        lower_seq(s@) == "all"@ ==> r == Ok::<TagFlags, String>(TagFlags::All),
        lower_seq(s@) == "short"@ ==> r == Ok::<TagFlags, String>(TagFlags::Short),
        lower_seq(s@) != "all"@ && lower_seq(s@) != "short"@ ==> (r matches Ok(
            TagFlags::Specific(ks),
        ) && ks@.map_values(|t: String| t@) == keywords(lower_seq(s@))),
{
    proof {
        reveal_strlit("all");
        reveal_strlit("short");
        assert(lower_seq("all"@) =~= "all"@);
        assert(lower_seq("short"@) =~= "short"@);
    }
    if eq_ignore_case(s, "all") {
        Ok(TagFlags::All)
    } else if eq_ignore_case(s, "short") {
        Ok(TagFlags::Short)
    } else {
        let low = to_ascii_lower(s);
        Ok(TagFlags::Specific(split_keywords(low.as_str())))
    }
}

/// One listed tag, every part rendered as text, ready for export.
pub struct SerializableDicomEntry {
    pub filename: String,
    pub name: String,
    pub tag: String,
    pub vr: String,
    pub value: String,
}

/// How a listed field is classed for display.
#[derive(Clone, Copy, PartialEq, Eq, Debug, Structural)]
pub enum SeverityClass {
    /// Directly identifying personal data.
    DirectPhi,
    /// Operational context worth flagging.
    OperationalWarning,
    /// No textual value, or no dictionary name.
    UnknownOrBinary,
    /// Everything else.
    Normal,
}

/// The display class of a field with the given rendered value and
/// name. Classification is fixed: it does not depend on the selected
/// policy.
pub open spec fn classify_spec(f: FieldId, value: Seq<char>, name: Seq<char>) -> SeverityClass {
    if spec_is_phi_field(f) {
        SeverityClass::DirectPhi
    } else if spec_is_warning_field(f) {
        SeverityClass::OperationalWarning
    } else if value == "[Binary]"@ || name == "Unknown"@ {
        SeverityClass::UnknownOrBinary
    } else {
        SeverityClass::Normal
    }
}

/// Classify a field for display.
pub fn classify_field(f: FieldId, value: &str, name: &str) -> (r: SeverityClass)
    ensures
        r == classify_spec(f, value@, name@),
{
    if crate::field::is_phi_tag(f) {
        SeverityClass::DirectPhi
    } else if crate::field::is_warning_tag(f) {
        SeverityClass::OperationalWarning
    } else if str_eq(value, "[Binary]") || str_eq(name, "Unknown") {
        SeverityClass::UnknownOrBinary
    } else {
        SeverityClass::Normal
    }
}

/// The terminal color opening a listing line of this class.
pub open spec fn color_code(c: SeverityClass) -> Seq<char> {
    match c {
        SeverityClass::DirectPhi => "\u{1b}[1;91m"@,
        SeverityClass::OperationalWarning => "\u{1b}[1;93m"@,
        SeverityClass::UnknownOrBinary => "\u{1b}[90m"@,
        SeverityClass::Normal => "\u{1b}[1m"@,
    }
}

fn color_code_exec(c: SeverityClass) -> (r: &'static str)
    ensures
        r@ == color_code(c),
{
    match c {
        SeverityClass::DirectPhi => "\u{1b}[1;91m",
        SeverityClass::OperationalWarning => "\u{1b}[1;93m",
        SeverityClass::UnknownOrBinary => "\u{1b}[90m",
        SeverityClass::Normal => "\u{1b}[1m",
    }
}

/// The shade the name and value are rendered in: grey where there is
/// no textual value or no dictionary name, plain otherwise.
pub open spec fn value_shade(value: Seq<char>, name: Seq<char>) -> Seq<char> {
    if value == "[Binary]"@ || name == "Unknown"@ {
        "\u{1b}[90m"@
    } else {
        "\u{1b}[0m"@
    }
}

/// One colorized listing line: the tag in hexadecimal, the value
/// representation, the dictionary name and the rendered value,
/// aligned, colored by classification.
pub open spec fn colorized_line(
    f: FieldId,
    vr: Seq<char>,
    value: Seq<char>,
    name: Seq<char>,
) -> Seq<char> {
    color_code(classify_spec(f, value, name)) + "("@ + hex4_seq(f.group) + ","@ + hex4_seq(
        f.element,
    ) + ")"@ + "\u{1b}[0m"@ + " "@ + value_shade(value, name) + padded_right(vr, 2) + " "@
        + padded_right(name, 30) + " "@ + value + "\u{1b}[0m"@ + "\n"@
}

/// Append one colorized listing line for the field.
pub fn print_colorize(f: FieldId, vr: &str, value: &str, name: &str, out_string: &mut String)
    ensures
        final(out_string)@ == old(out_string)@ + colorized_line(f, vr@, value@, name@),
{
    let class = classify_field(f, value, name);
    out_string.append(color_code_exec(class));
    out_string.append("(");
    let g = hex4(f.group);
    out_string.append(g.as_str());
    out_string.append(",");
    let e = hex4(f.element);
    out_string.append(e.as_str());
    out_string.append(")");
    out_string.append("\u{1b}[0m");
    out_string.append(" ");
    if str_eq(value, "[Binary]") || str_eq(name, "Unknown") {
        out_string.append("\u{1b}[90m");
    } else {
        out_string.append("\u{1b}[0m");
    }
    let vr_padded = pad_right(vr, 2);
    out_string.append(vr_padded.as_str());
    out_string.append(" ");
    let name_padded = pad_right(name, 30);
    out_string.append(name_padded.as_str());
    out_string.append(" ");
    out_string.append(value);
    out_string.append("\u{1b}[0m");
    out_string.append("\n");
    assert(final(out_string)@ =~= old(out_string)@ + colorized_line(f, vr@, value@, name@));
}

/// The name a listing shows for the field: the dictionary's keyword,
/// or a fixed placeholder.
pub open spec fn display_name(f: FieldId) -> Seq<char> {
    match dict_alias(f.group, f.element) {
        Some(a) => a,
        None => "Unknown"@,
    }
}

/// The value a listing shows for a present field: its rendering, or a
/// fixed placeholder where it has none.
pub open spec fn display_value(m: Map<(u16, u16), Option<Seq<char>>>, f: FieldId) -> Seq<char> {
    match m[f.key()] {
        Some(t) => t,
        None => "[Binary]"@,
    }
}

/// The tag as an exported entry writes it: both halves in
/// hexadecimal.
pub open spec fn entry_tag_text(f: FieldId) -> Seq<char> {
    "("@ + hex4_seq(f.group) + " "@ + hex4_seq(f.element) + ")"@
}

/// Whether an exported entry is exactly the one a listing builds for
/// this present field of the record.
pub open spec fn entry_matches(
    e: SerializableDicomEntry,
    path: Seq<char>,
    f: FieldId,
    m: Map<(u16, u16), Option<Seq<char>>>,
    v: Map<(u16, u16), Seq<char>>,
) -> bool {
    &&& e.filename@ == path
    &&& e.name@ == display_name(f)
    &&& e.tag@ == entry_tag_text(f)
    &&& e.vr@ == v[f.key()]
    &&& e.value@ == display_value(m, f)
}

/// The colorized lines for the listed fields, in order.
pub open spec fn lines_of(
    fs: Seq<FieldId>,
    m: Map<(u16, u16), Option<Seq<char>>>,
    v: Map<(u16, u16), Seq<char>>,
) -> Seq<char>
    decreases fs.len(),
{
    if fs.len() == 0 {
        Seq::empty()
    } else {
        lines_of(fs.drop_last(), m, v) + colorized_line(
            fs.last(),
            v[fs.last().key()],
            display_value(m, fs.last()),
            display_name(fs.last()),
        )
    }
}

/// Those of the given fields present in the record.
pub open spec fn present_fields(fs: Seq<FieldId>, m: Map<(u16, u16), Option<Seq<char>>>) -> Seq<
    FieldId,
> {
    fs.filter(|f: FieldId| m.dom().contains(f.key()))
}

/// Build one exported entry and one listing line for each of the
/// given fields that the record holds, in the given order.
fn entries_for_fields(
    path: &str,
    obj: &Record,
    fields: &Vec<FieldId>,
    to_display: bool,
    out_string: &mut String,
) -> (r: Vec<SerializableDicomEntry>)
    ensures
        r@.len() == present_fields(fields@, record_text(*obj)).len(),
        forall|i: int|
            0 <= i < r@.len() ==> entry_matches(
                r@[i],
                path@,
                present_fields(fields@, record_text(*obj))[i],
                record_text(*obj),
                record_vrs(*obj),
            ),
        to_display ==> final(out_string)@ == old(out_string)@,
        !to_display ==> final(out_string)@ == old(out_string)@ + lines_of(
            present_fields(fields@, record_text(*obj)),
            record_text(*obj),
            record_vrs(*obj),
        ),
{
    reveal(Seq::filter);
    let ghost m = record_text(*obj);
    let ghost v = record_vrs(*obj);
    let ghost base = old(out_string)@;
    let mut r: Vec<SerializableDicomEntry> = Vec::new();
    let mut i: usize = 0;
    while i < fields.len()
        invariant
            i <= fields@.len(),
            m == record_text(*obj),
            v == record_vrs(*obj),
            r@.len() == present_fields(fields@.take(i as int), m).len(),
            forall|j: int|
                0 <= j < r@.len() ==> entry_matches(
                    r@[j],
                    path@,
                    present_fields(fields@.take(i as int), m)[j],
                    m,
                    v,
                ),
            to_display ==> out_string@ == base,
            !to_display ==> out_string@ == base + lines_of(
                present_fields(fields@.take(i as int), m),
                m,
                v,
            ),
        decreases fields@.len() - i,
    {
        reveal(Seq::filter);
        let ghost prev_sel = present_fields(fields@.take(i as int), m);
        let f = fields[i];
        match field_text(obj, f) {
            None => {},
            Some(text_opt) => {
                let value: String = match text_opt {
                    Some(t) => t,
                    None => String::from_str("[Binary]"),
                };
                let vr: String = match field_vr_text(obj, f) {
                    Some(x) => x,
                    None => String::new(),
                };
                let name: String = match field_alias(f) {
                    Some(a) => a,
                    None => String::from_str("Unknown"),
                };
                let entry = SerializableDicomEntry {
                    filename: path.to_owned(),
                    name: name.clone(),
                    tag: format_entry_tag(f),
                    vr: vr.clone(),
                    value: value.clone(),
                };
                r.push(entry);
                if !to_display {
                    print_colorize(f, vr.as_str(), value.as_str(), name.as_str(), out_string);
                }
            },
        }
        i += 1;
        proof {
            let cur = fields@.take(i as int);
            assert(cur =~= fields@.take(i - 1).push(fields@[i - 1]));
            assert(cur.drop_last() =~= fields@.take(i - 1));
            assert(cur.last() == fields@[i - 1]);
            let sel = present_fields(cur, m);
            if m.dom().contains(fields@[i - 1].key()) {
                assert(sel =~= prev_sel.push(fields@[i - 1]));
                assert(sel.drop_last() =~= prev_sel);
            } else {
                assert(sel =~= prev_sel);
            }
        }
    }
    proof {
        assert(fields@.take(fields@.len() as int) =~= fields@);
    }
    r
}

/// The tag part of an exported entry.
pub fn format_entry_tag(f: FieldId) -> (r: String)
    ensures
        r@ == entry_tag_text(f),
{
    let mut r = String::new();
    r.append("(");
    let g = hex4(f.group);
    r.append(g.as_str());
    r.append(" ");
    let e = hex4(f.element);
    r.append(e.as_str());
    r.append(")");
    assert(r@ =~= entry_tag_text(f));
    r
}

/// Every field of a record is present in it, so listing all fields
/// lists its canonical enumeration.
proof fn lemma_present_all(fs: Seq<FieldId>, m: Map<(u16, u16), Option<Seq<char>>>)
    requires
        forall|i: int| 0 <= i < fs.len() ==> m.dom().contains((#[trigger] fs[i]).key()),
    ensures
        present_fields(fs, m) == fs,
    decreases fs.len(),
{
    reveal(Seq::filter);
    if fs.len() > 0 {
        assert(forall|i: int| 0 <= i < fs.drop_last().len() ==> fs.drop_last()[i] == fs[i]);
        lemma_present_all(fs.drop_last(), m);
        assert(present_fields(fs, m) =~= fs);
    }
}

/// List every tag of the record: one entry per field, in the record's
/// own order, and, unless the listing is exported, one colorized line
/// each.
pub fn all_tagging(path: &str, obj: &Record, to_display: bool, out_string: &mut String) -> (r: Vec<
    SerializableDicomEntry,
>)
    ensures
        r@.len() == record_order(record_text(*obj)).len(),
        forall|i: int|
            0 <= i < r@.len() ==> entry_matches(
                r@[i],
                path@,
                record_order(record_text(*obj))[i],
                record_text(*obj),
                record_vrs(*obj),
            ),
        to_display ==> final(out_string)@ == old(out_string)@,
        !to_display ==> final(out_string)@ == old(out_string)@ + lines_of(
            record_order(record_text(*obj)),
            record_text(*obj),
            record_vrs(*obj),
        ),
{
    let fields = record_fields(obj);
    let r = entries_for_fields(path, obj, &fields, to_display, out_string);
    proof {
        lemma_present_all(fields@, record_text(*obj));
    }
    r
}

/// The four fields of the short listing: patient name, study date,
/// modality, series description.
pub open spec fn short_fields() -> Seq<FieldId> {
    seq![
        crate::policy::fid(0x0010, 0x0010),
        crate::policy::fid(0x0008, 0x0020),
        crate::policy::fid(0x0008, 0x0060),
        crate::policy::fid(0x0008, 0x103E),
    ]
}

/// List the short listing's fields, those the record holds, in that
/// fixed order.
pub fn short_tagging(path: &str, obj: &Record, to_display: bool, out_string: &mut String) -> (r:
    Vec<SerializableDicomEntry>)
    ensures
        r@.len() == present_fields(short_fields(), record_text(*obj)).len(),
        forall|i: int|
            0 <= i < r@.len() ==> entry_matches(
                r@[i],
                path@,
                present_fields(short_fields(), record_text(*obj))[i],
                record_text(*obj),
                record_vrs(*obj),
            ),
        to_display ==> final(out_string)@ == old(out_string)@,
        !to_display ==> final(out_string)@ == old(out_string)@ + lines_of(
            present_fields(short_fields(), record_text(*obj)),
            record_text(*obj),
            record_vrs(*obj),
        ),
{
    let mut fields: Vec<FieldId> = Vec::new();
    fields.push(FieldId::new(0x0010, 0x0010));
    fields.push(FieldId::new(0x0008, 0x0020));
    fields.push(FieldId::new(0x0008, 0x0060));
    fields.push(FieldId::new(0x0008, 0x103E));
    assert(fields@ =~= short_fields());
    entries_for_fields(path, obj, &fields, to_display, out_string)
}

/// Whether some keyword in the list reads exactly `x`.
pub open spec fn key_list_contains(keys: Seq<String>, x: Seq<char>) -> bool {
    exists|j: int| 0 <= j < keys.len() && (#[trigger] keys[j])@ == x
}

/// Whether the list of lowercased keywords names this field.
pub open spec fn keyword_selected(keys: Seq<String>, f: FieldId) -> bool {
    key_list_contains(keys, lower_seq(display_name(f)))
}

fn contains_str(keys: &Vec<String>, x: &str) -> (r: bool)
    ensures
        r == key_list_contains(keys@, x@),
{
    let mut i: usize = 0;
    while i < keys.len()
        invariant
            i <= keys@.len(),
            forall|j: int| 0 <= j < i ==> (#[trigger] keys@[j])@ != x@,
        decreases keys@.len() - i,
    {
        if str_eq(keys[i].as_str(), x) {
            return true;
        }
        i += 1;
    }
    false
}

/// List the record's fields whose lowercased dictionary name is among
/// the given keywords, in the record's own order.
pub fn specific_tagging(
    path: &str,
    input_kind: &Vec<String>,
    obj: &Record,
    to_display: bool,
    out_string: &mut String,
) -> (r: Vec<SerializableDicomEntry>)
    ensures
        r@.len() == record_order(record_text(*obj)).filter(
            |f: FieldId| keyword_selected(input_kind@, f),
        ).len(),
        forall|i: int|
            0 <= i < r@.len() ==> entry_matches(
                r@[i],
                path@,
                record_order(record_text(*obj)).filter(
                    |f: FieldId| keyword_selected(input_kind@, f),
                )[i],
                record_text(*obj),
                record_vrs(*obj),
            ),
        to_display ==> final(out_string)@ == old(out_string)@,
        !to_display ==> final(out_string)@ == old(out_string)@ + lines_of(
            record_order(record_text(*obj)).filter(
                |f: FieldId| keyword_selected(input_kind@, f),
            ),
            record_text(*obj),
            record_vrs(*obj),
        ),
{
    reveal(Seq::filter);
    let ghost m = record_text(*obj);
    let ghost v = record_vrs(*obj);
    let ghost keys = input_kind@;
    let ghost base = old(out_string)@;
    let fields = record_fields(obj);
    let ghost order = record_order(m);
    let mut r: Vec<SerializableDicomEntry> = Vec::new();
    let mut i: usize = 0;
    while i < fields.len()
        invariant
            i <= fields@.len(),
            fields@ == order,
            m == record_text(*obj),
            v == record_vrs(*obj),
            keys == input_kind@,
            forall|j: int| 0 <= j < fields@.len() ==> m.dom().contains((#[trigger] fields@[j]).key()),
            r@.len() == order.take(i as int).filter(|f: FieldId| keyword_selected(keys, f)).len(),
            forall|j: int|
                0 <= j < r@.len() ==> entry_matches(
                    r@[j],
                    path@,
                    order.take(i as int).filter(|f: FieldId| keyword_selected(keys, f))[j],
                    m,
                    v,
                ),
            to_display ==> out_string@ == base,
            !to_display ==> out_string@ == base + lines_of(
                order.take(i as int).filter(|f: FieldId| keyword_selected(keys, f)),
                m,
                v,
            ),
        decreases fields@.len() - i,
    {
        reveal(Seq::filter);
        let ghost prev_sel = order.take(i as int).filter(|f: FieldId| keyword_selected(keys, f));
        let f = fields[i];
        let name: String = match field_alias(f) {
            Some(a) => a,
            None => String::from_str("Unknown"),
        };
        let low_name = to_ascii_lower(name.as_str());
        let selected = contains_str(input_kind, low_name.as_str());
        if selected {
            let value: String = match field_text(obj, f) {
                Some(Some(t)) => t,
                Some(None) => String::from_str("[Binary]"),
                None => String::from_str("[Binary]"),
            };
            let vr: String = match field_vr_text(obj, f) {
                Some(x) => x,
                None => String::new(),
            };
            let entry = SerializableDicomEntry {
                filename: path.to_owned(),
                name: name.clone(),
                tag: format_entry_tag(f),
                vr: vr.clone(),
                value: value.clone(),
            };
            r.push(entry);
            if !to_display {
                print_colorize(f, vr.as_str(), value.as_str(), name.as_str(), out_string);
            }
        }
        i += 1;
        proof {
            let cur = order.take(i as int);
            assert(cur =~= order.take(i - 1).push(order[i - 1]));
            assert(cur.drop_last() =~= order.take(i - 1));
            assert(cur.last() == order[i - 1]);
            let sel = cur.filter(|f2: FieldId| keyword_selected(keys, f2));
            if keyword_selected(keys, order[i - 1]) {
                assert(sel =~= prev_sel.push(order[i - 1]));
                assert(sel.drop_last() =~= prev_sel);
            } else {
                assert(sel =~= prev_sel);
            }
        }
    }
    proof {
        assert(order.take(order.len() as int) =~= order);
    }
    r
}

} // verus!
