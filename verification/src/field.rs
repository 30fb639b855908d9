//! Field identifiers: a (group, element) pair naming one metadata field
//! of a record, and the fixed sensitivity classifications used for
//! display.

use vstd::prelude::*;

verus! {

/// A two-part numeric identifier uniquely naming a metadata field
/// within a record. The imaging standard calls these "tags".
#[derive(Clone, Copy, PartialEq, Eq, Hash, Debug, Structural)]
pub struct FieldId {
    pub group: u16,
    pub element: u16,
}

impl FieldId {
    pub fn new(group: u16, element: u16) -> (r: FieldId)
        ensures
            r.group == group,
            r.element == element,
    {
        FieldId { group, element }
    }

    /// The pair form under which the record model is keyed.
    pub open spec fn key(self) -> (u16, u16) {
        (self.group, self.element)
    }
}

/// Fields that carry directly identifying personal information.
pub open spec fn spec_is_phi_field(f: FieldId) -> bool {
    f == (FieldId { group: 0x0010, element: 0x0010 })  // Patient's Name
    || f == (FieldId { group: 0x0010, element: 0x0020 })  // Patient ID
    || f == (FieldId { group: 0x0010, element: 0x0030 })  // Patient's Birth Date
    || f == (FieldId { group: 0x0010, element: 0x0032 })  // Patient's Birth Time
    || f == (FieldId { group: 0x0010, element: 0x0040 })  // Patient's Sex
    || f == (FieldId { group: 0x0010, element: 0x1000 })  // Other Patient IDs
    || f == (FieldId { group: 0x0010, element: 0x1001 })  // Other Patient Names
    || f == (FieldId { group: 0x0010, element: 0x1005 })  // Patient's Birth Name
    || f == (FieldId { group: 0x0010, element: 0x1060 })  // Patient's Mother's Birth Name
    || f == (FieldId { group: 0x0010, element: 0x2154 })  // Patient's Telephone Numbers
    || f == (FieldId { group: 0x0010, element: 0x2180 })  // Occupation
    || f == (FieldId { group: 0x0010, element: 0x1040 })  // Patient's Address
    || f == (FieldId { group: 0x0038, element: 0x0300 })  // Current Patient Location
    || f == (FieldId { group: 0x0038, element: 0x0400 })  // Patient's Institution Residence
}

/// Fields that carry operational context worth flagging, short of
/// direct identification.
pub open spec fn spec_is_warning_field(f: FieldId) -> bool {
    f == (FieldId { group: 0x0008, element: 0x0050 })  // Accession Number
    || f == (FieldId { group: 0x0008, element: 0x0080 })  // Institution Name
    || f == (FieldId { group: 0x0008, element: 0x0081 })  // Institution Address
    || f == (FieldId { group: 0x0008, element: 0x0090 })  // Referring Physician's Name
    || f == (FieldId { group: 0x0008, element: 0x0092 })  // Referring Physician's Address
    || f == (FieldId { group: 0x0008, element: 0x0094 })  // Referring Physician's Telephone Numbers
    || f == (FieldId { group: 0x0008, element: 0x1010 })  // Station Name
    || f == (FieldId { group: 0x0008, element: 0x1040 })  // Institutional Department Name
    || f == (FieldId { group: 0x0008, element: 0x1050 })  // Performing Physician's Name
    || f == (FieldId { group: 0x0008, element: 0x1070 })  // Operator's Name
    || f == (FieldId { group: 0x0008, element: 0x1030 })  // Study Description
    || f == (FieldId { group: 0x0008, element: 0x103E })  // Series Description
    || f == (FieldId { group: 0x0018, element: 0x1000 })  // Device Serial Number
    || f == (FieldId { group: 0x0018, element: 0x1030 })  // Protocol Name
}

/// Whether the field is one of the directly identifying ones.
pub fn is_phi_tag(f: FieldId) -> (r: bool)
    ensures
        r == spec_is_phi_field(f),
{
    (f.group == 0x0010 && (f.element == 0x0010 || f.element == 0x0020 || f.element == 0x0030
        || f.element == 0x0032 || f.element == 0x0040 || f.element == 0x1000
        || f.element == 0x1001 || f.element == 0x1005 || f.element == 0x1060
        || f.element == 0x2154 || f.element == 0x2180 || f.element == 0x1040)) || (f.group
        == 0x0038 && (f.element == 0x0300 || f.element == 0x0400))
}

/// Whether the field is one of the operational-warning ones.
pub fn is_warning_tag(f: FieldId) -> (r: bool)
    ensures
        r == spec_is_warning_field(f),
{
    (f.group == 0x0008 && (f.element == 0x0050 || f.element == 0x0080 || f.element == 0x0081
        || f.element == 0x0090 || f.element == 0x0092 || f.element == 0x0094
        || f.element == 0x1010 || f.element == 0x1040 || f.element == 0x1050
        || f.element == 0x1070 || f.element == 0x1030 || f.element == 0x103E)) || (f.group
        == 0x0018 && (f.element == 0x1000 || f.element == 0x1030))
}

} // verus!
