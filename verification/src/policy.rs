//! The policy catalog: a severity level names a fixed, ordered,
//! duplicate-free list of field identifiers to act upon. Severities
//! cascade: every field of a looser policy is also in the stricter ones.

use vstd::prelude::*;

use crate::field::FieldId;

verus! {

/// De-identification severity, from loosest to strictest.
#[derive(Clone, Copy, PartialEq, Eq, Debug, Structural)]
pub enum Policy {
    Basic,
    Moderate,
    Strict,
}

/// Shorthand for a field identifier in the catalog definitions.
pub open spec fn fid(group: u16, element: u16) -> FieldId {
    FieldId { group, element }
}

/// Fields acted upon under the basic severity: directly identifying
/// patient, physician, institution and device data, plus free-text
/// descriptive fields.
pub open spec fn basic_fields() -> Seq<FieldId> {
    seq![
        fid(0x0010, 0x0010),
        fid(0x0010, 0x0020),
        fid(0x0010, 0x0030),
        fid(0x0010, 0x0040),
        fid(0x0010, 0x1000),
        fid(0x0010, 0x1001),
        fid(0x0010, 0x1040),
        fid(0x0010, 0x2160),
        fid(0x0010, 0x4000),
        fid(0x0008, 0x0090),
        fid(0x0008, 0x0050),
        fid(0x0008, 0x0080),
        fid(0x0008, 0x0081),
        fid(0x0008, 0x1040),
        fid(0x0008, 0x1010),
        fid(0x0038, 0x0010),
        fid(0x0032, 0x1032),
        fid(0x0032, 0x1060),
        fid(0x0032, 0x1064),
        fid(0x0040, 0x1001),
        fid(0x0040, 0x1003),
        fid(0x0040, 0x1400),
        fid(0x0008, 0x009C),
        fid(0x0010, 0x1060),
        fid(0x0040, 0x0243),
        fid(0x0040, 0x0242),
        fid(0x0040, 0x0254),
        fid(0x0018, 0x1000),
        fid(0x0020, 0x4000),
        fid(0x4008, 0x0114),
    ]
}

/// What the moderate severity adds to the basic one: acquisition
/// timestamps and equipment/protocol fields.
pub open spec fn moderate_extension() -> Seq<FieldId> {
    seq![
        fid(0x0008, 0x0020),
        fid(0x0008, 0x0021),
        fid(0x0008, 0x0022),
        fid(0x0008, 0x0023),
        fid(0x0008, 0x0030),
        fid(0x0008, 0x0031),
        fid(0x0008, 0x0032),
        fid(0x0008, 0x0033),
        fid(0x0018, 0x0015),
        fid(0x0018, 0x5100),
        fid(0x0008, 0x1070),
        fid(0x0018, 0x1010),
        fid(0x0018, 0x1050),
        fid(0x0018, 0x1051),
    ]
}

/// What the strict severity adds to the moderate one: study and series
/// instance identifiers and the remaining technical/provenance fields.
pub open spec fn strict_extension() -> Seq<FieldId> {
    seq![
        fid(0x0020, 0x000D),
        fid(0x0020, 0x000E),
        fid(0x0008, 0x0018),
        fid(0x0018, 0x1002),
        fid(0x0008, 0x0070),
        fid(0x0008, 0x1011),
        fid(0x0018, 0x1004),
        fid(0x0018, 0x1020),
        fid(0x0018, 0x1030),
        fid(0x0040, 0xA730),
        fid(0x0008, 0x1090),
        fid(0x0008, 0x0060),
        fid(0x0010, 0x1020),
        fid(0x0010, 0x1030),
        fid(0x0010, 0x21B0),
        fid(0x0040, 0xA124),
    ]
}

/// Fields acted upon under the moderate severity.
pub open spec fn moderate_fields() -> Seq<FieldId> {
    basic_fields() + moderate_extension()
}

/// Fields acted upon under the strict severity.
pub open spec fn strict_fields() -> Seq<FieldId> {
    moderate_fields() + strict_extension()
}

/// The catalog: the ordered field list owned by a severity.
pub open spec fn policy_fields(p: Policy) -> Seq<FieldId> {
    match p {
        Policy::Basic => basic_fields(),
        Policy::Moderate => moderate_fields(),
        Policy::Strict => strict_fields(),
    }
}

impl Policy {
    /// The ordered, duplicate-free list of fields this severity acts
    /// upon.
    pub fn tags(&self) -> (r: Vec<FieldId>)
        ensures
            r@ == policy_fields(*self),
            r@.no_duplicates(),
    {
        proof {
            lemma_catalog_no_duplicates();
        }
        let mut v: Vec<FieldId> = Vec::new();
        push_basic(&mut v);
        match self {
            Policy::Basic => {
                assert(v@ =~= basic_fields());
            },
            Policy::Moderate => {
                push_moderate_extension(&mut v);
                assert(v@ =~= moderate_fields());
            },
            Policy::Strict => {
                push_moderate_extension(&mut v);
                push_strict_extension(&mut v);
                assert(v@ =~= strict_fields());
            },
        }
        v
    }
}

fn push_basic(v: &mut Vec<FieldId>)
    ensures
        final(v)@ == old(v)@ + basic_fields(),
{
    let ghost v0 = v@;
    v.push(FieldId::new(0x0010, 0x0010));
    v.push(FieldId::new(0x0010, 0x0020));
    v.push(FieldId::new(0x0010, 0x0030));
    v.push(FieldId::new(0x0010, 0x0040));
    v.push(FieldId::new(0x0010, 0x1000));
    v.push(FieldId::new(0x0010, 0x1001));
    v.push(FieldId::new(0x0010, 0x1040));
    v.push(FieldId::new(0x0010, 0x2160));
    v.push(FieldId::new(0x0010, 0x4000));
    v.push(FieldId::new(0x0008, 0x0090));
    v.push(FieldId::new(0x0008, 0x0050));
    v.push(FieldId::new(0x0008, 0x0080));
    v.push(FieldId::new(0x0008, 0x0081));
    v.push(FieldId::new(0x0008, 0x1040));
    v.push(FieldId::new(0x0008, 0x1010));
    v.push(FieldId::new(0x0038, 0x0010));
    v.push(FieldId::new(0x0032, 0x1032));
    v.push(FieldId::new(0x0032, 0x1060));
    v.push(FieldId::new(0x0032, 0x1064));
    v.push(FieldId::new(0x0040, 0x1001));
    v.push(FieldId::new(0x0040, 0x1003));
    v.push(FieldId::new(0x0040, 0x1400));
    v.push(FieldId::new(0x0008, 0x009C));
    v.push(FieldId::new(0x0010, 0x1060));
    v.push(FieldId::new(0x0040, 0x0243));
    v.push(FieldId::new(0x0040, 0x0242));
    v.push(FieldId::new(0x0040, 0x0254));
    v.push(FieldId::new(0x0018, 0x1000));
    v.push(FieldId::new(0x0020, 0x4000));
    v.push(FieldId::new(0x4008, 0x0114));
    assert(v@ =~= v0 + basic_fields());
}

fn push_moderate_extension(v: &mut Vec<FieldId>)
    ensures
        final(v)@ == old(v)@ + moderate_extension(),
{
    let ghost v0 = v@;
    v.push(FieldId::new(0x0008, 0x0020));
    v.push(FieldId::new(0x0008, 0x0021));
    v.push(FieldId::new(0x0008, 0x0022));
    v.push(FieldId::new(0x0008, 0x0023));
    v.push(FieldId::new(0x0008, 0x0030));
    v.push(FieldId::new(0x0008, 0x0031));
    v.push(FieldId::new(0x0008, 0x0032));
    v.push(FieldId::new(0x0008, 0x0033));
    v.push(FieldId::new(0x0018, 0x0015));
    v.push(FieldId::new(0x0018, 0x5100));
    v.push(FieldId::new(0x0008, 0x1070));
    v.push(FieldId::new(0x0018, 0x1010));
    v.push(FieldId::new(0x0018, 0x1050));
    v.push(FieldId::new(0x0018, 0x1051));
    assert(v@ =~= v0 + moderate_extension());
}

fn push_strict_extension(v: &mut Vec<FieldId>)
    ensures
        final(v)@ == old(v)@ + strict_extension(),
{
    let ghost v0 = v@;
    v.push(FieldId::new(0x0020, 0x000D));
    v.push(FieldId::new(0x0020, 0x000E));
    v.push(FieldId::new(0x0008, 0x0018));
    v.push(FieldId::new(0x0018, 0x1002));
    v.push(FieldId::new(0x0008, 0x0070));
    v.push(FieldId::new(0x0008, 0x1011));
    v.push(FieldId::new(0x0018, 0x1004));
    v.push(FieldId::new(0x0018, 0x1020));
    v.push(FieldId::new(0x0018, 0x1030));
    v.push(FieldId::new(0x0040, 0xA730));
    v.push(FieldId::new(0x0008, 0x1090));
    v.push(FieldId::new(0x0008, 0x0060));
    v.push(FieldId::new(0x0010, 0x1020));
    v.push(FieldId::new(0x0010, 0x1030));
    v.push(FieldId::new(0x0010, 0x21B0));
    v.push(FieldId::new(0x0040, 0xA124));
    assert(v@ =~= v0 + strict_extension());
}

/// What a user-supplied policy keyword denotes, ASCII-case-insensitively.
pub open spec fn parse_policy_spec(s: Seq<char>) -> Option<Policy> {
    if crate::text::lower_seq(s) == "basic"@ {
        Some(Policy::Basic)
    } else if crate::text::lower_seq(s) == "moderate"@ {
        Some(Policy::Moderate)
    } else if crate::text::lower_seq(s) == "strict"@ {
        Some(Policy::Strict)
    } else {
        None
    }
}

/// Parse a policy keyword; any other input is rejected with a fixed
/// message.
pub fn parse_policy(input: &str) -> (r: Result<Policy, String>)
    ensures
        r is Ok <==> parse_policy_spec(input@) is Some,
        r matches Ok(p) ==> parse_policy_spec(input@) == Some(p),
        r matches Err(m) ==> m@ == "should be either: 'basic', 'moderate' or 'strict'"@,
{
    proof {
        lemma_policy_keywords_are_lowercase();
    }
    if crate::text::eq_ignore_case(input, "basic") {
        Ok(Policy::Basic)
    } else if crate::text::eq_ignore_case(input, "moderate") {
        Ok(Policy::Moderate)
    } else if crate::text::eq_ignore_case(input, "strict") {
        Ok(Policy::Strict)
    } else {
        Err(String::from_str("should be either: 'basic', 'moderate' or 'strict'"))
    }
}

proof fn lemma_policy_keywords_are_lowercase()
    ensures
        crate::text::lower_seq("basic"@) == "basic"@,
        crate::text::lower_seq("moderate"@) == "moderate"@,
        crate::text::lower_seq("strict"@) == "strict"@,
{
    reveal_strlit("basic");
    reveal_strlit("moderate");
    reveal_strlit("strict");
    assert(crate::text::lower_seq("basic"@) =~= "basic"@);
    assert(crate::text::lower_seq("moderate"@) =~= "moderate"@);
    assert(crate::text::lower_seq("strict"@) =~= "strict"@);
}

/// Each severity's field list is free of duplicates.
#[verifier::rlimit(100)]
pub proof fn lemma_catalog_no_duplicates()
    ensures
        basic_fields().no_duplicates(),
        moderate_fields().no_duplicates(),
        strict_fields().no_duplicates(),
{
    assert(strict_fields().no_duplicates()) by {
        assert(forall|i: int, j: int|
            0 <= i < j < strict_fields().len() ==> strict_fields()[i] != strict_fields()[j]);
    }
    assert forall|i: int, j: int|
        0 <= i < j < moderate_fields().len() implies moderate_fields()[i]
        != moderate_fields()[j] by {
        assert(moderate_fields()[i] == strict_fields()[i]);
        assert(moderate_fields()[j] == strict_fields()[j]);
    }
    assert forall|i: int, j: int|
        0 <= i < j < basic_fields().len() implies basic_fields()[i] != basic_fields()[j] by {
        assert(basic_fields()[i] == strict_fields()[i]);
        assert(basic_fields()[j] == strict_fields()[j]);
    }
}

/// Cascading severities: everything the basic policy acts upon, the
/// moderate one does too, and everything the moderate one acts upon,
/// the strict one does too.
pub proof fn lemma_policy_cascade()
    ensures
        forall|f: FieldId| basic_fields().contains(f) ==> moderate_fields().contains(f),
        forall|f: FieldId| moderate_fields().contains(f) ==> strict_fields().contains(f),
{
    assert forall|f: FieldId| basic_fields().contains(f) implies moderate_fields().contains(f) by {
        let i = choose|i: int| 0 <= i < basic_fields().len() && basic_fields()[i] == f;
        assert(moderate_fields()[i] == f);
    }
    assert forall|f: FieldId| moderate_fields().contains(f) implies strict_fields().contains(
        f,
    ) by {
        let i = choose|i: int| 0 <= i < moderate_fields().len() && moderate_fields()[i] == f;
        assert(strict_fields()[i] == f);
    }
}

} // verus!
