//! One required proof input of a presentation definition: its constraint
//! fields, accepted formats, and the check of one decoded presentation
//! against them.

use vstd::prelude::*;

use crate::credential_format::ClaimFormatMap;
use crate::error::Error;
use crate::json_path::{
    parse_path, resolve_path, seg_views, spec_parse_path, spec_resolve_path, PathSegment,
    SpecPathSegment,
};
use crate::json_schema_validation::{spec_schema_ok, SchemaValidator};
use crate::json_value::JsonValue;
use crate::presentation_submission::DescriptorMap;

verus! {

/// How strictly a constraint field is demanded: a `Required` field must
/// resolve to a value; the other strictnesses are satisfied vacuously when
/// no candidate path resolves.
#[derive(Debug, Clone, Copy, PartialEq, Eq, Structural)]
pub enum Predicate {
    Required,
    Preferred,
    Optional,
}

/// Whether the holder must limit the presentation to the claims the
/// constraint fields name: under `Required`, a presentation asserting any
/// claim that lies under no named position is rejected; `Preferred` is
/// advisory and never rejects.
#[derive(Debug, Clone, Copy, PartialEq, Eq, Structural)]
pub enum ConstraintsLimitDisclosure {
    Required,
    Preferred,
}

/// One required claim value: an ordered non-empty list of candidate paths,
/// the first that resolves winning, an optional filter schema for the
/// resolved value, and a predicate strictness.
#[derive(Debug)]
pub struct ConstraintsField {
    pub path: Vec<String>,
    pub name: Option<String>,
    pub purpose: Option<String>,
    pub filter: Option<SchemaValidator>,
    pub predicate: Option<Predicate>,
}

impl ConstraintsField {
    /// Creates a constraint field with `path` as its only candidate path.
    pub fn new(path: String) -> (r: Self)
        ensures
            r.path@ =~= seq![path],
            r.name is None,
            r.purpose is None,
            r.filter is None,
            r.predicate is None,
    {
        let mut paths: Vec<String> = Vec::new();
        paths.push(path);
        Self { path: paths, name: None, purpose: None, filter: None, predicate: None }
    }

    /// Appends one more candidate path, tried after the earlier ones.
    pub fn add_path(self, path: String) -> (r: Self)
        ensures
            r.path@ == self.path@.push(path),
            r == (ConstraintsField { path: r.path, ..self }),
    {
        let mut s = self;
        s.path.push(path);
        s
    }

    pub fn set_name(self, name: String) -> (r: Self)
        ensures
            r == (ConstraintsField { name: Some(name), ..self }),
    {
        Self { name: Some(name), ..self }
    }

    pub fn set_purpose(self, purpose: String) -> (r: Self)
        ensures
            r == (ConstraintsField { purpose: Some(purpose), ..self }),
    {
        Self { purpose: Some(purpose), ..self }
    }

    /// Declares the filter schema the resolved value must satisfy.
    pub fn set_filter(self, filter: SchemaValidator) -> (r: Self)
        ensures
            r == (ConstraintsField { filter: Some(filter), ..self }),
    {
        Self { filter: Some(filter), ..self }
    }

    pub fn set_predicate(self, predicate: Predicate) -> (r: Self)
        ensures
            r == (ConstraintsField { predicate: Some(predicate), ..self }),
    {
        Self { predicate: Some(predicate), ..self }
    }
}

/// The set of field requirements of one input descriptor.
#[derive(Debug)]
pub struct Constraints {
    pub fields: Vec<ConstraintsField>,
    pub limit_disclosure: Option<ConstraintsLimitDisclosure>,
}

impl Constraints {
    /// Creates an empty constraints object.
    pub fn new() -> (r: Self)
        ensures
            r.fields@ =~= Seq::<ConstraintsField>::empty(),
            r.limit_disclosure is None,
    {
        Self { fields: Vec::new(), limit_disclosure: None }
    }

    /// Appends one constraint field, checked after the earlier ones.
    pub fn add_constraint(self, field: ConstraintsField) -> (r: Self)
        ensures
            r.fields@ == self.fields@.push(field),
            r.limit_disclosure == self.limit_disclosure,
    {
        let mut s = self;
        s.fields.push(field);
        s
    }

    pub fn set_limit_disclosure(self, limit_disclosure: ConstraintsLimitDisclosure) -> (r: Self)
        ensures
            r == (Constraints { limit_disclosure: Some(limit_disclosure), ..self }),
    {
        Self { limit_disclosure: Some(limit_disclosure), ..self }
    }
}

/// The first value that the candidate paths from position `i` on resolve
/// to against the presentation `vp`.
pub open spec fn spec_first_resolved_from(paths: Seq<String>, vp: JsonValue, i: int) -> Option<
    JsonValue,
>
    decreases paths.len() - i,
{
    if i < 0 || i >= paths.len() {
        None
    } else {
        match spec_resolve_path(paths[i]@, vp) {
            Some(v) => Some(v),
            None => spec_first_resolved_from(paths, vp, i + 1),
        }
    }
}

/// Whether one constraint field is satisfied by the presentation `vp`:
/// the first resolved candidate value satisfies the filter when one is
/// declared; when no candidate resolves, only a `Required` predicate fails.
pub open spec fn spec_field_ok(f: ConstraintsField, vp: JsonValue) -> bool {
    match spec_first_resolved_from(f.path@, vp, 0) {
        Some(v) => match f.filter {
            Some(s) => spec_schema_ok(s, v),
            None => true,
        },
        None => f.predicate != Some(Predicate::Required),
    }
}

/// Whether every constraint field before position `n` is satisfied by the
/// presentation `vp`.
pub open spec fn spec_fields_ok_to(fields: Seq<ConstraintsField>, vp: JsonValue, n: int) -> bool {
    forall|j: int| 0 <= j < n ==> spec_field_ok(#[trigger] fields[j], vp)
}

/// Whether some candidate path of some constraint field names exactly the
/// position `pos` of the claims tree.
pub open spec fn spec_pos_named(fields: Seq<ConstraintsField>, pos: Seq<SpecPathSegment>) -> bool {
    exists|i: int, j: int|
        0 <= i < fields.len() && 0 <= j < fields[i].path@.len() && spec_parse_path(
            (#[trigger] fields[i].path@[j])@,
        ) == Some(pos)
}

/// Whether the value `v`, standing at position `pos` of the claims tree,
/// asserts no claim beyond those the constraint fields name: a named
/// position is disclosed together with everything below it, an object or
/// array discloses no more than its members do, and any other value at an
/// unnamed position is an extra claim.
pub open spec fn spec_disclosed(
    fields: Seq<ConstraintsField>,
    v: JsonValue,
    pos: Seq<SpecPathSegment>,
) -> bool
    decreases v,
{
    if spec_pos_named(fields, pos) {
        true
    } else {
        match v {
            JsonValue::Object(members) => forall|k: int|
                0 <= k < members@.len() ==> spec_disclosed(
                    fields,
                    (#[trigger] members@[k]).1,
                    pos.push(SpecPathSegment::Key(members@[k].0@)),
                ),
            JsonValue::Array(arr) => forall|k: int|
                0 <= k < arr@.len() ==> spec_disclosed(
                    fields,
                    #[trigger] arr@[k],
                    pos.push(SpecPathSegment::Index(k)),
                ),
            _ => false,
        }
    }
}

/// Whether the constraints' limit-disclosure requirement holds of the
/// presentation `vp`: a `Required` limit demands that the whole decoded
/// tree assert no claims beyond those the constraint fields name.
pub open spec fn spec_limit_ok(c: Constraints, vp: JsonValue) -> bool {
    c.limit_disclosure == Some(ConstraintsLimitDisclosure::Required) ==> spec_disclosed(
        c.fields@,
        vp,
        Seq::empty(),
    )
}

/// Compares two locator steps by their readings.
fn seg_eq(a: &PathSegment, b: &PathSegment) -> (r: bool)
    ensures
        r == (a@ == b@),
{
    match (a, b) {
        (PathSegment::Key(x), PathSegment::Key(y)) => x.eq(y),
        (PathSegment::Index(x), PathSegment::Index(y)) => *x == *y,
        _ => false,
    }
}

/// Compares two step lists by their readings.
#[verifier::loop_isolation(false)]
fn path_eq(a: &Vec<PathSegment>, b: &Vec<PathSegment>) -> (r: bool)
    ensures
        r == (seg_views(a@) == seg_views(b@)),
{
    if a.len() != b.len() {
        proof {
            assert(seg_views(a@).len() != seg_views(b@).len());
        }
        return false;
    }
    let mut i: usize = 0;
    while i < a.len()
        invariant
            i <= a@.len(),
            forall|j: int| 0 <= j < i ==> (#[trigger] a@[j])@ == b@[j]@,
        decreases a@.len() - i,
    {
        if !seg_eq(&a[i], &b[i]) {
            proof {
                assert(seg_views(a@)[i as int] != seg_views(b@)[i as int]);
            }
            return false;
        }
        i = i + 1;
    }
    proof {
        assert(seg_views(a@) =~= seg_views(b@));
    }
    true
}

/// Whether some candidate path of some constraint field parses to exactly
/// the position `pos`.
#[verifier::loop_isolation(false)]
fn pos_named(fields: &Vec<ConstraintsField>, pos: &Vec<PathSegment>) -> (r: bool)
    ensures
        r == spec_pos_named(fields@, seg_views(pos@)),
{
    let mut i: usize = 0;
    while i < fields.len()
        invariant
            i <= fields@.len(),
            forall|x: int, y: int|
                0 <= x < i && 0 <= y < fields@[x].path@.len() ==> spec_parse_path(
                    (#[trigger] fields@[x].path@[y])@,
                ) != Some(seg_views(pos@)),
        decreases fields@.len() - i,
    {
        let paths = &fields[i].path;
        let mut j: usize = 0;
        while j < paths.len()
            invariant
                j <= paths@.len(),
                forall|y: int|
                    0 <= y < j ==> spec_parse_path((#[trigger] paths@[y])@) != Some(
                        seg_views(pos@),
                    ),
            decreases paths@.len() - j,
        {
            if let Some(segs) = parse_path(&paths[j]) {
                if path_eq(&segs, pos) {
                    proof {
                        assert(spec_parse_path(fields@[i as int].path@[j as int]@) == Some(
                            seg_views(pos@),
                        ));
                    }
                    return true;
                }
            }
            j = j + 1;
        }
        i = i + 1;
    }
    false
}

/// Whether the value `v`, reached at the position recorded in `pos`,
/// asserts no claim beyond those the constraint fields name; `pos` is
/// restored before returning.
#[verifier::loop_isolation(false)]
fn covered(fields: &Vec<ConstraintsField>, v: &JsonValue, pos: &mut Vec<PathSegment>) -> (r: bool)
    ensures
        final(pos)@ == old(pos)@,
        r == spec_disclosed(fields@, *v, seg_views(old(pos)@)),
    decreases *v,
{
    if pos_named(fields, pos) {
        return true;
    }
    match v {
        JsonValue::Object(members) => {
            let mut k: usize = 0;
            while k < members.len()
                invariant
                    k <= members@.len(),
                    pos@ == old(pos)@,
                    forall|j: int|
                        0 <= j < k ==> spec_disclosed(
                            fields@,
                            (#[trigger] members@[j]).1,
                            seg_views(old(pos)@).push(SpecPathSegment::Key(members@[j].0@)),
                        ),
                decreases members@.len() - k,
            {
                pos.push(PathSegment::Key(members[k].0.clone()));
                proof {
                    assert(seg_views(pos@) =~= seg_views(old(pos)@).push(
                        SpecPathSegment::Key(members@[k as int].0@),
                    ));
                }
                let child_ok: bool = covered(fields, &members[k].1, pos);
                let popped: Option<PathSegment> = pos.pop();
                proof {
                    assert(pos@ =~= old(pos)@);
                }
                if !child_ok {
                    return false;
                }
                k = k + 1;
            }
            true
        },
        JsonValue::Array(arr) => {
            let mut k: usize = 0;
            while k < arr.len()
                invariant
                    k <= arr@.len(),
                    pos@ == old(pos)@,
                    forall|j: int|
                        0 <= j < k ==> spec_disclosed(
                            fields@,
                            #[trigger] arr@[j],
                            seg_views(old(pos)@).push(SpecPathSegment::Index(j)),
                        ),
                decreases arr@.len() - k,
            {
                pos.push(PathSegment::Index(k));
                proof {
                    assert(seg_views(pos@) =~= seg_views(old(pos)@).push(
                        SpecPathSegment::Index(k as int),
                    ));
                }
                let child_ok: bool = covered(fields, &arr[k], pos);
                let popped: Option<PathSegment> = pos.pop();
                proof {
                    assert(pos@ =~= old(pos)@);
                }
                if !child_ok {
                    return false;
                }
                k = k + 1;
            }
            true
        },
        _ => false,
    }
}

/// Whether the format the descriptor-map entry asserts is acceptable to
/// the descriptor: it must be in the descriptor's format map when the
/// descriptor declares one.
pub open spec fn spec_format_ok(d: InputDescriptor, entry: DescriptorMap) -> bool {
    match d.format {
        Some(m) => m.spec_contains_key(entry.format),
        None => true,
    }
}

/// Whether the descriptor accepts the presentation `vp` under the
/// descriptor-map entry `entry`: the asserted format is acceptable, every
/// constraint field is satisfied, and the limit-disclosure requirement
/// holds.
pub open spec fn spec_descriptor_ok(d: InputDescriptor, vp: JsonValue, entry: DescriptorMap) -> bool {
    &&& spec_format_ok(d, entry)
    &&& forall|i: int|
        0 <= i < d.constraints.fields@.len() ==> spec_field_ok(
            #[trigger] d.constraints.fields@[i],
            vp,
        )
    &&& spec_limit_ok(d.constraints, vp)
}

/// Which error a failing descriptor check reports, the first failure in
/// checking order deciding: the format check, then each constraint field
/// in declared order, then the limit-disclosure requirement.
pub open spec fn spec_descriptor_error(
    d: InputDescriptor,
    vp: JsonValue,
    entry: DescriptorMap,
    r: Result<(), Error>,
) -> bool {
    &&& (!spec_format_ok(d, entry) ==> r == Err::<(), Error>(
        Error::FormatMismatch { descriptor_id: d.id },
    ))
    &&& (forall|i: int|
        (0 <= i < d.constraints.fields@.len() && spec_format_ok(d, entry) && spec_fields_ok_to(
            d.constraints.fields@,
            vp,
            i,
        ) && !spec_field_ok(#[trigger] d.constraints.fields@[i], vp)) ==> match
            spec_first_resolved_from(d.constraints.fields@[i].path@, vp, 0) {
            Option::None => r == Err::<(), Error>(Error::FieldNotFound { descriptor_id: d.id }),
            Option::Some(val) => r matches Err(e) && e matches Error::FilterFailed {
                descriptor_id,
                cause,
            } && descriptor_id == d.id && d.constraints.fields@[i].filter is Some
                && !spec_schema_ok(d.constraints.fields@[i].filter->0, val),
        })
    &&& ((spec_format_ok(d, entry) && spec_fields_ok_to(
        d.constraints.fields@,
        vp,
        d.constraints.fields@.len() as int,
    ) && !spec_limit_ok(d.constraints, vp)) ==> r == Err::<(), Error>(
        Error::LimitDisclosureViolation { descriptor_id: d.id },
    ))
}

/// One required proof: an id, a constraints object, optional name and
/// purpose, and an optional set of acceptable claim formats.
#[derive(Debug)]
pub struct InputDescriptor {
    pub id: String,
    pub constraints: Constraints,
    pub name: Option<String>,
    pub purpose: Option<String>,
    pub format: Option<ClaimFormatMap>,
}

impl InputDescriptor {
    /// Creates an input descriptor with the given id and constraints.
    pub fn new(id: String, constraints: Constraints) -> (r: Self)
        ensures
            r == (InputDescriptor { id, constraints, name: None, purpose: None, format: None }),
    {
        Self { id, constraints, name: None, purpose: None, format: None }
    }

    /// The id of this descriptor, unique within its definition.
    pub fn id(&self) -> (r: &String)
        ensures
            r == self.id,
    {
        &self.id
    }

    /// The constraints of this descriptor.
    pub fn constraints(&self) -> (r: &Constraints)
        ensures
            r == self.constraints,
    {
        &self.constraints
    }

    pub fn set_name(self, name: String) -> (r: Self)
        ensures
            r == (InputDescriptor { name: Some(name), ..self }),
    {
        Self { name: Some(name), ..self }
    }

    pub fn set_purpose(self, purpose: String) -> (r: Self)
        ensures
            r == (InputDescriptor { purpose: Some(purpose), ..self }),
    {
        Self { purpose: Some(purpose), ..self }
    }

    /// Declares the claim formats this descriptor accepts.
    pub fn set_format(self, format: ClaimFormatMap) -> (r: Self)
        ensures
            r == (InputDescriptor { format: Some(format), ..self }),
    {
        Self { format: Some(format), ..self }
    }

    /// Checks the decoded presentation `vp` against this descriptor, under
    /// the descriptor-map entry that claims to satisfy it: the asserted
    /// format must be acceptable, each constraint field in declared order
    /// must be satisfied, and a required disclosure limit must hold, the
    /// first failure deciding.
    #[verifier::loop_isolation(false)]
    pub fn validate_verifiable_presentation(
        &self,
        vp: &JsonValue,
        entry: &DescriptorMap,
    ) -> (r: Result<(), Error>)
        ensures
            r is Ok <==> spec_descriptor_ok(*self, *vp, *entry),
            !spec_format_ok(*self, *entry) ==> r == Err::<(), Error>(
                Error::FormatMismatch { descriptor_id: self.id },
            ),
            spec_descriptor_error(*self, *vp, *entry, r),
    {
        if let Some(format_map) = &self.format {
            if !format_map.contains_key(*entry.format()) {
                return Err(Error::FormatMismatch { descriptor_id: self.id.clone() });
            }
        }

        let fields = &self.constraints.fields;
        let mut i: usize = 0;
        while i < fields.len()
            invariant
                i <= fields@.len(),
                forall|j: int| 0 <= j < i ==> spec_field_ok(#[trigger] fields@[j], *vp),
            decreases fields@.len() - i,
        {
            let field = &fields[i];
            let mut k: usize = 0;
            let mut resolved: Option<&JsonValue> = None;
            while k < field.path.len()
                invariant
                    k <= field.path@.len(),
                    match resolved {
                        Some(v) => spec_first_resolved_from(field.path@, *vp, 0) == Some(*v),
                        None => spec_first_resolved_from(field.path@, *vp, k as int)
                            == spec_first_resolved_from(field.path@, *vp, 0),
                    },
                    resolved is Some ==> k == field.path@.len(),
                decreases field.path@.len() - k,
            {
                match resolve_path(&field.path[k], vp) {
                    Some(v) => {
                        resolved = Some(v);
                        proof {
                            assert(spec_first_resolved_from(field.path@, *vp, k as int) == Some(
                                *v,
                            ));
                        }
                        k = field.path.len();
                    },
                    None => {
                        k = k + 1;
                    },
                }
            }

            match resolved {
                Some(value) => {
                    if let Some(filter) = &field.filter {
                        if let Err(cause) = filter.validate(value) {
                            proof {
                                assert(!spec_field_ok(fields@[i as int], *vp));
                            }
                            return Err(Error::FilterFailed {
                                descriptor_id: self.id.clone(),
                                cause,
                            });
                        }
                    }
                    proof {
                        assert(spec_field_ok(fields@[i as int], *vp));
                    }
                },
                None => {
                    let required: bool = match &field.predicate {
                        Some(p) => matches!(p, Predicate::Required),
                        None => false,
                    };
                    if required {
                        proof {
                            assert(!spec_field_ok(fields@[i as int], *vp));
                        }
                        return Err(Error::FieldNotFound { descriptor_id: self.id.clone() });
                    }
                    proof {
                        assert(spec_field_ok(fields@[i as int], *vp));
                    }
                },
            }
            i = i + 1;
        }

        proof {
            assert(spec_fields_ok_to(fields@, *vp, fields@.len() as int));
        }

        if let Some(limit) = &self.constraints.limit_disclosure {
            if matches!(limit, ConstraintsLimitDisclosure::Required) {
                let mut pos: Vec<PathSegment> = Vec::new();
                proof {
                    assert(seg_views(pos@) =~= Seq::<SpecPathSegment>::empty());
                }
                if !covered(&self.constraints.fields, vp, &mut pos) {
                    proof {
                        assert(!spec_limit_ok(self.constraints, *vp));
                    }
                    return Err(Error::LimitDisclosureViolation {
                        descriptor_id: self.id.clone(),
                    });
                }
            }
        }

        Ok(())
    }
}

} // verus!
