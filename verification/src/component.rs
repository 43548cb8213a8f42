//! The component descriptor model: a declarative description of a
//! component's name, wire key, transparency and fields, the checks that
//! reject a malformed descriptor, and the serialization contract every
//! component value built from a descriptor obeys.

use crate::fragment::{
    is_zero_model, is_zero_value, json_chars, pair_models, render_value, ComponentValue,
    FragmentModel,
};
use crate::vio::Buildable;
use vstd::prelude::*;

verus! {

/// The single capability of a component value: rendering itself into a
/// structured document fragment, as text.
pub trait ItemComponent {
    fn serialize(&self) -> String;
}

/// Whether external code may read and construct a field directly. It
/// never affects serialized output.
#[derive(Clone, Copy, Debug, PartialEq, Eq, Structural)]
pub enum FieldVisibility {
    Public,
    Private,
}

/// The construction policy of a field: `Exact` takes the declared type
/// as it stands; `Converted` (the descriptor grammar's `into` policy)
/// accepts any value convertible to it and converts once, at
/// construction time. Serialization is unaffected either way.
#[derive(Clone, Copy, Debug, PartialEq, Eq, Structural)]
pub enum FieldConversion {
    Exact,
    Converted,
}

/// The shape a field's value must have.
#[derive(Clone, Copy, Debug, PartialEq, Eq, Structural)]
pub enum ValueKind {
    Int,
    Bool,
    Str,
    List,
    Object,
}

/// The shape of a fragment model.
pub open spec fn kind_of(m: FragmentModel) -> ValueKind {
    match m {
        FragmentModel::Int(_) => ValueKind::Int,
        FragmentModel::Bool(_) => ValueKind::Bool,
        FragmentModel::Str(_) => ValueKind::Str,
        FragmentModel::List(_) => ValueKind::List,
        FragmentModel::Object(_) => ValueKind::Object,
    }
}

/// The shape of a fragment value.
pub fn value_kind(v: &ComponentValue) -> (k: ValueKind)
    ensures
        k == kind_of(v@),
{
    match v {
        ComponentValue::Int(_) => ValueKind::Int,
        ComponentValue::Bool(_) => ValueKind::Bool,
        ComponentValue::Str(_) => ValueKind::Str,
        ComponentValue::List(_) => ValueKind::List,
        ComponentValue::Object(_) => ValueKind::Object,
    }
}

/// One field of a component descriptor.
pub struct FieldSpec {
    /// The name of the generated field.
    pub field_name: String,
    /// The key under which the field's value appears in serialized
    /// output (unused when the descriptor is transparent).
    pub wire_key: String,
    /// The shape the field's value must have.
    pub value_type: ValueKind,
    /// Whether external code may touch the field directly.
    pub visibility: FieldVisibility,
    /// An optional field whose value is its shape's zero-value is left
    /// out of serialized output entirely.
    pub optional: bool,
    /// The construction policy of the field.
    pub conversion: FieldConversion,
}

impl Clone for FieldSpec {
    fn clone(&self) -> (r: Self)
        ensures
            r == *self,
    {
        let r = FieldSpec {
            field_name: self.field_name.clone(),
            wire_key: self.wire_key.clone(),
            value_type: self.value_type,
            visibility: self.visibility,
            optional: self.optional,
            conversion: self.conversion,
        };
        proof {
            assert(r =~= *self);
        }
        r
    }
}

/// No two fields share a field name.
pub open spec fn field_names_unique(fields: Seq<FieldSpec>) -> bool {
    forall|i: int, j: int|
        0 <= i < j < fields.len() ==> fields[i].field_name@ != fields[j].field_name@
}

/// No two fields share a wire key.
pub open spec fn wire_keys_unique(fields: Seq<FieldSpec>) -> bool {
    forall|i: int, j: int|
        0 <= i < j < fields.len() ==> fields[i].wire_key@ != fields[j].wire_key@
}

/// The ways a descriptor can be malformed; each is a generation-time
/// failure, found before any component value of that kind exists.
#[derive(Clone, Copy, Debug, PartialEq, Eq, Structural)]
pub enum DescriptorError {
    /// A transparent descriptor must have exactly one field.
    TransparentFieldCount,
    /// Two fields share a field name.
    DuplicateFieldName,
    /// Two fields of a non-transparent descriptor share a wire key.
    DuplicateWireKey,
}

/// The declarative description a component kind is generated from.
#[verifier::ext_equal]
pub struct ComponentDescriptor {
    /// The identifier of the generated component type.
    pub name: String,
    /// The single top-level key of the serialized fragment.
    pub wire_key: String,
    /// A transparent descriptor emits its sole field's value directly
    /// under the descriptor's wire key, with no inner object.
    pub transparent: bool,
    /// The fields, in declaration order; the order is kept in output.
    pub fields: Vec<FieldSpec>,
}

impl Clone for ComponentDescriptor {
    fn clone(&self) -> (r: Self)
        ensures
            r.name == self.name,
            r.wire_key == self.wire_key,
            r.transparent == self.transparent,
            r.fields@ == self.fields@,
    {
        let mut fields: Vec<FieldSpec> = Vec::new();
        let mut i: usize = 0;
        while i < self.fields.len()
            invariant
                i <= self.fields.len(),
                fields@.len() == i,
                forall|j: int| 0 <= j < i ==> fields@[j] == self.fields@[j],
            decreases self.fields.len() - i,
        {
            fields.push(self.fields[i].clone());
            i = i + 1;
        }
        proof {
            assert(fields@ =~= self.fields@);
        }
        let r = ComponentDescriptor {
            name: self.name.clone(),
            wire_key: self.wire_key.clone(),
            transparent: self.transparent,
            fields,
        };
        r
    }
}

impl ComponentDescriptor {
    /// A well-formed descriptor: a transparent one has exactly one
    /// field, field names never repeat, and in a non-transparent one
    /// wire keys never repeat.
    pub open spec fn valid(&self) -> bool {
        &&& (self.transparent ==> self.fields@.len() == 1)
        &&& field_names_unique(self.fields@)
        &&& (!self.transparent ==> wire_keys_unique(self.fields@))
    }

    /// Accepts exactly the well-formed descriptors, and names the first
    /// rule a malformed one breaks: field arity of a transparent
    /// descriptor first, then field-name uniqueness, then wire-key
    /// uniqueness.
    pub fn validate(&self) -> (r: Result<(), DescriptorError>)
        ensures
            r is Ok <==> self.valid(),
            r == Err::<(), DescriptorError>(DescriptorError::TransparentFieldCount) <==> (
            self.transparent && self.fields@.len() != 1),
            r == Err::<(), DescriptorError>(DescriptorError::DuplicateFieldName) <==> (!(
            self.transparent && self.fields@.len() != 1) && !field_names_unique(self.fields@)),
            r == Err::<(), DescriptorError>(DescriptorError::DuplicateWireKey) <==> (!(
            self.transparent && self.fields@.len() != 1) && field_names_unique(self.fields@)
                && !self.transparent && !wire_keys_unique(self.fields@)),
    {
        if self.transparent && self.fields.len() != 1 {
            return Err(DescriptorError::TransparentFieldCount);
        }
        if !field_names_unique_check(&self.fields) {
            return Err(DescriptorError::DuplicateFieldName);
        }
        if !self.transparent && !wire_keys_unique_check(&self.fields) {
            return Err(DescriptorError::DuplicateWireKey);
        }
        Ok(())
    }
}

/// Whether the fields' names are pairwise distinct.
fn field_names_unique_check(fields: &Vec<FieldSpec>) -> (r: bool)
    ensures
        r == field_names_unique(fields@),
{
    let n = fields.len();
    let mut i: usize = 0;
    while i < n
        invariant
            i <= n,
            n == fields@.len(),
            forall|a: int, b: int|
                0 <= a < b < fields@.len() && a < i ==> fields@[a].field_name@
                    != fields@[b].field_name@,
        decreases n - i,
    {
        let mut j: usize = i + 1;
        while j < n
            invariant
                i < j <= n,
                n == fields@.len(),
                forall|b: int| i < b < j ==> fields@[i as int].field_name@ != fields@[b].field_name@,
            decreases n - j,
        {
            if fields[i].field_name == fields[j].field_name {
                return false;
            }
            j = j + 1;
        }
        i = i + 1;
    }
    true
}

/// Whether the fields' wire keys are pairwise distinct.
fn wire_keys_unique_check(fields: &Vec<FieldSpec>) -> (r: bool)
    ensures
        r == wire_keys_unique(fields@),
{
    let n = fields.len();
    let mut i: usize = 0;
    while i < n
        invariant
            i <= n,
            n == fields@.len(),
            forall|a: int, b: int|
                0 <= a < b < fields@.len() && a < i ==> fields@[a].wire_key@ != fields@[b].wire_key@,
        decreases n - i,
    {
        let mut j: usize = i + 1;
        while j < n
            invariant
                i < j <= n,
                n == fields@.len(),
                forall|b: int| i < b < j ==> fields@[i as int].wire_key@ != fields@[b].wire_key@,
            decreases n - j,
        {
            if fields[i].wire_key == fields[j].wire_key {
                return false;
            }
            j = j + 1;
        }
        i = i + 1;
    }
    true
}

/// Whether a field's value stays in serialized output: it does unless
/// the field is optional and the value is its shape's zero-value.
pub open spec fn field_kept(f: FieldSpec, v: ComponentValue) -> bool {
    !(f.optional && is_zero_model(v@))
}

/// The inner object members of a non-transparent component: one
/// `wire_key: value` member per kept field, in declared order.
pub open spec fn included_pairs(fields: Seq<FieldSpec>, vals: Seq<ComponentValue>) -> Seq<
    (Seq<char>, FragmentModel),
>
    recommends
        fields.len() == vals.len(),
    decreases fields.len(),
{
    if fields.len() == 0 {
        Seq::empty()
    } else {
        included_pairs(fields.drop_last(), vals.drop_last()) + if field_kept(
            fields.last(),
            vals.last(),
        ) {
            seq![(fields.last().wire_key@, vals.last()@)]
        } else {
            Seq::empty()
        }
    }
}

/// The ways construction of a component value can fail.
#[derive(Clone, Copy, Debug, PartialEq, Eq, Structural)]
pub enum ComponentError {
    /// The descriptor itself is malformed.
    InvalidDescriptor(DescriptorError),
    /// The number of values does not match the number of fields.
    FieldCountMismatch,
    /// Some value cannot convert to its field's declared shape.
    FieldTypeMismatch,
}

/// A component value: an instance of the kind a descriptor describes,
/// holding one value per field. Its descriptor is always well formed and
/// every value has its field's declared shape.
pub struct ComponentInstance {
    descriptor: ComponentDescriptor,
    values: Vec<ComponentValue>,
}

impl ComponentInstance {
    /// The invariant every component value carries: a valid descriptor,
    /// one value per field, each of the declared shape.
    #[verifier::type_invariant]
    pub closed spec fn wf(self) -> bool {
        &&& self.descriptor.valid()
        &&& self.values@.len() == self.descriptor.fields@.len()
        &&& forall|i: int|
            0 <= i < self.values@.len() ==> kind_of(self.values@[i]@)
                == self.descriptor.fields@[i].value_type
    }

    /// The descriptor this value was built from.
    pub closed spec fn spec_descriptor(&self) -> ComponentDescriptor {
        self.descriptor
    }

    /// The field values, in field order.
    pub closed spec fn spec_values(&self) -> Seq<ComponentValue> {
        self.values@
    }

    /// What well-formedness gives every reachable component value.
    pub proof fn lemma_wf(&self)
        requires
            self.wf(),
        ensures
            self.spec_descriptor().valid(),
            self.spec_values().len() == self.spec_descriptor().fields@.len(),
            forall|i: int|
                0 <= i < self.spec_values().len() ==> kind_of(self.spec_values()[i]@)
                    == self.spec_descriptor().fields@[i].value_type,
    {
    }

    /// Builds a component value from a descriptor and one value per
    /// field. Fails exactly on a malformed descriptor (reported as
    /// `validate` reports it), a value count that differs from the
    /// field count, or a value whose shape is not its field's declared
    /// shape.
    pub fn new(descriptor: ComponentDescriptor, values: Vec<ComponentValue>) -> (r: Result<
        ComponentInstance,
        ComponentError,
    >)
        ensures
            match r {
                Ok(c) => {
                    &&& descriptor.valid()
                    &&& values@.len() == descriptor.fields@.len()
                    &&& forall|i: int|
                        0 <= i < values@.len() ==> kind_of(values@[i]@)
                            == descriptor.fields@[i].value_type
                    &&& c.spec_descriptor() == descriptor
                    &&& c.spec_values() == values@
                },
                Err(ComponentError::InvalidDescriptor(e)) => descriptor.validate_spec_err(e),
                Err(ComponentError::FieldCountMismatch) => descriptor.valid() && values@.len()
                    != descriptor.fields@.len(),
                Err(ComponentError::FieldTypeMismatch) => descriptor.valid() && values@.len()
                    == descriptor.fields@.len() && exists|i: int|
                    0 <= i < values@.len() && kind_of(values@[i]@)
                        != descriptor.fields@[i].value_type,
            },
    {
        match descriptor.validate() {
            Err(e) => Err(ComponentError::InvalidDescriptor(e)),
            Ok(()) => {
                if values.len() != descriptor.fields.len() {
                    return Err(ComponentError::FieldCountMismatch);
                }
                let n = values.len();
                let mut i: usize = 0;
                while i < n
                    invariant
                        i <= n,
                        descriptor.valid(),
                        n == values@.len(),
                        n == descriptor.fields@.len(),
                        forall|j: int|
                            0 <= j < i ==> kind_of(values@[j]@) == descriptor.fields@[j].value_type,
                    decreases n - i,
                {
                    let k = value_kind(&values[i]);
                    if k != descriptor.fields[i].value_type {
                        return Err(ComponentError::FieldTypeMismatch);
                    }
                    i = i + 1;
                }
                Ok(ComponentInstance { descriptor, values })
            },
        }
    }
}

impl ComponentInstance {
    /// The single entry of this component's fragment: the descriptor's
    /// wire key, and under it either the sole field's value itself
    /// (transparent) or the inner object of kept fields.
    pub open spec fn entry_model(&self) -> (Seq<char>, FragmentModel) {
        (
            self.spec_descriptor().wire_key@,
            if self.spec_descriptor().transparent {
                self.spec_values()[0]@
            } else {
                FragmentModel::Object(
                    included_pairs(self.spec_descriptor().fields@, self.spec_values()),
                )
            },
        )
    }

    /// The serialized fragment: a mapping with exactly one top-level
    /// key, the descriptor's wire key.
    pub open spec fn fragment_model(&self) -> FragmentModel {
        FragmentModel::Object(seq![self.entry_model()])
    }

    /// The canonical text of the serialized fragment.
    pub open spec fn serialize_chars(&self) -> Seq<char> {
        json_chars(self.fragment_model())
    }

    /// The fragment's single entry, as a key and a payload value.
    pub fn entry(&self) -> (r: (String, ComponentValue))
        ensures
            (r.0@, r.1@) == self.entry_model(),
            self.wf(),
    {
        proof {
            use_type_invariant(self);
        }
        let key = self.descriptor.wire_key.clone();
        if self.descriptor.transparent {
            let payload = self.values[0].clone();
            (key, payload)
        } else {
            let mut inner: Vec<(String, ComponentValue)> = Vec::new();
            let n = self.values.len();
            let mut i: usize = 0;
            while i < n
                invariant
                    i <= n,
                    n == self.values@.len(),
                    n == self.descriptor.fields@.len(),
                    pair_models(inner@) == included_pairs(
                        self.descriptor.fields@.take(i as int),
                        self.values@.take(i as int),
                    ),
                decreases n - i,
            {
                let ghost inner0 = inner@;
                let f = &self.descriptor.fields[i];
                let keep = if f.optional {
                    !is_zero_value(&self.values[i])
                } else {
                    true
                };
                if keep {
                    inner.push((f.wire_key.clone(), self.values[i].clone()));
                }
                proof {
                    let ft = self.descriptor.fields@.take(i + 1 as int);
                    let vt = self.values@.take(i + 1 as int);
                    assert(ft.drop_last() =~= self.descriptor.fields@.take(i as int));
                    assert(vt.drop_last() =~= self.values@.take(i as int));
                    assert(ft.last() == self.descriptor.fields@[i as int]);
                    assert(vt.last() == self.values@[i as int]);
                    if keep {
                        assert(inner@.drop_last() =~= inner0);
                        assert(pair_models(inner@) =~= included_pairs(ft, vt));
                    } else {
                        assert(pair_models(inner@) =~= included_pairs(ft, vt));
                    }
                }
                i = i + 1;
            }
            proof {
                assert(self.descriptor.fields@.take(n as int) =~= self.descriptor.fields@);
                assert(self.values@.take(n as int) =~= self.values@);
            }
            (key, ComponentValue::Object(inner))
        }
    }

    /// The serialized fragment as a structured value.
    pub fn fragment(&self) -> (r: ComponentValue)
        ensures
            r@ == self.fragment_model(),
            self.wf(),
    {
        let e = self.entry();
        let ghost e0 = e;
        let pairs = vec![e];
        let r = ComponentValue::Object(pairs);
        proof {
            assert(pairs@ =~= seq![e0]);
            assert(pairs@.drop_last() =~= Seq::<(String, ComponentValue)>::empty());
            assert(pair_models(Seq::<(String, ComponentValue)>::empty()) =~= Seq::<
                (Seq<char>, FragmentModel),
            >::empty());
            assert(pair_models(pairs@) =~= seq![(e0.0@, e0.1@)]);
            assert(r@ =~= self.fragment_model());
        }
        r
    }
}

impl ItemComponent for ComponentInstance {
    /// Pure and failure-free: the text is a function of the value
    /// alone, so repeated calls on an unmutated value agree.
    fn serialize(&self) -> (r: String)
        ensures
            r@ == self.serialize_chars(),
    {
        let f = self.fragment();
        render_value(&f)
    }
}

/// Serialization is idempotent: two serializations of the same
/// unmutated component value are the same text, character for
/// character, since each is pinned to `serialize_chars` of the value.
pub proof fn lemma_serialize_idempotent(
    c: ComponentInstance,
    first: Seq<char>,
    second: Seq<char>,
)
    requires
        first == c.serialize_chars(),
        second == c.serialize_chars(),
    ensures
        first == second,
{
}

/// A transparent component's fragment has exactly one key, the
/// descriptor's wire key, and its value is the sole field's value
/// itself, never nested one level deeper.
pub proof fn lemma_transparent_fragment(c: ComponentInstance)
    requires
        c.spec_descriptor().transparent,
    ensures
        (c.fragment_model() matches FragmentModel::Object(pairs) && pairs.len() == 1
            && pairs[0].0 == c.spec_descriptor().wire_key@ && pairs[0].1 == c.spec_values()[0]@),
{
}

/// A non-transparent component's fragment has exactly one key, the
/// descriptor's wire key, and under it the inner object holding the
/// kept fields in declared order.
pub proof fn lemma_nontransparent_fragment(c: ComponentInstance)
    requires
        !c.spec_descriptor().transparent,
    ensures
        (c.fragment_model() matches FragmentModel::Object(pairs) && pairs.len() == 1
            && pairs[0].0 == c.spec_descriptor().wire_key@ && pairs[0].1 == FragmentModel::Object(
            included_pairs(c.spec_descriptor().fields@, c.spec_values()),
        )),
{
}

/// The inner object holds exactly the kept fields: every kept field's
/// `wire_key: value` member is present, and every member is some kept
/// field's, each with its declared wire key and its held value. The
/// members stand in declared field order by construction.
pub proof fn lemma_included_pairs_exact(fields: Seq<FieldSpec>, vals: Seq<ComponentValue>)
    requires
        fields.len() == vals.len(),
    ensures
        forall|i: int|
            0 <= i < fields.len() && field_kept(fields[i], vals[i]) ==> exists|k: int|
                0 <= k < included_pairs(fields, vals).len() && included_pairs(fields, vals)[k] == (
                (#[trigger] fields[i]).wire_key@,
                vals[i]@,
                ),
        forall|k: int|
            0 <= k < included_pairs(fields, vals).len() ==> exists|i: int|
                0 <= i < fields.len() && field_kept(fields[i], vals[i]) && #[trigger] included_pairs(
                    fields,
                    vals,
                )[k] == (fields[i].wire_key@, vals[i]@),
    decreases fields.len(),
{
    if fields.len() != 0 {
        let fd = fields.drop_last();
        let vd = vals.drop_last();
        lemma_included_pairs_exact(fd, vd);
        let prev = included_pairs(fd, vd);
        let whole = included_pairs(fields, vals);
        assert forall|i: int|
            0 <= i < fields.len() && field_kept(fields[i], vals[i]) implies exists|k: int|
            0 <= k < whole.len() && #[trigger] whole[k] == (fields[i].wire_key@, vals[i]@) by {
            if i < fields.len() - 1 {
                let k = choose|k: int|
                    0 <= k < prev.len() && prev[k] == (fd[i].wire_key@, vd[i]@);
                assert(whole[k] == (fields[i].wire_key@, vals[i]@));
            } else {
                assert(whole[whole.len() - 1] == (fields[i].wire_key@, vals[i]@));
            }
        }
        assert forall|k: int| #![trigger whole[k]] 0 <= k < whole.len() implies exists|i: int|
            0 <= i < fields.len() && #[trigger] field_kept(fields[i], vals[i]) && whole[k] == (
            fields[i].wire_key@,
            vals[i]@,
            ) by {
            if k < prev.len() {
                let i = choose|i: int|
                    0 <= i < fd.len() && field_kept(fd[i], vd[i]) && prev[k] == (
                    fd[i].wire_key@,
                    vd[i]@,
                    );
                assert(whole[k] == (fields[i].wire_key@, vals[i]@));
                assert(field_kept(fields[i], vals[i]));
            } else {
                let i = fields.len() - 1;
                assert(field_kept(fields[i], vals[i]));
                assert(whole[k] == (fields[i].wire_key@, vals[i]@));
            }
        }
    }
}

/// The number of kept fields among the first `i`.
pub open spec fn kept_before(fields: Seq<FieldSpec>, vals: Seq<ComponentValue>, i: int) -> int
    decreases i,
{
    if i <= 0 {
        0
    } else {
        kept_before(fields, vals, i - 1) + if field_kept(fields[i - 1], vals[i - 1]) {
            1int
        } else {
            0int
        }
    }
}

/// `kept_before` reads only positions below `i`, so shortening the
/// sequences at the end does not change it.
proof fn lemma_kept_before_prefix(fields: Seq<FieldSpec>, vals: Seq<ComponentValue>, i: int)
    requires
        0 <= i < fields.len(),
        i < vals.len(),
    ensures
        kept_before(fields, vals, i) == kept_before(fields.drop_last(), vals.drop_last(), i),
    decreases i,
{
    if i > 0 {
        lemma_kept_before_prefix(fields, vals, i - 1);
    }
}

/// Counting kept fields never decreases as the prefix grows.
proof fn lemma_kept_before_mono(
    fields: Seq<FieldSpec>,
    vals: Seq<ComponentValue>,
    i: int,
    j: int,
)
    requires
        0 <= i <= j,
    ensures
        kept_before(fields, vals, i) <= kept_before(fields, vals, j),
    decreases j - i,
{
    if i < j {
        lemma_kept_before_mono(fields, vals, i, j - 1);
    }
}

/// The inner object holds one member per kept field and no other:
/// its length is the number of kept fields, and the member for the
/// kept field `i` stands exactly at the position given by counting the
/// kept fields before `i` — the declared order, with the omitted
/// fields closed over.
pub proof fn lemma_included_pairs_positions(fields: Seq<FieldSpec>, vals: Seq<ComponentValue>)
    requires
        fields.len() == vals.len(),
    ensures
        included_pairs(fields, vals).len() == kept_before(fields, vals, fields.len() as int),
        forall|i: int|
            0 <= i < fields.len() && field_kept(fields[i], vals[i]) ==> included_pairs(
                fields,
                vals,
            )[kept_before(fields, vals, i)] == ((#[trigger] fields[i]).wire_key@, vals[i]@),
    decreases fields.len(),
{
    if fields.len() != 0 {
        let fd = fields.drop_last();
        let vd = vals.drop_last();
        lemma_included_pairs_positions(fd, vd);
        let last: int = fields.len() - 1;
        lemma_kept_before_prefix(fields, vals, last);
        assert(kept_before(fields, vals, fields.len() as int) == kept_before(fields, vals, last)
            + if field_kept(fields[last], vals[last]) {
            1int
        } else {
            0int
        });
        assert forall|i: int|
            0 <= i < fields.len() && field_kept(fields[i], vals[i]) implies included_pairs(
            fields,
            vals,
        )[kept_before(fields, vals, i)] == ((#[trigger] fields[i]).wire_key@, vals[i]@) by {
            lemma_kept_before_prefix(fields, vals, i);
            let whole = included_pairs(fields, vals);
            let prev = included_pairs(fd, vd);
            if i < last {
                assert(fd[i] == fields[i]);
                assert(vd[i] == vals[i]);
                assert(prev[kept_before(fd, vd, i)] == (fields[i].wire_key@, vals[i]@));
                assert(kept_before(fd, vd, i) + 1 == kept_before(fd, vd, i + 1));
                lemma_kept_before_mono(fd, vd, i + 1, fd.len() as int);
                lemma_kept_before_mono(fd, vd, 0, i);
                assert(0 <= kept_before(fd, vd, i) < prev.len());
                assert(whole[kept_before(fd, vd, i)] == prev[kept_before(fd, vd, i)]);
                assert(whole[kept_before(fields, vals, i)] == (fields[i].wire_key@, vals[i]@));
            } else {
                assert(kept_before(fields, vals, i) == prev.len());
                assert(whole == prev + seq![(fields[last].wire_key@, vals[last]@)]);
                assert(whole[prev.len() as int] == (fields[last].wire_key@, vals[last]@));
            }
        }
    }
}

/// With distinct wire keys, a field's wire key appears in the inner
/// object exactly when the field is kept: present unless the field is
/// optional and its value is the zero-value, absent then.
pub proof fn lemma_wire_key_present_iff_kept(fields: Seq<FieldSpec>, vals: Seq<ComponentValue>)
    requires
        fields.len() == vals.len(),
        wire_keys_unique(fields),
    ensures
        forall|i: int|
            0 <= i < fields.len() ==> (field_kept(fields[i], vals[i]) <==> exists|k: int|
                0 <= k < included_pairs(fields, vals).len() && (#[trigger] included_pairs(
                    fields,
                    vals,
                )[k]).0 == fields[i].wire_key@),
{
    lemma_included_pairs_exact(fields, vals);
    let inner = included_pairs(fields, vals);
    assert forall|i: int|
        0 <= i < fields.len() && (exists|k: int|
            0 <= k < inner.len() && (#[trigger] inner[k]).0 == fields[i].wire_key@) implies
        field_kept(fields[i], vals[i]) by {
        let k = choose|k: int| 0 <= k < inner.len() && inner[k].0 == fields[i].wire_key@;
        let j = choose|j: int|
            0 <= j < fields.len() && field_kept(fields[j], vals[j]) && inner[k] == (
            fields[j].wire_key@,
            vals[j]@,
            );
        if i != j {
            assert(fields[i].wire_key@ != fields[j].wire_key@);
            assert(false);
        }
    }
    assert forall|i: int|
        0 <= i < fields.len() && field_kept(fields[i], vals[i]) implies exists|k: int|
        0 <= k < inner.len() && (#[trigger] inner[k]).0 == fields[i].wire_key@ by {
        let k = choose|k: int| 0 <= k < inner.len() && inner[k] == (fields[i].wire_key@, vals[i]@);
        assert(inner[k].0 == fields[i].wire_key@);
    }
}

/// The inner object depends on the values only through their models:
/// values that serialize alike are kept alike and emitted alike.
pub proof fn lemma_included_pairs_models(
    fields: Seq<FieldSpec>,
    vals1: Seq<ComponentValue>,
    vals2: Seq<ComponentValue>,
)
    requires
        fields.len() == vals1.len(),
        vals1.len() == vals2.len(),
        forall|i: int| 0 <= i < vals1.len() ==> vals1[i]@ == vals2[i]@,
    ensures
        included_pairs(fields, vals1) == included_pairs(fields, vals2),
    decreases fields.len(),
{
    if fields.len() != 0 {
        lemma_included_pairs_models(fields.drop_last(), vals1.drop_last(), vals2.drop_last());
        assert(vals1.last()@ == vals2.last()@);
        assert(included_pairs(fields, vals1) =~= included_pairs(fields, vals2));
    }
}

impl Clone for ComponentInstance {
    /// The clone carries the same descriptor data and model-equal
    /// values, so it serializes to exactly the same text.
    fn clone(&self) -> (r: Self)
        ensures
            r.spec_descriptor().wire_key == self.spec_descriptor().wire_key,
            r.spec_descriptor().transparent == self.spec_descriptor().transparent,
            r.spec_descriptor().fields@ == self.spec_descriptor().fields@,
            r.spec_values().len() == self.spec_values().len(),
            forall|i: int|
                0 <= i < self.spec_values().len() ==> r.spec_values()[i]@
                    == self.spec_values()[i]@,
            r.serialize_chars() == self.serialize_chars(),
    {
        proof {
            use_type_invariant(self);
        }
        let descriptor = self.descriptor.clone();
        let mut values: Vec<ComponentValue> = Vec::new();
        let n = self.values.len();
        let mut i: usize = 0;
        while i < n
            invariant
                i <= n,
                n == self.values@.len(),
                values@.len() == i,
                forall|j: int| 0 <= j < i ==> values@[j]@ == self.values@[j]@,
            decreases n - i,
        {
            values.push(self.values[i].clone());
            i = i + 1;
        }
        let r = ComponentInstance { descriptor, values };
        proof {
            if self.descriptor.transparent {
                assert(r.entry_model() == self.entry_model());
            } else {
                lemma_included_pairs_models(self.descriptor.fields@, r.values@, self.values@);
                assert(r.entry_model() == self.entry_model());
            }
            assert(r.fragment_model() =~= self.fragment_model());
        }
        r
    }
}

impl Buildable for ComponentInstance {

}

/// A snapshot made by `build` is frozen at the moment of the call: its
/// serialized text is the one the originating value had then, and no
/// later change of that value can reach it.
pub proof fn lemma_snapshot_frozen(
    at_build: ComponentInstance,
    snap: std::sync::Arc<ComponentInstance>,
)
    requires
        call_ensures(<ComponentInstance as Clone>::clone, (&at_build,), *snap),
    ensures
        (*snap).serialize_chars() == at_build.serialize_chars(),
{
}

impl ComponentDescriptor {
    /// The condition under which `validate` reports `e`.
    pub open spec fn validate_spec_err(&self, e: DescriptorError) -> bool {
        match e {
            DescriptorError::TransparentFieldCount => self.transparent && self.fields@.len() != 1,
            DescriptorError::DuplicateFieldName => !(self.transparent && self.fields@.len() != 1)
                && !field_names_unique(self.fields@),
            DescriptorError::DuplicateWireKey => !(self.transparent && self.fields@.len() != 1)
                && field_names_unique(self.fields@) && !self.transparent && !wire_keys_unique(
                self.fields@,
            ),
        }
    }
}

} // verus!
