use vstd::prelude::*;
use vstd::string::StringExecFns;
use crate::attrs::{builder_directive, directive_matches, each_value, first_builder_attr, BuilderDirective};
use crate::classify::{classify, classify_spec, TypeClass};
use crate::schema::{all_named, extracted, first_unnamed, Declaration, FieldDescriptor, GenError, RecordSchema, Shape};

verus! {

/// Whether a setter replaces the slot or appends one element to it.
#[derive(Debug, Clone, Copy, PartialEq, Eq, Structural)]
pub enum SetterAction {
    Overwrite,
    Append,
}

/// The parameter type of a setter: the field's declared type, or the type
/// argument of its outer constructor (the `X` of `Option<X>` or `Vec<X>`).
#[derive(Debug, Clone, Copy, PartialEq, Eq, Structural)]
pub enum SetterParam {
    Declared,
    Inner,
}

/// How the builder treats one field.
#[derive(Debug, PartialEq, Eq)]
pub enum FieldKind {
    Plain,
    Optional,
    /// Appended to element by element through the named setter.
    Aggregated(String),
}

/// A field of the builder and how it is treated.
#[derive(Debug)]
pub struct FieldPlan {
    pub name: String,
    pub kind: FieldKind,
}

/// One generated setter, acting on the slot of field `field`.
#[derive(Debug)]
pub struct Setter {
    pub name: String,
    pub field: usize,
    pub action: SetterAction,
    pub param: SetterParam,
}

/// The companion builder of a record.
#[derive(Debug)]
pub struct BuilderPlan {
    pub record: String,
    pub builder: String,
    pub fields: Vec<FieldPlan>,
    pub setters: Vec<Setter>,
}

/// A setter as its name, field index, action and parameter.
pub type SetterView = (Seq<char>, int, SetterAction, SetterParam);

/// The view of a setter.
pub open spec fn setter_view(s: Setter) -> SetterView {
    (s.name@, s.field as int, s.action, s.param)
}

/// The setters of field `i`, in emission order.
pub open spec fn setters_for(f: FieldPlan, i: int) -> Seq<SetterView> {
    match f.kind {
        FieldKind::Plain => seq![(f.name@, i, SetterAction::Overwrite, SetterParam::Declared)],
        FieldKind::Optional => seq![(f.name@, i, SetterAction::Overwrite, SetterParam::Inner)],
        FieldKind::Aggregated(each) => if each@ == f.name@ {
            seq![(each@, i, SetterAction::Append, SetterParam::Inner)]
        } else {
            seq![
                (f.name@, i, SetterAction::Overwrite, SetterParam::Declared),
                (each@, i, SetterAction::Append, SetterParam::Inner),
            ]
        },
    }
}

/// All setters, field by field in declaration order.
pub open spec fn setters_spec(fs: Seq<FieldPlan>) -> Seq<SetterView>
    decreases fs.len(),
{
    if fs.len() == 0 {
        seq![]
    } else {
        setters_spec(fs.drop_last()) + setters_for(fs.last(), fs.len() - 1)
    }
}

/// The first annotation of the builder namespace is malformed.
pub open spec fn has_malformed(f: FieldDescriptor) -> bool {
    exists|k: int| first_builder_attr(f.attrs@, k) && #[trigger] each_value(f.attrs@[k]) is None
}

/// The first annotation of the builder namespace is `each = "..."`.
pub open spec fn aggregates(f: FieldDescriptor) -> bool {
    exists|k: int| first_builder_attr(f.attrs@, k) && #[trigger] each_value(f.attrs@[k]) is Some
}

/// A field for which a builder can be generated.
pub open spec fn field_ok(f: FieldDescriptor) -> bool {
    !has_malformed(f) && (aggregates(f) ==> classify_spec(f.ty) == TypeClass::SequenceLike)
}

/// The kind that the rules give a well-formed field.
pub open spec fn kind_matches(f: FieldDescriptor, k: FieldKind) -> bool {
    match k {
        FieldKind::Aggregated(each) => directive_matches(f.attrs@, BuilderDirective::Aggregate(each))
            && classify_spec(f.ty) == TypeClass::SequenceLike,
        FieldKind::Optional => !aggregates(f) && classify_spec(f.ty) == TypeClass::OptionalWrapped,
        FieldKind::Plain => !aggregates(f) && classify_spec(f.ty) != TypeClass::OptionalWrapped,
    }
}

/// `k` is the first field for which no builder can be generated.
pub open spec fn first_bad_field(s: RecordSchema, k: int) -> bool {
    &&& 0 <= k < s.fields.len()
    &&& !field_ok(s.fields@[k])
    &&& forall|j: int| 0 <= j < k ==> field_ok(#[trigger] s.fields@[j])
}

impl BuilderPlan {
    /// Each setter names a field of the plan.
    pub open spec fn wf(&self) -> bool {
        forall|i: int| 0 <= i < self.setters.len() ==> (#[trigger] self.setters@[i]).field < self.fields.len()
    }
}

fn field_plan(f: &FieldDescriptor, i: usize) -> (r: Result<FieldPlan, GenError>)
    ensures
        r is Ok <==> field_ok(*f),
        r matches Ok(p) ==> p.name@ == f.name@ && kind_matches(*f, p.kind),
        r matches Err(e) ==> match e {
            GenError::MalformedAttribute { field, attr } => field == i && first_builder_attr(f.attrs@, attr as int)
                && each_value(f.attrs@[attr as int]) is None,
            GenError::NotASequence { field } => field == i && aggregates(*f),
            _ => false,
        },
{
    let d = builder_directive(&f.attrs);
    let c = classify(&f.ty);
    match d {
        BuilderDirective::Malformed(k) => {
            assert(has_malformed(*f)) by {
                assert(each_value(f.attrs@[k as int]) is None);
            }
            Err(GenError::MalformedAttribute { field: i, attr: k })
        },
        BuilderDirective::Aggregate(each) => {
            let ghost k = choose|k: int| first_builder_attr(f.attrs@, k) && #[trigger] each_value(f.attrs@[k]) == Some(each@);
            assert(aggregates(*f)) by {
                assert(each_value(f.attrs@[k]) is Some);
            }
            assert(!has_malformed(*f)) by {
                if has_malformed(*f) {
                    let k2 = choose|k2: int| first_builder_attr(f.attrs@, k2) && #[trigger] each_value(f.attrs@[k2]) is None;
                    assert(k2 == k) by {
                        if k2 < k { assert(!crate::attrs::in_builder_ns(f.attrs@[k2])); }
                        if k < k2 { assert(!crate::attrs::in_builder_ns(f.attrs@[k])); }
                    }
                }
            }
            if c == TypeClass::SequenceLike {
                let name = f.name.clone();
                Ok(FieldPlan { name, kind: FieldKind::Aggregated(each) })
            } else {
                Err(GenError::NotASequence { field: i })
            }
        },
        BuilderDirective::NoDirective => {
            assert(!aggregates(*f) && !has_malformed(*f));
            let name = f.name.clone();
            if c == TypeClass::OptionalWrapped {
                Ok(FieldPlan { name, kind: FieldKind::Optional })
            } else {
                Ok(FieldPlan { name, kind: FieldKind::Plain })
            }
        },
    }
}

fn push_setters(out: &mut Vec<Setter>, p: &FieldPlan, i: usize)
    ensures
        final(out)@.map_values(|s: Setter| setter_view(s)) == old(out)@.map_values(|s: Setter| setter_view(s))
            + setters_for(*p, i as int),
        forall|j: int| 0 <= j < old(out).len() ==> final(out)@[j] == old(out)@[j],
        forall|j: int| old(out).len() <= j < final(out).len() ==> (#[trigger] final(out)@[j]).field == i,
{
    let ghost before = out@;
    match &p.kind {
        FieldKind::Plain => {
            out.push(Setter { name: p.name.clone(), field: i, action: SetterAction::Overwrite, param: SetterParam::Declared });
        },
        FieldKind::Optional => {
            out.push(Setter { name: p.name.clone(), field: i, action: SetterAction::Overwrite, param: SetterParam::Inner });
        },
        FieldKind::Aggregated(each) => {
            if *each != p.name {
                out.push(Setter { name: p.name.clone(), field: i, action: SetterAction::Overwrite, param: SetterParam::Declared });
            }
            out.push(Setter { name: each.clone(), field: i, action: SetterAction::Append, param: SetterParam::Inner });
        },
    }
    assert(out@.map_values(|s: Setter| setter_view(s)) =~= before.map_values(|s: Setter| setter_view(s))
        + setters_for(*p, i as int));
}

/// The name of the companion builder type.
pub open spec fn builder_name(record: Seq<char>) -> Seq<char> {
    record + "Builder"@
}

/// `p` is the builder of `s`.
pub open spec fn plan_matches(s: RecordSchema, p: BuilderPlan) -> bool {
    &&& p.wf()
    &&& p.record@ == s.name@
    &&& p.builder@ == builder_name(s.name@)
    &&& p.fields.len() == s.fields.len()
    &&& forall|i: int| 0 <= i < s.fields.len() ==> {
        &&& (#[trigger] p.fields@[i]).name@ == s.fields@[i].name@
        &&& kind_matches(s.fields@[i], p.fields@[i].kind)
    }
    &&& p.setters@.map_values(|x: Setter| setter_view(x)) == setters_spec(p.fields@)
}

/// `e` is the diagnostic owed for `s`.
pub open spec fn plan_error(s: RecordSchema, e: GenError) -> bool {
    match e {
        GenError::MalformedAttribute { field, attr } => first_bad_field(s, field as int)
            && first_builder_attr(s.fields@[field as int].attrs@, attr as int)
            && each_value(s.fields@[field as int].attrs@[attr as int]) is None,
        GenError::NotASequence { field } => first_bad_field(s, field as int)
            && aggregates(s.fields@[field as int]),
        _ => false,
    }
}

/// The schema's fields can all be given a builder.
pub open spec fn schema_ok(s: RecordSchema) -> bool {
    forall|i: int| 0 <= i < s.fields.len() ==> field_ok(#[trigger] s.fields@[i])
}

impl BuilderPlan {
    /// Generates the builder of a record: one field plan per field, the
    /// setters of every field in declaration order, and the builder's name.
    /// Fails on the first field whose builder annotation is malformed, or
    /// that asks for element-wise appends on a type that is not a sequence.
    pub fn synthesize(s: &RecordSchema) -> (r: Result<BuilderPlan, GenError>)
        ensures
            r is Ok <==> schema_ok(*s),
            r matches Ok(p) ==> plan_matches(*s, p),
            r matches Err(e) ==> plan_error(*s, e),
    {
        let mut fields: Vec<FieldPlan> = Vec::new();
        let mut setters: Vec<Setter> = Vec::new();
        let mut i: usize = 0;
        while i < s.fields.len()
            invariant
                i <= s.fields.len(),
                fields.len() == i,
                forall|j: int| 0 <= j < i ==> field_ok(#[trigger] s.fields@[j]),
                forall|j: int| 0 <= j < i ==> {
                    &&& (#[trigger] fields@[j]).name@ == s.fields@[j].name@
                    &&& kind_matches(s.fields@[j], fields@[j].kind)
                },
                forall|j: int| 0 <= j < setters.len() ==> (#[trigger] setters@[j]).field < i,
                setters@.map_values(|x: Setter| setter_view(x)) == setters_spec(fields@),
            decreases s.fields.len() - i,
        {
            let fp = field_plan(&s.fields[i], i);
            match fp {
                Ok(p) => {
                    push_setters(&mut setters, &p, i);
                    let ghost old_fields = fields@;
                    fields.push(p);
                    assert(fields@.drop_last() == old_fields);
                },
                Err(e) => {
                    return Err(e);
                },
            }
            i = i + 1;
        }
        let mut builder = s.name.clone();
        builder.append("Builder");
        Ok(BuilderPlan { record: s.name.clone(), builder, fields, setters })
    }
}

/// Generates the builder of a declaration: only records whose fields all
/// have names are accepted, then each field is planned as `synthesize` says.
pub fn derive(d: Declaration) -> (r: Result<BuilderPlan, GenError>)
    ensures
        match d.shape {
            Shape::Record(fs) => if all_named(fs@) {
                exists|s: RecordSchema| #[trigger] extracted(d, s)
                    && (r is Ok <==> schema_ok(s))
                    && (r matches Ok(p) ==> plan_matches(s, p))
                    && (r matches Err(e) ==> plan_error(s, e))
            } else {
                r matches Err(GenError::MalformedField { field }) && first_unnamed(fs@, field as int)
            },
            _ => r == Err::<BuilderPlan, GenError>(GenError::UnsupportedShape),
        },
{
    let ghost d0 = d;
    match d.extract() {
        Ok(s) => {
            let r = BuilderPlan::synthesize(&s);
            assert(extracted(d0, s));
            r
        },
        Err(e) => Err(e),
    }
}

/// Every setter acts on a field of the plan.
proof fn setters_fields_below(fs: Seq<FieldPlan>)
    ensures
        forall|k: int| 0 <= k < setters_spec(fs).len() ==> 0 <= (#[trigger] setters_spec(fs)[k]).1 < fs.len(),
    decreases fs.len(),
{
    if fs.len() > 0 {
        let pre = fs.drop_last();
        let last = setters_for(fs.last(), fs.len() - 1);
        setters_fields_below(pre);
        assert forall|k: int| 0 <= k < setters_spec(fs).len() implies 0 <= (#[trigger] setters_spec(fs)[k]).1 < fs.len() by {
            if k < setters_spec(pre).len() {
                assert(setters_spec(fs)[k] == setters_spec(pre)[k]);
            } else {
                assert(setters_spec(fs)[k] == last[k - setters_spec(pre).len()]);
            }
        }
    }
}

/// When the `each` setter of a field has the field's own name, that field
/// gets exactly one setter, which appends: no whole-sequence setter stands
/// beside it.
pub proof fn same_name_single_setter(fs: Seq<FieldPlan>, i: int)
    requires
        0 <= i < fs.len(),
        fs[i].kind matches FieldKind::Aggregated(e) && e@ == fs[i].name@,
    ensures
        forall|k: int| 0 <= k < setters_spec(fs).len() && (#[trigger] setters_spec(fs)[k]).1 == i
            ==> setters_spec(fs)[k] == (fs[i].name@, i, SetterAction::Append, SetterParam::Inner),
        exists|k: int| 0 <= k < setters_spec(fs).len()
            && #[trigger] setters_spec(fs)[k] == (fs[i].name@, i, SetterAction::Append, SetterParam::Inner),
    decreases fs.len(),
{
    let pre = fs.drop_last();
    let last = setters_for(fs.last(), fs.len() - 1);
    assert(setters_spec(fs) == setters_spec(pre) + last);
    setters_fields_below(pre);
    if i == fs.len() - 1 {
        assert(last.len() == 1);
        assert(setters_spec(fs)[setters_spec(pre).len() as int] == last[0]);
    } else {
        same_name_single_setter(pre, i);
        assert(pre[i] == fs[i]);
        let k0 = choose|k: int| 0 <= k < setters_spec(pre).len()
            && #[trigger] setters_spec(pre)[k] == (pre[i].name@, i, SetterAction::Append, SetterParam::Inner);
        assert(setters_spec(fs)[k0] == setters_spec(pre)[k0]);
        assert forall|k: int| 0 <= k < setters_spec(fs).len() && (#[trigger] setters_spec(fs)[k]).1 == i
            implies setters_spec(fs)[k] == (fs[i].name@, i, SetterAction::Append, SetterParam::Inner) by {
            if k < setters_spec(pre).len() {
                assert(setters_spec(fs)[k] == setters_spec(pre)[k]);
            } else {
                assert(setters_spec(fs)[k] == last[k - setters_spec(pre).len()]);
            }
        }
    }
}

} // verus!
