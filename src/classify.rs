use vstd::prelude::*;
use crate::schema::{GenericParam, RecordSchema, TypeExpr, TypeNode};

verus! {

/// Whether `s` spells the word `w`.
pub fn is_word(s: &String, w: &str) -> (r: bool)
    ensures
        r == (s@ == w@),
{
    let w2 = w.to_owned();
    *s == w2
}

/// Classes of declared types.
#[derive(Debug, Clone, Copy, PartialEq, Eq, Structural)]
pub enum TypeClass {
    Plain,
    /// `Option<X>`: the setter takes `X`.
    OptionalWrapped,
    /// `Vec<X>`: elements of type `X` can be appended one at a time.
    SequenceLike,
}

/// The outer constructor is `w` and carries a type argument.
pub open spec fn outer_is(t: TypeExpr, w: Seq<char>) -> bool {
    &&& t.outer matches Some(o)
    &&& o@ == w
    &&& t.outer_args > 0
}

/// The class of a declared type.
pub open spec fn classify_spec(t: TypeExpr) -> TypeClass {
    if outer_is(t, "Option"@) {
        TypeClass::OptionalWrapped
    } else if outer_is(t, "Vec"@) {
        TypeClass::SequenceLike
    } else {
        TypeClass::Plain
    }
}

/// Classifies a declared type by its outer constructor and whether that
/// constructor carries a type argument.
pub fn classify(t: &TypeExpr) -> (r: TypeClass)
    ensures
        r == classify_spec(*t),
{
    match &t.outer {
        Some(o) => {
            if t.outer_args > 0 && is_word(o, "Option") {
                TypeClass::OptionalWrapped
            } else if t.outer_args > 0 && is_word(o, "Vec") {
                TypeClass::SequenceLike
            } else {
                TypeClass::Plain
            }
        },
        None => TypeClass::Plain,
    }
}

/// The zero-size marker wrapper.
pub open spec fn is_marker(n: TypeNode) -> bool {
    n.ident@ == "PhantomData"@
}

/// Whether segment `i` lies inside the arguments of a marker wrapper.
pub open spec fn under_marker(nodes: Seq<TypeNode>, i: int) -> bool
    decreases i,
{
    if 0 <= i < nodes.len() {
        match nodes[i].parent {
            Some(p) => p < i && (is_marker(nodes[p as int]) || under_marker(nodes, p as int)),
            None => false,
        }
    } else {
        false
    }
}

/// Segment `i` names the parameter `p`.
pub open spec fn names_param(nodes: Seq<TypeNode>, i: int, p: Seq<char>) -> bool {
    nodes[i].leading && nodes[i].ident@ == p
}

/// The type mentions `p` inside a marker wrapper.
pub open spec fn mentions_in_marker(t: TypeExpr, p: Seq<char>) -> bool {
    exists|i: int| 0 <= i < t.nodes.len() && #[trigger] names_param(t.nodes@, i, p) && under_marker(t.nodes@, i)
}

/// The type mentions `p` outside every marker wrapper.
pub open spec fn mentions_elsewhere(t: TypeExpr, p: Seq<char>) -> bool {
    exists|i: int| 0 <= i < t.nodes.len() && #[trigger] names_param(t.nodes@, i, p) && !under_marker(t.nodes@, i)
}

/// For each segment, whether it lies inside a marker wrapper.
pub fn marker_flags(t: &TypeExpr) -> (r: Vec<bool>)
    ensures
        r.len() == t.nodes.len(),
        forall|i: int| 0 <= i < r.len() ==> r[i] == under_marker(t.nodes@, i),
{
    let mut r: Vec<bool> = Vec::new();
    let n = t.nodes.len();
    while r.len() < n
        invariant
            n == t.nodes.len(),
            r.len() <= n,
            forall|i: int| 0 <= i < r.len() ==> r[i] == under_marker(t.nodes@, i),
        decreases n - r.len(),
    {
        let i = r.len();
        let b = match t.nodes[i].parent {
            Some(p) => {
                if p < i {
                    is_word(&t.nodes[p].ident, "PhantomData") || r[p]
                } else {
                    false
                }
            },
            None => false,
        };
        assert(b == under_marker(t.nodes@, i as int));
        r.push(b);
    }
    r
}

/// How the fields of a record use one generic parameter.
#[derive(Debug, Clone, Copy, PartialEq, Eq, Structural)]
pub struct PhantomUsage {
    pub in_marker: bool,
    pub elsewhere: bool,
}

/// Some field mentions `p` inside a marker wrapper.
pub open spec fn used_in_marker(fs: Seq<TypeExpr>, p: Seq<char>) -> bool {
    exists|k: int| 0 <= k < fs.len() && mentions_in_marker(#[trigger] fs[k], p)
}

/// Some field mentions `p` outside every marker wrapper.
pub open spec fn used_elsewhere(fs: Seq<TypeExpr>, p: Seq<char>) -> bool {
    exists|k: int| 0 <= k < fs.len() && mentions_elsewhere(#[trigger] fs[k], p)
}

/// The declared types of the record's fields, in order.
pub open spec fn field_types(s: RecordSchema) -> Seq<TypeExpr> {
    s.fields@.map_values(|f: crate::schema::FieldDescriptor| f.ty)
}

/// Scans one type for mentions of `p`, inside and outside marker wrappers.
fn usage_in_type(t: &TypeExpr, p: &String) -> (r: PhantomUsage)
    ensures
        r.in_marker == mentions_in_marker(*t, p@),
        r.elsewhere == mentions_elsewhere(*t, p@),
{
    let flags = marker_flags(t);
    let mut r = PhantomUsage { in_marker: false, elsewhere: false };
    let mut i: usize = 0;
    while i < t.nodes.len()
        invariant
            flags.len() == t.nodes.len(),
            forall|j: int| 0 <= j < flags.len() ==> flags[j] == under_marker(t.nodes@, j),
            i <= t.nodes.len(),
            r.in_marker == exists|j: int| 0 <= j < i && #[trigger] names_param(t.nodes@, j, p@) && under_marker(t.nodes@, j),
            r.elsewhere == exists|j: int| 0 <= j < i && #[trigger] names_param(t.nodes@, j, p@) && !under_marker(t.nodes@, j),
        decreases t.nodes.len() - i,
    {
        let hit = t.nodes[i].leading && t.nodes[i].ident == *p;
        assert(hit == names_param(t.nodes@, i as int, p@));
        if hit {
            if flags[i] {
                r.in_marker = true;
            } else {
                r.elsewhere = true;
            }
        }
        i = i + 1;
    }
    r
}

/// Collects how the fields of `s` use the parameter named `p`: the two
/// sets of phantom and ordinary uses, taken over all fields.
pub fn phantom_usage(s: &RecordSchema, p: &String) -> (r: PhantomUsage)
    ensures
        r.in_marker == used_in_marker(field_types(*s), p@),
        r.elsewhere == used_elsewhere(field_types(*s), p@),
{
    let ghost fs = field_types(*s);
    let mut r = PhantomUsage { in_marker: false, elsewhere: false };
    let mut k: usize = 0;
    while k < s.fields.len()
        invariant
            fs == field_types(*s),
            k <= s.fields.len(),
            r.in_marker == exists|j: int| 0 <= j < k && mentions_in_marker(#[trigger] fs[j], p@),
            r.elsewhere == exists|j: int| 0 <= j < k && mentions_elsewhere(#[trigger] fs[j], p@),
        decreases s.fields.len() - k,
    {
        let u = usage_in_type(&s.fields[k].ty, p);
        assert(fs[k as int] == s.fields@[k as int].ty);
        r.in_marker = r.in_marker || u.in_marker;
        r.elsewhere = r.elsewhere || u.elsewhere;
        k = k + 1;
    }
    r
}

/// A parameter is exempt from the rendering bound when the fields use it
/// inside marker wrappers and nowhere else.
pub open spec fn needs_bound_spec(s: RecordSchema, g: GenericParam) -> bool {
    g.is_type && !(used_in_marker(field_types(s), g.name@) && !used_elsewhere(field_types(s), g.name@))
}

/// Whether the generic parameter `g` of `s` must satisfy the rendering capability.
pub fn needs_bound(s: &RecordSchema, g: &GenericParam) -> (r: bool)
    ensures
        r == needs_bound_spec(*s, *g),
{
    if !g.is_type {
        return false;
    }
    let u = phantom_usage(s, &g.name);
    !(u.in_marker && !u.elsewhere)
}

/// A type parameter that some field mentions outside every marker wrapper
/// takes the rendering bound, whatever marker fields also mention it.
pub proof fn used_outside_marker_is_bounded(s: RecordSchema, g: GenericParam, k: int, i: int)
    requires
        g.is_type,
        0 <= k < s.fields.len(),
        0 <= i < s.fields@[k].ty.nodes.len(),
        names_param(s.fields@[k].ty.nodes@, i, g.name@),
        !under_marker(s.fields@[k].ty.nodes@, i),
    ensures
        needs_bound_spec(s, g),
{
    let fs = field_types(s);
    assert(fs[k] == s.fields@[k].ty);
    assert(mentions_elsewhere(fs[k], g.name@));
}

/// A type parameter that fields mention only inside marker wrappers takes
/// no rendering bound.
pub proof fn phantom_only_is_exempt(s: RecordSchema, g: GenericParam, k: int, i: int)
    requires
        0 <= k < s.fields.len(),
        0 <= i < s.fields@[k].ty.nodes.len(),
        names_param(s.fields@[k].ty.nodes@, i, g.name@),
        under_marker(s.fields@[k].ty.nodes@, i),
        forall|k2: int, i2: int| 0 <= k2 < s.fields.len() && 0 <= i2 < s.fields@[k2].ty.nodes.len()
            && #[trigger] names_param(s.fields@[k2].ty.nodes@, i2, g.name@) ==> under_marker(s.fields@[k2].ty.nodes@, i2),
    ensures
        !needs_bound_spec(s, g),
{
    let fs = field_types(s);
    assert(fs[k] == s.fields@[k].ty);
    assert(mentions_in_marker(fs[k], g.name@));
    assert forall|k2: int| 0 <= k2 < fs.len() implies !mentions_elsewhere(#[trigger] fs[k2], g.name@) by {
        assert(fs[k2] == s.fields@[k2].ty);
    }
}

} // verus!
