use vstd::prelude::*;
use crate::attrs::{debug_template, template_spec};
use crate::classify::{needs_bound, needs_bound_spec};
use crate::schema::{all_named, extracted, first_unnamed, Declaration, GenError, RecordSchema, Shape};

verus! {

/// One printed field: its name, and the template that renders its value
/// instead of the default representation, if any.
#[derive(Debug)]
pub struct DebugEntry {
    pub name: String,
    pub template: Option<String>,
}

/// The rendering implementation of a record.
#[derive(Debug)]
pub struct DebugPlan {
    pub record: String,
    pub entries: Vec<DebugEntry>,
    /// For each generic parameter, whether it takes the rendering bound.
    pub bounded: Vec<bool>,
}

/// `e` prints field `f`, through the template that its annotations supply.
pub open spec fn entry_matches(e: DebugEntry, f: crate::schema::FieldDescriptor) -> bool {
    &&& e.name@ == f.name@
    &&& match e.template {
        Some(t) => template_spec(f.attrs@) == Some(t@),
        None => template_spec(f.attrs@) is None,
    }
}

/// `r` is the renderer of `s`.
pub open spec fn debug_matches(s: RecordSchema, r: DebugPlan) -> bool {
    &&& r.record@ == s.name@
    &&& r.entries.len() == s.fields.len()
    &&& forall|i: int| 0 <= i < s.fields.len() ==> entry_matches(#[trigger] r.entries@[i], s.fields@[i])
    &&& r.bounded.len() == s.generics.len()
    &&& forall|i: int| 0 <= i < s.generics.len() ==> #[trigger] r.bounded@[i] == needs_bound_spec(s, s.generics@[i])
}

impl DebugPlan {
    /// Generates the renderer of a record: one entry per field in
    /// declaration order, and the bound of each generic parameter.
    pub fn synthesize(s: &RecordSchema) -> (r: DebugPlan)
        ensures
            debug_matches(*s, r),
    {
        let mut entries: Vec<DebugEntry> = Vec::new();
        let mut i: usize = 0;
        while i < s.fields.len()
            invariant
                i <= s.fields.len(),
                entries.len() == i,
                forall|j: int| 0 <= j < i ==> entry_matches(#[trigger] entries@[j], s.fields@[j]),
            decreases s.fields.len() - i,
        {
            let template = debug_template(&s.fields[i].attrs);
            entries.push(DebugEntry { name: s.fields[i].name.clone(), template });
            i = i + 1;
        }
        let mut bounded: Vec<bool> = Vec::new();
        let mut g: usize = 0;
        while g < s.generics.len()
            invariant
                g <= s.generics.len(),
                bounded.len() == g,
                forall|j: int| 0 <= j < g ==> #[trigger] bounded@[j] == needs_bound_spec(*s, s.generics@[j]),
            decreases s.generics.len() - g,
        {
            bounded.push(needs_bound(s, &s.generics[g]));
            g = g + 1;
        }
        DebugPlan { record: s.name.clone(), entries, bounded }
    }
}

/// Generates the renderer of a declaration: only records whose fields all
/// have names are accepted.
pub fn derive(d: Declaration) -> (r: Result<DebugPlan, GenError>)
    ensures
        match d.shape {
            Shape::Record(fs) => if all_named(fs@) {
                r matches Ok(p)
                    && exists|s: RecordSchema| #[trigger] extracted(d, s) && debug_matches(s, p)
            } else {
                r matches Err(GenError::MalformedField { field }) && first_unnamed(fs@, field as int)
            },
            _ => r == Err::<DebugPlan, GenError>(GenError::UnsupportedShape),
        },
{
    let ghost d0 = d;
    match d.extract() {
        Ok(s) => {
            let r = DebugPlan::synthesize(&s);
            assert(extracted(d0, s));
            Ok(r)
        },
        Err(e) => Err(e),
    }
}

} // verus!
