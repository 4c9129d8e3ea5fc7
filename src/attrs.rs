use vstd::prelude::*;
use crate::classify::is_word;
use crate::schema::{AttrForm, AttrValue, Attribute};

verus! {

/// What the builder namespace asks of one field.
#[derive(Debug, PartialEq, Eq)]
pub enum BuilderDirective {
    NoDirective,
    /// `each = "name"`: append elements through a setter called `name`.
    Aggregate(String),
    /// The annotation at this index is not of the form `each = "..."`.
    Malformed(usize),
}

/// The annotation belongs to the builder namespace.
pub open spec fn in_builder_ns(a: Attribute) -> bool {
    a.namespace@ == "builder"@
}

/// The setter name that a well-formed `each = "..."` annotation supplies.
pub open spec fn each_value(a: Attribute) -> Option<Seq<char>> {
    match a.form {
        AttrForm::Assign { key: Some(k), value: AttrValue::Str(v) } => if k@ == "each"@ {
            Some(v@)
        } else {
            None
        },
        _ => None,
    }
}

/// `k` is the first annotation of the builder namespace.
pub open spec fn first_builder_attr(attrs: Seq<Attribute>, k: int) -> bool {
    &&& 0 <= k < attrs.len()
    &&& in_builder_ns(attrs[k])
    &&& forall|j: int| 0 <= j < k ==> !in_builder_ns(#[trigger] attrs[j])
}

/// The first annotation of the builder namespace decides: it is either a
/// well-formed `each = "..."` or an error; later ones are not read.
pub open spec fn directive_matches(attrs: Seq<Attribute>, d: BuilderDirective) -> bool {
    match d {
        BuilderDirective::NoDirective => forall|j: int| 0 <= j < attrs.len() ==> !in_builder_ns(#[trigger] attrs[j]),
        BuilderDirective::Aggregate(name) => exists|k: int| first_builder_attr(attrs, k) && #[trigger] each_value(attrs[k]) == Some(name@),
        BuilderDirective::Malformed(k) => first_builder_attr(attrs, k as int) && each_value(attrs[k as int]) is None,
    }
}

fn each_of(a: &Attribute) -> (r: Option<String>)
    ensures
        match r {
            Some(v) => each_value(*a) == Some(v@),
            None => each_value(*a) is None,
        },
{
    match &a.form {
        AttrForm::Assign { key: Some(k), value: AttrValue::Str(v) } => {
            if is_word(k, "each") {
                Some(v.clone())
            } else {
                None
            }
        },
        _ => None,
    }
}

/// Interprets the builder annotations of one field.
pub fn builder_directive(attrs: &Vec<Attribute>) -> (r: BuilderDirective)
    ensures
        directive_matches(attrs@, r),
{
    let mut i: usize = 0;
    while i < attrs.len()
        invariant
            i <= attrs.len(),
            forall|j: int| 0 <= j < i ==> !in_builder_ns(#[trigger] attrs@[j]),
        decreases attrs.len() - i,
    {
        if is_word(&attrs[i].namespace, "builder") {
            assert(first_builder_attr(attrs@, i as int));
            return match each_of(&attrs[i]) {
                Some(v) => BuilderDirective::Aggregate(v),
                None => BuilderDirective::Malformed(i),
            };
        }
        i = i + 1;
    }
    BuilderDirective::NoDirective
}

/// The template that annotation `a` supplies, if it is `debug = "..."`.
pub open spec fn template_of(a: Attribute) -> Option<Seq<char>> {
    match a.form {
        AttrForm::NameValue { value: AttrValue::Str(t) } => if a.namespace@ == "debug"@ {
            Some(t@)
        } else {
            None
        },
        _ => None,
    }
}

/// The last well-formed template annotation wins; other annotations of the
/// debug namespace are ignored.
pub open spec fn template_spec(attrs: Seq<Attribute>) -> Option<Seq<char>>
    decreases attrs.len(),
{
    if attrs.len() == 0 {
        None
    } else {
        match template_of(attrs.last()) {
            Some(t) => Some(t),
            None => template_spec(attrs.drop_last()),
        }
    }
}

/// Interprets the debug annotations of one field.
pub fn debug_template(attrs: &Vec<Attribute>) -> (r: Option<String>)
    ensures
        match r {
            Some(t) => template_spec(attrs@) == Some(t@),
            None => template_spec(attrs@) is None,
        },
{
    let mut r: Option<String> = None;
    let mut i: usize = 0;
    while i < attrs.len()
        invariant
            i <= attrs.len(),
            match r {
                Some(t) => template_spec(attrs@.subrange(0, i as int)) == Some(t@),
                None => template_spec(attrs@.subrange(0, i as int)) is None,
            },
        decreases attrs.len() - i,
    {
        assert(attrs@.subrange(0, i + 1).drop_last() == attrs@.subrange(0, i as int));
        let a = &attrs[i];
        if let AttrForm::NameValue { value: AttrValue::Str(t) } = &a.form {
            if is_word(&a.namespace, "debug") {
                r = Some(t.clone());
            }
        }
        i = i + 1;
    }
    assert(attrs@.subrange(0, attrs.len() as int) == attrs@);
    r
}

} // verus!
