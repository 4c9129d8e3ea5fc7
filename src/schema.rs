use vstd::prelude::*;

verus! {

/// One path segment that occurs somewhere in a declared type, such as `Vec`
/// or `T` in `Vec<T>`. Segments are listed in source order; `parent` is the
/// segment whose generic arguments contain this one.
#[derive(Debug)]
pub struct TypeNode {
    pub ident: String,
    pub parent: Option<usize>,
    /// Whether this segment starts its path (`T` in `T::Item`, not `Item`).
    pub leading: bool,
}

/// The shape of a declared type that the synthesis rules read.
#[derive(Debug)]
pub struct TypeExpr {
    /// Name of the outer constructor: the last segment of the type's path,
    /// or `None` when the type is not a path (a reference, a tuple, ...).
    pub outer: Option<String>,
    /// Number of type arguments carried by the outer constructor.
    pub outer_args: usize,
    /// Every path segment of the type, parents before children.
    pub nodes: Vec<TypeNode>,
}

/// How an annotation is written.
#[derive(Debug)]
pub enum AttrForm {
    /// `#[ns]`, or `#[ns(...)]` whose content is not an assignment.
    Bare,
    /// `#[ns(key = value)]`; `key` is `None` when the left side is not a
    /// single identifier.
    Assign { key: Option<String>, value: AttrValue },
    /// `#[ns = value]`.
    NameValue { value: AttrValue },
}

/// The value side of an annotation.
#[derive(Debug)]
pub enum AttrValue {
    Str(String),
    Other,
}

/// One raw annotation on a field; `namespace` is the first segment of its path.
#[derive(Debug)]
pub struct Attribute {
    pub namespace: String,
    pub form: AttrForm,
}

/// A generic parameter of the record; only type parameters can take a bound.
#[derive(Debug)]
pub struct GenericParam {
    pub name: String,
    pub is_type: bool,
}

/// A field as it appears in the declaration: its name may be missing.
#[derive(Debug)]
pub struct RawField {
    pub name: Option<String>,
    pub ty: TypeExpr,
    pub attrs: Vec<Attribute>,
}

/// The body of a declaration.
#[derive(Debug)]
pub enum Shape {
    Record(Vec<RawField>),
    Sum,
    Union,
}

/// A type declaration handed to the engine.
#[derive(Debug)]
pub struct Declaration {
    pub name: String,
    pub generics: Vec<GenericParam>,
    pub shape: Shape,
}

/// A field with its name.
#[derive(Debug)]
pub struct FieldDescriptor {
    pub name: String,
    pub ty: TypeExpr,
    pub attrs: Vec<Attribute>,
}

/// A record with named fields, in declaration order.
#[derive(Debug)]
pub struct RecordSchema {
    pub name: String,
    pub generics: Vec<GenericParam>,
    pub fields: Vec<FieldDescriptor>,
}

/// Diagnostics raised while generating code. Indices locate the offending
/// field and annotation in the declaration.
#[derive(Debug, PartialEq, Eq, Structural)]
pub enum GenError {
    UnsupportedShape,
    MalformedField { field: usize },
    MalformedAttribute { field: usize, attr: usize },
    NotASequence { field: usize },
}

/// Whether every field of the declaration carries a name.
pub open spec fn all_named(fs: Seq<RawField>) -> bool {
    forall|i: int| 0 <= i < fs.len() ==> (#[trigger] fs[i]).name is Some
}

/// The first field without a name.
pub open spec fn first_unnamed(fs: Seq<RawField>, k: int) -> bool {
    &&& 0 <= k < fs.len()
    &&& fs[k].name is None
    &&& forall|j: int| 0 <= j < k ==> (#[trigger] fs[j]).name is Some
}

/// `s` is the schema of declaration `d`: same name, parameters and fields.
pub open spec fn extracted(d: Declaration, s: RecordSchema) -> bool {
    &&& d.shape matches Shape::Record(fs)
    &&& s.name == d.name
    &&& s.generics == d.generics
    &&& s.fields.len() == fs.len()
    &&& forall|i: int| 0 <= i < fs.len() ==> {
        &&& fs[i].name == Some(#[trigger] s.fields@[i].name)
        &&& s.fields@[i].ty == fs[i].ty
        &&& s.fields@[i].attrs == fs[i].attrs
    }
}

impl GenError {
    /// The human-readable text of the diagnostic.
    pub fn message(&self) -> (r: String)
        ensures
            r@ == match self {
                GenError::UnsupportedShape => "only records with named fields are supported"@,
                GenError::MalformedField { .. } => "Field name must be provided"@,
                GenError::MalformedAttribute { .. } => "expected `builder(each = \"...\")`"@,
                GenError::NotASequence { .. } => "`each` needs a field of type `Vec<_>`"@,
            },
    {
        match self {
            GenError::UnsupportedShape => "only records with named fields are supported".to_owned(),
            GenError::MalformedField { .. } => "Field name must be provided".to_owned(),
            GenError::MalformedAttribute { .. } => "expected `builder(each = \"...\")`".to_owned(),
            GenError::NotASequence { .. } => "`each` needs a field of type `Vec<_>`".to_owned(),
        }
    }
}

impl Declaration {
    /// Normalises a declaration into a record schema: sums and unions are
    /// refused, and so is the first field that has no name.
    pub fn extract(self) -> (r: Result<RecordSchema, GenError>)
        ensures
            match self.shape {
                Shape::Record(fs) => (r is Ok <==> all_named(fs@)) && !(r matches Err(GenError::UnsupportedShape)),
                _ => r == Err::<RecordSchema, GenError>(GenError::UnsupportedShape),
            },
            r matches Ok(s) ==> extracted(self, s),
            r matches Err(GenError::MalformedField { field }) ==> (self.shape matches Shape::Record(fs)
                && first_unnamed(fs@, field as int)),
            r is Err ==> r matches Err(GenError::UnsupportedShape) || r matches Err(GenError::MalformedField { .. }),
    {
        let Declaration { name, generics, shape } = self;
        let raw = match shape {
            Shape::Record(fs) => fs,
            _ => return Err(GenError::UnsupportedShape),
        };
        let ghost orig = raw@;
        let ghost orig_vec = raw;
        let mut fields: Vec<FieldDescriptor> = Vec::new();
        let mut rest = raw;
        assert(orig.len() == rest.len());
        let mut i: usize = 0;
        while rest.len() > 0
            invariant
                i + rest.len() == orig.len(),
                fields.len() == i,
                rest@ == orig.subrange(i as int, orig.len() as int),
                self.shape == Shape::Record(orig_vec),
                orig_vec@ == orig,
                orig.len() <= usize::MAX,
                forall|j: int| 0 <= j < i ==> {
                    &&& orig[j].name == Some(#[trigger] fields@[j].name)
                    &&& fields@[j].ty == orig[j].ty
                    &&& fields@[j].attrs == orig[j].attrs
                },
            decreases rest.len(),
        {
            let f = rest.remove(0);
            let RawField { name: fname, ty, attrs } = f;
            match fname {
                Some(n) => {
                    fields.push(FieldDescriptor { name: n, ty, attrs });
                },
                None => {
                    assert(orig[i as int] == f);
                    assert(!all_named(orig));
                    assert forall|j: int| 0 <= j < i implies (#[trigger] orig[j]).name is Some by {
                        assert(orig[j].name == Some(fields@[j].name));
                    }
                    return Err(GenError::MalformedField { field: i });
                },
            }
            i = i + 1;
        }
        assert forall|j: int| 0 <= j < orig.len() implies (#[trigger] orig[j]).name is Some by {
            assert(orig[j].name == Some(fields@[j].name));
        }
        Ok(RecordSchema { name, generics, fields })
    }
}

} // verus!
