use vstd::prelude::*;
use vstd::string::StringExecFns;
use crate::builder::{setter_view, BuilderPlan, FieldKind, Setter, SetterAction};

verus! {

/// A value held by a builder slot: one text value, or a list of them.
#[derive(Debug)]
pub enum Value {
    Text(String),
    List(Vec<String>),
}

/// What a `Value` holds, as text sequences.
pub enum ValueView {
    Text(Seq<char>),
    List(Seq<Seq<char>>),
}

/// The contents of a list of strings.
pub open spec fn texts(l: Seq<String>) -> Seq<Seq<char>> {
    l.map_values(|s: String| s@)
}

impl View for Value {
    type V = ValueView;

    open spec fn view(&self) -> ValueView {
        match self {
            Value::Text(s) => ValueView::Text(s@),
            Value::List(l) => ValueView::List(texts(l@)),
        }
    }
}

/// What a slot holds.
pub open spec fn slot_view(s: Option<Value>) -> Option<ValueView> {
    match s {
        Some(v) => Some(v@),
        None => None,
    }
}

/// What every slot holds.
pub open spec fn slots_view(s: Seq<Option<Value>>) -> Seq<Option<ValueView>> {
    s.map_values(|x: Option<Value>| slot_view(x))
}

fn copy_texts(l: &Vec<String>) -> (r: Vec<String>)
    ensures
        texts(r@) == texts(l@),
{
    let mut r: Vec<String> = Vec::new();
    let mut i: usize = 0;
    while i < l.len()
        invariant
            i <= l.len(),
            texts(r@) == texts(l@.subrange(0, i as int)),
        decreases l.len() - i,
    {
        let ghost before = r@;
        r.push(l[i].clone());
        assert(texts(r@) =~= texts(before).push(l@[i as int]@));
        assert(texts(l@.subrange(0, i + 1)) =~= texts(l@.subrange(0, i as int)).push(l@[i as int]@));
        i = i + 1;
    }
    assert(l@.subrange(0, l.len() as int) == l@);
    r
}

impl Value {
    /// A copy of the value.
    pub fn copy(&self) -> (r: Value)
        ensures
            r@ == self@,
    {
        match self {
            Value::Text(s) => Value::Text(s.clone()),
            Value::List(l) => Value::List(copy_texts(l)),
        }
    }
}

fn copy_slot(s: &Option<Value>) -> (r: Option<Value>)
    ensures
        slot_view(r) == slot_view(*s),
{
    match s {
        Some(v) => Some(v.copy()),
        None => None,
    }
}

/// The failures of a running builder.
#[derive(Debug, PartialEq, Eq)]
pub enum BuildError {
    /// `build` found this required field unset.
    MissingField(String),
    /// No setter of that name and action exists.
    UnknownSetter(String),
}

impl BuildError {
    /// The human-readable text of the failure.
    pub fn message(&self) -> (r: String)
        ensures
            match self {
                BuildError::MissingField(n) => r@ == n@ + " is not set"@,
                BuildError::UnknownSetter(n) => r@ == "no setter named "@ + n@,
            },
    {
        match self {
            BuildError::MissingField(n) => {
                let mut m = n.clone();
                m.append(" is not set");
                m
            },
            BuildError::UnknownSetter(n) => {
                let mut m = "no setter named ".to_owned();
                m.append(n.as_str());
                m
            },
        }
    }
}

/// The initial content of a slot: aggregated fields start from an empty
/// list, all others are absent.
pub open spec fn initial_slot(k: FieldKind) -> Option<ValueView> {
    match k {
        FieldKind::Aggregated(_) => Some(ValueView::List(seq![])),
        _ => None,
    }
}

/// Appending one element: to the list already there, or to a new one.
pub open spec fn append_slot(s: Option<ValueView>, item: Seq<char>) -> Option<ValueView> {
    match s {
        Some(ValueView::List(l)) => Some(ValueView::List(l.push(item))),
        _ => Some(ValueView::List(seq![item])),
    }
}

/// Appending several elements, one call after another.
pub open spec fn append_all(s: Option<ValueView>, items: Seq<Seq<char>>) -> Option<ValueView>
    decreases items.len(),
{
    if items.len() == 0 {
        s
    } else {
        append_slot(append_all(s, items.drop_last()), items.last())
    }
}

/// `k` is the first setter with this name and action.
pub open spec fn first_setter(ss: Seq<Setter>, name: Seq<char>, a: SetterAction, k: int) -> bool {
    &&& 0 <= k < ss.len()
    &&& ss[k].name@ == name && ss[k].action == a
    &&& forall|j: int| 0 <= j < k ==> !((#[trigger] ss[j]).name@ == name && ss[j].action == a)
}

/// Some setter has this name and action.
pub open spec fn has_setter(ss: Seq<Setter>, name: Seq<char>, a: SetterAction) -> bool {
    exists|k: int| 0 <= k < ss.len() && (#[trigger] ss[k]).name@ == name && ss[k].action == a
}

/// Field `k` is required and unset.
pub open spec fn missing(p: BuilderPlan, slots: Seq<Option<Value>>, k: int) -> bool {
    !(p.fields@[k].kind is Optional) && slots[k] is None
}

/// `k` is the first required field that is unset.
pub open spec fn first_missing(p: BuilderPlan, slots: Seq<Option<Value>>, k: int) -> bool {
    &&& 0 <= k < p.fields.len()
    &&& missing(p, slots, k)
    &&& forall|j: int| 0 <= j < k ==> !#[trigger] missing(p, slots, j)
}

/// Every required field is set, so `build` succeeds.
pub open spec fn builds(p: BuilderPlan, slots: Seq<Option<Value>>) -> bool {
    forall|k: int| 0 <= k < p.fields.len() ==> !#[trigger] missing(p, slots, k)
}

/// A builder in use: one slot per field of its plan.
#[derive(Debug)]
pub struct BuilderState {
    pub slots: Vec<Option<Value>>,
}

impl BuilderPlan {
    /// A fresh builder.
    pub fn start(&self) -> (r: BuilderState)
        ensures
            r.slots.len() == self.fields.len(),
            forall|i: int| 0 <= i < self.fields.len() ==> slot_view(#[trigger] r.slots@[i]) == initial_slot(self.fields@[i].kind),
    {
        let mut slots: Vec<Option<Value>> = Vec::new();
        let mut i: usize = 0;
        while i < self.fields.len()
            invariant
                i <= self.fields.len(),
                slots.len() == i,
                forall|j: int| 0 <= j < i ==> slot_view(#[trigger] slots@[j]) == initial_slot(self.fields@[j].kind),
            decreases self.fields.len() - i,
        {
            match &self.fields[i].kind {
                FieldKind::Aggregated(_) => slots.push(Some(Value::List(Vec::new()))),
                _ => slots.push(None),
            }
            assert(texts(Seq::<String>::empty()) =~= Seq::<Seq<char>>::empty());
            i = i + 1;
        }
        BuilderState { slots }
    }
}

fn find_setter(ss: &Vec<Setter>, name: &str, a: SetterAction) -> (r: Option<usize>)
    ensures
        match r {
            Some(k) => first_setter(ss@, name@, a, k as int),
            None => !has_setter(ss@, name@, a),
        },
{
    let n = name.to_owned();
    let mut i: usize = 0;
    while i < ss.len()
        invariant
            n@ == name@,
            i <= ss.len(),
            forall|j: int| 0 <= j < i ==> !((#[trigger] ss@[j]).name@ == name@ && ss@[j].action == a),
        decreases ss.len() - i,
    {
        if ss[i].name == n && ss[i].action == a {
            return Some(i);
        }
        i = i + 1;
    }
    None
}

impl BuilderState {
    /// Calls the overwriting setter `name`: the slot of its field now holds `v`.
    pub fn assign(&mut self, p: &BuilderPlan, name: &str, v: Value) -> (r: Result<(), BuildError>)
        requires
            p.wf(),
            old(self).slots.len() == p.fields.len(),
        ensures
            final(self).slots.len() == old(self).slots.len(),
            r is Ok <==> has_setter(p.setters@, name@, SetterAction::Overwrite),
            r matches Err(e) ==> (e matches BuildError::UnknownSetter(n) && n@ == name@),
            r is Err ==> final(self).slots == old(self).slots,
            r is Ok ==> exists|k: int| first_setter(p.setters@, name@, SetterAction::Overwrite, k)
                && slots_view(final(self).slots@) == slots_view(old(self).slots@).update(
                    p.setters@[k].field as int, Some(v@)),
    {
        match find_setter(&p.setters, name, SetterAction::Overwrite) {
            Some(k) => {
                let f = p.setters[k].field;
                assert(p.setters@[k as int].field < p.fields.len());
                let ghost before = self.slots@;
                self.slots.set(f, Some(v));
                assert(slots_view(self.slots@) =~= slots_view(before).update(f as int, Some(v@)));
                Ok(())
            },
            None => Err(BuildError::UnknownSetter(name.to_owned())),
        }
    }

    /// Calls the appending setter `name`: the element is added at the end of
    /// the list in its field's slot, or starts a new list.
    pub fn append(&mut self, p: &BuilderPlan, name: &str, item: String) -> (r: Result<(), BuildError>)
        requires
            p.wf(),
            old(self).slots.len() == p.fields.len(),
        ensures
            final(self).slots.len() == old(self).slots.len(),
            r is Ok <==> has_setter(p.setters@, name@, SetterAction::Append),
            r matches Err(e) ==> (e matches BuildError::UnknownSetter(n) && n@ == name@),
            r is Err ==> final(self).slots == old(self).slots,
            r is Ok ==> exists|k: int| first_setter(p.setters@, name@, SetterAction::Append, k)
                && slots_view(final(self).slots@) == slots_view(old(self).slots@).update(
                    p.setters@[k].field as int,
                    append_slot(slot_view(old(self).slots@[p.setters@[k].field as int]), item@),
                ),
    {
        match find_setter(&p.setters, name, SetterAction::Append) {
            Some(k) => {
                let f = p.setters[k].field;
                assert(p.setters@[k as int].field < p.fields.len());
                let ghost before = self.slots@;
                let ghost item_view = item@;
                let next = match &self.slots[f] {
                    Some(Value::List(l)) => {
                        let mut c = copy_texts(l);
                        let ghost cb = c@;
                        c.push(item);
                        assert(texts(c@) =~= texts(cb).push(item_view));
                        Value::List(c)
                    },
                    _ => {
                        let mut c: Vec<String> = Vec::new();
                        c.push(item);
                        assert(texts(c@) =~= seq![item_view]);
                        Value::List(c)
                    },
                };
                assert(Some(next@) == append_slot(slot_view(before[f as int]), item_view));
                self.slots.set(f, Some(next));
                assert(slots_view(self.slots@) =~= slots_view(before).update(
                    f as int, append_slot(slot_view(before[f as int]), item_view)));
                Ok(())
            },
            None => Err(BuildError::UnknownSetter(name.to_owned())),
        }
    }

    /// Builds the record: fields in declaration order, optional ones as they
    /// are, the others only when set. The first unset required field stops
    /// the build and is named in the error; the builder is left as it was.
    pub fn build(&self, p: &BuilderPlan) -> (r: Result<Vec<Option<Value>>, BuildError>)
        requires
            self.slots.len() == p.fields.len(),
        ensures
            r is Ok <==> builds(*p, self.slots@),
            r matches Ok(v) ==> slots_view(v@) == slots_view(self.slots@),
            r matches Err(e) ==> (e matches BuildError::MissingField(n)
                && exists|k: int| #[trigger] first_missing(*p, self.slots@, k) && n@ == p.fields@[k].name@),
    {
        let mut out: Vec<Option<Value>> = Vec::new();
        let mut i: usize = 0;
        while i < self.slots.len()
            invariant
                self.slots.len() == p.fields.len(),
                i <= self.slots.len(),
                out.len() == i,
                forall|j: int| 0 <= j < i ==> !#[trigger] missing(*p, self.slots@, j),
                forall|j: int| 0 <= j < i ==> slot_view(#[trigger] out@[j]) == slot_view(self.slots@[j]),
            decreases self.slots.len() - i,
        {
            let required = match p.fields[i].kind {
                FieldKind::Optional => false,
                _ => true,
            };
            if required && self.slots[i].is_none() {
                assert(first_missing(*p, self.slots@, i as int));
                return Err(BuildError::MissingField(p.fields[i].name.clone()));
            }
            out.push(copy_slot(&self.slots[i]));
            i = i + 1;
        }
        assert(slots_view(out@) =~= slots_view(self.slots@));
        Ok(out)
    }
}

/// Appending elements one call after another, starting from the empty list
/// that a fresh builder holds, gives exactly those elements in call order.
pub proof fn appends_accumulate(items: Seq<Seq<char>>)
    ensures
        append_all(Some(ValueView::List(seq![])), items) == Some(ValueView::List(items)),
    decreases items.len(),
{
    if items.len() > 0 {
        appends_accumulate(items.drop_last());
        assert(items.drop_last().push(items.last()) =~= items);
    } else {
        assert(items =~= seq![]);
    }
}

/// Optional fields never stop a build: once every other field is set, the
/// build succeeds whatever the optional fields hold.
pub proof fn optional_fields_never_block(p: BuilderPlan, slots: Seq<Option<Value>>)
    requires
        slots.len() == p.fields.len(),
        forall|k: int| 0 <= k < p.fields.len() && !(#[trigger] p.fields@[k].kind is Optional) ==> slots[k] is Some,
    ensures
        builds(p, slots),
{
    assert forall|k: int| 0 <= k < p.fields.len() implies !#[trigger] missing(p, slots, k) by {
        if !(p.fields@[k].kind is Optional) {
            assert(slots[k] is Some);
        }
    }
}

} // verus!
