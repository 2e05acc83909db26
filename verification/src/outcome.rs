//! The tree of validation failures and its mathematical model.
//!
//! A [`ValidationResult`] maps field names to [`FieldOutcome`]s and keeps the
//! order in which the fields were inserted, so that everything derived from it
//! is deterministic. Its view is a [`Tree`]: sequences all the way down.

use vstd::prelude::*;
use vstd::string::*;

verus! {

/// One violated rule on one field: a machine-readable code, an optional
/// message for people, and the parameters of the rule as text.
#[derive(Debug, Clone, PartialEq, Eq)]
pub struct LeafError {
    pub code: String,
    pub message: Option<String>,
    pub params: Vec<(String, String)>,
}

/// What validation found for one field.
#[derive(Debug, PartialEq, Eq)]
pub enum FieldOutcome {
    /// Violations of the field's own rules, in the order they were found.
    Leaf(Vec<LeafError>),
    /// Failures inside the elements of a sequence-valued field.
    List(IndexedResults),
    /// Failures inside an embedded structure.
    Nested(Box<ValidationResult>),
}

/// The failures of one element of a sequence-valued field.
#[derive(Debug, PartialEq, Eq)]
struct Indexed {
    index: usize,
    result: ValidationResult,
}

/// Per-element results of a sequence-valued field, kept in strictly ascending
/// order of index whatever the order of insertion. Indices need not be
/// contiguous, and no index occurs twice.
#[derive(Debug, PartialEq, Eq)]
pub struct IndexedResults {
    items: Vec<Indexed>,
    levels: u16,
}

/// One field of a [`ValidationResult`].
#[derive(Debug, PartialEq, Eq)]
struct FieldEntry {
    name: String,
    outcome: FieldOutcome,
}

/// Field names with what validation found for each, in insertion order.
/// No name occurs twice. A result without fields means "no errors".
#[derive(Debug, PartialEq, Eq)]
pub struct ValidationResult {
    fields: Vec<FieldEntry>,
    levels: u16,
}

/// Why [`ValidationResult::insert`] refused a field.
#[derive(Debug, Clone, Copy, PartialEq, Eq, Structural)]
pub enum Refusal {
    /// The result already has a field of that name.
    DuplicateName,
    /// The outcome nests deeper than a `u16` depth can count.
    TooDeep,
}

/// A refused insertion: the reason, and the arguments handed back.
#[derive(Debug, PartialEq, Eq)]
pub struct Refused {
    pub reason: Refusal,
    pub name: String,
    pub outcome: FieldOutcome,
}

/// Model of a [`FieldOutcome`].
pub enum Outcome {
    Leaf(Seq<LeafError>),
    List(Seq<(nat, Tree)>),
    Nested(Tree),
}

/// Model of a [`ValidationResult`]: its fields in order.
pub struct Tree {
    pub fields: Seq<(Seq<char>, Outcome)>,
}

/// The larger of two numbers.
pub open spec fn larger(a: nat, b: nat) -> nat {
    if a >= b {
        a
    } else {
        b
    }
}

/// Nesting levels below a sequence of fields: 0 when every field is a leaf.
pub open spec fn fields_height(fields: Seq<(Seq<char>, Outcome)>) -> nat
    decreases fields,
{
    if fields.len() == 0 {
        0
    } else {
        larger(fields_height(fields.drop_last()), outcome_height(fields.last().1))
    }
}

/// Nesting levels below one field: 0 for a leaf, and one more than what it
/// holds for a list or a nested structure.
pub open spec fn outcome_height(outcome: Outcome) -> nat
    decreases outcome,
{
    match outcome {
        Outcome::Leaf(_) => 0,
        Outcome::List(items) => 1 + items_height(items),
        Outcome::Nested(tree) => 1 + fields_height(tree.fields),
    }
}

/// Nesting levels below the elements of a list.
pub open spec fn items_height(items: Seq<(nat, Tree)>) -> nat
    decreases items,
{
    if items.len() == 0 {
        0
    } else {
        larger(items_height(items.drop_last()), fields_height(items.last().1.fields))
    }
}

/// Whether one of the fields is called `name`.
pub open spec fn has_name(fields: Seq<(Seq<char>, Outcome)>, name: Seq<char>) -> bool {
    exists|i: int| 0 <= i < fields.len() && (#[trigger] fields[i]).0 == name
}

/// No two fields have the same name.
pub open spec fn names_distinct(fields: Seq<(Seq<char>, Outcome)>) -> bool {
    forall|i: int, j: int|
        0 <= i < j < fields.len() ==> (#[trigger] fields[i]).0 != (#[trigger] fields[j]).0
}

/// Every element has a larger index than the elements before it.
pub open spec fn ascending(items: Seq<(nat, Tree)>) -> bool {
    forall|i: int, j: int|
        0 <= i < j < items.len() ==> (#[trigger] items[i]).0 < (#[trigger] items[j]).0
}

/// Whether one of the elements stands at `index`.
pub open spec fn has_index(items: Seq<(nat, Tree)>, index: nat) -> bool {
    exists|k: int| 0 <= k < items.len() && (#[trigger] items[k]).0 == index
}

/// How many of the elements stand at an index below `index`. In an ascending
/// list this is the position at which `index` stands or belongs.
pub open spec fn rank(items: Seq<(nat, Tree)>, index: nat) -> nat
    decreases items.len(),
{
    if items.len() == 0 {
        0
    } else {
        rank(items.drop_last(), index) + if items.last().0 < index {
            1nat
        } else {
            0nat
        }
    }
}

/// The list with `tree` at `index`: in the place of the element that stood
/// there, or else between the elements with smaller and with larger indices.
pub open spec fn with_item(items: Seq<(nat, Tree)>, index: nat, tree: Tree) -> Seq<(nat, Tree)> {
    let at = rank(items, index) as int;
    if has_index(items, index) {
        items.update(at, (index, tree))
    } else {
        items.insert(at, (index, tree))
    }
}

/// In an ascending list the position behind all smaller indices is the rank.
proof fn lemma_rank(items: Seq<(nat, Tree)>, index: nat, at: int)
    requires
        ascending(items),
        0 <= at <= items.len(),
        forall|j: int| 0 <= j < at ==> (#[trigger] items[j]).0 < index,
        at < items.len() ==> items[at].0 >= index,
    ensures
        rank(items, index) == at,
        has_index(items, index) <==> (at < items.len() && items[at].0 == index),
    decreases items.len(),
{
    if items.len() > 0 {
        let shorter = items.drop_last();
        if at == items.len() {
            lemma_rank(shorter, index, at - 1);
        } else {
            lemma_rank(shorter, index, at);
        }
    }
    if has_index(items, index) {
        let k = choose|k: int| 0 <= k < items.len() && (#[trigger] items[k]).0 == index;
        assert(k >= at);
        if k > at {
            assert(items[at].0 < items[k].0);
        }
    }
}

/// A field is never higher than the sequence it stands in.
pub proof fn lemma_field_height(fields: Seq<(Seq<char>, Outcome)>, i: int)
    requires
        0 <= i < fields.len(),
    ensures
        outcome_height(fields[i].1) <= fields_height(fields),
    decreases fields.len(),
{
    if i < fields.len() - 1 {
        lemma_field_height(fields.drop_last(), i);
    }
}

/// An element is never higher than the list it stands in.
pub proof fn lemma_item_height(items: Seq<(nat, Tree)>, i: int)
    requires
        0 <= i < items.len(),
    ensures
        fields_height(items[i].1.fields) <= items_height(items),
    decreases items.len(),
{
    if i < items.len() - 1 {
        lemma_item_height(items.drop_last(), i);
    }
}

spec fn view_entry(entry: FieldEntry) -> (Seq<char>, Outcome)
    decreases entry,
{
    (entry.name@, entry.outcome.view())
}

spec fn view_fields(fields: Seq<FieldEntry>) -> Seq<(Seq<char>, Outcome)>
    decreases fields,
{
    Seq::new(
        fields.len(),
        |i: int|
            if 0 <= i < fields.len() {
                view_entry(fields[i])
            } else {
                arbitrary()
            },
    )
}

spec fn view_item(item: Indexed) -> (nat, Tree)
    decreases item,
{
    (item.index as nat, item.result.view())
}

spec fn view_items(items: Seq<Indexed>) -> Seq<(nat, Tree)>
    decreases items,
{
    Seq::new(
        items.len(),
        |i: int|
            if 0 <= i < items.len() {
                view_item(items[i])
            } else {
                arbitrary()
            },
    )
}

impl FieldOutcome {
    /// The model of an outcome: the same shape over sequences.
    pub open spec fn view(&self) -> Outcome
        decreases self,
    {
        match self {
            FieldOutcome::Leaf(errors) => Outcome::Leaf(errors@),
            FieldOutcome::List(items) => Outcome::List(items.view()),
            FieldOutcome::Nested(sub) => Outcome::Nested(sub.view()),
        }
    }
}

impl LeafError {
    /// A violation with the given code, no message and no parameters.
    pub fn new(code: &str) -> (e: LeafError)
        ensures
            e.code@ == code@,
            e.message is None,
            e.params@.len() == 0,
    {
        LeafError { code: String::from_str(code), message: None, params: Vec::new() }
    }

    /// The same violation with a message for people.
    pub fn with_message(self, message: &str) -> (e: LeafError)
        ensures
            e.code == self.code,
            e.params == self.params,
            e.message matches Some(m) && m@ == message@,
    {
        LeafError { code: self.code, message: Some(String::from_str(message)), params: self.params }
    }

    /// Records one parameter of the violated rule, after those already there.
    pub fn add_param(&mut self, name: &str, value: &str)
        ensures
            final(self).code == old(self).code,
            final(self).message == old(self).message,
            final(self).params@.len() == old(self).params@.len() + 1,
            final(self).params@.drop_last() == old(self).params@,
            final(self).params@.last().0@ == name@,
            final(self).params@.last().1@ == value@,
    {
        self.params.push((String::from_str(name), String::from_str(value)));
    }
}

impl FieldOutcome {
    /// Nesting levels below this outcome.
    pub fn levels(&self) -> (h: u32)
        ensures
            h == outcome_height(self@),
    {
        match self {
            FieldOutcome::Leaf(_) => 0,
            FieldOutcome::List(items) => {
                let below: u16 = items.levels();
                below as u32 + 1
            },
            FieldOutcome::Nested(sub) => {
                let below: u16 = sub.levels();
                below as u32 + 1
            },
        }
    }
}

/// The nesting below the highest of the elements.
fn highest(items: &Vec<Indexed>) -> (h: u16)
    ensures
        h == items_height(view_items(items@)),
{
    let ghost all = view_items(items@);
    let mut h: u16 = 0;
    let mut i: usize = 0;
    while i < items.len()
        invariant
            i <= items.len(),
            all == view_items(items@),
            h == items_height(all.take(i as int)),
        decreases items.len() - i,
    {
        let below: u16 = items[i].result.levels();
        proof {
            assert(all.take(i + 1).drop_last() =~= all.take(i as int));
            assert(all.take(i + 1).last() == all[i as int]);
        }
        if below > h {
            h = below;
        }
        i += 1;
    }
    assert(all.take(i as int) =~= all);
    h
}

impl IndexedResults {
    /// The model of a list: its elements in order, each with its index.
    pub closed spec fn view(&self) -> Seq<(nat, Tree)>
        decreases self,
    {
        view_items(self.items@)
    }

    #[verifier::type_invariant]
    spec fn inv(self) -> bool {
        &&& ascending(self@)
        &&& self.levels == items_height(self@)
    }

    /// A list without elements.
    pub fn new() -> (r: IndexedResults)
        ensures
            r@.len() == 0,
    {
        IndexedResults { items: Vec::new(), levels: 0 }
    }

    /// The number of elements that have a result.
    pub fn len(&self) -> (n: usize)
        ensures
            n == self@.len(),
            ascending(self@),
    {
        proof {
            use_type_invariant(self);
        }
        self.items.len()
    }

    /// Nesting levels below the list's elements.
    pub fn levels(&self) -> (h: u16)
        ensures
            h == items_height(self@),
    {
        proof {
            use_type_invariant(self);
        }
        self.levels
    }

    /// The `i`-th element in ascending order of index, with its index.
    pub fn item_at(&self, i: usize) -> (r: Option<(usize, &ValidationResult)>)
        ensures
            r is Some <==> i < self@.len(),
            r matches Some(item) ==> self@[i as int] == (item.0 as nat, item.1@),
    {
        if i < self.items.len() {
            let item = &self.items[i];
            Some((item.index, &item.result))
        } else {
            None
        }
    }

    /// Puts the result of the element at `index` into the list, wherever the
    /// index falls. A result that stood at the index is replaced and handed
    /// back.
    pub fn insert(&mut self, index: usize, result: ValidationResult) -> (previous: Option<
        ValidationResult,
    >)
        ensures
            final(self)@ == with_item(old(self)@, index as nat, result@),
            previous is Some <==> has_index(old(self)@, index as nat),
            previous matches Some(replaced) ==> replaced@ == old(self)@[rank(
                old(self)@,
                index as nat,
            ) as int].1,
    {
        proof {
            use_type_invariant(&*self);
        }
        let ghost before = self@;
        let ghost added = (index as nat, result@);
        let mut at: usize = 0;
        while at < self.items.len() && self.items[at].index < index
            invariant
                at <= self.items.len(),
                before == self@,
                forall|j: int| 0 <= j < at ==> (#[trigger] before[j]).0 < index,
            decreases self.items.len() - at,
        {
            at += 1;
        }
        proof {
            lemma_rank(before, index as nat, at as int);
        }
        let mut taken = IndexedResults::new();
        core::mem::swap(self, &mut taken);
        let IndexedResults { mut items, levels: _ } = taken;
        let previous = if at < items.len() && items[at].index == index {
            let replaced = items.remove(at);
            Some(replaced.result)
        } else {
            None
        };
        items.insert(at, Indexed { index, result });
        let levels = highest(&items);
        proof {
            assert(view_items(items@) =~= with_item(before, index as nat, added.1));
        }
        *self = IndexedResults { items, levels };
        previous
    }

    /// Appends the result of the element at `index`, which must lie behind
    /// every index already present; otherwise hands the result back.
    pub fn push(&mut self, index: usize, result: ValidationResult) -> (r: Result<
        (),
        ValidationResult,
    >)
        ensures
            r is Ok <==> (old(self)@.len() == 0 || old(self)@.last().0 < index),
            r is Ok ==> final(self)@ == old(self)@.push((index as nat, result@)),
            r matches Err(back) ==> final(self)@ == old(self)@ && back == result,
    {
        proof {
            use_type_invariant(&*self);
        }
        let n = self.items.len();
        if n > 0 && self.items[n - 1].index >= index {
            return Err(result);
        }
        let below: u16 = result.levels();
        let ghost before = self@;
        let ghost added = (index as nat, result@);
        let mut taken = IndexedResults::new();
        core::mem::swap(self, &mut taken);
        let IndexedResults { mut items, levels } = taken;
        items.push(Indexed { index, result });
        let levels = if below > levels {
            below
        } else {
            levels
        };
        proof {
            assert(view_items(items@) =~= before.push(added));
            assert(before.push(added).drop_last() =~= before);
        }
        *self = IndexedResults { items, levels };
        Ok(())
    }
}

impl ValidationResult {
    /// The model of a result: its fields in insertion order.
    pub closed spec fn view(&self) -> Tree
        decreases self,
    {
        Tree { fields: view_fields(self.fields@) }
    }

    #[verifier::type_invariant]
    spec fn inv(self) -> bool {
        &&& names_distinct(self@.fields)
        &&& self.levels == fields_height(self@.fields)
    }

    /// A result without fields.
    pub fn new() -> (r: ValidationResult)
        ensures
            r@.fields.len() == 0,
    {
        ValidationResult { fields: Vec::new(), levels: 0 }
    }

    /// The number of fields.
    pub fn len(&self) -> (n: usize)
        ensures
            n == self@.fields.len(),
            names_distinct(self@.fields),
    {
        proof {
            use_type_invariant(self);
        }
        self.fields.len()
    }

    /// Whether validation found nothing.
    pub fn is_empty(&self) -> (b: bool)
        ensures
            b == (self@.fields.len() == 0),
    {
        self.fields.len() == 0
    }

    /// Nesting levels below the top-level fields.
    pub fn levels(&self) -> (h: u16)
        ensures
            h == fields_height(self@.fields),
    {
        proof {
            use_type_invariant(self);
        }
        self.levels
    }

    /// The `i`-th field in insertion order: its name and its outcome.
    pub fn field_at(&self, i: usize) -> (r: Option<(&str, &FieldOutcome)>)
        ensures
            r is Some <==> i < self@.fields.len(),
            r matches Some(field) ==> self@.fields[i as int] == (field.0@, field.1@),
    {
        if i < self.fields.len() {
            let entry = &self.fields[i];
            Some((entry.name.as_str(), &entry.outcome))
        } else {
            None
        }
    }

    fn position(&self, name: &String) -> (r: Option<usize>)
        ensures
            r is Some <==> has_name(self@.fields, name@),
            r matches Some(i) ==> i < self@.fields.len() && self@.fields[i as int].0 == name@,
    {
        let mut i: usize = 0;
        while i < self.fields.len()
            invariant
                i <= self.fields.len(),
                forall|k: int| 0 <= k < i ==> (#[trigger] self@.fields[k]).0 != name@,
            decreases self.fields.len() - i,
        {
            if self.fields[i].name == *name {
                assert(self@.fields[i as int].0 == name@);
                return Some(i);
            }
            i += 1;
        }
        None
    }

    /// The outcome of the field called `name`, if there is one.
    pub fn get(&self, name: &str) -> (r: Option<&FieldOutcome>)
        ensures
            r is Some <==> has_name(self@.fields, name@),
            r matches Some(outcome) ==> exists|i: int|
                0 <= i < self@.fields.len() && #[trigger] self@.fields[i] == (name@, outcome@),
    {
        let key = String::from_str(name);
        match self.position(&key) {
            Some(i) => Some(&self.fields[i].outcome),
            None => None,
        }
    }

    /// Adds a field behind those already there. A second field of the same
    /// name, or an outcome that would nest deeper than `u16::MAX` levels, is
    /// refused and handed back.
    pub fn insert(&mut self, name: String, outcome: FieldOutcome) -> (r: Result<(), Refused>)
        ensures
            r is Ok <==> !has_name(old(self)@.fields, name@) && outcome_height(outcome@)
                <= u16::MAX,
            r is Ok ==> final(self)@.fields == old(self)@.fields.push((name@, outcome@)),
            r matches Err(refused) ==> {
                &&& final(self)@ == old(self)@
                &&& refused.name == name
                &&& refused.outcome == outcome
                &&& refused.reason == if has_name(old(self)@.fields, name@) {
                    Refusal::DuplicateName
                } else {
                    Refusal::TooDeep
                }
            },
    {
        proof {
            use_type_invariant(&*self);
        }
        if self.position(&name).is_some() {
            return Err(Refused { reason: Refusal::DuplicateName, name, outcome });
        }
        let needed: u32 = outcome.levels();
        if needed > u16::MAX as u32 {
            return Err(Refused { reason: Refusal::TooDeep, name, outcome });
        }
        let ghost before = self@.fields;
        let ghost added = (name@, outcome@);
        let mut taken = ValidationResult::new();
        core::mem::swap(self, &mut taken);
        let ValidationResult { mut fields, levels } = taken;
        fields.push(FieldEntry { name, outcome });
        let levels = if needed > levels as u32 {
            needed as u16
        } else {
            levels
        };
        proof {
            assert(view_fields(fields@) =~= before.push(added));
            assert(before.push(added).drop_last() =~= before);
        }
        *self = ValidationResult { fields, levels };
        Ok(())
    }
}

} // verus!
