//! Flattening: the tree of failures as one sequence of path-qualified
//! entries, depth first, every level in field order.

use crate::decimal::{decimal, decimal_text};
use crate::outcome::{
    fields_height, items_height, lemma_field_height, lemma_item_height, FieldOutcome,
    IndexedResults, LeafError, Outcome, Tree, ValidationResult,
};
use vstd::prelude::*;
use vstd::string::*;

verus! {

/// Model of one flattened entry: how deep the field lies (0 at the top), the
/// path that leads to it, and the violation.
pub struct Flat {
    pub depth: nat,
    pub path: Seq<char>,
    pub error: LeafError,
}

/// The path of the field `name` under `prefix`: segments are joined by a dot.
pub open spec fn field_path(prefix: Option<Seq<char>>, name: Seq<char>) -> Seq<char> {
    match prefix {
        None => name,
        Some(path) => path + seq!['.'] + name,
    }
}

/// The path of element `index` of the sequence-valued field at `path`: the
/// index follows in brackets, without a dot.
pub open spec fn item_path(path: Seq<char>, index: nat) -> Seq<char> {
    path + seq!['['] + decimal(index) + seq![']']
}

/// One entry per violation of a leaf, in the leaf's own order.
pub open spec fn flat_leaf(errors: Seq<LeafError>, path: Seq<char>, depth: nat) -> Seq<Flat> {
    Seq::new(errors.len(), |i: int| Flat { depth, path, error: errors[i] })
}

/// The entries of a sequence of fields that stand under `prefix` at `depth`.
pub open spec fn flat_fields(
    fields: Seq<(Seq<char>, Outcome)>,
    prefix: Option<Seq<char>>,
    depth: nat,
) -> Seq<Flat>
    decreases fields,
{
    if fields.len() == 0 {
        Seq::empty()
    } else {
        flat_fields(fields.drop_last(), prefix, depth) + flat_outcome(
            fields.last().1,
            field_path(prefix, fields.last().0),
            depth,
        )
    }
}

/// The entries of one field at `path`. A leaf contributes its violations;
/// a nested structure and a list contribute what lies below them, one level
/// deeper, and nothing of their own.
pub open spec fn flat_outcome(outcome: Outcome, path: Seq<char>, depth: nat) -> Seq<Flat>
    decreases outcome,
{
    match outcome {
        Outcome::Leaf(errors) => flat_leaf(errors, path, depth),
        Outcome::List(items) => flat_items(items, path, depth + 1),
        Outcome::Nested(tree) => flat_fields(tree.fields, Some(path), depth + 1),
    }
}

/// The entries of the elements of the list at `path`, in index order.
pub open spec fn flat_items(items: Seq<(nat, Tree)>, path: Seq<char>, depth: nat) -> Seq<Flat>
    decreases items,
{
    if items.len() == 0 {
        Seq::empty()
    } else {
        flat_items(items.drop_last(), path, depth) + flat_fields(
            items.last().1.fields,
            Some(item_path(path, items.last().0)),
            depth,
        )
    }
}

/// The flattening of a whole tree.
pub open spec fn flat(tree: Tree) -> Seq<Flat> {
    flat_fields(tree.fields, None, 0)
}

/// The number of violations in a sequence of fields, at every level below.
pub open spec fn count_fields(fields: Seq<(Seq<char>, Outcome)>) -> nat
    decreases fields,
{
    if fields.len() == 0 {
        0
    } else {
        count_fields(fields.drop_last()) + count_outcome(fields.last().1)
    }
}

/// The number of violations in one field. Lists and nested structures count
/// only through what they hold.
pub open spec fn count_outcome(outcome: Outcome) -> nat
    decreases outcome,
{
    match outcome {
        Outcome::Leaf(errors) => errors.len(),
        Outcome::List(items) => count_items(items),
        Outcome::Nested(tree) => count_fields(tree.fields),
    }
}

pub open spec fn count_items(items: Seq<(nat, Tree)>) -> nat
    decreases items,
{
    if items.len() == 0 {
        0
    } else {
        count_items(items.drop_last()) + count_fields(items.last().1.fields)
    }
}

/// The number of violations that a tree holds.
pub open spec fn leaf_count(tree: Tree) -> nat {
    count_fields(tree.fields)
}

/// Fields flatten to as many entries as they hold violations, whatever the
/// path and the depth they stand at.
pub proof fn flat_fields_counts_leaves(
    fields: Seq<(Seq<char>, Outcome)>,
    prefix: Option<Seq<char>>,
    depth: nat,
)
    ensures
        flat_fields(fields, prefix, depth).len() == count_fields(fields),
    decreases fields,
{
    if fields.len() > 0 {
        flat_fields_counts_leaves(fields.drop_last(), prefix, depth);
        flat_outcome_counts_leaves(fields.last().1, field_path(prefix, fields.last().0), depth);
    }
}

/// One field flattens to as many entries as it holds violations.
pub proof fn flat_outcome_counts_leaves(outcome: Outcome, path: Seq<char>, depth: nat)
    ensures
        flat_outcome(outcome, path, depth).len() == count_outcome(outcome),
    decreases outcome,
{
    match outcome {
        Outcome::Leaf(errors) => {},
        Outcome::List(items) => flat_items_counts_leaves(items, path, depth + 1),
        Outcome::Nested(tree) => flat_fields_counts_leaves(tree.fields, Some(path), depth + 1),
    }
}

/// A list flattens to as many entries as its elements hold violations.
pub proof fn flat_items_counts_leaves(items: Seq<(nat, Tree)>, path: Seq<char>, depth: nat)
    ensures
        flat_items(items, path, depth).len() == count_items(items),
    decreases items,
{
    if items.len() > 0 {
        flat_items_counts_leaves(items.drop_last(), path, depth);
        flat_fields_counts_leaves(
            items.last().1.fields,
            Some(item_path(path, items.last().0)),
            depth,
        );
    }
}

/// Flattening neither loses nor invents a violation: a tree gives exactly
/// as many entries as it holds violations in its leaves.
pub proof fn flat_counts_leaves(tree: Tree)
    ensures
        flat(tree).len() == leaf_count(tree),
{
    flat_fields_counts_leaves(tree.fields, None, 0);
}

/// A tree without violations, whether it has no fields or only fields with
/// nothing in them, flattens to nothing.
pub proof fn flat_of_no_errors(tree: Tree)
    requires
        leaf_count(tree) == 0,
    ensures
        flat(tree) == Seq::<Flat>::empty(),
{
    flat_counts_leaves(tree);
    assert(flat(tree) =~= Seq::<Flat>::empty());
}

/// The entries of the first `i` fields open the entries of all of them.
pub proof fn flat_fields_prefix(
    fields: Seq<(Seq<char>, Outcome)>,
    prefix: Option<Seq<char>>,
    depth: nat,
    i: int,
)
    requires
        0 <= i <= fields.len(),
    ensures
        flat_fields(fields.take(i), prefix, depth).len() <= flat_fields(
            fields,
            prefix,
            depth,
        ).len(),
        flat_fields(fields, prefix, depth).take(
            flat_fields(fields.take(i), prefix, depth).len() as int,
        ) == flat_fields(fields.take(i), prefix, depth),
    decreases fields.len(),
{
    let all = flat_fields(fields, prefix, depth);
    if i == fields.len() {
        assert(fields.take(i) =~= fields);
        assert(all.take(all.len() as int) =~= all);
    } else {
        flat_fields_prefix(fields.drop_last(), prefix, depth, i);
        assert(fields.drop_last().take(i) =~= fields.take(i));
        let head = flat_fields(fields.drop_last(), prefix, depth);
        let first = flat_fields(fields.take(i), prefix, depth);
        assert(all.take(first.len() as int) =~= head.take(first.len() as int));
    }
}

/// The entries of field `i` stand together in the flattening of its level,
/// right behind the entries of the fields before it.
pub proof fn flat_keeps_field_block(
    fields: Seq<(Seq<char>, Outcome)>,
    prefix: Option<Seq<char>>,
    depth: nat,
    i: int,
)
    requires
        0 <= i < fields.len(),
    ensures
        ({
            let all = flat_fields(fields, prefix, depth);
            let start = flat_fields(fields.take(i), prefix, depth).len() as int;
            let block = flat_outcome(fields[i].1, field_path(prefix, fields[i].0), depth);
            start + block.len() <= all.len() && all.subrange(start, start + block.len()) == block
        }),
{
    let all = flat_fields(fields, prefix, depth);
    let upto = flat_fields(fields.take(i + 1), prefix, depth);
    let before = flat_fields(fields.take(i), prefix, depth);
    let block = flat_outcome(fields[i].1, field_path(prefix, fields[i].0), depth);
    flat_fields_prefix(fields, prefix, depth, i + 1);
    assert(fields.take(i + 1).drop_last() =~= fields.take(i));
    assert(fields.take(i + 1).last() == fields[i]);
    assert(upto == before + block);
    let start = before.len() as int;
    assert(all.subrange(start, start + block.len()) =~= all.take(upto.len() as int).subrange(
        start,
        start + block.len(),
    ));
    assert(upto.subrange(start, start + block.len()) =~= block);
}

/// The entries of the first `k` elements open the entries of the whole list.
pub proof fn flat_items_prefix(items: Seq<(nat, Tree)>, path: Seq<char>, depth: nat, k: int)
    requires
        0 <= k <= items.len(),
    ensures
        flat_items(items.take(k), path, depth).len() <= flat_items(items, path, depth).len(),
        flat_items(items, path, depth).take(flat_items(items.take(k), path, depth).len() as int)
            == flat_items(items.take(k), path, depth),
    decreases items.len(),
{
    let all = flat_items(items, path, depth);
    if k == items.len() {
        assert(items.take(k) =~= items);
        assert(all.take(all.len() as int) =~= all);
    } else {
        flat_items_prefix(items.drop_last(), path, depth, k);
        assert(items.drop_last().take(k) =~= items.take(k));
        let head = flat_items(items.drop_last(), path, depth);
        let first = flat_items(items.take(k), path, depth);
        assert(all.take(first.len() as int) =~= head.take(first.len() as int));
    }
}

/// The entries of element `k` stand together in the flattening of its list,
/// right behind the entries of the elements with smaller positions.
pub proof fn flat_keeps_item_block(items: Seq<(nat, Tree)>, path: Seq<char>, depth: nat, k: int)
    requires
        0 <= k < items.len(),
    ensures
        ({
            let all = flat_items(items, path, depth);
            let start = flat_items(items.take(k), path, depth).len() as int;
            let block = flat_fields(items[k].1.fields, Some(item_path(path, items[k].0)), depth);
            start + block.len() <= all.len() && all.subrange(start, start + block.len()) == block
        }),
{
    let all = flat_items(items, path, depth);
    let upto = flat_items(items.take(k + 1), path, depth);
    let before = flat_items(items.take(k), path, depth);
    let block = flat_fields(items[k].1.fields, Some(item_path(path, items[k].0)), depth);
    flat_items_prefix(items, path, depth, k + 1);
    assert(items.take(k + 1).drop_last() =~= items.take(k));
    assert(items.take(k + 1).last() == items[k]);
    assert(upto == before + block);
    let start = before.len() as int;
    assert(all.subrange(start, start + block.len()) =~= all.take(upto.len() as int).subrange(
        start,
        start + block.len(),
    ));
    assert(upto.subrange(start, start + block.len()) =~= block);
}

/// The violations of a leaf come out in the order they stand in, one entry
/// each, all with the leaf's path and depth: wherever field `i` of a level is
/// a leaf, its `k`-th violation is the `k`-th entry behind those of the
/// fields before it.
pub proof fn flat_keeps_leaf_order(
    fields: Seq<(Seq<char>, Outcome)>,
    prefix: Option<Seq<char>>,
    depth: nat,
    i: int,
)
    requires
        0 <= i < fields.len(),
        fields[i].1 is Leaf,
    ensures
        ({
            let all = flat_fields(fields, prefix, depth);
            let start = flat_fields(fields.take(i), prefix, depth).len() as int;
            let errors = fields[i].1->Leaf_0;
            &&& start + errors.len() <= all.len()
            &&& forall|k: int|
                0 <= k < errors.len() ==> #[trigger] all[start + k] == (Flat {
                    depth,
                    path: field_path(prefix, fields[i].0),
                    error: errors[k],
                })
        }),
{
    flat_keeps_field_block(fields, prefix, depth, i);
    let all = flat_fields(fields, prefix, depth);
    let start = flat_fields(fields.take(i), prefix, depth).len() as int;
    let errors = fields[i].1->Leaf_0;
    let block = flat_leaf(errors, field_path(prefix, fields[i].0), depth);
    assert forall|k: int| 0 <= k < errors.len() implies #[trigger] all[start + k] == (Flat {
        depth,
        path: field_path(prefix, fields[i].0),
        error: errors[k],
    }) by {
        assert(all.subrange(start, start + block.len())[k] == block[k]);
    }
}

/// Whether a leaf that holds `errors` stands at `path` and `at` levels deep
/// among these fields or anywhere below them.
pub open spec fn fields_hold_leaf(
    fields: Seq<(Seq<char>, Outcome)>,
    prefix: Option<Seq<char>>,
    depth: nat,
    errors: Seq<LeafError>,
    path: Seq<char>,
    at: nat,
) -> bool
    decreases fields,
{
    fields.len() > 0 && (fields_hold_leaf(fields.drop_last(), prefix, depth, errors, path, at)
        || outcome_holds_leaf(
        fields.last().1,
        field_path(prefix, fields.last().0),
        depth,
        errors,
        path,
        at,
    ))
}

/// Whether the field at `here` is, or holds below it, a leaf with `errors`
/// at `path` and `at` levels deep.
pub open spec fn outcome_holds_leaf(
    outcome: Outcome,
    here: Seq<char>,
    depth: nat,
    errors: Seq<LeafError>,
    path: Seq<char>,
    at: nat,
) -> bool
    decreases outcome,
{
    match outcome {
        Outcome::Leaf(found) => found == errors && here == path && depth == at,
        Outcome::List(items) => items_hold_leaf(items, here, depth + 1, errors, path, at),
        Outcome::Nested(tree) => fields_hold_leaf(
            tree.fields,
            Some(here),
            depth + 1,
            errors,
            path,
            at,
        ),
    }
}

/// Whether one of the elements of the list at `here` holds a leaf with
/// `errors` at `path` and `at` levels deep.
pub open spec fn items_hold_leaf(
    items: Seq<(nat, Tree)>,
    here: Seq<char>,
    depth: nat,
    errors: Seq<LeafError>,
    path: Seq<char>,
    at: nat,
) -> bool
    decreases items,
{
    items.len() > 0 && (items_hold_leaf(items.drop_last(), here, depth, errors, path, at)
        || fields_hold_leaf(
        items.last().1.fields,
        Some(item_path(here, items.last().0)),
        depth,
        errors,
        path,
        at,
    ))
}

/// `block` stands in `all` from position `start` on, entry by entry.
pub open spec fn block_at(all: Seq<Flat>, start: int, block: Seq<Flat>) -> bool {
    0 <= start && start + block.len() <= all.len() && all.subrange(
        start,
        start + block.len(),
    ) == block
}

/// `block` stands somewhere in `all`, unbroken and in its own order.
pub open spec fn holds_block(all: Seq<Flat>, block: Seq<Flat>) -> bool {
    exists|start: int| block_at(all, start, block)
}

proof fn block_in_front(head: Seq<Flat>, tail: Seq<Flat>, block: Seq<Flat>)
    requires
        holds_block(head, block),
    ensures
        holds_block(head + tail, block),
{
    let start = choose|start: int| block_at(head, start, block);
    assert((head + tail).subrange(start, start + block.len()) =~= head.subrange(
        start,
        start + block.len(),
    ));
    assert(block_at(head + tail, start, block));
}

proof fn block_behind(head: Seq<Flat>, tail: Seq<Flat>, block: Seq<Flat>)
    requires
        holds_block(tail, block),
    ensures
        holds_block(head + tail, block),
{
    let start = choose|start: int| block_at(tail, start, block);
    let moved = head.len() + start;
    assert((head + tail).subrange(moved, moved + block.len()) =~= tail.subrange(
        start,
        start + block.len(),
    ));
    assert(block_at(head + tail, moved, block));
}

/// A leaf among the fields or below them has its violations in the
/// flattening of the fields: one entry each, side by side, in the leaf's own
/// order, with the leaf's path and depth.
pub proof fn flat_fields_keep_leaf(
    fields: Seq<(Seq<char>, Outcome)>,
    prefix: Option<Seq<char>>,
    depth: nat,
    errors: Seq<LeafError>,
    path: Seq<char>,
    at: nat,
)
    requires
        fields_hold_leaf(fields, prefix, depth, errors, path, at),
    ensures
        holds_block(flat_fields(fields, prefix, depth), flat_leaf(errors, path, at)),
    decreases fields,
{
    let head = flat_fields(fields.drop_last(), prefix, depth);
    let here = field_path(prefix, fields.last().0);
    let tail = flat_outcome(fields.last().1, here, depth);
    if fields_hold_leaf(fields.drop_last(), prefix, depth, errors, path, at) {
        flat_fields_keep_leaf(fields.drop_last(), prefix, depth, errors, path, at);
        block_in_front(head, tail, flat_leaf(errors, path, at));
    } else {
        flat_outcome_keeps_leaf(fields.last().1, here, depth, errors, path, at);
        block_behind(head, tail, flat_leaf(errors, path, at));
    }
}

/// A field that is, or holds below it, a leaf has the leaf's violations in
/// its flattening, side by side and in the leaf's own order.
pub proof fn flat_outcome_keeps_leaf(
    outcome: Outcome,
    here: Seq<char>,
    depth: nat,
    errors: Seq<LeafError>,
    path: Seq<char>,
    at: nat,
)
    requires
        outcome_holds_leaf(outcome, here, depth, errors, path, at),
    ensures
        holds_block(flat_outcome(outcome, here, depth), flat_leaf(errors, path, at)),
    decreases outcome,
{
    match outcome {
        Outcome::Leaf(found) => {
            let block = flat_leaf(errors, path, at);
            assert(block.subrange(0, block.len() as int) =~= block);
            assert(block_at(flat_outcome(outcome, here, depth), 0, block));
        },
        Outcome::List(items) => flat_items_keep_leaf(items, here, depth + 1, errors, path, at),
        Outcome::Nested(tree) => flat_fields_keep_leaf(
            tree.fields,
            Some(here),
            depth + 1,
            errors,
            path,
            at,
        ),
    }
}

/// A leaf below one of the elements of a list has its violations in the
/// flattening of the list, side by side and in the leaf's own order.
pub proof fn flat_items_keep_leaf(
    items: Seq<(nat, Tree)>,
    here: Seq<char>,
    depth: nat,
    errors: Seq<LeafError>,
    path: Seq<char>,
    at: nat,
)
    requires
        items_hold_leaf(items, here, depth, errors, path, at),
    ensures
        holds_block(flat_items(items, here, depth), flat_leaf(errors, path, at)),
    decreases items,
{
    let head = flat_items(items.drop_last(), here, depth);
    let below = Some(item_path(here, items.last().0));
    let tail = flat_fields(items.last().1.fields, below, depth);
    if items_hold_leaf(items.drop_last(), here, depth, errors, path, at) {
        flat_items_keep_leaf(items.drop_last(), here, depth, errors, path, at);
        block_in_front(head, tail, flat_leaf(errors, path, at));
    } else {
        flat_fields_keep_leaf(items.last().1.fields, below, depth, errors, path, at);
        block_behind(head, tail, flat_leaf(errors, path, at));
    }
}

/// From position `start` on, `all` holds the violations of a leaf: one
/// entry each, in the order of `errors`, all with the leaf's path and depth.
pub open spec fn leaf_at(
    all: Seq<Flat>,
    start: int,
    errors: Seq<LeafError>,
    path: Seq<char>,
    at: nat,
) -> bool {
    &&& 0 <= start
    &&& start + errors.len() <= all.len()
    &&& forall|k: int|
        0 <= k < errors.len() ==> #[trigger] all[start + k] == (Flat {
            depth: at,
            path,
            error: errors[k],
        })
}

/// Flattening keeps the order of every leaf: wherever in a tree a leaf
/// stands, its violations come out one entry each, side by side, in the
/// order they stand in, all with the leaf's path and depth.
pub proof fn flat_keeps_every_leaf(tree: Tree, errors: Seq<LeafError>, path: Seq<char>, at: nat)
    requires
        fields_hold_leaf(tree.fields, None, 0, errors, path, at),
    ensures
        exists|start: int| leaf_at(flat(tree), start, errors, path, at),
{
    flat_fields_keep_leaf(tree.fields, None, 0, errors, path, at);
    let all = flat(tree);
    let block = flat_leaf(errors, path, at);
    let start = choose|start: int| block_at(all, start, block);
    assert forall|k: int| 0 <= k < errors.len() implies #[trigger] all[start + k] == (Flat {
        depth: at,
        path,
        error: errors[k],
    }) by {
        assert(all.subrange(start, start + block.len())[k] == block[k]);
    }
    assert(leaf_at(all, start, errors, path, at));
}

proof fn flat_of_one_field(
    name: Seq<char>,
    outcome: Outcome,
    prefix: Option<Seq<char>>,
    depth: nat,
)
    ensures
        flat_fields(seq![(name, outcome)], prefix, depth) == flat_outcome(
            outcome,
            field_path(prefix, name),
            depth,
        ),
{
    let fields = seq![(name, outcome)];
    assert(fields.last() == (name, outcome));
    assert(fields.drop_last() =~= Seq::empty());
    assert(flat_fields(fields.drop_last(), prefix, depth) =~= Seq::empty());
    assert(flat_fields(fields, prefix, depth) =~= flat_outcome(
        outcome,
        field_path(prefix, name),
        depth,
    ));
}

proof fn flat_of_one_item(index: nat, tree: Tree, path: Seq<char>, depth: nat)
    ensures
        flat_items(seq![(index, tree)], path, depth) == flat_fields(
            tree.fields,
            Some(item_path(path, index)),
            depth,
        ),
{
    let items = seq![(index, tree)];
    assert(items.last() == (index, tree));
    assert(items.drop_last() =~= Seq::empty());
    assert(flat_items(items.drop_last(), path, depth) =~= Seq::empty());
    assert(flat_items(items, path, depth) =~= flat_fields(
        tree.fields,
        Some(item_path(path, index)),
        depth,
    ));
}

/// A violation in field `inner` of the structure in field `outer` comes out
/// alone, one level down, under the two names joined by a dot.
pub proof fn flat_of_nested_leaf(outer: Seq<char>, inner: Seq<char>, error: LeafError)
    ensures
        flat(
            Tree {
                fields: seq![
                    (
                        outer,
                        Outcome::Nested(Tree { fields: seq![(inner, Outcome::Leaf(seq![error]))] }),
                    ),
                ],
            },
        ) == seq![Flat { depth: 1, path: outer + seq!['.'] + inner, error }],
{
    let leaf = Outcome::Leaf(seq![error]);
    let nested = Outcome::Nested(Tree { fields: seq![(inner, leaf)] });
    flat_of_one_field(outer, nested, None, 0);
    flat_of_one_field(inner, leaf, Some(outer), 1);
    assert(flat_leaf(seq![error], outer + seq!['.'] + inner, 1) =~= seq![
        Flat { depth: 1, path: outer + seq!['.'] + inner, error },
    ]);
}

/// A violation in field `inner` of element `index` of the list in field
/// `outer` comes out alone, one level down, under the list's name, the index
/// in brackets, a dot and the field's name.
pub proof fn flat_of_list_leaf(outer: Seq<char>, index: nat, inner: Seq<char>, error: LeafError)
    ensures
        flat(
            Tree {
                fields: seq![
                    (
                        outer,
                        Outcome::List(
                            seq![(index, Tree { fields: seq![(inner, Outcome::Leaf(seq![error]))] })],
                        ),
                    ),
                ],
            },
        ) == seq![
            Flat {
                depth: 1,
                path: outer + seq!['['] + decimal(index) + seq![']'] + seq!['.'] + inner,
                error,
            },
        ],
{
    let leaf = Outcome::Leaf(seq![error]);
    let element = Tree { fields: seq![(inner, leaf)] };
    let list = Outcome::List(seq![(index, element)]);
    let at = item_path(outer, index);
    flat_of_one_field(outer, list, None, 0);
    flat_of_one_item(index, element, outer, 1);
    flat_of_one_field(inner, leaf, Some(at), 1);
    assert(flat_leaf(seq![error], at + seq!['.'] + inner, 1) =~= seq![
        Flat { depth: 1, path: at + seq!['.'] + inner, error },
    ]);
}

/// Model of an entry as the library hands it out.
pub open spec fn entry_model<'a>(entry: (u16, String, &'a LeafError)) -> Flat {
    Flat { depth: entry.0 as nat, path: entry.1@, error: *entry.2 }
}

pub open spec fn entries_model<'a>(entries: Seq<(u16, String, &'a LeafError)>) -> Seq<Flat> {
    Seq::new(entries.len(), |i: int| entry_model(entries[i]))
}

pub open spec fn prefix_model(prefix: Option<&str>) -> Option<Seq<char>> {
    match prefix {
        None => None,
        Some(path) => Some(path@),
    }
}

fn field_path_text(prefix: Option<&str>, name: &str) -> (path: String)
    ensures
        path@ == field_path(prefix_model(prefix), name@),
{
    match prefix {
        None => String::from_str(name),
        Some(parent) => {
            proof {
                reveal_strlit(".");
            }
            let mut path = String::from_str(parent);
            path.append(".");
            path.append(name);
            assert(path@ =~= parent@ + seq!['.'] + name@);
            path
        },
    }
}

fn item_path_text(path: &str, index: usize) -> (text: String)
    ensures
        text@ == item_path(path@, index as nat),
{
    proof {
        reveal_strlit("[");
        reveal_strlit("]");
    }
    let digits = decimal_text(index);
    let mut text = String::from_str(path);
    text.append("[");
    text.append(digits.as_str());
    text.append("]");
    assert(text@ =~= path@ + seq!['['] + decimal(index as nat) + seq![']']);
    text
}

fn flatten_leaf<'a>(
    errors: &'a Vec<LeafError>,
    path: &String,
    depth: u16,
    out: &mut Vec<(u16, String, &'a LeafError)>,
)
    ensures
        entries_model(final(out)@) == entries_model(old(out)@) + flat_leaf(
            errors@,
            path@,
            depth as nat,
        ),
{
    let ghost before = entries_model(out@);
    let mut j: usize = 0;
    while j < errors.len()
        invariant
            j <= errors.len(),
            entries_model(out@) == before + flat_leaf(errors@, path@, depth as nat).take(j as int),
        decreases errors.len() - j,
    {
        let ghost so_far = entries_model(out@);
        out.push((depth, path.clone(), &errors[j]));
        proof {
            let all = flat_leaf(errors@, path@, depth as nat);
            assert(entries_model(out@) =~= so_far.push(all[j as int]));
            assert(all.take(j + 1) =~= all.take(j as int).push(all[j as int]));
        }
        j += 1;
    }
    proof {
        let all = flat_leaf(errors@, path@, depth as nat);
        assert(all.take(j as int) =~= all);
    }
}

fn flatten_fields<'a>(
    result: &'a ValidationResult,
    prefix: Option<&str>,
    depth: u16,
    out: &mut Vec<(u16, String, &'a LeafError)>,
)
    requires
        depth + fields_height(result@.fields) <= u16::MAX,
    ensures
        entries_model(final(out)@) == entries_model(old(out)@) + flat_fields(
            result@.fields,
            prefix_model(prefix),
            depth as nat,
        ),
    decreases fields_height(result@.fields), 0nat,
{
    let ghost before = entries_model(out@);
    let ghost fields = result@.fields;
    let ghost above = prefix_model(prefix);
    let n = result.len();
    let mut i: usize = 0;
    while i < n
        invariant
            i <= n,
            n == fields.len(),
            fields == result@.fields,
            above == prefix_model(prefix),
            depth + fields_height(fields) <= u16::MAX,
            entries_model(out@) == before + flat_fields(fields.take(i as int), above, depth as nat),
        decreases n - i,
    {
        let ghost so_far = entries_model(out@);
        let (name, outcome) = result.field_at(i).unwrap();
        let path = field_path_text(prefix, name);
        proof {
            lemma_field_height(fields, i as int);
            assert(fields.take(i + 1).drop_last() =~= fields.take(i as int));
            assert(fields.take(i + 1).last() == fields[i as int]);
        }
        match outcome {
            FieldOutcome::Leaf(errors) => {
                flatten_leaf(errors, &path, depth, out);
            },
            FieldOutcome::List(items) => {
                flatten_items(items, path.as_str(), depth + 1, out);
            },
            FieldOutcome::Nested(sub) => {
                flatten_fields(sub, Some(path.as_str()), depth + 1, out);
            },
        }
        assert(entries_model(out@) == so_far + flat_outcome(
            fields[i as int].1,
            field_path(above, fields[i as int].0),
            depth as nat,
        ));
        assert(entries_model(out@) =~= before + flat_fields(
            fields.take(i + 1),
            above,
            depth as nat,
        ));
        i += 1;
    }
    assert(fields.take(i as int) =~= fields);
}

fn flatten_items<'a>(
    items: &'a IndexedResults,
    path: &str,
    depth: u16,
    out: &mut Vec<(u16, String, &'a LeafError)>,
)
    requires
        depth + items_height(items@) <= u16::MAX,
    ensures
        entries_model(final(out)@) == entries_model(old(out)@) + flat_items(
            items@,
            path@,
            depth as nat,
        ),
    decreases items_height(items@), 1nat,
{
    let ghost before = entries_model(out@);
    let ghost all = items@;
    let n = items.len();
    let mut k: usize = 0;
    while k < n
        invariant
            k <= n,
            n == all.len(),
            all == items@,
            depth + items_height(all) <= u16::MAX,
            entries_model(out@) == before + flat_items(all.take(k as int), path@, depth as nat),
        decreases n - k,
    {
        let ghost so_far = entries_model(out@);
        let (index, result) = items.item_at(k).unwrap();
        let below = item_path_text(path, index);
        proof {
            lemma_item_height(all, k as int);
            assert(all.take(k + 1).drop_last() =~= all.take(k as int));
            assert(all.take(k + 1).last() == all[k as int]);
        }
        flatten_fields(result, Some(below.as_str()), depth, out);
        assert(entries_model(out@) =~= before + flat_items(all.take(k + 1), path@, depth as nat));
        k += 1;
    }
    assert(all.take(k as int) =~= all);
}

/// Flattens a validation result: every violation with the depth of its
/// field and the dotted path that leads to it, in traversal order. Nested
/// structures and lists appear only through what lies below them, and a
/// result without violations gives no entries.
pub fn flatten_errors(errors: &ValidationResult) -> (entries: Vec<(u16, String, &LeafError)>)
    ensures
        entries_model(entries@) == flat(errors@),
{
    let mut entries: Vec<(u16, String, &LeafError)> = Vec::new();
    // A result never nests deeper than a `u16` can count, so no depth overflows.
    let _: u16 = errors.levels();
    flatten_fields(errors, None, 0, &mut entries);
    assert(entries_model(Seq::<(u16, String, &LeafError)>::empty()) =~= Seq::<Flat>::empty());
    entries
}

} // verus!
