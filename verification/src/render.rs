//! The plain-text report: one line per violation, `path: code`, in the order
//! of the flattening. Every violation of a field gets a line of its own, so
//! nothing is dropped where a field broke several rules. A result without
//! violations renders to the empty string.

use crate::flatten::{
    entries_model, flat, flat_of_no_errors, flatten_errors, leaf_count, Flat,
};
use crate::outcome::{LeafError, Tree, ValidationResult};
use vstd::prelude::*;
use vstd::string::*;

verus! {

/// The line of one entry: the path, a colon and a blank, the code.
pub open spec fn line(entry: Flat) -> Seq<char> {
    entry.path + seq![':', ' '] + entry.error.code@
}

/// The lines of the entries, separated by line feeds, with none at the end.
pub open spec fn report(entries: Seq<Flat>) -> Seq<char>
    decreases entries.len(),
{
    if entries.len() == 0 {
        Seq::empty()
    } else if entries.len() == 1 {
        line(entries[0])
    } else {
        report(entries.drop_last()) + seq!['\n'] + line(entries.last())
    }
}

/// Renders flattened entries, one line each.
pub fn render_entries(entries: &Vec<(u16, String, &LeafError)>) -> (text: String)
    ensures
        text@ == report(entries_model(entries@)),
{
    let ghost all = entries_model(entries@);
    let mut text = String::new();
    let mut i: usize = 0;
    while i < entries.len()
        invariant
            i <= entries.len(),
            all == entries_model(entries@),
            text@ == report(all.take(i as int)),
        decreases entries.len() - i,
    {
        proof {
            reveal_strlit("\n");
            reveal_strlit(": ");
            assert(all.take(i + 1).drop_last() =~= all.take(i as int));
            assert(all.take(i + 1).last() == all[i as int]);
        }
        let ghost so_far = text@;
        if i > 0 {
            text.append("\n");
        }
        text.append(entries[i].1.as_str());
        text.append(": ");
        text.append(entries[i].2.code.as_str());
        proof {
            let added = line(all[i as int]);
            if i > 0 {
                assert(text@ =~= so_far + seq!['\n'] + added);
            } else {
                assert(text@ =~= added);
            }
        }
        i += 1;
    }
    assert(all.take(i as int) =~= all);
    text
}

/// Renders a validation result: the lines `path: code` of its flattening.
pub fn render(root: &ValidationResult) -> (text: String)
    ensures
        text@ == report(flat(root@)),
{
    let entries = flatten_errors(root);
    render_entries(&entries)
}

/// A tree without violations, whether it has no fields or only fields with
/// nothing in them, renders to the empty text.
pub proof fn report_of_no_errors(tree: Tree)
    requires
        leaf_count(tree) == 0,
    ensures
        report(flat(tree)) == Seq::<char>::empty(),
{
    flat_of_no_errors(tree);
}

} // verus!
