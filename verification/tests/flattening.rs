use actix_web_validator::decimal::decimal_text;
use actix_web_validator::error::flatten_errors;
use actix_web_validator::outcome::{
    FieldOutcome, IndexedResults, LeafError, Refusal, ValidationResult,
};
use actix_web_validator::render::{render, render_entries};

fn leaf(codes: &[&str]) -> FieldOutcome {
    FieldOutcome::Leaf(codes.iter().map(|code| LeafError::new(code)).collect())
}

fn result_of(fields: Vec<(&str, FieldOutcome)>) -> ValidationResult {
    let mut result = ValidationResult::new();
    for (name, outcome) in fields {
        result.insert(name.to_owned(), outcome).unwrap();
    }
    result
}

fn list_of(items: Vec<(usize, ValidationResult)>) -> FieldOutcome {
    let mut list = IndexedResults::new();
    for (index, result) in items {
        list.push(index, result).unwrap();
    }
    FieldOutcome::List(list)
}

fn shape(errors: &ValidationResult) -> Vec<(u16, String, String)> {
    flatten_errors(errors)
        .iter()
        .map(|(depth, path, error)| (*depth, path.clone(), error.code.clone()))
        .collect()
}

fn entry(depth: u16, path: &str, code: &str) -> (u16, String, String) {
    (depth, path.to_owned(), code.to_owned())
}

#[test]
fn nothing_found_flattens_to_nothing_and_renders_empty() {
    let empty = ValidationResult::new();
    assert!(empty.is_empty());
    assert_eq!(empty.len(), 0);
    assert!(flatten_errors(&empty).is_empty());
    assert_eq!(render(&empty), "");
}

#[test]
fn fields_without_violations_contribute_no_entry() {
    let tree = result_of(vec![
        ("plain", leaf(&[])),
        ("inner", FieldOutcome::Nested(Box::new(result_of(vec![("deep", leaf(&[]))])))),
        ("hollow", FieldOutcome::Nested(Box::new(ValidationResult::new()))),
        ("items", list_of(vec![(4, ValidationResult::new())])),
        ("none", list_of(vec![])),
    ]);
    assert_eq!(tree.len(), 5);
    assert!(flatten_errors(&tree).is_empty());
    assert_eq!(render(&tree), "");
}

#[test]
fn nested_leaf_has_dotted_path_and_depth_one() {
    let tree = result_of(vec![(
        "a",
        FieldOutcome::Nested(Box::new(result_of(vec![("b", leaf(&["required"]))]))),
    )]);
    assert_eq!(shape(&tree), vec![entry(1, "a.b", "required")]);
}

#[test]
fn list_element_has_bracketed_index_without_dot() {
    let tree = result_of(vec![(
        "items",
        list_of(vec![(2, result_of(vec![("x", leaf(&["length"]))]))]),
    )]);
    assert_eq!(shape(&tree), vec![entry(1, "items[2].x", "length")]);
}

#[test]
fn violations_of_a_leaf_keep_their_order() {
    let tree = result_of(vec![("name", leaf(&["length", "regex", "contains", "length"]))]);
    assert_eq!(
        shape(&tree),
        vec![
            entry(0, "name", "length"),
            entry(0, "name", "regex"),
            entry(0, "name", "contains"),
            entry(0, "name", "length"),
        ]
    );
}

#[test]
fn entry_refers_to_the_violation_in_the_tree() {
    let mut error = LeafError::new("range").with_message("too small");
    error.add_param("min", "1");
    let tree = result_of(vec![("page", FieldOutcome::Leaf(vec![error.clone()]))]);
    let entries = flatten_errors(&tree);
    assert_eq!(entries.len(), 1);
    assert_eq!(entries[0].2, &error);
    match tree.get("page") {
        Some(FieldOutcome::Leaf(held)) => assert!(std::ptr::eq(entries[0].2, &held[0])),
        other => panic!("expected a leaf, found {:?}", other),
    }
}

fn mixed_tree() -> ValidationResult {
    let address = result_of(vec![
        ("street", leaf(&["length"])),
        ("geo", FieldOutcome::Nested(Box::new(result_of(vec![("lat", leaf(&["range", "finite"]))])))),
    ]);
    let first = result_of(vec![("sku", leaf(&["regex"]))]);
    let later = result_of(vec![
        ("qty", leaf(&["range"])),
        ("tags", list_of(vec![(10, result_of(vec![("text", leaf(&["length"]))]))])),
    ]);
    result_of(vec![
        ("email", leaf(&["email", "length"])),
        ("address", FieldOutcome::Nested(Box::new(address))),
        ("lines", list_of(vec![(0, first), (7, later)])),
        ("note", leaf(&[])),
        ("zip", leaf(&["regex"])),
    ])
}

#[test]
fn traversal_is_depth_first_in_field_and_index_order() {
    assert_eq!(
        shape(&mixed_tree()),
        vec![
            entry(0, "email", "email"),
            entry(0, "email", "length"),
            entry(1, "address.street", "length"),
            entry(2, "address.geo.lat", "range"),
            entry(2, "address.geo.lat", "finite"),
            entry(1, "lines[0].sku", "regex"),
            entry(1, "lines[7].qty", "range"),
            entry(2, "lines[7].tags[10].text", "length"),
            entry(0, "zip", "regex"),
        ]
    );
}

#[test]
fn as_many_entries_as_violations_in_the_leaves() {
    // 2 + 1 + 2 + 1 + 1 + 1 + 0 + 1 violations stand in the leaves.
    assert_eq!(flatten_errors(&mixed_tree()).len(), 9);
    let only_structure = result_of(vec![(
        "outer",
        FieldOutcome::Nested(Box::new(result_of(vec![("list", list_of(vec![]))]))),
    )]);
    assert_eq!(flatten_errors(&only_structure).len(), 0);
}

#[test]
fn report_has_one_line_per_violation() {
    assert_eq!(
        render(&mixed_tree()),
        "email: email\n\
         email: length\n\
         address.street: length\n\
         address.geo.lat: range\n\
         address.geo.lat: finite\n\
         lines[0].sku: regex\n\
         lines[7].qty: range\n\
         lines[7].tags[10].text: length\n\
         zip: regex"
    );
}

#[test]
fn report_of_one_violation_has_no_line_feed() {
    let tree = result_of(vec![("age", leaf(&["range"]))]);
    assert_eq!(render(&tree), "age: range");
}

#[test]
fn entries_render_one_line_each() {
    let tree = result_of(vec![("a", leaf(&["x", "y"]))]);
    let entries = flatten_errors(&tree);
    assert_eq!(render_entries(&entries), "a: x\na: y");
    assert_eq!(render_entries(&entries[1..].to_vec()), "a: y");
    assert_eq!(render_entries(&Vec::new()), "");
}

#[test]
fn decimal_text_of_indices() {
    assert_eq!(decimal_text(0), "0");
    assert_eq!(decimal_text(7), "7");
    assert_eq!(decimal_text(9), "9");
    assert_eq!(decimal_text(10), "10");
    assert_eq!(decimal_text(101), "101");
    assert_eq!(decimal_text(1234567890), "1234567890");
    assert_eq!(decimal_text(usize::MAX), usize::MAX.to_string());
}

#[test]
fn large_index_is_written_in_full() {
    let tree = result_of(vec![(
        "rows",
        list_of(vec![(0, result_of(vec![("a", leaf(&["x"]))])), (4096, result_of(vec![("b", leaf(&["y"]))]))]),
    )]);
    assert_eq!(shape(&tree), vec![entry(1, "rows[0].a", "x"), entry(1, "rows[4096].b", "y")]);
}

#[test]
fn fields_come_back_in_insertion_order() {
    let tree = result_of(vec![("zeta", leaf(&["a"])), ("alpha", leaf(&["b"])), ("mid", leaf(&["c"]))]);
    let names: Vec<&str> = (0..tree.len()).map(|i| tree.field_at(i).unwrap().0).collect();
    assert_eq!(names, vec!["zeta", "alpha", "mid"]);
    assert!(tree.field_at(3).is_none());
    assert_eq!(shape(&tree), vec![entry(0, "zeta", "a"), entry(0, "alpha", "b"), entry(0, "mid", "c")]);
}

#[test]
fn get_finds_a_field_by_name() {
    let tree = result_of(vec![("a", leaf(&["x"])), ("b", leaf(&["y", "z"]))]);
    assert_eq!(tree.get("b"), Some(&leaf(&["y", "z"])));
    assert_eq!(tree.get("a"), Some(&leaf(&["x"])));
    assert_eq!(tree.get("c"), None);
    assert_eq!(tree.get(""), None);
}

#[test]
fn second_field_of_a_name_is_refused_and_handed_back() {
    let mut tree = result_of(vec![("a", leaf(&["x"]))]);
    let refused = tree.insert("a".to_owned(), leaf(&["y"])).unwrap_err();
    assert_eq!(refused.reason, Refusal::DuplicateName);
    assert_eq!(refused.name, "a");
    assert_eq!(refused.outcome, leaf(&["y"]));
    assert_eq!(tree.len(), 1);
    assert_eq!(tree.get("a"), Some(&leaf(&["x"])));
    assert_eq!(shape(&tree), vec![entry(0, "a", "x")]);
}

#[test]
fn levels_count_the_nesting_below() {
    assert_eq!(ValidationResult::new().levels(), 0);
    assert_eq!(result_of(vec![("a", leaf(&["x"]))]).levels(), 0);
    assert_eq!(leaf(&["x"]).levels(), 0);
    assert_eq!(list_of(vec![]).levels(), 1);
    assert_eq!(FieldOutcome::Nested(Box::new(ValidationResult::new())).levels(), 1);
    assert_eq!(mixed_tree().levels(), 2);
    match mixed_tree().get("lines") {
        Some(FieldOutcome::List(lines)) => {
            assert_eq!(lines.len(), 2);
            assert_eq!(lines.levels(), 1);
            assert_eq!(lines.item_at(1).map(|(index, sub)| (index, sub.len())), Some((7, 2)));
            assert!(lines.item_at(2).is_none());
        }
        other => panic!("expected a list, found {:?}", other),
    }
}

#[test]
fn list_takes_indices_in_ascending_order_only() {
    let mut list = IndexedResults::new();
    assert!(list.push(3, ValidationResult::new()).is_ok());
    assert!(list.push(5, result_of(vec![("a", leaf(&["x"]))])).is_ok());
    let back = list.push(5, result_of(vec![("b", leaf(&["y"]))])).unwrap_err();
    assert_eq!(back, result_of(vec![("b", leaf(&["y"]))]));
    assert!(list.push(4, ValidationResult::new()).is_err());
    assert!(list.push(0, ValidationResult::new()).is_err());
    assert_eq!(list.len(), 2);
    assert!(list.push(usize::MAX, ValidationResult::new()).is_ok());
    let indices: Vec<usize> = (0..list.len()).map(|i| list.item_at(i).unwrap().0).collect();
    assert_eq!(indices, vec![3, 5, usize::MAX]);
}

#[test]
fn list_keeps_index_order_whatever_the_order_of_insertion() {
    let mut list = IndexedResults::new();
    assert!(list.insert(7, result_of(vec![("g", leaf(&["seven"]))])).is_none());
    assert!(list.insert(2, result_of(vec![("b", leaf(&["two"]))])).is_none());
    assert!(list.insert(usize::MAX, ValidationResult::new()).is_none());
    assert!(list.insert(0, result_of(vec![("a", leaf(&["zero"]))])).is_none());
    assert!(list.insert(5, result_of(vec![("e", leaf(&["five"]))])).is_none());
    let indices: Vec<usize> = (0..list.len()).map(|i| list.item_at(i).unwrap().0).collect();
    assert_eq!(indices, vec![0, 2, 5, 7, usize::MAX]);
    let tree = result_of(vec![("rows", FieldOutcome::List(list))]);
    assert_eq!(
        shape(&tree),
        vec![
            entry(1, "rows[0].a", "zero"),
            entry(1, "rows[2].b", "two"),
            entry(1, "rows[5].e", "five"),
            entry(1, "rows[7].g", "seven"),
        ]
    );
}

#[test]
fn list_replaces_the_result_at_an_index_and_hands_the_old_one_back() {
    let deep = result_of(vec![(
        "inner",
        FieldOutcome::Nested(Box::new(result_of(vec![("x", leaf(&["deep"]))]))),
    )]);
    let mut list = IndexedResults::new();
    assert!(list.insert(1, result_of(vec![("a", leaf(&["first"]))])).is_none());
    assert!(list.insert(3, deep).is_none());
    assert_eq!(list.levels(), 1);
    let replaced = list.insert(3, result_of(vec![("c", leaf(&["third"]))]));
    assert_eq!(replaced.map(|old| old.levels()), Some(1));
    assert_eq!(list.len(), 2);
    assert_eq!(list.levels(), 0);
    let replaced = list.insert(1, result_of(vec![("b", leaf(&["second"]))]));
    assert_eq!(replaced, Some(result_of(vec![("a", leaf(&["first"]))])));
    let tree = result_of(vec![("rows", FieldOutcome::List(list))]);
    assert_eq!(
        shape(&tree),
        vec![entry(1, "rows[1].b", "second"), entry(1, "rows[3].c", "third")]
    );
}

#[test]
fn nesting_deeper_than_a_depth_can_count_is_refused() {
    let mut chain = result_of(vec![("end", leaf(&["x"]))]);
    for _ in 0..u16::MAX {
        let mut outer = ValidationResult::new();
        assert!(outer.insert("n".to_owned(), FieldOutcome::Nested(Box::new(chain))).is_ok());
        chain = outer;
    }
    assert_eq!(chain.levels(), u16::MAX);
    let mut top = ValidationResult::new();
    let refused = top.insert("n".to_owned(), FieldOutcome::Nested(Box::new(chain)));
    let reason = refused.as_ref().err().map(|refused| refused.reason);
    let untouched = top.is_empty();
    // The chain is too deep to be taken apart by a recursive drop.
    std::mem::forget(refused);
    assert_eq!(reason, Some(Refusal::TooDeep));
    assert!(untouched);
}

#[test]
fn leaf_error_builders() {
    let plain = LeafError::new("url");
    assert_eq!(plain.code, "url");
    assert_eq!(plain.message, None);
    assert!(plain.params.is_empty());
    let mut told = plain.clone().with_message("not a link");
    assert_eq!(told.code, "url");
    assert_eq!(told.message.as_deref(), Some("not a link"));
    told.add_param("value", "\"invalid url\"");
    told.add_param("scheme", "null");
    assert_eq!(
        told.params,
        vec![
            ("value".to_owned(), "\"invalid url\"".to_owned()),
            ("scheme".to_owned(), "null".to_owned()),
        ]
    );
    assert_ne!(told, plain);
}
