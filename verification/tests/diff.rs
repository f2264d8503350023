use place_directory::diff::{contains_triple, get_triple_diff};
use place_directory::relation::{ObjectId, Relation, Triple};

fn tagging(entry: &str, tag: &str) -> Triple {
    Triple {
        subject: ObjectId::Entry(entry.into()),
        predicate: Relation::IsTaggedWith,
        object: ObjectId::Tag(tag.into()),
    }
}

/// What a store that held `old` holds after the difference has been applied:
/// first the creations, then the deletions.
fn applied(old: &[Triple], new: &[Triple]) -> Vec<Triple> {
    let diff = get_triple_diff(old, new);
    let mut store: Vec<Triple> = old.to_vec();
    for t in diff.new {
        if !store.contains(&t) {
            store.push(t);
        }
    }
    for t in diff.deleted {
        store.retain(|x| *x != t);
    }
    store
}

fn same_set(a: &[Triple], b: &[Triple]) -> bool {
    a.iter().all(|x| b.contains(x)) && b.iter().all(|x| a.contains(x))
}

#[test]
fn diff_lists_what_is_lacking_on_either_side() {
    let old = vec![tagging("e1", "food"), tagging("e1", "vegan")];
    let new = vec![tagging("e1", "vegan"), tagging("e1", "organic")];
    let diff = get_triple_diff(&old, &new);
    assert_eq!(diff.new, vec![tagging("e1", "organic")]);
    assert_eq!(diff.deleted, vec![tagging("e1", "food")]);
}

#[test]
fn diff_of_nothing_against_something_creates_each_relation_once() {
    let new = vec![
        tagging("e1", "b"),
        tagging("e1", "a"),
        tagging("e1", "b"),
        tagging("e1", "a"),
    ];
    let diff = get_triple_diff(&[], &new);
    assert_eq!(diff.new, vec![tagging("e1", "b"), tagging("e1", "a")]);
    assert!(diff.deleted.is_empty());
}

#[test]
fn diff_of_something_against_nothing_deletes_each_relation_once() {
    let old = vec![tagging("e1", "a"), tagging("e1", "a"), tagging("e1", "b")];
    let diff = get_triple_diff(&old, &[]);
    assert!(diff.new.is_empty());
    assert_eq!(diff.deleted, vec![tagging("e1", "a"), tagging("e1", "b")]);
}

#[test]
fn diff_of_equal_sets_is_empty_whatever_the_order() {
    let old = vec![tagging("e1", "a"), tagging("e1", "b"), tagging("e1", "c")];
    let new = vec![
        tagging("e1", "c"),
        tagging("e1", "a"),
        tagging("e1", "b"),
        tagging("e1", "a"),
    ];
    let diff = get_triple_diff(&old, &new);
    assert!(diff.new.is_empty());
    assert!(diff.deleted.is_empty());
}

#[test]
fn diff_of_two_empty_lists_is_empty() {
    let diff = get_triple_diff(&[], &[]);
    assert!(diff.new.is_empty());
    assert!(diff.deleted.is_empty());
}

#[test]
fn diff_tells_kinds_and_subjects_apart() {
    let old = vec![Triple {
        subject: ObjectId::User("x".into()),
        predicate: Relation::IsTaggedWith,
        object: ObjectId::Tag("t".into()),
    }];
    let new = vec![tagging("x", "t")];
    let diff = get_triple_diff(&old, &new);
    assert_eq!(diff.new, new);
    assert_eq!(diff.deleted, old);
}

#[test]
fn applying_a_diff_turns_old_into_new() {
    let old = vec![
        tagging("e1", "a"),
        tagging("e1", "b"),
        tagging("e1", "b"),
        tagging("e2", "z"),
    ];
    let new = vec![tagging("e1", "b"), tagging("e1", "c"), tagging("e1", "c")];
    let store = applied(&old, &new);
    assert!(same_set(&store, &new));
}

#[test]
fn diff_after_applying_a_diff_is_empty() {
    let old = vec![tagging("e1", "a"), tagging("e1", "b")];
    let new = vec![tagging("e1", "b"), tagging("e1", "c"), tagging("e1", "d")];
    let store = applied(&old, &new);
    let again = get_triple_diff(&store, &new);
    assert!(again.new.is_empty());
    assert!(again.deleted.is_empty());
}

#[test]
fn contains_triple_compares_contents() {
    let list = vec![tagging("e1", "a"), tagging("e1", "b")];
    assert!(contains_triple(&list, &tagging("e1", "b")));
    assert!(!contains_triple(&list, &tagging("e1", "c")));
    assert!(!contains_triple(&list, &tagging("e2", "a")));
    assert!(!contains_triple(&[], &tagging("e1", "a")));
}
