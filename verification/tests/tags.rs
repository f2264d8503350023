use place_directory::entities::Tag;
use place_directory::mock_db::MockDb;
use place_directory::relation::{ObjectId, Relation, Triple};
use place_directory::usecases::tags::{get_tag_ids, get_tag_ids_for_entry_id, get_tags_by_entry_ids};

fn tagging(entry: &str, tag: &str) -> Triple {
    Triple {
        subject: ObjectId::Entry(entry.into()),
        predicate: Relation::IsTaggedWith,
        object: ObjectId::Tag(tag.into()),
    }
}

fn triples() -> Vec<Triple> {
    vec![
        tagging("e1", "a"),
        tagging("e2", "a"),
        tagging("e1", "b"),
        Triple {
            subject: ObjectId::Entry("e1".into()),
            predicate: Relation::IsTaggedWith,
            object: ObjectId::User("u".into()),
        },
        Triple {
            subject: ObjectId::User("e1".into()),
            predicate: Relation::IsTaggedWith,
            object: ObjectId::Tag("c".into()),
        },
        tagging("e3", "c"),
        tagging("e1", "a"),
    ]
}

fn tags(names: &[&str]) -> Vec<Tag> {
    names.iter().map(|n| Tag { id: n.to_string() }).collect()
}

#[test]
fn tag_ids_are_listed_without_repeats_in_a_row() {
    let mut db = MockDb::new();
    db.triples = triples();
    assert_eq!(
        get_tag_ids(&db),
        Ok(vec![
            "a".to_string(),
            "b".to_string(),
            "c".to_string(),
            "a".to_string()
        ])
    );
    db.triples = vec![];
    assert_eq!(get_tag_ids(&db), Ok(vec![]));
}

#[test]
fn tags_of_an_entry_are_read_from_its_relations() {
    let all = triples();
    assert_eq!(get_tag_ids_for_entry_id(&all, "e1"), tags(&["a", "b", "a"]));
    assert_eq!(get_tag_ids_for_entry_id(&all, "e2"), tags(&["a"]));
    assert_eq!(get_tag_ids_for_entry_id(&all, "u"), tags(&[]));
    assert_eq!(get_tag_ids_for_entry_id(&[], "e1"), tags(&[]));
}

#[test]
fn tags_are_looked_up_for_several_entries() {
    let mut db = MockDb::new();
    db.triples = triples();
    let ids: Vec<String> = vec!["e3".into(), "e1".into(), "none".into(), "e3".into()];
    let found = get_tags_by_entry_ids(&db, &ids).unwrap();
    assert_eq!(found.len(), 3);
    assert_eq!(found.get("e1"), Some(&tags(&["a", "b", "a"])));
    assert_eq!(found.get("e3"), Some(&tags(&["c"])));
    assert_eq!(found.get("none"), Some(&tags(&[])));
    assert_eq!(found.get("e2"), None);
}
