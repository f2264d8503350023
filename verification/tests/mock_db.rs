use place_directory::db::Db;
use place_directory::entities::{
    Bbox, Category, Comment, Coordinate, Entry, Event, Organization, Rating, Tag, User, Role,
};
use place_directory::error::RepoError;
use place_directory::mock_db::MockDb;
use place_directory::relation::{ObjectId, Relation, Triple};

fn entry(id: &str, lat: i64, lng: i64, tags: &[&str]) -> Entry {
    Entry {
        id: id.into(),
        created: 0,
        version: 0,
        title: format!("entry {}", id),
        description: "".into(),
        lat,
        lng,
        street: None,
        zip: None,
        city: None,
        country: None,
        email: None,
        telephone: None,
        homepage: None,
        categories: vec![],
        tags: tags.iter().map(|t| t.to_string()).collect(),
        license: None,
    }
}

fn event(id: &str, title: &str) -> Event {
    Event {
        id: id.into(),
        title: title.into(),
        description: None,
        start: 10,
        end: Some(20),
        contact: None,
        location: None,
        homepage: None,
        tags: vec![],
        created_by: None,
    }
}

fn org(id: &str, token: &str, tags: &[&str]) -> Organization {
    Organization {
        id: id.into(),
        name: format!("org {}", id),
        owned_tags: tags.iter().map(|t| t.to_string()).collect(),
        api_token: token.into(),
    }
}

fn tagging(entry: &str, tag: &str) -> Triple {
    Triple {
        subject: ObjectId::Entry(entry.into()),
        predicate: Relation::IsTaggedWith,
        object: ObjectId::Tag(tag.into()),
    }
}

#[test]
fn a_new_storage_holds_nothing() {
    let db = MockDb::new();
    assert!(db.entries.is_empty());
    assert!(db.events.is_empty());
    assert!(db.categories.is_empty());
    assert!(db.tags.is_empty());
    assert!(db.triples.is_empty());
    assert!(db.users.is_empty());
    assert!(db.ratings.is_empty());
    assert!(db.comments.is_empty());
    assert!(db.bbox_subscriptions.is_empty());
    assert!(db.orgs.is_empty());
    assert_eq!(db.all_entries(), Ok(vec![]));
    assert_eq!(db.get_entry("e"), Err(RepoError::NotFound));
}

#[test]
fn entries_are_created_found_and_replaced() {
    let mut db = MockDb::new();
    assert_eq!(db.create_entry(entry("a", 1, 1, &[])), Ok(()));
    assert_eq!(db.create_entry(entry("b", 2, 2, &[])), Ok(()));
    assert_eq!(
        db.create_entry(entry("a", 3, 3, &[])),
        Err(RepoError::AlreadyExists)
    );
    assert_eq!(db.get_entry("b"), Ok(entry("b", 2, 2, &[])));
    assert_eq!(db.get_entry("c"), Err(RepoError::NotFound));
    assert_eq!(db.update_entry(&entry("a", 9, 9, &[])), Ok(()));
    assert_eq!(
        db.update_entry(&entry("c", 9, 9, &[])),
        Err(RepoError::NotFound)
    );
    assert_eq!(
        db.all_entries(),
        Ok(vec![entry("a", 9, 9, &[]), entry("b", 2, 2, &[])])
    );
}

#[test]
fn the_first_of_two_records_with_one_identity_counts() {
    let mut db = MockDb::new();
    db.events = vec![event("x", "first"), event("y", "other"), event("x", "second")];
    assert_eq!(db.get_event("x"), Ok(event("x", "first")));
    assert_eq!(db.update_event(&event("x", "changed")), Ok(()));
    assert_eq!(
        db.events,
        vec![event("x", "changed"), event("y", "other"), event("x", "second")]
    );
    assert_eq!(db.delete_event("x"), Ok(()));
    assert_eq!(db.events, vec![event("y", "other"), event("x", "second")]);
    assert_eq!(db.delete_event("x"), Ok(()));
    assert_eq!(db.delete_event("x"), Err(RepoError::NotFound));
    assert_eq!(db.all_events(), Ok(vec![event("y", "other")]));
    assert_eq!(db.create_event(event("y", "again")), Err(RepoError::AlreadyExists));
}

#[test]
fn entries_are_found_inside_a_box_edges_included() {
    let mut db = MockDb::new();
    db.entries = vec![
        entry("inside", 5, 5, &[]),
        entry("corner", 0, 0, &[]),
        entry("edge", 10, 3, &[]),
        entry("north", 11, 5, &[]),
        entry("west", 5, -1, &[]),
    ];
    let bbox = Bbox {
        south_west: Coordinate { lat: 0, lng: 0 },
        north_east: Coordinate { lat: 10, lng: 10 },
    };
    assert_eq!(
        db.get_entries_by_bbox(&bbox),
        Ok(vec![
            entry("inside", 5, 5, &[]),
            entry("corner", 0, 0, &[]),
            entry("edge", 10, 3, &[]),
        ])
    );
    assert!(bbox.is_in_bbox(10, 10));
    assert!(!bbox.is_in_bbox(5, 11));
}

#[test]
fn importing_entries_makes_their_tags() {
    let mut db = MockDb::new();
    db.tags = vec![Tag { id: "b".into() }];
    let entries = vec![entry("1", 0, 0, &["a", "b"]), entry("2", 0, 0, &["c", "a"])];
    assert_eq!(db.import_multiple_entries(&entries), Ok(()));
    assert_eq!(db.entries, entries);
    assert_eq!(
        db.tags,
        vec![
            Tag { id: "b".into() },
            Tag { id: "a".into() },
            Tag { id: "c".into() }
        ]
    );
}

#[test]
fn importing_stops_at_an_entry_whose_identity_is_taken() {
    let mut db = MockDb::new();
    let entries = vec![
        entry("1", 0, 0, &["a"]),
        entry("1", 1, 1, &["b"]),
        entry("2", 0, 0, &["c"]),
    ];
    assert_eq!(
        db.import_multiple_entries(&entries),
        Err(RepoError::AlreadyExists)
    );
    assert_eq!(db.entries, vec![entry("1", 0, 0, &["a"])]);
    assert_eq!(db.tags, vec![Tag { id: "a".into() }]);
}

#[test]
fn accounts_are_found_by_name_and_deleted_by_identity() {
    let mut db = MockDb::new();
    let user = |id: &str, name: &str| User {
        id: id.into(),
        username: name.into(),
        password: "p".into(),
        email: format!("{}@example.org", name),
        email_confirmed: false,
        role: Role::Scout,
    };
    assert_eq!(db.create_user(user("1", "a")), Ok(()));
    assert_eq!(db.create_user(user("2", "a")), Ok(()));
    assert_eq!(db.create_user(user("3", "b")), Ok(()));
    assert_eq!(db.create_user(user("3", "c")), Err(RepoError::AlreadyExists));
    assert_eq!(db.get_user("a"), Ok(user("1", "a")));
    assert_eq!(db.get_user("c"), Err(RepoError::NotFound));
    let mut changed = user("2", "z");
    changed.role = Role::Admin;
    assert_eq!(db.update_user(&changed), Ok(()));
    assert_eq!(db.update_user(&user("9", "z")), Err(RepoError::NotFound));
    assert_eq!(db.delete_user("1"), Ok(()));
    assert_eq!(db.delete_user("1"), Ok(()));
    assert_eq!(db.all_users(), Ok(vec![changed, user("3", "b")]));
}

#[test]
fn organizations_are_found_by_their_token() {
    let mut db = MockDb::new();
    assert_eq!(db.create_org(org("o1", "t1", &["a", "b"])), Ok(()));
    assert_eq!(db.create_org(org("o2", "t2", &[])), Ok(()));
    assert_eq!(db.create_org(org("o3", "t1", &["c", "a"])), Ok(()));
    assert_eq!(db.create_org(org("o3", "t3", &[])), Err(RepoError::AlreadyExists));
    assert_eq!(db.get_org_by_api_token("t1"), Ok(org("o1", "t1", &["a", "b"])));
    assert_eq!(db.get_org_by_api_token("t2"), Ok(org("o2", "t2", &[])));
    assert_eq!(db.get_org_by_api_token("t3"), Err(RepoError::NotFound));
    assert_eq!(
        db.get_all_tags_owned_by_orgs(),
        Ok(vec![
            "a".to_string(),
            "b".to_string(),
            "c".to_string(),
            "a".to_string()
        ])
    );
}

#[test]
fn relations_are_kept_as_a_set() {
    let mut db = MockDb::new();
    assert_eq!(db.create_triple(&tagging("e", "a")), Ok(()));
    assert_eq!(db.create_triple(&tagging("e", "b")), Ok(()));
    assert_eq!(db.create_triple(&tagging("e", "a")), Ok(()));
    assert_eq!(
        db.all_triples(),
        Ok(vec![tagging("e", "a"), tagging("e", "b")])
    );
    assert_eq!(db.delete_triple(&tagging("e", "a")), Ok(()));
    assert_eq!(db.delete_triple(&tagging("e", "a")), Ok(()));
    assert_eq!(db.all_triples(), Ok(vec![tagging("e", "b")]));
}

#[test]
fn categories_ratings_and_comments_are_kept() {
    let mut db = MockDb::new();
    let category = Category {
        id: "c".into(),
        name: "first".into(),
    };
    assert_eq!(db.create_category_if_it_does_not_exist(&category), Ok(()));
    assert_eq!(
        db.create_category_if_it_does_not_exist(&Category {
            id: "c".into(),
            name: "second".into()
        }),
        Ok(())
    );
    assert_eq!(db.all_categories(), Ok(vec![category]));
    let rating = Rating {
        id: "r".into(),
        entry_id: "e".into(),
        created: 1,
        title: "good".into(),
        value: 2,
        source: None,
    };
    assert_eq!(db.create_rating(rating.clone()), Ok(()));
    assert_eq!(db.create_rating(rating.clone()), Err(RepoError::AlreadyExists));
    assert_eq!(db.all_ratings(), Ok(vec![rating]));
    let comment = Comment {
        id: "k".into(),
        created: 2,
        text: "indeed".into(),
        rating_id: "r".into(),
    };
    assert_eq!(db.create_comment(comment.clone()), Ok(()));
    assert_eq!(db.create_comment(comment.clone()), Err(RepoError::AlreadyExists));
    assert_eq!(db.all_comments(), Ok(vec![comment]));
}
