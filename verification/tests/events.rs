use place_directory::db::Db;
use place_directory::entities::{Address, Contact, Event, Location, Organization, Role, Tag, User};
use place_directory::error::{Error, ParameterError, RepoError};
use place_directory::mock_db::MockDb;
use place_directory::usecases::events::{get_event, query_events};
use place_directory::usecases::update_event::{try_into_new_event, update_event, NewEvent};

fn event(id: &str, tags: &[&str], created_by: Option<&str>) -> Event {
    Event {
        id: id.into(),
        title: format!("event {}", id),
        description: None,
        start: 100,
        end: None,
        contact: None,
        location: None,
        homepage: None,
        tags: tags.iter().map(|t| t.to_string()).collect(),
        created_by: created_by.map(|c| c.to_string()),
    }
}

fn user(name: &str, email: &str) -> User {
    User {
        id: name.into(),
        username: name.into(),
        password: "p".into(),
        email: email.into(),
        email_confirmed: true,
        role: Role::User,
    }
}

fn db_with_events() -> MockDb {
    let mut db = MockDb::new();
    db.events = vec![
        event("1", &["a", "b"], Some("alice")),
        event("2", &["c"], Some("bob")),
        event("3", &[], Some("alice")),
        event("4", &["b", "d"], None),
    ];
    db.users = vec![
        user("alice", "alice@example.org"),
        user("bob", "bob@example.org"),
        user("carol", "alice@example.org"),
    ];
    db.orgs = vec![Organization {
        id: "o".into(),
        name: "org".into(),
        owned_tags: vec![],
        api_token: "secret".into(),
    }];
    db
}

fn submission() -> NewEvent {
    NewEvent {
        title: "new title".into(),
        description: Some("about".into()),
        start: 5,
        end: Some(6),
        lat: None,
        lng: None,
        street: None,
        zip: None,
        city: None,
        country: None,
        email: None,
        telephone: None,
        homepage: None,
        tags: None,
        created_by: None,
        token: None,
    }
}

#[test]
fn query_without_conditions_gives_all_events() {
    let db = db_with_events();
    assert_eq!(query_events(&db, None, &None, None), Ok(db.events.clone()));
}

#[test]
fn query_by_tags_gives_events_with_one_of_them() {
    let db = db_with_events();
    let tags = Some(vec!["b".to_string(), "x".to_string()]);
    assert_eq!(
        query_events(&db, tags, &None, None),
        Ok(vec![
            event("1", &["a", "b"], Some("alice")),
            event("4", &["b", "d"], None)
        ])
    );
    assert_eq!(query_events(&db, Some(vec![]), &None, None), Ok(vec![]));
}

#[test]
fn query_by_creator_goes_by_the_first_account_with_the_address() {
    let db = db_with_events();
    assert_eq!(
        query_events(&db, None, &Some("alice@example.org".into()), None),
        Ok(vec![
            event("1", &["a", "b"], Some("alice")),
            event("3", &[], Some("alice"))
        ])
    );
    assert_eq!(
        query_events(
            &db,
            Some(vec!["a".into()]),
            &Some("alice@example.org".into()),
            None
        ),
        Ok(vec![event("1", &["a", "b"], Some("alice"))])
    );
    assert_eq!(
        query_events(&db, None, &Some("nobody@example.org".into()), None),
        Ok(vec![])
    );
}

#[test]
fn query_with_an_unknown_token_is_unauthorized() {
    let db = db_with_events();
    assert_eq!(
        query_events(&db, None, &None, Some("wrong".into())),
        Err(Error::Parameter(ParameterError::Unauthorized))
    );
    assert_eq!(
        query_events(&db, None, &None, Some("secret".into())),
        Ok(db.events.clone())
    );
}

#[test]
fn an_event_is_handed_out_with_the_address_of_its_creator() {
    let mut db = db_with_events();
    let mut expected = event("2", &["c"], Some("bob@example.org"));
    assert_eq!(get_event(&mut db, "2"), Ok(expected.clone()));
    expected = event("4", &["b", "d"], None);
    assert_eq!(get_event(&mut db, "4"), Ok(expected));
    assert_eq!(get_event(&mut db, "9"), Err(Error::Repo(RepoError::NotFound)));
    db.events.push(event("5", &[], Some("ghost")));
    assert_eq!(get_event(&mut db, "5"), Err(Error::Repo(RepoError::NotFound)));
}

#[test]
fn a_submission_becomes_an_event() {
    let mut db = db_with_events();
    let mut e = submission();
    e.lat = Some(12);
    e.city = Some("Town".into());
    e.telephone = Some("0123".into());
    e.homepage = Some("https://example.org".into());
    e.tags = Some(vec!["x".into(), "a".into()]);
    e.created_by = Some("bob@example.org".into());
    e.token = Some("secret".into());
    db.tags = vec![Tag { id: "a".into() }];
    assert_eq!(
        try_into_new_event(&mut db, e, "id".into()),
        Ok(Event {
            id: "id".into(),
            title: "new title".into(),
            description: Some("about".into()),
            start: 5,
            end: Some(6),
            contact: Some(Contact {
                email: None,
                telephone: Some("0123".into())
            }),
            location: Some(Location {
                lat: 12,
                lng: 0,
                address: Some(Address {
                    street: None,
                    zip: None,
                    city: Some("Town".into()),
                    country: None
                })
            }),
            homepage: Some("https://example.org".into()),
            tags: vec!["x".into(), "a".into()],
            created_by: Some("bob".into()),
        })
    );
    assert_eq!(db.tags, vec![Tag { id: "a".into() }, Tag { id: "x".into() }]);
}

#[test]
fn a_bare_submission_has_neither_contact_nor_location() {
    let mut db = MockDb::new();
    let event = try_into_new_event(&mut db, submission(), "id".into()).unwrap();
    assert_eq!(event.contact, None);
    assert_eq!(event.location, None);
    assert_eq!(event.created_by, None);
    assert!(event.tags.is_empty());
}

#[test]
fn an_event_is_replaced_under_its_identity() {
    let mut db = db_with_events();
    let mut e = submission();
    e.tags = Some(vec!["new".into()]);
    e.created_by = Some("alice@example.org".into());
    assert_eq!(update_event(&mut db, "2", e), Ok(()));
    assert_eq!(db.events.len(), 4);
    assert_eq!(db.get_event("2").unwrap().title, "new title");
    assert_eq!(db.get_event("2").unwrap().tags, vec!["new".to_string()]);
    assert_eq!(db.get_event("2").unwrap().created_by, Some("alice".to_string()));
    assert_eq!(db.tags, vec![Tag { id: "new".into() }]);
}

#[test]
fn an_update_of_an_event_can_be_refused() {
    let mut db = db_with_events();
    let before = db.events.clone();
    let mut e = submission();
    e.token = Some("wrong".into());
    e.tags = Some(vec!["new".into()]);
    assert_eq!(
        update_event(&mut db, "2", e),
        Err(Error::Parameter(ParameterError::Unauthorized))
    );
    let mut e = submission();
    e.created_by = Some("nobody@example.org".into());
    e.tags = Some(vec!["new".into()]);
    assert_eq!(
        update_event(&mut db, "2", e),
        Err(Error::Repo(RepoError::NotFound))
    );
    assert_eq!(db.events, before);
    assert!(db.tags.is_empty());
    // an event that is not stored is not found, its tags exist all the same
    let mut e = submission();
    e.tags = Some(vec!["new".into()]);
    assert_eq!(
        update_event(&mut db, "9", e),
        Err(Error::Repo(RepoError::NotFound))
    );
    assert_eq!(db.events, before);
    assert_eq!(db.tags, vec![Tag { id: "new".into() }]);
}
