use place_directory::db::Db;
use place_directory::entities::{Bbox, BboxSubscription, Coordinate, Role, User};
use place_directory::error::{Error, ParameterError, RepoError};
use place_directory::mock_db::MockDb;
use place_directory::usecases::subscriptions::{
    bbox_subscriptions_by_coordinate, email_addresses_from_subscriptions, subscribe_to_bbox,
    subscribe_to_bbox_as, unsubscribe_all_bboxes_by_username, validate_bbox, MAX_LAT, MAX_LNG,
};

/// Degrees as the library holds them: in units of 1e-7 degrees.
fn deg(degrees: f64) -> i64 {
    (degrees * 1e7).round() as i64
}

fn point(lat: f64, lng: f64) -> Coordinate {
    Coordinate {
        lat: deg(lat),
        lng: deg(lng),
    }
}

fn subscription(id: &str, username: &str, south_west: Coordinate, north_east: Coordinate) -> BboxSubscription {
    BboxSubscription {
        id: id.into(),
        bbox: Bbox {
            south_west,
            north_east,
        },
        username: username.into(),
    }
}

fn user(name: &str, email: &str) -> User {
    User {
        id: name.into(),
        username: name.into(),
        password: "p".into(),
        email: email.into(),
        email_confirmed: true,
        role: Role::Guest,
    }
}

#[test]
fn the_limits_of_the_globe_are_ninety_and_one_hundred_eighty_degrees() {
    assert_eq!(MAX_LAT, deg(90.0));
    assert_eq!(MAX_LNG, deg(180.0));
}

#[test]
fn a_box_is_valid_when_its_corners_are_on_the_globe() {
    let valid = Bbox {
        south_west: point(-90.0, -180.0),
        north_east: point(90.0, 180.0),
    };
    assert_eq!(validate_bbox(&valid), Ok(()));
    for corner in [
        point(90.1, 0.0),
        point(-90.1, 0.0),
        point(0.0, 180.1),
        point(0.0, -180.1),
    ] {
        let bbox = Bbox {
            south_west: point(0.0, 0.0),
            north_east: corner,
        };
        assert_eq!(validate_bbox(&bbox), Err(ParameterError::Bbox));
        let bbox = Bbox {
            south_west: corner,
            north_east: point(0.0, 0.0),
        };
        assert_eq!(validate_bbox(&bbox), Err(ParameterError::Bbox));
    }
}

#[test]
fn subscribing_needs_two_corners_on_the_globe() {
    let mut db = MockDb::new();
    db.bbox_subscriptions = vec![subscription("s", "a", point(0.0, 0.0), point(1.0, 1.0))];
    let before = db.bbox_subscriptions.clone();
    for corners in [
        vec![],
        vec![point(0.0, 0.0)],
        vec![point(0.0, 0.0), point(1.0, 1.0), point(2.0, 2.0)],
        vec![point(0.0, 0.0), point(91.0, 1.0)],
    ] {
        assert_eq!(
            subscribe_to_bbox(&corners, "a", &mut db),
            Err(Error::Parameter(ParameterError::Bbox))
        );
        assert_eq!(db.bbox_subscriptions, before);
    }
}

#[test]
fn subscribing_replaces_the_subscriptions_of_the_account() {
    let mut db = MockDb::new();
    db.bbox_subscriptions = vec![
        subscription("1", "a", point(0.0, 0.0), point(1.0, 1.0)),
        subscription("2", "b", point(0.0, 0.0), point(1.0, 1.0)),
        subscription("3", "a", point(2.0, 2.0), point(3.0, 3.0)),
    ];
    assert_eq!(
        subscribe_to_bbox_as(
            &[point(5.0, 6.0), point(7.0, 8.0)],
            "a",
            &mut db,
            "new".into()
        ),
        Ok(())
    );
    assert_eq!(
        db.bbox_subscriptions,
        vec![
            subscription("2", "b", point(0.0, 0.0), point(1.0, 1.0)),
            subscription("new", "a", point(5.0, 6.0), point(7.0, 8.0)),
        ]
    );
}

#[test]
fn subscribing_under_a_taken_identity_is_refused() {
    let mut db = MockDb::new();
    db.bbox_subscriptions = vec![
        subscription("1", "a", point(0.0, 0.0), point(1.0, 1.0)),
        subscription("2", "b", point(0.0, 0.0), point(1.0, 1.0)),
    ];
    assert_eq!(
        subscribe_to_bbox_as(
            &[point(5.0, 6.0), point(7.0, 8.0)],
            "a",
            &mut db,
            "2".into()
        ),
        Err(Error::Repo(RepoError::AlreadyExists))
    );
    assert_eq!(
        db.bbox_subscriptions,
        vec![subscription("2", "b", point(0.0, 0.0), point(1.0, 1.0))]
    );
}

#[test]
fn subscriptions_get_fresh_identities() {
    let mut db = MockDb::new();
    let corners = [point(0.0, 0.0), point(1.0, 1.0)];
    assert_eq!(subscribe_to_bbox(&corners, "a", &mut db), Ok(()));
    assert_eq!(subscribe_to_bbox(&corners, "b", &mut db), Ok(()));
    let all = db.all_bbox_subscriptions().unwrap();
    assert_eq!(all.len(), 2);
    assert_eq!(all[0].id.len(), 32);
    assert_ne!(all[0].id, all[1].id);
    assert_eq!(all[1].username, "b");
}

#[test]
fn unsubscribing_deletes_the_subscriptions_of_the_account() {
    let mut db = MockDb::new();
    db.bbox_subscriptions = vec![
        subscription("1", "a", point(0.0, 0.0), point(1.0, 1.0)),
        subscription("2", "b", point(0.0, 0.0), point(1.0, 1.0)),
        subscription("3", "a", point(2.0, 2.0), point(3.0, 3.0)),
        subscription("1", "c", point(2.0, 2.0), point(3.0, 3.0)),
    ];
    assert_eq!(unsubscribe_all_bboxes_by_username(&mut db, "a"), Ok(()));
    // a subscription that shares its identity with one of the account goes too
    assert_eq!(
        db.bbox_subscriptions,
        vec![subscription("2", "b", point(0.0, 0.0), point(1.0, 1.0))]
    );
    assert_eq!(unsubscribe_all_bboxes_by_username(&mut db, "a"), Ok(()));
    assert_eq!(db.bbox_subscriptions.len(), 1);
}

#[test]
fn subscribers_are_found_by_the_point_and_listed_by_address() {
    let mut db = MockDb::new();
    db.users = vec![
        user("a", "shared@example.org"),
        user("b", "shared@example.org"),
        user("c", "c@example.org"),
        user("d", "shared@example.org"),
        user("e", "e@example.org"),
    ];
    db.bbox_subscriptions = vec![
        subscription("1", "d", point(0.0, 0.0), point(10.0, 10.0)),
        subscription("2", "a", point(0.0, 0.0), point(10.0, 10.0)),
        subscription("3", "e", point(20.0, 20.0), point(30.0, 30.0)),
        subscription("4", "b", point(5.0, 5.0), point(6.0, 6.0)),
        subscription("5", "c", point(-5.0, -5.0), point(5.0, 5.0)),
    ];
    let at = point(5.0, 5.0);
    let subs = bbox_subscriptions_by_coordinate(&db, &at).unwrap();
    assert_eq!(
        subs.iter().map(|s| s.id.as_str()).collect::<Vec<_>>(),
        vec!["1", "2", "4", "5"]
    );
    assert_eq!(
        email_addresses_from_subscriptions(&db, &subs),
        Ok(vec![
            "shared@example.org".to_string(),
            "c@example.org".to_string(),
            "shared@example.org".to_string(),
        ])
    );
    assert_eq!(email_addresses_from_subscriptions(&db, &[]), Ok(vec![]));
}
