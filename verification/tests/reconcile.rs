use place_directory::db::Db;
use place_directory::entities::Tag;
use place_directory::error::{Error, RepoError};
use place_directory::mock_db::MockDb;
use place_directory::reconcile::set_tag_relations;
use place_directory::relation::{ObjectId, Relation, Triple};
use place_directory::tagging::create_missing_tags;

fn tagging(entry: &str, tag: &str) -> Triple {
    Triple {
        subject: ObjectId::Entry(entry.into()),
        predicate: Relation::IsTaggedWith,
        object: ObjectId::Tag(tag.into()),
    }
}

fn names(list: &[&str]) -> Vec<String> {
    list.iter().map(|s| s.to_string()).collect()
}

fn tag(name: &str) -> Tag {
    Tag { id: name.into() }
}

#[test]
fn reconciling_tags_an_entry_and_makes_the_tags() {
    let mut db = MockDb::new();
    assert_eq!(set_tag_relations(&mut db, "e1", &names(&["food", "vegan"])), Ok(()));
    assert_eq!(db.triples, vec![tagging("e1", "food"), tagging("e1", "vegan")]);
    assert_eq!(db.tags, vec![tag("food"), tag("vegan")]);

    assert_eq!(set_tag_relations(&mut db, "e1", &names(&["vegan"])), Ok(()));
    assert_eq!(db.triples, vec![tagging("e1", "vegan")]);
    assert_eq!(db.tags, vec![tag("food"), tag("vegan")]);
}

#[test]
fn reconciling_twice_changes_nothing_the_second_time() {
    let mut db = MockDb::new();
    db.triples = vec![tagging("e1", "old"), tagging("e2", "other")];
    db.tags = vec![tag("old"), tag("other")];
    let wanted = names(&["a", "b", "a"]);
    assert_eq!(set_tag_relations(&mut db, "e1", &wanted), Ok(()));
    let triples = db.triples.clone();
    let tags = db.tags.clone();
    assert_eq!(
        triples,
        vec![tagging("e2", "other"), tagging("e1", "a"), tagging("e1", "b")]
    );
    assert_eq!(tags, vec![tag("old"), tag("other"), tag("a"), tag("b")]);
    assert_eq!(set_tag_relations(&mut db, "e1", &wanted), Ok(()));
    assert_eq!(db.triples, triples);
    assert_eq!(db.tags, tags);
}

#[test]
fn reconciling_with_no_tags_clears_the_entry() {
    let mut db = MockDb::new();
    db.triples = vec![
        tagging("e1", "a"),
        tagging("e2", "a"),
        tagging("e1", "b"),
        Triple {
            subject: ObjectId::User("e1".into()),
            predicate: Relation::IsTaggedWith,
            object: ObjectId::Tag("a".into()),
        },
    ];
    assert_eq!(set_tag_relations(&mut db, "e1", &[]), Ok(()));
    assert_eq!(
        db.triples,
        vec![
            tagging("e2", "a"),
            Triple {
                subject: ObjectId::User("e1".into()),
                predicate: Relation::IsTaggedWith,
                object: ObjectId::Tag("a".into()),
            },
        ]
    );
    assert!(db.tags.is_empty());
}

#[test]
fn reconciling_removes_stored_duplicates_of_unwanted_relations() {
    let mut db = MockDb::new();
    db.triples = vec![tagging("e1", "a"), tagging("e1", "a"), tagging("e1", "b")];
    assert_eq!(set_tag_relations(&mut db, "e1", &names(&["b"])), Ok(()));
    assert_eq!(db.triples, vec![tagging("e1", "b")]);
}

#[test]
fn materializing_twice_creates_each_tag_once() {
    let mut db = MockDb::new();
    assert_eq!(create_missing_tags(&mut db, &names(&["a", "b"])), Ok(()));
    assert_eq!(create_missing_tags(&mut db, &names(&["a", "b"])), Ok(()));
    assert_eq!(db.tags, vec![tag("a"), tag("b")]);
}

#[test]
fn materializing_a_name_twice_in_one_list_is_no_failure() {
    let mut db = MockDb::new();
    db.tags = vec![tag("x")];
    assert_eq!(create_missing_tags(&mut db, &names(&["a", "x", "a", "b"])), Ok(()));
    assert_eq!(db.tags, vec![tag("x"), tag("a"), tag("b")]);
}

#[test]
fn materializing_matches_names_exactly() {
    let mut db = MockDb::new();
    db.tags = vec![tag("Food")];
    assert_eq!(create_missing_tags(&mut db, &names(&["food", "Food", ""])), Ok(()));
    assert_eq!(db.tags, vec![tag("Food"), tag("food"), tag("")]);
}

#[test]
fn creating_a_tag_that_exists_is_refused_by_the_storage() {
    let mut db = MockDb::new();
    assert_eq!(db.create_tag(&tag("a")), Ok(()));
    assert_eq!(db.create_tag(&tag("a")), Err(RepoError::AlreadyExists));
    assert_eq!(db.create_tag_if_it_does_not_exist(&tag("a")), Ok(()));
    assert_eq!(db.tags, vec![tag("a")]);
}

/// A storage that fails on its own once a number of changes have been made.
struct Failing {
    inner: MockDb,
    changes_left: usize,
    failure: RepoError,
}

impl Failing {
    fn change(&mut self) -> Result<(), RepoError> {
        if self.changes_left == 0 {
            return Err(self.failure);
        }
        self.changes_left -= 1;
        Ok(())
    }
}

impl Db for Failing {
    fn store(&self) -> place_directory::store::Store {
        unreachable!()
    }
    fn reliable(&self) -> bool {
        unreachable!()
    }
    fn own_failure(&self) -> RepoError {
        unreachable!()
    }
    fn create_entry(&mut self, e: place_directory::entities::Entry) -> Result<(), RepoError> {
        self.change()?;
        self.inner.create_entry(e)
    }
    fn get_entry(&self, id: &str) -> Result<place_directory::entities::Entry, RepoError> {
        self.inner.get_entry(id)
    }
    fn all_entries(&self) -> Result<Vec<place_directory::entities::Entry>, RepoError> {
        self.inner.all_entries()
    }
    fn update_entry(&mut self, e: &place_directory::entities::Entry) -> Result<(), RepoError> {
        self.change()?;
        self.inner.update_entry(e)
    }
    fn get_event(&self, id: &str) -> Result<place_directory::entities::Event, RepoError> {
        self.inner.get_event(id)
    }
    fn all_events(&self) -> Result<Vec<place_directory::entities::Event>, RepoError> {
        self.inner.all_events()
    }
    fn update_event(&mut self, e: &place_directory::entities::Event) -> Result<(), RepoError> {
        self.change()?;
        self.inner.update_event(e)
    }
    fn create_user(&mut self, u: place_directory::entities::User) -> Result<(), RepoError> {
        self.change()?;
        self.inner.create_user(u)
    }
    fn get_user(&self, username: &str) -> Result<place_directory::entities::User, RepoError> {
        self.inner.get_user(username)
    }
    fn all_users(&self) -> Result<Vec<place_directory::entities::User>, RepoError> {
        self.inner.all_users()
    }
    fn delete_user(&mut self, u_id: &str) -> Result<(), RepoError> {
        self.change()?;
        self.inner.delete_user(u_id)
    }
    fn get_org_by_api_token(
        &self,
        token: &str,
    ) -> Result<place_directory::entities::Organization, RepoError> {
        self.inner.get_org_by_api_token(token)
    }
    fn all_tags(&self) -> Result<Vec<Tag>, RepoError> {
        self.inner.all_tags()
    }
    fn create_tag(&mut self, t: &Tag) -> Result<(), RepoError> {
        self.change()?;
        self.inner.create_tag(t)
    }
    fn create_tag_if_it_does_not_exist(&mut self, t: &Tag) -> Result<(), RepoError> {
        self.change()?;
        self.inner.create_tag_if_it_does_not_exist(t)
    }
    fn all_triples(&self) -> Result<Vec<Triple>, RepoError> {
        self.inner.all_triples()
    }
    fn create_triple(&mut self, t: &Triple) -> Result<(), RepoError> {
        self.change()?;
        self.inner.create_triple(t)
    }
    fn delete_triple(&mut self, t: &Triple) -> Result<(), RepoError> {
        self.change()?;
        self.inner.delete_triple(t)
    }
    fn all_bbox_subscriptions(
        &self,
    ) -> Result<Vec<place_directory::entities::BboxSubscription>, RepoError> {
        self.inner.all_bbox_subscriptions()
    }
    fn create_bbox_subscription(
        &mut self,
        s: &place_directory::entities::BboxSubscription,
    ) -> Result<(), RepoError> {
        self.change()?;
        self.inner.create_bbox_subscription(s)
    }
    fn delete_bbox_subscription(&mut self, s_id: &str) -> Result<(), RepoError> {
        self.change()?;
        self.inner.delete_bbox_subscription(s_id)
    }
}

#[test]
fn a_failure_of_the_storage_ends_the_reconciliation_where_it_stands() {
    let mut inner = MockDb::new();
    inner.triples = vec![tagging("e1", "old")];
    inner.tags = vec![tag("old")];
    // two tags and one relation can be written, the second relation fails
    let mut db = Failing {
        inner,
        changes_left: 3,
        failure: RepoError::Other,
    };
    let res = set_tag_relations(&mut db, "e1", &names(&["a", "b"]));
    assert_eq!(res, Err(Error::Repo(RepoError::Other)));
    assert_eq!(db.inner.tags, vec![tag("old"), tag("a"), tag("b")]);
    assert_eq!(db.inner.triples, vec![tagging("e1", "old"), tagging("e1", "a")]);

    // trying again completes what is left to do
    db.changes_left = 10;
    assert_eq!(set_tag_relations(&mut db, "e1", &names(&["a", "b"])), Ok(()));
    assert_eq!(db.inner.tags, vec![tag("old"), tag("a"), tag("b")]);
    assert_eq!(db.inner.triples, vec![tagging("e1", "a"), tagging("e1", "b")]);
}

#[test]
fn a_failure_of_the_storage_ends_the_materialization_where_it_stands() {
    let mut db = Failing {
        inner: MockDb::new(),
        changes_left: 1,
        failure: RepoError::Other,
    };
    let res = create_missing_tags(&mut db, &names(&["a", "b", "c"]));
    assert_eq!(res, Err(Error::Repo(RepoError::Other)));
    assert_eq!(db.inner.tags, vec![tag("a")]);
}

#[test]
fn a_failure_of_the_storage_is_handed_back_in_kind() {
    for failure in [RepoError::Other, RepoError::InvalidVersion] {
        for changes_left in 0..4 {
            let mut inner = MockDb::new();
            inner.triples = vec![tagging("e1", "old")];
            let mut db = Failing {
                inner,
                changes_left,
                failure,
            };
            // two tags, two creations and one deletion are to be made
            assert_eq!(
                set_tag_relations(&mut db, "e1", &names(&["a", "b"])),
                Err(Error::Repo(failure))
            );
            assert_eq!(db.changes_left, 0);
        }
        let mut db = Failing {
            inner: MockDb::new(),
            changes_left: 0,
            failure,
        };
        assert_eq!(
            create_missing_tags(&mut db, &names(&["a"])),
            Err(Error::Repo(failure))
        );
        assert!(db.inner.tags.is_empty());
    }
}

#[test]
fn nothing_is_asked_of_the_storage_once_it_has_failed() {
    let mut inner = MockDb::new();
    inner.triples = vec![tagging("e1", "old")];
    let mut db = Failing {
        inner,
        changes_left: 2,
        failure: RepoError::Other,
    };
    assert_eq!(
        set_tag_relations(&mut db, "e1", &names(&["a", "b"])),
        Err(Error::Repo(RepoError::Other))
    );
    // both tags are made, the first relation fails, the old one is still there
    assert_eq!(db.inner.tags, vec![tag("a"), tag("b")]);
    assert_eq!(db.inner.triples, vec![tagging("e1", "old")]);
}
