use place_directory::entities::{Category, Tag, User, Role};
use place_directory::identity::{triple_id, Id};
use place_directory::relation::{EntityKind, ObjectId, Relation, Triple};

#[test]
fn triple_id_joins_kinds_identities_and_predicate() {
    let t = Triple {
        subject: ObjectId::Entry("e1".into()),
        predicate: Relation::IsTaggedWith,
        object: ObjectId::Tag("food".into()),
    };
    assert_eq!(triple_id(&t), "entry-e1-is-tagged-with-tag-food");
    assert_eq!(t.id(), "entry-e1-is-tagged-with-tag-food");
}

#[test]
fn triple_id_names_every_kind() {
    let t = Triple {
        subject: ObjectId::User("u".into()),
        predicate: Relation::IsTaggedWith,
        object: ObjectId::Entry("e".into()),
    };
    assert_eq!(triple_id(&t), "user-u-is-tagged-with-entry-e");
    let t = Triple {
        subject: ObjectId::Tag("".into()),
        predicate: Relation::IsTaggedWith,
        object: ObjectId::User("".into()),
    };
    assert_eq!(triple_id(&t), "tag--is-tagged-with-user-");
}

#[test]
fn records_are_identified_by_their_id() {
    assert_eq!(Tag { id: "vegan".into() }.id(), "vegan");
    assert_eq!(
        Category {
            id: "c1".into(),
            name: "Initiative".into()
        }
        .id(),
        "c1"
    );
    let user = User {
        id: "7".into(),
        username: "alice".into(),
        password: "secret".into(),
        email: "alice@example.org".into(),
        email_confirmed: false,
        role: Role::Guest,
    };
    assert_eq!(user.id(), "7");
}

#[test]
fn references_are_equal_when_kind_and_identity_agree() {
    assert_eq!(ObjectId::Entry("a".into()), ObjectId::Entry("a".into()));
    assert_ne!(ObjectId::Entry("a".into()), ObjectId::Tag("a".into()));
    assert_ne!(ObjectId::Entry("a".into()), ObjectId::Entry("b".into()));
    assert_eq!(ObjectId::User("a".into()).kind(), EntityKind::User);
    assert_eq!(ObjectId::Tag("a".into()).clone(), ObjectId::Tag("a".into()));
}
