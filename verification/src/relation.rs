//! Relations between entities, held as subject-predicate-object triples.

use vstd::prelude::*;

verus! {

/// The kinds of entity that a relation can join.
#[derive(Debug, Clone, Copy, PartialEq, Eq, Structural)]
pub enum EntityKind {
    Entry,
    Tag,
    User,
}

/// A reference to an entity: its kind and its identity.
#[derive(Debug, Eq)]
pub enum ObjectId {
    Entry(String),
    Tag(String),
    User(String),
}

/// What a reference stands for: the kind of the entity and its identity.
pub struct ObjectIdView {
    pub kind: EntityKind,
    pub id: Seq<char>,
}

impl DeepView for ObjectId {
    type V = ObjectIdView;

    open spec fn deep_view(&self) -> ObjectIdView {
        match self {
            ObjectId::Entry(id) => ObjectIdView { kind: EntityKind::Entry, id: id@ },
            ObjectId::Tag(id) => ObjectIdView { kind: EntityKind::Tag, id: id@ },
            ObjectId::User(id) => ObjectIdView { kind: EntityKind::User, id: id@ },
        }
    }
}

impl View for ObjectId {
    type V = ObjectIdView;

    open spec fn view(&self) -> ObjectIdView {
        self.deep_view()
    }
}

impl Clone for ObjectId {
    fn clone(&self) -> (copy: Self)
        ensures
            copy@ == self@,
    {
        match self {
            ObjectId::Entry(id) => ObjectId::Entry(id.clone()),
            ObjectId::Tag(id) => ObjectId::Tag(id.clone()),
            ObjectId::User(id) => ObjectId::User(id.clone()),
        }
    }
}

impl PartialEq for ObjectId {
    /// Two references are equal when kind and identity agree.
    fn eq(&self, other: &ObjectId) -> (equal: bool) {
        match (self, other) {
            (ObjectId::Entry(a), ObjectId::Entry(b)) => *a == *b,
            (ObjectId::Tag(a), ObjectId::Tag(b)) => *a == *b,
            (ObjectId::User(a), ObjectId::User(b)) => *a == *b,
            _ => false,
        }
    }
}

impl vstd::std_specs::cmp::PartialEqSpecImpl for ObjectId {
    open spec fn obeys_eq_spec() -> bool {
        true
    }

    open spec fn eq_spec(&self, other: &ObjectId) -> bool {
        self@ == other@
    }
}

impl ObjectId {
    /// The kind of entity that is referred to.
    pub fn kind(&self) -> (kind: EntityKind)
        ensures
            kind == self@.kind,
    {
        match self {
            ObjectId::Entry(_) => EntityKind::Entry,
            ObjectId::Tag(_) => EntityKind::Tag,
            ObjectId::User(_) => EntityKind::User,
        }
    }

}

/// The predicates that a relation can assert.
#[derive(Debug, Clone, Copy, PartialEq, Eq, Structural)]
pub enum Relation {
    IsTaggedWith,
}

/// A relation: the subject stands in the predicate's relation to the object.
#[derive(Debug, Eq)]
pub struct Triple {
    pub subject: ObjectId,
    pub predicate: Relation,
    pub object: ObjectId,
}

/// What a triple asserts.
pub struct TripleView {
    pub subject: ObjectIdView,
    pub predicate: Relation,
    pub object: ObjectIdView,
}

impl DeepView for Triple {
    type V = TripleView;

    open spec fn deep_view(&self) -> TripleView {
        TripleView { subject: self.subject@, predicate: self.predicate, object: self.object@ }
    }
}

impl View for Triple {
    type V = TripleView;

    open spec fn view(&self) -> TripleView {
        self.deep_view()
    }
}

impl Clone for Triple {
    fn clone(&self) -> (copy: Self)
        ensures
            copy@ == self@,
    {
        Triple {
            subject: self.subject.clone(),
            predicate: self.predicate,
            object: self.object.clone(),
        }
    }
}

impl PartialEq for Triple {
    /// Two triples are equal when subject, predicate and object agree.
    fn eq(&self, other: &Triple) -> (equal: bool) {
        self.subject == other.subject && self.predicate == other.predicate
            && self.object == other.object
    }
}

impl vstd::std_specs::cmp::PartialEqSpecImpl for Triple {
    open spec fn obeys_eq_spec() -> bool {
        true
    }

    open spec fn eq_spec(&self, other: &Triple) -> bool {
        self@ == other@
    }
}


} // verus!
