//! The identity resolver: one identity string for every kind of record.

use vstd::prelude::*;
use crate::entities::{
    BboxSubscription, BboxSubscriptionView, Category, CategoryView, Comment, CommentView, Entry,
    EntryView, Event, EventView, Organization, OrganizationView, Rating, RatingView, Tag, TagView,
    User, UserView,
};
use crate::relation::{EntityKind, ObjectId, Relation, Triple, TripleView};

verus! {

/// A record that has an identity.
///
/// The identity depends on nothing but what the record stands for, so two
/// records with the same view have the same identity.
pub trait Id: DeepView {
    /// The identity, read from what the record stands for.
    spec fn identity(record: Self::V) -> Seq<char>;

    /// The identity of this record.
    fn id(&self) -> (id: String)
        ensures
            id@ == Self::identity(self.deep_view()),
    ;
}

impl Id for Entry {
    open spec fn identity(record: EntryView) -> Seq<char> {
        record.id
    }

    fn id(&self) -> (id: String) {
        self.id.clone()
    }
}

impl Id for Category {
    open spec fn identity(record: CategoryView) -> Seq<char> {
        record.id
    }

    fn id(&self) -> (id: String) {
        self.id.clone()
    }
}

impl Id for Tag {
    open spec fn identity(record: TagView) -> Seq<char> {
        record.id
    }

    fn id(&self) -> (id: String) {
        self.id.clone()
    }
}

impl Id for User {
    open spec fn identity(record: UserView) -> Seq<char> {
        record.id
    }

    fn id(&self) -> (id: String) {
        self.id.clone()
    }
}

impl Id for Event {
    open spec fn identity(record: EventView) -> Seq<char> {
        record.id
    }

    fn id(&self) -> (id: String) {
        self.id.clone()
    }
}

impl Id for Comment {
    open spec fn identity(record: CommentView) -> Seq<char> {
        record.id
    }

    fn id(&self) -> (id: String) {
        self.id.clone()
    }
}

impl Id for Rating {
    open spec fn identity(record: RatingView) -> Seq<char> {
        record.id
    }

    fn id(&self) -> (id: String) {
        self.id.clone()
    }
}

impl Id for BboxSubscription {
    open spec fn identity(record: BboxSubscriptionView) -> Seq<char> {
        record.id
    }

    fn id(&self) -> (id: String) {
        self.id.clone()
    }
}

impl Id for Organization {
    open spec fn identity(record: OrganizationView) -> Seq<char> {
        record.id
    }

    fn id(&self) -> (id: String) {
        self.id.clone()
    }
}

/// The name under which a kind of entity appears in an identity.
pub open spec fn kind_name(kind: EntityKind) -> Seq<char> {
    match kind {
        EntityKind::Entry => "entry"@,
        EntityKind::Tag => "tag"@,
        EntityKind::User => "user"@,
    }
}

/// The name under which a predicate appears in an identity.
pub open spec fn predicate_name(predicate: Relation) -> Seq<char> {
    match predicate {
        Relation::IsTaggedWith => "is-tagged-with"@,
    }
}

/// The identity of a relation: kind and identity of the subject, the
/// predicate, kind and identity of the object, joined by hyphens.
pub open spec fn triple_identity(triple: TripleView) -> Seq<char> {
    kind_name(triple.subject.kind) + "-"@ + triple.subject.id + "-"@ + predicate_name(
        triple.predicate,
    ) + "-"@ + kind_name(triple.object.kind) + "-"@ + triple.object.id
}

/// The name of the kind of a reference, and the identity it holds.
fn kind_and_id(object: &ObjectId) -> (parts: (&'static str, &String))
    ensures
        parts.0@ == kind_name(object@.kind),
        parts.1@ == object@.id,
{
    match object {
        ObjectId::Entry(id) => ("entry", id),
        ObjectId::Tag(id) => ("tag", id),
        ObjectId::User(id) => ("user", id),
    }
}

/// The identity of a relation.
pub fn triple_id(t: &Triple) -> (id: String)
    ensures
        id@ == triple_identity(t@),
{
    let (s_type, s_id) = kind_and_id(&t.subject);
    let (o_type, o_id) = kind_and_id(&t.object);
    let p_type = match t.predicate {
        Relation::IsTaggedWith => "is-tagged-with",
    };
    let mut id = String::from_str(s_type);
    id.append("-");
    id.append(s_id.as_str());
    id.append("-");
    id.append(p_type);
    id.append("-");
    id.append(o_type);
    id.append("-");
    id.append(o_id.as_str());
    id
}

impl Id for Triple {
    open spec fn identity(record: TripleView) -> Seq<char> {
        triple_identity(record)
    }

    fn id(&self) -> (id: String) {
        triple_id(self)
    }
}

/// Whether the text holds no hyphen.
pub open spec fn hyphen_free(text: Seq<char>) -> bool {
    forall|i: int| 0 <= i < text.len() ==> text[i] != '-'
}

/// Two texts that begin alike and are equal end alike.
proof fn lemma_same_beginning(begin: Seq<char>, end: Seq<char>, other_end: Seq<char>)
    requires
        begin + end == begin + other_end,
    ensures
        end == other_end,
{
    let whole = begin + end;
    let other = begin + other_end;
    assert(whole.len() == begin.len() + end.len());
    assert(other.len() == begin.len() + other_end.len());
    assert forall|i: int| 0 <= i < end.len() implies end[i] == other_end[i] by {
        assert(whole[begin.len() + i] == end[i]);
        assert(other[begin.len() + i] == other_end[i]);
    }
    assert(end =~= other_end);
}

/// A text is cut at its first hyphen in one way only.
proof fn lemma_first_hyphen(
    head: Seq<char>,
    tail: Seq<char>,
    other_head: Seq<char>,
    other_tail: Seq<char>,
)
    requires
        hyphen_free(head),
        hyphen_free(other_head),
        head + (seq!['-'] + tail) == other_head + (seq!['-'] + other_tail),
    ensures
        head == other_head,
        tail == other_tail,
{
    let whole = head + (seq!['-'] + tail);
    let other = other_head + (seq!['-'] + other_tail);
    assert(whole[head.len() as int] == '-');
    assert(other[other_head.len() as int] == '-');
    if head.len() < other_head.len() {
        assert(other[head.len() as int] == other_head[head.len() as int]);
    }
    if other_head.len() < head.len() {
        assert(whole[other_head.len() as int] == head[other_head.len() as int]);
    }
    assert forall|i: int| 0 <= i < head.len() implies head[i] == other_head[i] by {
        assert(whole[i] == head[i]);
        assert(other[i] == other_head[i]);
    }
    assert(head =~= other_head);
    lemma_same_beginning(head, seq!['-'] + tail, seq!['-'] + other_tail);
    lemma_same_beginning(seq!['-'], tail, other_tail);
}

/// A text that begins with the name of a kind begins with the name of one
/// kind only: the names begin with different letters.
proof fn lemma_kind_by_first_letter(
    kind: EntityKind,
    rest: Seq<char>,
    other_kind: EntityKind,
    other_rest: Seq<char>,
)
    requires
        kind_name(kind) + rest == kind_name(other_kind) + other_rest,
    ensures
        kind == other_kind,
        rest == other_rest,
{
    reveal_strlit("entry");
    reveal_strlit("tag");
    reveal_strlit("user");
    assert((kind_name(kind) + rest)[0] == kind_name(kind)[0]);
    assert((kind_name(other_kind) + other_rest)[0] == kind_name(other_kind)[0]);
    assert(kind == other_kind);
    lemma_same_beginning(kind_name(kind), rest, other_rest);
}

/// The identity of a relation, read from the right: each part followed by
/// what comes after it.
spec fn identity_by_parts(triple: TripleView) -> Seq<char> {
    kind_name(triple.subject.kind) + (seq!['-'] + (triple.subject.id + (seq!['-'] + (
    predicate_name(triple.predicate) + (seq!['-'] + (kind_name(triple.object.kind) + (seq!['-']
        + triple.object.id)))))))
}

/// Read from the right or from the left, the identity is the same.
proof fn lemma_identity_by_parts(triple: TripleView)
    ensures
        triple_identity(triple) == identity_by_parts(triple),
{
    reveal_strlit("-");
    assert("-"@ =~= seq!['-']);
    assert(triple_identity(triple) =~= identity_by_parts(triple));
}

/// Relations whose subjects have identities without hyphens have different
/// identities unless they are the same relation.
///
/// A hyphen in the identity of a subject can make two relations look alike:
/// the entry `a-is-tagged-with-tag-b` tagged with `c` has the identity of the
/// entry `a` tagged with `b-is-tagged-with-tag-c`.
pub proof fn lemma_triple_identity_injective(a: TripleView, b: TripleView)
    requires
        hyphen_free(a.subject.id),
        hyphen_free(b.subject.id),
        triple_identity(a) == triple_identity(b),
    ensures
        a == b,
{
    lemma_identity_by_parts(a);
    lemma_identity_by_parts(b);
    let hyphen = seq!['-'];
    let predicate = predicate_name(a.predicate);
    let a_object = kind_name(a.object.kind) + (hyphen + a.object.id);
    let b_object = kind_name(b.object.kind) + (hyphen + b.object.id);
    let a_tail = predicate + (hyphen + a_object);
    let b_tail = predicate + (hyphen + b_object);
    let a_subject = a.subject.id + (hyphen + a_tail);
    let b_subject = b.subject.id + (hyphen + b_tail);
    lemma_kind_by_first_letter(
        a.subject.kind,
        hyphen + a_subject,
        b.subject.kind,
        hyphen + b_subject,
    );
    lemma_same_beginning(hyphen, a_subject, b_subject);
    lemma_first_hyphen(a.subject.id, a_tail, b.subject.id, b_tail);
    lemma_same_beginning(predicate, hyphen + a_object, hyphen + b_object);
    lemma_same_beginning(hyphen, a_object, b_object);
    lemma_kind_by_first_letter(
        a.object.kind,
        hyphen + a.object.id,
        b.object.kind,
        hyphen + b.object.id,
    );
    lemma_same_beginning(hyphen, a.object.id, b.object.id);
}

} // verus!
