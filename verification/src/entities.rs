//! The records of the directory and what each of them stands for.
//!
//! Every record has a view that holds its strings as sequences of characters;
//! the contracts of the crate speak of records through these views.
//! Geographic coordinates are integers in units of 1e-7 degrees.

use vstd::prelude::*;

verus! {

/// A copy of a list of strings.
pub fn clone_strings(list: &Vec<String>) -> (copy: Vec<String>)
    ensures
        copy.deep_view() == list.deep_view(),
{
    let copy = list.clone();
    assert(copy.deep_view() =~= list.deep_view());
    copy
}

/// A copy of a string that may be absent.
pub fn clone_optional(text: &Option<String>) -> (copy: Option<String>)
    ensures
        copy.deep_view() == text.deep_view(),
{
    text.clone()
}

/// Whether the string is in the list.
pub fn contains_string(list: &[String], wanted: &String) -> (found: bool)
    ensures
        found == list.deep_view().contains(wanted@),
{
    let mut i: usize = 0;
    while i < list.len()
        invariant
            i <= list.len(),
            forall|j: int| 0 <= j < i ==> list.deep_view()[j] != wanted@,
        decreases list.len() - i,
    {
        if list[i] == *wanted {
            assert(list.deep_view()[i as int] == wanted@);
            return true;
        }
        i += 1;
    }
    false
}

/// What an account is allowed to do.
#[derive(Debug, Clone, Copy, PartialEq, Eq, Structural)]
pub enum Role {
    Guest,
    User,
    Scout,
    Admin,
}

/// A point on the map, in units of 1e-7 degrees.
#[derive(Debug, Clone, Copy, PartialEq, Eq, Structural)]
pub struct Coordinate {
    pub lat: i64,
    pub lng: i64,
}

/// A bounding box, given by two opposite corners.
#[derive(Debug, Clone, Copy, PartialEq, Eq, Structural)]
pub struct Bbox {
    pub north_east: Coordinate,
    pub south_west: Coordinate,
}

impl Bbox {
    /// Whether the point lies inside the box, corners and edges included.
    pub open spec fn contains(self, lat: i64, lng: i64) -> bool {
        &&& self.south_west.lat <= lat <= self.north_east.lat
        &&& self.south_west.lng <= lng <= self.north_east.lng
    }

    /// Whether the point lies inside the box, corners and edges included.
    pub fn is_in_bbox(&self, lat: i64, lng: i64) -> (inside: bool)
        ensures
            inside == self.contains(lat, lng),
    {
        lat >= self.south_west.lat && lng >= self.south_west.lng && lat <= self.north_east.lat
            && lng <= self.north_east.lng
    }
}

/// A tag: a free-form label that entries are annotated with.
#[derive(Debug, PartialEq, Eq)]
pub struct Tag {
    /// The label itself, which is also the tag's identity.
    pub id: String,
}

/// What a tag stands for.
pub struct TagView {
    pub id: Seq<char>,
}

impl DeepView for Tag {
    type V = TagView;

    open spec fn deep_view(&self) -> TagView {
        TagView {
            id: self.id@,
        }
    }
}

impl View for Tag {
    type V = TagView;

    open spec fn view(&self) -> TagView {
        self.deep_view()
    }
}

impl Clone for Tag {
    fn clone(&self) -> (copy: Self)
        ensures
            copy@ == self@,
    {
        Tag {
            id: self.id.clone(),
        }
    }
}

/// A category that entries are filed under.
#[derive(Debug, PartialEq, Eq)]
pub struct Category {
    pub id: String,
    pub name: String,
}

/// What a category stands for.
pub struct CategoryView {
    pub id: Seq<char>,
    pub name: Seq<char>,
}

impl DeepView for Category {
    type V = CategoryView;

    open spec fn deep_view(&self) -> CategoryView {
        CategoryView {
            id: self.id@,
            name: self.name@,
        }
    }
}

impl View for Category {
    type V = CategoryView;

    open spec fn view(&self) -> CategoryView {
        self.deep_view()
    }
}

impl Clone for Category {
    fn clone(&self) -> (copy: Self)
        ensures
            copy@ == self@,
    {
        Category {
            id: self.id.clone(),
            name: self.name.clone(),
        }
    }
}

/// An account.
#[derive(Debug, PartialEq, Eq)]
pub struct User {
    pub id: String,
    pub username: String,
    /// The password, hashed.
    pub password: String,
    pub email: String,
    pub email_confirmed: bool,
    pub role: Role,
}

/// What an account stands for.
pub struct UserView {
    pub id: Seq<char>,
    pub username: Seq<char>,
    pub password: Seq<char>,
    pub email: Seq<char>,
    pub email_confirmed: bool,
    pub role: Role,
}

impl DeepView for User {
    type V = UserView;

    open spec fn deep_view(&self) -> UserView {
        UserView {
            id: self.id@,
            username: self.username@,
            password: self.password@,
            email: self.email@,
            email_confirmed: self.email_confirmed,
            role: self.role,
        }
    }
}

impl View for User {
    type V = UserView;

    open spec fn view(&self) -> UserView {
        self.deep_view()
    }
}

impl Clone for User {
    fn clone(&self) -> (copy: Self)
        ensures
            copy@ == self@,
    {
        User {
            id: self.id.clone(),
            username: self.username.clone(),
            password: self.password.clone(),
            email: self.email.clone(),
            email_confirmed: self.email_confirmed,
            role: self.role,
        }
    }
}

/// A place of the directory.
#[derive(Debug, PartialEq, Eq)]
pub struct Entry {
    pub id: String,
    /// Seconds since the epoch at which the entry was created.
    pub created: u64,
    /// The number of updates applied since creation.
    pub version: u64,
    pub title: String,
    pub description: String,
    /// Latitude in units of 1e-7 degrees.
    pub lat: i64,
    /// Longitude in units of 1e-7 degrees.
    pub lng: i64,
    pub street: Option<String>,
    pub zip: Option<String>,
    pub city: Option<String>,
    pub country: Option<String>,
    pub email: Option<String>,
    pub telephone: Option<String>,
    pub homepage: Option<String>,
    pub categories: Vec<String>,
    pub tags: Vec<String>,
    pub license: Option<String>,
}

/// What an entry stands for.
pub struct EntryView {
    pub id: Seq<char>,
    pub created: u64,
    pub version: u64,
    pub title: Seq<char>,
    pub description: Seq<char>,
    pub lat: i64,
    pub lng: i64,
    pub street: Option<Seq<char>>,
    pub zip: Option<Seq<char>>,
    pub city: Option<Seq<char>>,
    pub country: Option<Seq<char>>,
    pub email: Option<Seq<char>>,
    pub telephone: Option<Seq<char>>,
    pub homepage: Option<Seq<char>>,
    pub categories: Seq<Seq<char>>,
    pub tags: Seq<Seq<char>>,
    pub license: Option<Seq<char>>,
}

impl DeepView for Entry {
    type V = EntryView;

    open spec fn deep_view(&self) -> EntryView {
        EntryView {
            id: self.id@,
            created: self.created,
            version: self.version,
            title: self.title@,
            description: self.description@,
            lat: self.lat,
            lng: self.lng,
            street: self.street.deep_view(),
            zip: self.zip.deep_view(),
            city: self.city.deep_view(),
            country: self.country.deep_view(),
            email: self.email.deep_view(),
            telephone: self.telephone.deep_view(),
            homepage: self.homepage.deep_view(),
            categories: self.categories.deep_view(),
            tags: self.tags.deep_view(),
            license: self.license.deep_view(),
        }
    }
}

impl View for Entry {
    type V = EntryView;

    open spec fn view(&self) -> EntryView {
        self.deep_view()
    }
}

impl Clone for Entry {
    fn clone(&self) -> (copy: Self)
        ensures
            copy@ == self@,
    {
        Entry {
            id: self.id.clone(),
            created: self.created,
            version: self.version,
            title: self.title.clone(),
            description: self.description.clone(),
            lat: self.lat,
            lng: self.lng,
            street: clone_optional(&self.street),
            zip: clone_optional(&self.zip),
            city: clone_optional(&self.city),
            country: clone_optional(&self.country),
            email: clone_optional(&self.email),
            telephone: clone_optional(&self.telephone),
            homepage: clone_optional(&self.homepage),
            categories: clone_strings(&self.categories),
            tags: clone_strings(&self.tags),
            license: clone_optional(&self.license),
        }
    }
}

/// How the organizer of an event is reached.
#[derive(Debug, PartialEq, Eq)]
pub struct Contact {
    pub email: Option<String>,
    pub telephone: Option<String>,
}

/// What a contact stands for.
pub struct ContactView {
    pub email: Option<Seq<char>>,
    pub telephone: Option<Seq<char>>,
}

impl DeepView for Contact {
    type V = ContactView;

    open spec fn deep_view(&self) -> ContactView {
        ContactView {
            email: self.email.deep_view(),
            telephone: self.telephone.deep_view(),
        }
    }
}

impl View for Contact {
    type V = ContactView;

    open spec fn view(&self) -> ContactView {
        self.deep_view()
    }
}

impl Clone for Contact {
    fn clone(&self) -> (copy: Self)
        ensures
            copy@ == self@,
    {
        Contact {
            email: clone_optional(&self.email),
            telephone: clone_optional(&self.telephone),
        }
    }
}

/// A postal address.
#[derive(Debug, PartialEq, Eq)]
pub struct Address {
    pub street: Option<String>,
    pub zip: Option<String>,
    pub city: Option<String>,
    pub country: Option<String>,
}

/// What an address stands for.
pub struct AddressView {
    pub street: Option<Seq<char>>,
    pub zip: Option<Seq<char>>,
    pub city: Option<Seq<char>>,
    pub country: Option<Seq<char>>,
}

impl DeepView for Address {
    type V = AddressView;

    open spec fn deep_view(&self) -> AddressView {
        AddressView {
            street: self.street.deep_view(),
            zip: self.zip.deep_view(),
            city: self.city.deep_view(),
            country: self.country.deep_view(),
        }
    }
}

impl View for Address {
    type V = AddressView;

    open spec fn view(&self) -> AddressView {
        self.deep_view()
    }
}

impl Clone for Address {
    fn clone(&self) -> (copy: Self)
        ensures
            copy@ == self@,
    {
        Address {
            street: clone_optional(&self.street),
            zip: clone_optional(&self.zip),
            city: clone_optional(&self.city),
            country: clone_optional(&self.country),
        }
    }
}

/// Where an event takes place.
#[derive(Debug, PartialEq, Eq)]
pub struct Location {
    /// Latitude in units of 1e-7 degrees.
    pub lat: i64,
    /// Longitude in units of 1e-7 degrees.
    pub lng: i64,
    pub address: Option<Address>,
}

/// What a location stands for.
pub struct LocationView {
    pub lat: i64,
    pub lng: i64,
    pub address: Option<AddressView>,
}

impl DeepView for Location {
    type V = LocationView;

    open spec fn deep_view(&self) -> LocationView {
        LocationView {
            lat: self.lat,
            lng: self.lng,
            address: self.address.deep_view(),
        }
    }
}

impl View for Location {
    type V = LocationView;

    open spec fn view(&self) -> LocationView {
        self.deep_view()
    }
}

impl Clone for Location {
    fn clone(&self) -> (copy: Self)
        ensures
            copy@ == self@,
    {
        Location {
            lat: self.lat,
            lng: self.lng,
            address: self.address.clone(),
        }
    }
}

/// An event of the directory.
#[derive(Debug, PartialEq, Eq)]
pub struct Event {
    pub id: String,
    pub title: String,
    pub description: Option<String>,
    pub start: u64,
    pub end: Option<u64>,
    pub contact: Option<Contact>,
    pub location: Option<Location>,
    pub homepage: Option<String>,
    pub tags: Vec<String>,
    /// The account that created the event: its user name in storage, its e-mail address when handed out.
    pub created_by: Option<String>,
}

/// What an event stands for.
pub struct EventView {
    pub id: Seq<char>,
    pub title: Seq<char>,
    pub description: Option<Seq<char>>,
    pub start: u64,
    pub end: Option<u64>,
    pub contact: Option<ContactView>,
    pub location: Option<LocationView>,
    pub homepage: Option<Seq<char>>,
    pub tags: Seq<Seq<char>>,
    pub created_by: Option<Seq<char>>,
}

impl DeepView for Event {
    type V = EventView;

    open spec fn deep_view(&self) -> EventView {
        EventView {
            id: self.id@,
            title: self.title@,
            description: self.description.deep_view(),
            start: self.start,
            end: self.end,
            contact: self.contact.deep_view(),
            location: self.location.deep_view(),
            homepage: self.homepage.deep_view(),
            tags: self.tags.deep_view(),
            created_by: self.created_by.deep_view(),
        }
    }
}

impl View for Event {
    type V = EventView;

    open spec fn view(&self) -> EventView {
        self.deep_view()
    }
}

impl Clone for Event {
    fn clone(&self) -> (copy: Self)
        ensures
            copy@ == self@,
    {
        Event {
            id: self.id.clone(),
            title: self.title.clone(),
            description: clone_optional(&self.description),
            start: self.start,
            end: self.end,
            contact: self.contact.clone(),
            location: self.location.clone(),
            homepage: clone_optional(&self.homepage),
            tags: clone_strings(&self.tags),
            created_by: clone_optional(&self.created_by),
        }
    }
}

/// A comment on a rating.
#[derive(Debug, PartialEq, Eq)]
pub struct Comment {
    pub id: String,
    pub created: u64,
    pub text: String,
    pub rating_id: String,
}

/// What a comment stands for.
pub struct CommentView {
    pub id: Seq<char>,
    pub created: u64,
    pub text: Seq<char>,
    pub rating_id: Seq<char>,
}

impl DeepView for Comment {
    type V = CommentView;

    open spec fn deep_view(&self) -> CommentView {
        CommentView {
            id: self.id@,
            created: self.created,
            text: self.text@,
            rating_id: self.rating_id@,
        }
    }
}

impl View for Comment {
    type V = CommentView;

    open spec fn view(&self) -> CommentView {
        self.deep_view()
    }
}

impl Clone for Comment {
    fn clone(&self) -> (copy: Self)
        ensures
            copy@ == self@,
    {
        Comment {
            id: self.id.clone(),
            created: self.created,
            text: self.text.clone(),
            rating_id: self.rating_id.clone(),
        }
    }
}

/// A rating of an entry.
#[derive(Debug, PartialEq, Eq)]
pub struct Rating {
    pub id: String,
    pub entry_id: String,
    pub created: u64,
    pub title: String,
    pub value: i8,
    pub source: Option<String>,
}

/// What a rating stands for.
pub struct RatingView {
    pub id: Seq<char>,
    pub entry_id: Seq<char>,
    pub created: u64,
    pub title: Seq<char>,
    pub value: i8,
    pub source: Option<Seq<char>>,
}

impl DeepView for Rating {
    type V = RatingView;

    open spec fn deep_view(&self) -> RatingView {
        RatingView {
            id: self.id@,
            entry_id: self.entry_id@,
            created: self.created,
            title: self.title@,
            value: self.value,
            source: self.source.deep_view(),
        }
    }
}

impl View for Rating {
    type V = RatingView;

    open spec fn view(&self) -> RatingView {
        self.deep_view()
    }
}

impl Clone for Rating {
    fn clone(&self) -> (copy: Self)
        ensures
            copy@ == self@,
    {
        Rating {
            id: self.id.clone(),
            entry_id: self.entry_id.clone(),
            created: self.created,
            title: self.title.clone(),
            value: self.value,
            source: clone_optional(&self.source),
        }
    }
}

/// A subscription of an account to what happens inside a bounding box.
#[derive(Debug, PartialEq, Eq)]
pub struct BboxSubscription {
    pub id: String,
    pub bbox: Bbox,
    pub username: String,
}

/// What a subscription stands for.
pub struct BboxSubscriptionView {
    pub id: Seq<char>,
    pub bbox: Bbox,
    pub username: Seq<char>,
}

impl DeepView for BboxSubscription {
    type V = BboxSubscriptionView;

    open spec fn deep_view(&self) -> BboxSubscriptionView {
        BboxSubscriptionView {
            id: self.id@,
            bbox: self.bbox,
            username: self.username@,
        }
    }
}

impl View for BboxSubscription {
    type V = BboxSubscriptionView;

    open spec fn view(&self) -> BboxSubscriptionView {
        self.deep_view()
    }
}

impl Clone for BboxSubscription {
    fn clone(&self) -> (copy: Self)
        ensures
            copy@ == self@,
    {
        BboxSubscription {
            id: self.id.clone(),
            bbox: self.bbox,
            username: self.username.clone(),
        }
    }
}

/// An organization that owns tags and may act through an API token.
#[derive(Debug, PartialEq, Eq)]
pub struct Organization {
    pub id: String,
    pub name: String,
    pub owned_tags: Vec<String>,
    pub api_token: String,
}

/// What an organization stands for.
pub struct OrganizationView {
    pub id: Seq<char>,
    pub name: Seq<char>,
    pub owned_tags: Seq<Seq<char>>,
    pub api_token: Seq<char>,
}

impl DeepView for Organization {
    type V = OrganizationView;

    open spec fn deep_view(&self) -> OrganizationView {
        OrganizationView {
            id: self.id@,
            name: self.name@,
            owned_tags: self.owned_tags.deep_view(),
            api_token: self.api_token@,
        }
    }
}

impl View for Organization {
    type V = OrganizationView;

    open spec fn view(&self) -> OrganizationView {
        self.deep_view()
    }
}

impl Clone for Organization {
    fn clone(&self) -> (copy: Self)
        ensures
            copy@ == self@,
    {
        Organization {
            id: self.id.clone(),
            name: self.name.clone(),
            owned_tags: clone_strings(&self.owned_tags),
            api_token: self.api_token.clone(),
        }
    }
}

} // verus!
