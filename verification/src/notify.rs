//! What subscribers are told when an entry is created or changed.
//!
//! The functions here decide who is told, under which subject, and which
//! categories are named. Writing the message and sending it is left to the
//! caller.

use vstd::prelude::*;
use crate::entities::{contains_string, Category, CategoryView};
use crate::sequences::{lemma_filter_empty, lemma_filter_next};
use crate::usecases::entries::{NewEntry, UpdateEntry};

verus! {

/// A notification that is to be sent.
#[derive(Debug)]
pub struct Notification {
    /// The e-mail addresses that the notification goes to, one mail each.
    pub recipients: Vec<String>,
    /// The subject line.
    pub subject: String,
    /// The identity of the entry that the notification is about.
    pub entry_id: String,
    /// The names of the categories of the entry.
    pub categories: Vec<String>,
}

/// The test for having one of the identities.
pub open spec fn category_among(ids: Seq<Seq<char>>) -> spec_fn(CategoryView) -> bool {
    |category: CategoryView| ids.contains(category.id)
}

/// The names of the categories, in their order.
pub open spec fn names_of(categories: Seq<CategoryView>) -> Seq<Seq<char>> {
    Seq::new(categories.len(), |i: int| categories[i].name)
}

/// The names of the categories that have one of the identities, in the
/// order of the categories.
pub open spec fn category_names(all: Seq<CategoryView>, ids: Seq<Seq<char>>) -> Seq<Seq<char>> {
    names_of(all.filter(category_among(ids)))
}

/// The names of the categories that have one of the identities.
fn names_of_categories(all_categories: &Vec<Category>, ids: &Vec<String>) -> (names: Vec<String>)
    ensures
        names.deep_view() == category_names(all_categories.deep_view(), ids.deep_view()),
{
    let ghost all = all_categories.deep_view();
    let ghost test = category_among(ids.deep_view());
    let mut names: Vec<String> = Vec::new();
    let mut i: usize = 0;
    proof {
        lemma_filter_empty(test);
        assert(all.take(0) =~= Seq::empty());
        assert(names.deep_view() =~= names_of(Seq::empty()));
    }
    while i < all_categories.len()
        invariant
            i <= all_categories.len(),
            all == all_categories.deep_view(),
            test == category_among(ids.deep_view()),
            names.deep_view() == names_of(all.take(i as int).filter(test)),
        decreases all_categories.len() - i,
    {
        let ghost before = names.deep_view();
        let ghost kept = all.take(i as int).filter(test);
        proof {
            lemma_filter_next(all, test, i as int);
        }
        if contains_string(ids.as_slice(), &all_categories[i].id) {
            names.push(all_categories[i].name.clone());
            assert(names.deep_view() =~= before.push(all[i as int].name));
            assert(names_of(kept.push(all[i as int])) =~= names_of(kept).push(all[i as int].name));
        }
        i += 1;
    }
    assert(all.take(all.len() as int) =~= all);
    names
}

/// A copy of a list of addresses.
fn recipients_of(email_addresses: &[String]) -> (recipients: Vec<String>)
    ensures
        recipients.deep_view() == email_addresses.deep_view(),
{
    let mut recipients: Vec<String> = Vec::new();
    let mut i: usize = 0;
    while i < email_addresses.len()
        invariant
            i <= email_addresses.len(),
            recipients.len() == i,
            forall|j: int|
                0 <= j < i ==> #[trigger] recipients.deep_view()[j] == email_addresses.deep_view()[j],
        decreases email_addresses.len() - i,
    {
        let ghost before = recipients.deep_view();
        recipients.push(email_addresses[i].clone());
        assert(recipients.deep_view() =~= before.push(email_addresses.deep_view()[i as int]));
        i += 1;
    }
    assert(recipients.deep_view() =~= email_addresses.deep_view());
    recipients
}

/// The notification about a new entry.
///
/// It goes to each of the addresses, its subject ends with the title of the
/// entry, and it names the categories of the entry, as far as they are among
/// `all_categories`.
pub fn notify_create_entry(
    email_addresses: &[String],
    e: &NewEntry,
    id: &str,
    all_categories: Vec<Category>,
) -> (notification: Notification)
    ensures
        notification.recipients.deep_view() == email_addresses.deep_view(),
        notification.subject@ == "Karte von morgen - neuer Eintrag: "@ + e.title@,
        notification.entry_id@ == id@,
        notification.categories.deep_view() == category_names(
            all_categories.deep_view(),
            e.categories.deep_view(),
        ),
{
    let subject = String::from_str("Karte von morgen - neuer Eintrag: ").concat(e.title.as_str());
    let categories = names_of_categories(&all_categories, &e.categories);
    Notification {
        recipients: recipients_of(email_addresses),
        subject,
        entry_id: id.to_owned(),
        categories,
    }
}

/// The notification about a changed entry.
///
/// It goes to each of the addresses, its subject ends with the title of the
/// entry, and it names the categories of the entry, as far as they are among
/// `all_categories`.
pub fn notify_update_entry(
    email_addresses: &[String],
    e: &UpdateEntry,
    all_categories: Vec<Category>,
) -> (notification: Notification)
    ensures
        notification.recipients.deep_view() == email_addresses.deep_view(),
        notification.subject@ == "Karte von morgen - Eintrag verändert: "@ + e.title@,
        notification.entry_id@ == e.id@,
        notification.categories.deep_view() == category_names(
            all_categories.deep_view(),
            e.categories.deep_view(),
        ),
{
    let subject = String::from_str("Karte von morgen - Eintrag verändert: ").concat(
        e.title.as_str(),
    );
    let categories = names_of_categories(&all_categories, &e.categories);
    Notification {
        recipients: recipients_of(email_addresses),
        subject,
        entry_id: e.id.clone(),
        categories,
    }
}

/// A mail to one recipient.
#[derive(Debug, PartialEq, Eq)]
pub struct Mail {
    pub to: String,
    pub subject: String,
    pub body: String,
}

/// What a mail stands for.
pub struct MailView {
    pub to: Seq<char>,
    pub subject: Seq<char>,
    pub body: Seq<char>,
}

impl DeepView for Mail {
    type V = MailView;

    open spec fn deep_view(&self) -> MailView {
        MailView { to: self.to@, subject: self.subject@, body: self.body@ }
    }
}

impl View for Mail {
    type V = MailView;

    open spec fn view(&self) -> MailView {
        self.deep_view()
    }
}

/// The mails that carry one message to each of the addresses.
pub open spec fn mails_to(addresses: Seq<Seq<char>>, subject: Seq<char>, body: Seq<char>) -> Seq<
    MailView,
> {
    Seq::new(addresses.len(), |i: int| MailView { to: addresses[i], subject, body })
}

/// The mails that are to be sent: one to each of the addresses, in their
/// order, all with the same subject and body.
pub fn send_mails(email_addresses: &[String], subject: &str, body: &str) -> (mails: Vec<Mail>)
    ensures
        mails.deep_view() == mails_to(email_addresses.deep_view(), subject@, body@),
{
    let mut mails: Vec<Mail> = Vec::new();
    let mut i: usize = 0;
    while i < email_addresses.len()
        invariant
            i <= email_addresses.len(),
            mails.len() == i,
            forall|j: int|
                0 <= j < i ==> #[trigger] mails.deep_view()[j] == (MailView {
                    to: email_addresses.deep_view()[j],
                    subject: subject@,
                    body: body@,
                }),
        decreases email_addresses.len() - i,
    {
        let ghost before = mails.deep_view();
        let mail = Mail {
            to: email_addresses[i].clone(),
            subject: subject.to_owned(),
            body: body.to_owned(),
        };
        mails.push(mail);
        assert(mails.deep_view() =~= before.push(
            MailView { to: email_addresses.deep_view()[i as int], subject: subject@, body: body@ },
        ));
        i += 1;
    }
    assert(mails.deep_view() =~= mails_to(email_addresses.deep_view(), subject@, body@));
    mails
}

} // verus!
