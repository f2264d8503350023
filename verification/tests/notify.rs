use place_directory::entities::Category;
use place_directory::notify::{notify_create_entry, notify_update_entry, send_mails, Mail};
use place_directory::usecases::entries::{NewEntry, UpdateEntry};

fn categories() -> Vec<Category> {
    vec![
        Category {
            id: "c1".into(),
            name: "Initiative".into(),
        },
        Category {
            id: "c2".into(),
            name: "Company".into(),
        },
        Category {
            id: "c3".into(),
            name: "Event".into(),
        },
    ]
}

#[test]
fn a_new_entry_is_announced_with_its_title_and_categories() {
    let e = NewEntry {
        title: "Unverpackt".into(),
        description: "shop".into(),
        lat: 0,
        lng: 0,
        street: None,
        zip: None,
        city: None,
        country: None,
        email: None,
        telephone: None,
        homepage: None,
        categories: vec!["c3".into(), "c1".into(), "c9".into()],
        tags: vec![],
        license: "CC0-1.0".into(),
    };
    let addresses: Vec<String> = vec!["a@example.org".into(), "b@example.org".into()];
    let n = notify_create_entry(&addresses, &e, "e1", categories());
    assert_eq!(n.recipients, addresses);
    assert_eq!(n.subject, "Karte von morgen - neuer Eintrag: Unverpackt");
    assert_eq!(n.entry_id, "e1");
    assert_eq!(n.categories, vec!["Initiative".to_string(), "Event".to_string()]);
}

#[test]
fn a_changed_entry_is_announced_with_its_title_and_categories() {
    let e = UpdateEntry {
        id: "e7".into(),
        version: 3,
        title: "Hofladen".into(),
        description: "farm".into(),
        lat: 0,
        lng: 0,
        street: None,
        zip: None,
        city: None,
        country: None,
        email: None,
        telephone: None,
        homepage: None,
        categories: vec![],
        tags: vec![],
    };
    let n = notify_update_entry(&[], &e, categories());
    assert!(n.recipients.is_empty());
    assert_eq!(n.subject, "Karte von morgen - Eintrag verändert: Hofladen");
    assert_eq!(n.entry_id, "e7");
    assert!(n.categories.is_empty());
}

#[test]
fn one_mail_goes_to_each_address() {
    let addresses: Vec<String> = vec!["a@example.org".into(), "b@example.org".into()];
    assert_eq!(
        send_mails(&addresses, "subject", "body"),
        vec![
            Mail {
                to: "a@example.org".into(),
                subject: "subject".into(),
                body: "body".into()
            },
            Mail {
                to: "b@example.org".into(),
                subject: "subject".into(),
                body: "body".into()
            },
        ]
    );
    assert_eq!(send_mails(&[], "subject", "body"), vec![]);
}
