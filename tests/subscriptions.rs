use zero2prod::form::{decode_form, form_data_from_pairs, FormData, FormError, FormField};
use zero2prod::reply::health_check;
use zero2prod::store::{handle_subscription, subscribe_with, SubscriptionStore};
use zero2prod::subscription::{
    insert_reply, new_subscription, prepare_subscription, start_subscription, InsertError,
};

fn pairs(items: &[(&str, &str)]) -> Vec<(String, String)> {
    items.iter().map(|(k, v)| (k.to_string(), v.to_string())).collect()
}

fn form(email: &str, name: &str) -> FormData {
    FormData { email: email.to_string(), name: name.to_string() }
}

fn is_version4(id: u128) -> bool {
    (id >> 76) & 0xf == 4 && (id >> 62) & 0x3 == 2
}

#[test]
fn health_check_test() {
    let reply = health_check();
    assert_eq!(reply.status, 200);
    assert_eq!(reply.content_length(), 0);
}

#[test]
fn subscribe_returns_200_for_valid_form_data() {
    let mut store = SubscriptionStore::new();
    let body = "name=lu%20ana&email=luana%40gmail.com";
    let resp = handle_subscription(&mut store, body.as_bytes());

    assert_eq!(store.len(), 1);
    let saved = store.get(0);
    assert_eq!(saved.email, "luana@gmail.com");
    assert_eq!(saved.name, "lu ana");

    assert_eq!(200, resp.status);
}

#[test]
fn subscribe_returns_400_for_invalid_data() {
    let test_cases = vec![
        ("name=le", "missing email"),
        ("email=le%40gmail.com", "missing name"),
        ("", "missing both name and email"),
    ];

    for (invalid_body, error_msg) in test_cases {
        let mut store = SubscriptionStore::new();
        let resp = handle_subscription(&mut store, invalid_body.as_bytes());
        assert_eq!(
            400, resp.status,
            "API did not fail with 400 Bad Request when payload was {}",
            error_msg
        );
        assert_eq!(store.len(), 0);
        assert_eq!(resp.content_length(), 0);
    }
}

#[test]
fn decode_form_percent_decodes_both_fields() {
    let f = decode_form(b"name=lu%20ana&email=luana%40gmail.com").unwrap();
    assert_eq!(f.email, "luana@gmail.com");
    assert_eq!(f.name, "lu ana");
}

#[test]
fn decode_form_turns_plus_into_space() {
    let f = decode_form(b"email=a%2Bb%40x.org&name=ada+lovelace").unwrap();
    assert_eq!(f.email, "a+b@x.org");
    assert_eq!(f.name, "ada lovelace");
}

#[test]
fn decode_form_reports_missing_email() {
    assert_eq!(decode_form(b"name=le").err(), Some(FormError::Missing(FormField::Email)));
}

#[test]
fn decode_form_reports_missing_name() {
    assert_eq!(
        decode_form(b"email=le%40gmail.com").err(),
        Some(FormError::Missing(FormField::Name))
    );
}

#[test]
fn decode_form_reports_missing_email_first_on_empty_body() {
    assert_eq!(decode_form(b"").err(), Some(FormError::Missing(FormField::Email)));
}

#[test]
fn decode_form_reports_duplicate_field() {
    assert_eq!(
        decode_form(b"email=a%40b.c&name=x&email=d%40e.f").err(),
        Some(FormError::Duplicate(FormField::Email))
    );
    assert_eq!(
        decode_form(b"name=x&name=y").err(),
        Some(FormError::Duplicate(FormField::Name))
    );
}

#[test]
fn form_from_pairs_ignores_other_keys() {
    let p = pairs(&[("utm", "1"), ("name", "le"), ("x", ""), ("email", "le@gmail.com")]);
    let f = form_data_from_pairs(&p).unwrap();
    assert_eq!(f.email, "le@gmail.com");
    assert_eq!(f.name, "le");
}

#[test]
fn form_from_pairs_accepts_empty_values() {
    let f = form_data_from_pairs(&pairs(&[("email", ""), ("name", "")])).unwrap();
    assert_eq!(f.email, "");
    assert_eq!(f.name, "");
}

#[test]
fn form_from_pairs_reports_first_repeated_field() {
    let p = pairs(&[("name", "a"), ("email", "b"), ("name", "c"), ("email", "d")]);
    assert_eq!(form_data_from_pairs(&p).err(), Some(FormError::Duplicate(FormField::Name)));
}

#[test]
fn form_from_pairs_keys_are_case_sensitive() {
    let p = pairs(&[("Email", "a@b.c"), ("name", "a")]);
    assert_eq!(form_data_from_pairs(&p).err(), Some(FormError::Missing(FormField::Email)));
}

#[test]
fn subscribe_with_fresh_id_stores_exact_row() {
    let mut store = SubscriptionStore::new();
    let reply = subscribe_with(&mut store, form("a@b.c", "ann"), 42, 1_700_000_000_000_000);
    assert_eq!(reply.status, 200);
    assert_eq!(reply.content_length(), 0);
    assert_eq!(store.len(), 1);
    let row = store.get(0);
    assert_eq!(row.id, 42);
    assert_eq!(row.email, "a@b.c");
    assert_eq!(row.name, "ann");
    assert_eq!(row.subscribed_at, 1_700_000_000_000_000);
}

#[test]
fn subscribe_with_taken_id_is_500_and_stores_nothing() {
    let mut store = SubscriptionStore::new();
    assert_eq!(subscribe_with(&mut store, form("a@b.c", "ann"), 7, 0).status, 200);
    let reply = subscribe_with(&mut store, form("d@e.f", "bob"), 7, 1);
    assert_eq!(reply.status, 500);
    assert_eq!(reply.content_length(), 0);
    assert_eq!(store.len(), 1);
    assert_eq!(store.get(0).name, "ann");
}

#[test]
fn insert_refuses_duplicate_id() {
    let mut store = SubscriptionStore::new();
    assert_eq!(store.insert(new_subscription(form("a@b.c", "a"), 1, 0)), Ok(()));
    assert_eq!(
        store.insert(new_subscription(form("a@b.c", "a"), 1, 0)),
        Err(InsertError::DuplicateId)
    );
    assert!(store.contains_id(1));
    assert!(!store.contains_id(2));
    assert_eq!(store.len(), 1);
}

#[test]
fn same_email_and_name_twice_gives_two_rows() {
    let mut store = SubscriptionStore::new();
    assert_eq!(subscribe_with(&mut store, form("a@b.c", "a"), 1, 0).status, 200);
    assert_eq!(subscribe_with(&mut store, form("a@b.c", "a"), 2, 0).status, 200);
    assert_eq!(store.len(), 2);
}

#[test]
fn insert_reply_maps_outcomes() {
    assert_eq!(insert_reply(&Ok(())).status, 200);
    assert_eq!(insert_reply(&Err(InsertError::Store)).status, 500);
    assert_eq!(insert_reply(&Err(InsertError::DuplicateId)).status, 500);
    assert_eq!(insert_reply(&Err(InsertError::Store)).content_length(), 0);
}

#[test]
fn n_valid_submissions_give_n_rows_with_unique_ids() {
    let mut store = SubscriptionStore::new();
    let n = 25;
    for i in 0..n {
        let body = format!("name=user{}&email=user{}%40example.com", i, i);
        assert_eq!(handle_subscription(&mut store, body.as_bytes()).status, 200);
    }
    assert_eq!(store.len(), n);
    for i in 0..n {
        let row = store.get(i);
        assert_eq!(row.name, format!("user{}", i));
        assert_eq!(row.email, format!("user{}@example.com", i));
        assert!(is_version4(row.id));
        for j in 0..i {
            assert_ne!(store.get(j).id, row.id);
        }
    }
}

#[test]
fn rejected_submissions_leave_store_unchanged() {
    let mut store = SubscriptionStore::new();
    assert_eq!(handle_subscription(&mut store, b"name=a&email=b").status, 200);
    for body in ["name=le", "email=le%40gmail.com", "", "name=a&name=b&email=c"] {
        assert_eq!(handle_subscription(&mut store, body.as_bytes()).status, 400);
        assert_eq!(store.len(), 1);
        assert_eq!(store.get(0).name, "a");
    }
}

#[test]
fn prepared_subscription_has_fresh_version4_ids() {
    let p = prepare_subscription(form("x@y.z", "xy"));
    assert!(is_version4(p.request_id));
    assert!(is_version4(p.row.id));
    assert_ne!(p.request_id, p.row.id);
    assert_eq!(p.row.email, "x@y.z");
    assert_eq!(p.row.name, "xy");
    assert!(p.row.subscribed_at > 1_600_000_000_000_000);
}

#[test]
fn health_check_ignores_subscription_state() {
    let mut store = SubscriptionStore::new();
    handle_subscription(&mut store, b"name=a&email=b");
    handle_subscription(&mut store, b"name=a");
    let reply = health_check();
    assert_eq!(reply.status, 200);
    assert!(reply.body.is_empty());
}

#[test]
fn start_subscription_plans_insert_or_rejects() {
    let ok = start_subscription(&pairs(&[("name", "lu ana"), ("email", "luana@gmail.com")]));
    let pending = ok.ok().unwrap();
    assert_eq!(pending.row.name, "lu ana");
    assert_eq!(pending.row.email, "luana@gmail.com");
    assert!(is_version4(pending.row.id));

    let rejected = start_subscription(&pairs(&[("name", "le")]));
    let reply = rejected.err().unwrap();
    assert_eq!(reply.status, 400);
    assert_eq!(reply.content_length(), 0);
}
