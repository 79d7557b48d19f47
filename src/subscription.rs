//! The row that a valid submission persists, and the reply to the outcome of
//! persisting it.
use crate::form::{form_data_from_pairs, form_result, pairs_view, FormData};
use crate::reply::{Reply, STATUS_BAD_REQUEST, STATUS_INTERNAL_SERVER_ERROR, STATUS_OK};
use vstd::prelude::*;

verus! {

/// One row of the `subscriptions` table. `id` is the 128-bit value of a UUID;
/// `subscribed_at` counts microseconds since the Unix epoch, in UTC.
pub struct Subscription {
    pub id: u128,
    pub email: String,
    pub name: String,
    pub subscribed_at: i64,
}

pub struct SubscriptionView {
    pub id: u128,
    pub email: Seq<char>,
    pub name: Seq<char>,
    pub subscribed_at: i64,
}

impl View for Subscription {
    type V = SubscriptionView;

    open spec fn view(&self) -> SubscriptionView {
        SubscriptionView {
            id: self.id,
            email: self.email@,
            name: self.name@,
            subscribed_at: self.subscribed_at,
        }
    }
}

/// A random (version 4, RFC 4122 variant) UUID, as a 128-bit integer.
pub open spec fn is_version4(id: u128) -> bool {
    (id >> 76u128) & 0xfu128 == 4 && (id >> 62u128) & 0x3u128 == 2
}

/// Relies on `uuid::Uuid::new_v4` and `Uuid::as_u128`: a random UUID whose
/// version nibble is 4 and whose variant bits are `10`.
#[verifier::external_body]
fn new_v4_id() -> (r: u128)
    ensures
        is_version4(r),
{
    uuid::Uuid::new_v4().as_u128()
}

/// Relies on `chrono::Utc::now` and `DateTime::timestamp_micros`: the current
/// UTC instant in microseconds since the Unix epoch.
#[verifier::external_body]
fn now_micros() -> (r: i64) {
    chrono::Utc::now().timestamp_micros()
}

/// A submission ready to be persisted: a correlation id for the request's
/// log events, and the row to insert.
pub struct PendingSubscription {
    pub request_id: u128,
    pub row: Subscription,
}

/// Why an insert did not persist its row.
#[derive(Clone, Copy, Debug, PartialEq, Eq, Structural)]
pub enum InsertError {
    /// A row with the same id already exists.
    DuplicateId,
    /// The store failed: lost connection, timeout, exhausted pool, or another
    /// constraint.
    Store,
}

/// The row that persists `form` under `id` at the instant `subscribed_at`.
pub fn new_subscription(form: FormData, id: u128, subscribed_at: i64) -> (r: Subscription)
    ensures
        r@ == (SubscriptionView { id, email: form.email@, name: form.name@, subscribed_at }),
{
    Subscription { id, email: form.email, name: form.name, subscribed_at }
}

/// Prepares the insert for a decoded submission: a fresh correlation id, a
/// fresh row id and the current time.
pub fn prepare_subscription(form: FormData) -> (r: PendingSubscription)
    ensures
        is_version4(r.request_id),
        is_version4(r.row.id),
        r.row.email@ == form.email@,
        r.row.name@ == form.name@,
{
    let request_id = new_v4_id();
    let id = new_v4_id();
    let subscribed_at = now_micros();
    PendingSubscription { request_id, row: new_subscription(form, id, subscribed_at) }
}

/// First step of a POST to `/subscriptions` on decoded pairs: the insert to
/// perform, or the 400 reply where a field is missing or repeated.
pub fn start_subscription(pairs: &Vec<(String, String)>) -> (r: Result<PendingSubscription, Reply>)
    ensures
        form_result(pairs_view(pairs@)) is Err ==> r is Err && r->Err_0.status
            == STATUS_BAD_REQUEST && r->Err_0.body@ == Seq::<u8>::empty(),
        form_result(pairs_view(pairs@)) is Ok ==> r is Ok && is_version4(r->Ok_0.request_id)
            && is_version4(r->Ok_0.row.id) && r->Ok_0.row.email@ == form_result(
            pairs_view(pairs@),
        )->Ok_0.0 && r->Ok_0.row.name@ == form_result(pairs_view(pairs@))->Ok_0.1,
{
    match form_data_from_pairs(pairs) {
        Ok(form) => Ok(prepare_subscription(form)),
        Err(_) => Err(Reply::empty(STATUS_BAD_REQUEST)),
    }
}

/// The status that answers an insert outcome.
pub open spec fn insert_status(outcome: Result<(), InsertError>) -> u16 {
    if outcome is Ok {
        STATUS_OK
    } else {
        STATUS_INTERNAL_SERVER_ERROR
    }
}

/// The reply to an insert: 200 once the row is stored, 500 on any failure,
/// with no detail of the failure in the body.
pub fn insert_reply(outcome: &Result<(), InsertError>) -> (r: Reply)
    ensures
        r.status == insert_status(*outcome),
        r.body@ == Seq::<u8>::empty(),
{
    match outcome {
        Ok(()) => Reply::empty(STATUS_OK),
        Err(_) => Reply::empty(STATUS_INTERNAL_SERVER_ERROR),
    }
}

} // verus!
