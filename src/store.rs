//! An in-memory `subscriptions` table with the primary-key constraint of the
//! persistent one, and the subscription handler run against it.
use crate::form::{
    body_result, decode_form, email_key, form_pairs_of, key_count,
    lemma_form_ok_iff_each_field_once, name_key, FormData, FormError,
};
use crate::reply::{Reply, STATUS_BAD_REQUEST, STATUS_INTERNAL_SERVER_ERROR, STATUS_OK};
use crate::subscription::{
    insert_reply, insert_status, is_version4, prepare_subscription, InsertError,
    Subscription, SubscriptionView,
};
use vstd::prelude::*;

verus! {

pub type Rows = Seq<SubscriptionView>;

/// No two rows share an id.
pub open spec fn ids_unique(rows: Rows) -> bool {
    forall|i: int, j: int|
        0 <= i < rows.len() && 0 <= j < rows.len() && i != j ==> rows[i].id != rows[j].id
}

pub open spec fn has_id(rows: Rows, id: u128) -> bool {
    exists|i: int| 0 <= i < rows.len() && rows[i].id == id
}

/// How many rows hold exactly this email and name.
pub open spec fn count_matching(rows: Rows, email: Seq<char>, name: Seq<char>) -> nat
    decreases rows.len(),
{
    if rows.len() == 0 {
        0
    } else {
        count_matching(rows.drop_last(), email, name) + if rows.last().email == email
            && rows.last().name == name {
            1nat
        } else {
            0nat
        }
    }
}

/// Status and rows after inserting `row`: the primary key refuses an id that
/// is already there.
pub open spec fn insert_step(rows: Rows, row: SubscriptionView) -> (u16, Rows) {
    if has_id(rows, row.id) {
        (STATUS_INTERNAL_SERVER_ERROR, rows)
    } else {
        (STATUS_OK, rows.push(row))
    }
}

/// Status and rows after a submission whose body decodes as `decoded`, given
/// the row id and instant that the handler drew.
pub open spec fn subscription_step(
    rows: Rows,
    decoded: Result<(Seq<char>, Seq<char>), FormError>,
    id: u128,
    at: i64,
) -> (u16, Rows) {
    match decoded {
        Err(_) => (STATUS_BAD_REQUEST, rows),
        Ok((email, name)) => insert_step(
            rows,
            SubscriptionView { id, email, name, subscribed_at: at },
        ),
    }
}

pub struct SubscriptionStore {
    rows: Vec<Subscription>,
}

impl View for SubscriptionStore {
    type V = Rows;

    closed spec fn view(&self) -> Rows {
        self.rows@.map_values(|r: Subscription| r@)
    }
}

impl SubscriptionStore {
    pub open spec fn wf(&self) -> bool {
        ids_unique(self@)
    }

    pub fn new() -> (r: SubscriptionStore)
        ensures
            r@ == Seq::<SubscriptionView>::empty(),
            r.wf(),
    {
        let r = SubscriptionStore { rows: Vec::new() };
        assert(r@ =~= Seq::<SubscriptionView>::empty());
        r
    }

    pub fn len(&self) -> (r: usize)
        ensures
            r == self@.len(),
    {
        self.rows.len()
    }

    pub fn get(&self, i: usize) -> (r: &Subscription)
        requires
            i < self@.len(),
        ensures
            r@ == self@[i as int],
    {
        &self.rows[i]
    }

    pub fn contains_id(&self, id: u128) -> (r: bool)
        ensures
            r == has_id(self@, id),
    {
        let mut i: usize = 0;
        while i < self.rows.len()
            invariant
                i <= self.rows@.len(),
                forall|j: int| 0 <= j < i ==> self@[j].id != id,
            decreases self.rows@.len() - i,
        {
            if self.rows[i].id == id {
                assert(self@[i as int].id == id);
                return true;
            }
            i = i + 1;
        }
        false
    }

    /// Appends `row` unless its id is taken, in which case nothing changes.
    pub fn insert(&mut self, row: Subscription) -> (r: Result<(), InsertError>)
        requires
            old(self).wf(),
        ensures
            final(self).wf(),
            (insert_status(r), final(self)@) == insert_step(old(self)@, row@),
            r is Err ==> r == Err::<(), InsertError>(InsertError::DuplicateId),
    {
        if self.contains_id(row.id) {
            return Err(InsertError::DuplicateId);
        }
        let ghost before = self@;
        let ghost rv = row@;
        self.rows.push(row);
        assert(self@ =~= before.push(rv));
        Ok(())
    }
}

/// Persists a decoded submission under the given row id and instant, and
/// answers 200, or 500 where the id is already taken.
pub fn subscribe_with(store: &mut SubscriptionStore, form: FormData, id: u128, at: i64) -> (r:
    Reply)
    requires
        old(store).wf(),
    ensures
        final(store).wf(),
        (r.status, final(store)@) == subscription_step(
            old(store)@,
            Ok((form.email@, form.name@)),
            id,
            at,
        ),
        r.body@ == Seq::<u8>::empty(),
{
    let row = crate::subscription::new_subscription(form, id, at);
    let outcome = store.insert(row);
    insert_reply(&outcome)
}

/// Handles a POST of `body` against `store`: 400 with nothing stored where
/// the body lacks a field; otherwise one insert under a fresh random id and
/// the current time, answered 200, or 500 where the insert failed.
pub fn handle_subscription(store: &mut SubscriptionStore, body: &[u8]) -> (r: Reply)
    requires
        old(store).wf(),
    ensures
        final(store).wf(),
        r.body@ == Seq::<u8>::empty(),
        exists|id: u128, at: i64|
            is_version4(id) && (r.status, final(store)@) == subscription_step(
                old(store)@,
                body_result(body@),
                id,
                at,
            ),
{
    match decode_form(body) {
        Err(_) => {
            let r = Reply::empty(STATUS_BAD_REQUEST);
            let ghost id = 0x4000_8000_0000_0000_0000u128;
            assert(is_version4(0x4000_8000_0000_0000_0000u128)) by (bit_vector);
            assert(is_version4(id) && (r.status, store@) == subscription_step(
                store@,
                body_result(body@),
                id,
                0,
            ));
            r
        },
        Ok(form) => {
            let ghost before = store@;
            let ghost decoded = body_result(body@);
            assert(decoded == Ok::<(Seq<char>, Seq<char>), FormError>((form.email@, form.name@)));
            let pending = prepare_subscription(form);
            let id = pending.row.id;
            let at = pending.row.subscribed_at;
            let outcome = store.insert(pending.row);
            let r = insert_reply(&outcome);
            assert(is_version4(id) && (r.status, store@) == subscription_step(
                before,
                decoded,
                id,
                at,
            ));
            r
        },
    }
}

/// The body holds both fields once each.
pub open spec fn is_valid_body(body: Seq<u8>) -> bool {
    form_pairs_of(body) is Some && key_count(form_pairs_of(body)->Some_0, email_key()) == 1
        && key_count(form_pairs_of(body)->Some_0, name_key()) == 1
}

/// The row that a valid body persists under `id` at `at`.
pub open spec fn row_of(body: Seq<u8>, id: u128, at: i64) -> SubscriptionView {
    SubscriptionView {
        id,
        email: body_result(body)->Ok_0.0,
        name: body_result(body)->Ok_0.1,
        subscribed_at: at,
    }
}

/// A submission with both fields present, drawn a row id not yet in the
/// table, is answered 200 and adds exactly one row, which holds that email
/// and name; on a table without such a row, exactly one then exists.
pub proof fn lemma_valid_submission_adds_one_row(rows: Rows, body: Seq<u8>, id: u128, at: i64)
    requires
        ids_unique(rows),
        is_valid_body(body),
        !has_id(rows, id),
    ensures
        body_result(body) is Ok,
        subscription_step(rows, body_result(body), id, at) == (
        STATUS_OK,
        rows.push(row_of(body, id, at)),
        ),
        count_matching(
            subscription_step(rows, body_result(body), id, at).1,
            body_result(body)->Ok_0.0,
            body_result(body)->Ok_0.1,
        ) == count_matching(rows, body_result(body)->Ok_0.0, body_result(body)->Ok_0.1) + 1,
{
    lemma_form_ok_iff_each_field_once(form_pairs_of(body)->Some_0);
    let after = rows.push(row_of(body, id, at));
    assert(after.drop_last() =~= rows);
}

/// A body without `email`, without `name`, or without both is answered 400
/// and leaves the table as it was.
pub proof fn lemma_missing_field_rejected(rows: Rows, body: Seq<u8>, id: u128, at: i64)
    requires
        form_pairs_of(body) is Some,
        key_count(form_pairs_of(body)->Some_0, email_key()) == 0 || key_count(
            form_pairs_of(body)->Some_0,
            name_key(),
        ) == 0,
    ensures
        subscription_step(rows, body_result(body), id, at) == (STATUS_BAD_REQUEST, rows),
{
    lemma_form_ok_iff_each_field_once(form_pairs_of(body)->Some_0);
}

/// Rows after the submissions `subs` (body, drawn row id, instant), taken
/// one after another in the order given.
pub open spec fn apply_submissions(rows: Rows, subs: Seq<(Seq<u8>, u128, i64)>) -> Rows
    decreases subs.len(),
{
    if subs.len() == 0 {
        rows
    } else {
        subscription_step(
            apply_submissions(rows, subs.drop_last()),
            body_result(subs.last().0),
            subs.last().1,
            subs.last().2,
        ).1
    }
}

/// A submission is answered 200 exactly when it adds a row: the table after a
/// step is the one before, or the one before with one row appended.
/// Existing rows are never changed or removed, and ids stay unique.
pub proof fn lemma_step_appends_only(
    rows: Rows,
    decoded: Result<(Seq<char>, Seq<char>), FormError>,
    id: u128,
    at: i64,
)
    requires
        ids_unique(rows),
    ensures
        ids_unique(subscription_step(rows, decoded, id, at).1),
        subscription_step(rows, decoded, id, at).0 == STATUS_OK ==> subscription_step(
            rows,
            decoded,
            id,
            at,
        ).1.drop_last() == rows && subscription_step(rows, decoded, id, at).1.last().id == id,
        subscription_step(rows, decoded, id, at).0 != STATUS_OK ==> subscription_step(
            rows,
            decoded,
            id,
            at,
        ).1 == rows,
{
    if subscription_step(rows, decoded, id, at).0 == STATUS_OK {
        assert(subscription_step(rows, decoded, id, at).1.drop_last() =~= rows);
    }
}

/// N valid submissions, in whatever order they are applied, each drawn a
/// row id that no other submission and no existing row has, leave exactly N
/// new rows: one per submission, holding its email and name, with nothing
/// lost or duplicated.
pub proof fn lemma_submissions_add_one_row_each(rows: Rows, subs: Seq<(Seq<u8>, u128, i64)>)
    requires
        ids_unique(rows),
        forall|k: int| 0 <= k < subs.len() ==> is_valid_body(#[trigger] subs[k].0),
        forall|k: int| 0 <= k < subs.len() ==> !has_id(rows, #[trigger] subs[k].1),
        forall|k: int, l: int|
            0 <= k < subs.len() && 0 <= l < subs.len() && k != l ==> subs[k].1 != subs[l].1,
    ensures
        apply_submissions(rows, subs) == rows + subs.map_values(
            |s: (Seq<u8>, u128, i64)| row_of(s.0, s.1, s.2),
        ),
        apply_submissions(rows, subs).len() == rows.len() + subs.len(),
        ids_unique(apply_submissions(rows, subs)),
    decreases subs.len(),
{
    let f = |s: (Seq<u8>, u128, i64)| row_of(s.0, s.1, s.2);
    if subs.len() == 0 {
        assert(rows + subs.map_values(f) =~= rows);
    } else {
        let init = subs.drop_last();
        let last = subs.last();
        assert(forall|k: int| 0 <= k < init.len() ==> init[k] == subs[k]);
        lemma_submissions_add_one_row_each(rows, init);
        let mid = apply_submissions(rows, init);
        assert(mid == rows + init.map_values(f));
        assert(is_valid_body(subs[subs.len() - 1].0));
        assert(!has_id(rows, subs[subs.len() - 1].1));
        assert(!has_id(mid, last.1)) by {
            if has_id(mid, last.1) {
                let i = choose|i: int| 0 <= i < mid.len() && mid[i].id == last.1;
                if i < rows.len() {
                    assert(mid[i] == rows[i]);
                } else {
                    let k = i - rows.len();
                    assert(mid[i] == f(init[k]));
                    assert(subs[k].1 != subs[subs.len() - 1].1);
                }
            }
        }
        lemma_valid_submission_adds_one_row(mid, last.0, last.1, last.2);
        lemma_step_appends_only(mid, body_result(last.0), last.1, last.2);
        assert(rows + subs.map_values(f) =~= mid.push(row_of(last.0, last.1, last.2)));
    }
}

} // verus!
