//! Decoding of the `application/x-www-form-urlencoded` subscription body.
use vstd::prelude::*;

verus! {

/// The two fields that a subscription submission must carry.
pub struct FormData {
    pub email: String,
    pub name: String,
}

#[derive(Clone, Copy, Debug, PartialEq, Eq, Structural)]
pub enum FormField {
    Email,
    Name,
}

/// Why a body does not decode into a `FormData`.
#[derive(Clone, Copy, Debug, PartialEq, Eq, Structural)]
pub enum FormError {
    /// The body is not a form-encoded list of key-value pairs.
    Undecodable,
    /// A required field does not occur.
    Missing(FormField),
    /// A field occurs a second time.
    Duplicate(FormField),
}

/// Decoded key-value pairs, as character sequences.
pub type Pairs = Seq<(Seq<char>, Seq<char>)>;

pub open spec fn email_key() -> Seq<char> {
    seq!['e', 'm', 'a', 'i', 'l']
}

pub open spec fn name_key() -> Seq<char> {
    seq!['n', 'a', 'm', 'e']
}

pub open spec fn pairs_view(pairs: Seq<(String, String)>) -> Pairs {
    pairs.map_values(|p: (String, String)| (p.0@, p.1@))
}

/// Reads the first `n` pairs from left to right: the values of `email` and
/// `name` seen so far, or the first field met a second time. Other keys are
/// ignored.
pub open spec fn scan_fields(pairs: Pairs, n: nat) -> Result<
    (Option<Seq<char>>, Option<Seq<char>>),
    FormField,
>
    decreases n,
{
    if n == 0 || n > pairs.len() {
        Ok((None, None))
    } else {
        match scan_fields(pairs, (n - 1) as nat) {
            Err(f) => Err(f),
            Ok((e, m)) => {
                let k = pairs[n - 1].0;
                let v = pairs[n - 1].1;
                if k == email_key() {
                    if e is Some {
                        Err(FormField::Email)
                    } else {
                        Ok((Some(v), m))
                    }
                } else if k == name_key() {
                    if m is Some {
                        Err(FormField::Name)
                    } else {
                        Ok((e, Some(v)))
                    }
                } else {
                    Ok((e, m))
                }
            },
        }
    }
}

/// Once a field has been met twice, the scan stays at that error.
proof fn lemma_scan_error_persists(pairs: Pairs, n: nat, m: nat)
    requires
        n <= m <= pairs.len(),
        scan_fields(pairs, n) is Err,
    ensures
        scan_fields(pairs, m) == scan_fields(pairs, n),
    decreases m - n,
{
    if n < m {
        lemma_scan_error_persists(pairs, n, (m - 1) as nat);
    }
}

/// The `(email, name)` that a list of pairs decodes into, or why it does not.
/// A missing `email` is reported before a missing `name`.
pub open spec fn form_result(pairs: Pairs) -> Result<(Seq<char>, Seq<char>), FormError> {
    match scan_fields(pairs, pairs.len()) {
        Err(f) => Err(FormError::Duplicate(f)),
        Ok((None, _)) => Err(FormError::Missing(FormField::Email)),
        Ok((Some(_), None)) => Err(FormError::Missing(FormField::Name)),
        Ok((Some(e), Some(m))) => Ok((e, m)),
    }
}

/// How many of the first `n` pairs have the key `k`.
pub open spec fn occurrences(pairs: Pairs, k: Seq<char>, n: nat) -> nat
    decreases n,
{
    if n == 0 || n > pairs.len() {
        0
    } else {
        occurrences(pairs, k, (n - 1) as nat) + if pairs[n - 1].0 == k {
            1nat
        } else {
            0nat
        }
    }
}

pub open spec fn key_count(pairs: Pairs, k: Seq<char>) -> nat {
    occurrences(pairs, k, pairs.len())
}

proof fn lemma_scan_counts(pairs: Pairs, n: nat)
    requires
        n <= pairs.len(),
    ensures
        (scan_fields(pairs, n) is Ok) == (occurrences(pairs, email_key(), n) <= 1
            && occurrences(pairs, name_key(), n) <= 1),
        scan_fields(pairs, n) is Ok ==> ((scan_fields(pairs, n)->Ok_0.0 is Some) == (
        occurrences(pairs, email_key(), n) == 1)),
        scan_fields(pairs, n) is Ok ==> ((scan_fields(pairs, n)->Ok_0.1 is Some) == (
        occurrences(pairs, name_key(), n) == 1)),
    decreases n,
{
    if n > 0 {
        lemma_scan_counts(pairs, (n - 1) as nat);
        assert(email_key() != name_key()) by {
            assert(email_key().len() != name_key().len());
        }
    }
}

/// A list of pairs decodes into a `FormData` exactly when each of `email`
/// and `name` occurs once in it.
pub proof fn lemma_form_ok_iff_each_field_once(pairs: Pairs)
    ensures
        (form_result(pairs) is Ok) == (key_count(pairs, email_key()) == 1 && key_count(
            pairs,
            name_key(),
        ) == 1),
{
    lemma_scan_counts(pairs, pairs.len());
}

/// `r` is what `expected` describes.
pub open spec fn decoded_as(
    r: Result<FormData, FormError>,
    expected: Result<(Seq<char>, Seq<char>), FormError>,
) -> bool {
    match expected {
        Ok((e, m)) => r is Ok && r->Ok_0.email@ == e && r->Ok_0.name@ == m,
        Err(err) => r is Err && r->Err_0 == err,
    }
}

/// The pairs that `serde_urlencoded` decodes a body into, if it does.
pub uninterp spec fn form_pairs_of(body: Seq<u8>) -> Option<Pairs>;

#[verifier::external_type_specification]
#[verifier::external_body]
pub struct ExUrlencodedError(serde_urlencoded::de::Error);

/// Relies on `serde_urlencoded::from_bytes` (the decoder behind actix-web's
/// `Form` extractor) to split a body into percent-decoded key-value pairs, in
/// order; an empty body yields no pairs.
#[verifier::external_body]
fn parse_form_pairs(body: &[u8]) -> (r: Result<Vec<(String, String)>, serde_urlencoded::de::Error>)
    ensures
        (r is Ok) == (form_pairs_of(body@) is Some),
        r is Ok ==> pairs_view(r->Ok_0@) == form_pairs_of(body@)->Some_0,
        body@.len() == 0 ==> r is Ok && r->Ok_0@.len() == 0,
{
    serde_urlencoded::from_bytes::<Vec<(String, String)>>(body)
}

/// What a body decodes into, or why it does not.
pub open spec fn body_result(body: Seq<u8>) -> Result<(Seq<char>, Seq<char>), FormError> {
    match form_pairs_of(body) {
        None => Err(FormError::Undecodable),
        Some(pairs) => form_result(pairs),
    }
}

/// Decodes a form-encoded body into a `FormData`.
pub fn decode_form(body: &[u8]) -> (r: Result<FormData, FormError>)
    ensures
        decoded_as(r, body_result(body@)),
        body@.len() == 0 ==> r == Err::<FormData, FormError>(
            FormError::Missing(FormField::Email),
        ),
{
    match parse_form_pairs(body) {
        Ok(pairs) => form_data_from_pairs(&pairs),
        Err(_) => Err(FormError::Undecodable),
    }
}

/// Builds a `FormData` from decoded pairs: each of `email` and `name` must
/// occur exactly once; other keys are ignored.
pub fn form_data_from_pairs(pairs: &Vec<(String, String)>) -> (r: Result<FormData, FormError>)
    ensures
        decoded_as(r, form_result(pairs_view(pairs@))),
{
    let ghost pv = pairs_view(pairs@);
    let email_k: String = "email".to_owned();
    let name_k: String = "name".to_owned();
    proof {
        reveal_strlit("email");
        reveal_strlit("name");
        assert(email_k@ =~= email_key());
        assert(name_k@ =~= name_key());
    }
    let mut email: Option<String> = None;
    let mut name: Option<String> = None;
    let mut i: usize = 0;
    while i < pairs.len()
        invariant
            i <= pairs@.len(),
            pv == pairs_view(pairs@),
            email_k@ == email_key(),
            name_k@ == name_key(),
            scan_fields(pv, i as nat) == Ok::<_, FormField>((
                match email { Some(s) => Some(s@), None => None::<Seq<char>> },
                match name { Some(s) => Some(s@), None => None::<Seq<char>> },
            )),
        decreases pairs@.len() - i,
    {
        let p = &pairs[i];
        if p.0 == email_k {
            if email.is_some() {
                proof {
                    lemma_scan_error_persists(pv, (i + 1) as nat, pv.len());
                }
                return Err(FormError::Duplicate(FormField::Email));
            }
            email = Some(p.1.clone());
        } else if p.0 == name_k {
            if name.is_some() {
                proof {
                    lemma_scan_error_persists(pv, (i + 1) as nat, pv.len());
                }
                return Err(FormError::Duplicate(FormField::Name));
            }
            name = Some(p.1.clone());
        }
        i = i + 1;
    }
    match (email, name) {
        (None, _) => Err(FormError::Missing(FormField::Email)),
        (Some(_), None) => Err(FormError::Missing(FormField::Name)),
        (Some(e), Some(m)) => Ok(FormData { email: e, name: m }),
    }
}

} // verus!
