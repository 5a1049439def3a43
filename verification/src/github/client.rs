//! The decisions of the GraphQL client: when to retry, and what a response
//! means. Sending requests and waiting are the caller's.

use vstd::prelude::*;
use vstd::arithmetic::power2::{lemma2_to64, pow2};

use crate::error::{Error, ErrorView};
use crate::number::{dec, push_decimal};
use crate::text::{chars_of, eq_chars, opt_view, push_str, string_of};

verus! {

/// GitHub's GraphQL endpoint is occasionally flaky and enforces a secondary
/// rate limit, so a request is tried this many times.
pub const MAX_ATTEMPTS: u32 = 3;

/// Whether a status code is worth retrying: a server error, or rate limiting.
pub open spec fn retryable(status: u16) -> bool {
    status >= 500 || status == 429
}

/// How long to wait, in seconds, before retrying after `status` on the given
/// attempt (counted from 1), or nothing if the response is final: exponential
/// backoff of 1s, then 2s, within the attempt budget.
pub open spec fn spec_retry_delay(status: u16, attempt: u32) -> Option<nat> {
    if attempt >= MAX_ATTEMPTS {
        None
    } else if retryable(status) {
        Some(pow2((attempt - 1) as nat))
    } else {
        None
    }
}

/// How long to wait, in seconds, before retrying, or `None` if this response
/// is final.
pub fn retry_delay(status: u16, attempt: u32) -> (r: Option<u64>)
    requires
        attempt >= 1 || !retryable(status),
    ensures
        match (r, spec_retry_delay(status, attempt)) {
            (Some(a), Some(b)) => a == b,
            (None, None) => true,
            _ => false,
        },
{
    if attempt >= MAX_ATTEMPTS {
        return None;
    }
    if status >= 500 || status == 429 {
        let shift = attempt - 1;
        proof {
            lemma2_to64();
            assert(shift == 0 || shift == 1);
            assert(1u64 << 0u64 == 1) by (bit_vector);
            assert(1u64 << 1u64 == 2) by (bit_vector);
        }
        let d: u64 = if shift == 0 {
            1u64 << 0u64
        } else {
            1u64 << 1u64
        };
        Some(d)
    } else {
        None
    }
}

/// A request is tried at most [`MAX_ATTEMPTS`] times: once the attempt count
/// reaches the budget no further wait is granted, whatever the status; a
/// final status other than a server error or rate limiting is never retried;
/// and each wait is twice the one before.
pub proof fn lemma_retry_budget(status: u16, attempt: u32)
    requires
        attempt >= 1,
    ensures
        attempt >= MAX_ATTEMPTS ==> spec_retry_delay(status, attempt) is None,
        !retryable(status) ==> spec_retry_delay(status, attempt) is None,
        spec_retry_delay(status, attempt) matches Some(w) ==> (spec_retry_delay(status, (attempt
            + 1) as u32) matches Some(v) ==> v == 2 * w),
        retryable(status) && attempt < MAX_ATTEMPTS ==> spec_retry_delay(status, attempt) is Some,
{
    lemma2_to64();
}

/// One error in a GraphQL response.
pub struct GraphQlError {
    pub message: String,
    /// The error's `type`, such as `NOT_FOUND`.
    pub kind: Option<String>,
}

/// The string at `key` in the JSON object `body`, if `body` parses as JSON
/// and holds a string there.
pub uninterp spec fn json_string_field(body: Seq<char>, key: Seq<char>) -> Option<Seq<char>>;

/// `serde_json::from_str::<Value>`, then `Value::get(key)` and
/// `Value::as_str`: the string at `key` in the JSON object `body`, if `body`
/// is valid JSON holding one. The contract names the result and says nothing
/// of JSON parsing itself.
#[verifier::external_body]
fn json_string(body: &str, key: &str) -> (r: Option<String>)
    ensures
        opt_view(r) == json_string_field(body@, key@),
{
    serde_json::from_str::<serde_json::Value>(body).ok()?.get(key)?.as_str().map(|s| s.to_string())
}

/// The human-readable `message` that GitHub's REST-style error bodies carry,
/// if the body has one.
pub open spec fn json_message(body: Seq<char>) -> Option<Seq<char>> {
    json_string_field(body, "message"@)
}

/// The `message` of an error body, if it has one.
fn api_message(body: &str) -> (r: Option<String>)
    ensures
        opt_view(r) == json_message(body@),
{
    json_string(body, "message")
}

/// The message for a 403, with the body's own explanation, if it has one.
pub open spec fn forbidden_message(explanation: Option<Seq<char>>) -> Seq<char> {
    "GitHub refused the request (403). The token may lack `repo` scope, or SSO authorization for this organization.\n"@
        + match explanation {
        Some(m) => m,
        None => Seq::empty(),
    }
}

/// The failure for a 403, given the message the body carries, if any.
pub fn forbidden_error(explanation: Option<String>) -> (e: Error)
    ensures
        e matches Error::Auth(m) && m@ == forbidden_message(opt_view(explanation)),
{
    let mut m = String::new();
    push_str(
        &mut m,
        "GitHub refused the request (403). The token may lack `repo` scope, or SSO authorization for this organization.\n",
    );
    match explanation {
        Some(x) => push_str(&mut m, x.as_str()),
        None => {},
    }
    Error::Auth(m)
}

/// What a final HTTP status means before the body is read as GraphQL: an
/// error for 401, 403, 404, 429 and 5xx, otherwise nothing yet.
pub open spec fn spec_status_error(status: u16, body: Seq<char>, endpoint: Seq<char>) -> Option<
    ErrorView,
> {
    if status == 401 {
        Some(
            ErrorView::Auth(
                "GitHub rejected the token (401). It may be expired or revoked; try `gh auth login` or supply a fresh --token."@,
            ),
        )
    } else if status == 403 {
        Some(ErrorView::Auth(forbidden_message(json_message(body))))
    } else if status == 429 {
        Some(ErrorView::Network("rate limited by GitHub (429); try again later"@))
    } else if status == 404 {
        Some(
            ErrorView::NotFound(
                "no GraphQL endpoint at "@ + endpoint + " (404). Check --hostname."@,
            ),
        )
    } else if status >= 500 {
        Some(ErrorView::Network("GitHub returned "@ + dec(status as nat) + " after 3 attempts"@))
    } else {
        None
    }
}

/// Interprets a final HTTP status; `Ok` means the body is to be read as a
/// GraphQL response.
pub fn interpret_status(status: u16, body: &str, endpoint: &str) -> (r: Result<(), Error>)
    ensures
        match r {
            Ok(()) => spec_status_error(status, body@, endpoint@) is None,
            Err(e) => spec_status_error(status, body@, endpoint@) == Some(e@),
        },
{
    if status == 401 {
        return Err(
            Error::Auth(
                string_of(
                    chars_of(
                        "GitHub rejected the token (401). It may be expired or revoked; try `gh auth login` or supply a fresh --token.",
                    ).as_slice(),
                ),
            ),
        );
    }
    if status == 403 {
        return Err(forbidden_error(api_message(body)));
    }
    if status == 429 {
        return Err(
            Error::Network(
                string_of(chars_of("rate limited by GitHub (429); try again later").as_slice()),
            ),
        );
    }
    if status == 404 {
        let mut m = String::new();
        push_str(&mut m, "no GraphQL endpoint at ");
        push_str(&mut m, endpoint);
        push_str(&mut m, " (404). Check --hostname.");
        return Err(Error::NotFound(m));
    }
    if status >= 500 {
        let mut m = String::new();
        push_str(&mut m, "GitHub returned ");
        push_decimal(&mut m, status as u64);
        push_str(&mut m, " after 3 attempts");
        return Err(Error::Network(m));
    }
    Ok(())
}

/// The failure when a response body is not a GraphQL envelope; `detail` is
/// what the parser said about it.
pub fn unparsable_response(detail: &str) -> (e: Error)
    ensures
        e@ == ErrorView::Api("could not parse the GraphQL response: "@ + detail@),
{
    let mut m = String::new();
    push_str(&mut m, "could not parse the GraphQL response: ");
    push_str(&mut m, detail);
    Error::Api(m)
}

/// Whether any of the errors has type `NOT_FOUND`.
pub open spec fn any_not_found(errors: Seq<GraphQlError>) -> bool {
    exists|i: int| 0 <= i < errors.len() && opt_view(#[trigger] errors[i].kind) == Some("NOT_FOUND"@)
}

/// The error messages joined by `; `.
pub open spec fn joined_messages(errors: Seq<GraphQlError>) -> Seq<char>
    decreases errors.len(),
{
    if errors.len() == 0 {
        Seq::empty()
    } else if errors.len() == 1 {
        errors[0].message@
    } else {
        joined_messages(errors.drop_last()) + "; "@ + errors.last().message@
    }
}

/// What a parsed GraphQL response means: its errors, if it has any (a
/// `NOT_FOUND` among them makes it a not-found), else its data, which must be
/// there.
pub open spec fn spec_envelope<T>(data: Option<T>, errors: Seq<GraphQlError>) -> Result<
    T,
    ErrorView,
> {
    if errors.len() > 0 {
        if any_not_found(errors) {
            Err(ErrorView::NotFound(joined_messages(errors)))
        } else {
            Err(ErrorView::Api("GraphQL error: "@ + joined_messages(errors)))
        }
    } else {
        match data {
            Some(d) => Ok(d),
            None => Err(ErrorView::Api("GraphQL response carried no data"@)),
        }
    }
}

/// Interprets a parsed GraphQL response.
pub fn interpret_envelope<T>(data: Option<T>, errors: Vec<GraphQlError>) -> (r: Result<T, Error>)
    ensures
        match (r, spec_envelope(data, errors@)) {
            (Ok(a), Ok(b)) => a == b,
            (Err(e), Err(p)) => e@ == p,
            _ => false,
        },
{
    if errors.len() > 0 {
        let not_found_kind = chars_of("NOT_FOUND");
        let mut not_found = false;
        let mut joined = String::new();
        let mut i: usize = 0;
        assert(errors@.take(0) =~= Seq::<GraphQlError>::empty());
        while i < errors.len()
            invariant
                i <= errors@.len(),
                errors@.len() > 0,
                not_found_kind@ == "NOT_FOUND"@,
                not_found == any_not_found(errors@.take(i as int)),
                joined@ == joined_messages(errors@.take(i as int)),
            decreases errors@.len() - i,
        {
            let ghost t = errors@.take(i + 1);
            assert(t.drop_last() =~= errors@.take(i as int));
            assert(t.last() == errors@[i as int]);
            if i > 0 {
                push_str(&mut joined, "; ");
            }
            push_str(&mut joined, errors[i].message.as_str());
            assert(i == 0 ==> errors@.take(i as int) =~= Seq::<GraphQlError>::empty());
            let hit = match &errors[i].kind {
                Some(k) => eq_chars(chars_of(k.as_str()).as_slice(), not_found_kind.as_slice()),
                None => false,
            };
            proof {
                if hit {
                    assert(t[i as int] == errors@[i as int]);
                } else if !not_found {
                    assert forall|j: int| 0 <= j < t.len() implies opt_view(#[trigger] t[j].kind)
                        != Some("NOT_FOUND"@) by {
                        if j < i {
                            assert(t[j] == errors@.take(i as int)[j]);
                        }
                    }
                } else {
                    let j = choose|j: int| 0 <= j < i && opt_view(#[trigger] errors@.take(i as int)[j].kind) == Some("NOT_FOUND"@);
                    assert(t[j] == errors@.take(i as int)[j]);
                }
            }
            not_found = not_found || hit;
            i = i + 1;
        }
        assert(errors@.take(errors@.len() as int) =~= errors@);
        if not_found {
            return Err(Error::NotFound(joined));
        } else {
            let mut m = String::new();
            push_str(&mut m, "GraphQL error: ");
            push_str(&mut m, joined.as_str());
            return Err(Error::Api(m));
        }
    }
    match data {
        Some(d) => Ok(d),
        None => Err(
            Error::Api(string_of(chars_of("GraphQL response carried no data").as_slice())),
        ),
    }
}

} // verus!
