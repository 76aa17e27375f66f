//! The requests the tool issues and the responses it interprets.
//!
//! The HTTP transport itself is an external collaborator: callers
//! perform the transfer and hand back the status code and the decoded
//! body fields, and the functions here decide what each outcome
//! means.

use vstd::prelude::*;

verus! {

use crate::config::Config;
use crate::config::PAGE_SIZE;
use crate::error::LogtimeError;
use crate::intervals::Location;
use crate::intervals::PresenceInterval;
use crate::intervals::spec_all_wf;
use crate::intervals::spec_intervals_of;
use crate::span::DateSpan;
use crate::text::spec_dec_digits;

/// One resolved user of the upstream API.
#[derive(Clone, Debug)]
pub struct User {
    pub id: u32,
    pub login: String,
}

/// The percent-encoded form of a string, as the
/// `application/x-www-form-urlencoded` syntax defines it.
pub uninterp spec fn url_encoded(s: Seq<char>) -> Seq<char>;

/// Relies on url's `form_urlencoded::Serializer` (`append_key_only`
/// then `finish`): the percent-encoded form of a string is a function
/// of its characters alone.
#[verifier::external_body]
fn url_encode(s: &str) -> (r: String)
    ensures
        r@ == url_encoded(s@),
{
    url::form_urlencoded::Serializer::new(String::new()).append_key_only(s).finish()
}

/// The client-credentials grant request URL.
pub open spec fn spec_auth_url(client_id: Seq<char>, secret: Seq<char>) -> Seq<char> {
    "https://api.intra.42.fr/oauth/token?grant_type=client_credentials&client_id="@ + url_encoded(
        client_id,
    ) + "&client_secret="@ + url_encoded(secret)
}

/// Builds the client-credentials grant request URL, percent-encoding
/// both credentials.
pub fn auth_url(config: &Config) -> (r: String)
    ensures
        r@ == spec_auth_url(config.client_id@, config.secret@),
{
    let mut s = String::from_str(
        "https://api.intra.42.fr/oauth/token?grant_type=client_credentials&client_id=",
    );
    s.append(url_encode(config.client_id.as_str()).as_str());
    s.append("&client_secret=");
    s.append(url_encode(config.secret.as_str()).as_str());
    proof {
        assert(s@ =~= spec_auth_url(config.client_id@, config.secret@));
    }
    s
}

/// The filtered user-list query URL for one login.
pub open spec fn spec_users_url(login: Seq<char>) -> Seq<char> {
    "https://api.intra.42.fr/v2/users?filter[login]="@ + url_encoded(login)
}

/// Builds the filtered user-list query URL for one login.
pub fn users_url(login: &str) -> (r: String)
    ensures
        r@ == spec_users_url(login@),
{
    let mut s = String::from_str("https://api.intra.42.fr/v2/users?filter[login]=");
    s.append(url_encode(login).as_str());
    proof {
        assert(s@ =~= spec_users_url(login@));
    }
    s
}

/// The paginated interval-list query URL for one user and span. The
/// span bounds are percent-encoded so that reserved characters cannot
/// break the range filter.
pub open spec fn spec_locations_url(user_id: int, from: Seq<char>, to: Seq<char>) -> Seq<char> {
    "https://api.intra.42.fr/v2/users/"@ + spec_dec_digits(user_id) + "/locations?per_page="@
        + spec_dec_digits(PAGE_SIZE as int) + "&range[begin_at]="@ + url_encoded(from) + ","@
        + url_encoded(to)
}

/// Builds the paginated interval-list query URL for one user and
/// span.
pub fn locations_url(user_id: u32, span: &DateSpan) -> (r: String)
    ensures
        r@ == spec_locations_url(user_id as int, span.from@, span.to@),
{
    let mut s = String::from_str("https://api.intra.42.fr/v2/users/");
    s.append(crate::text::u64_string(user_id as u64).as_str());
    s.append("/locations?per_page=");
    s.append(crate::text::u64_string(PAGE_SIZE as u64).as_str());
    s.append("&range[begin_at]=");
    s.append(url_encode(span.from.as_str()).as_str());
    s.append(",");
    s.append(url_encode(span.to.as_str()).as_str());
    proof {
        assert(s@ =~= spec_locations_url(user_id as int, span.from@, span.to@));
    }
    s
}

/// The location-statistics query URL for one user and span start.
pub open spec fn spec_locations_stats_url(user_id: int, from: Seq<char>) -> Seq<char> {
    "https://api.intra.42.fr/v2/users/"@ + spec_dec_digits(user_id) + "/locations_stats?per_page="@
        + spec_dec_digits(PAGE_SIZE as int) + "&begin_at="@ + url_encoded(from)
}

/// Builds the location-statistics query URL for one user and span
/// start.
pub fn locations_stats_url(user_id: u32, span: &DateSpan) -> (r: String)
    ensures
        r@ == spec_locations_stats_url(user_id as int, span.from@),
{
    let mut s = String::from_str("https://api.intra.42.fr/v2/users/");
    s.append(crate::text::u64_string(user_id as u64).as_str());
    s.append("/locations_stats?per_page=");
    s.append(crate::text::u64_string(PAGE_SIZE as u64).as_str());
    s.append("&begin_at=");
    s.append(url_encode(span.from.as_str()).as_str());
    proof {
        assert(s@ =~= spec_locations_stats_url(user_id as int, span.from@));
    }
    s
}

/// A successful HTTP outcome.
pub open spec fn spec_is_success(status: u16) -> bool {
    200 <= status < 300
}

/// Whether an HTTP status code reports success.
pub fn is_success_status(status: u16) -> (r: bool)
    ensures
        r == spec_is_success(status),
{
    200 <= status && status < 300
}

/// Interprets the credential-exchange response. Any non-success
/// status is a credential rejection; a success response must carry
/// the token field, else its shape mismatches the API contract.
pub fn interpret_auth_response(status: u16, token: Option<String>) -> (r: Result<
    String,
    LogtimeError,
>)
    ensures
        !spec_is_success(status) ==> r == Err::<String, LogtimeError>(
            LogtimeError::AuthenticationFailed { status },
        ),
        spec_is_success(status) ==> match token {
            Some(t) => r == Ok::<String, LogtimeError>(t),
            None => r == Err::<String, LogtimeError>(LogtimeError::MalformedResponse),
        },
{
    if !is_success_status(status) {
        return Err(LogtimeError::AuthenticationFailed { status });
    }
    match token {
        Some(t) => Ok(t),
        None => Err(LogtimeError::MalformedResponse),
    }
}

/// Interprets the user-lookup response. A 401 signals an unusable
/// token; any other non-success status is a transport failure; an
/// empty result set means the login is unknown upstream — the primary
/// expected failure, distinguishable from every other kind; from more
/// than one match the first is taken deterministically.
pub fn interpret_users_response(status: u16, users: Option<Vec<User>>, login: &str) -> (r: Result<
    User,
    LogtimeError,
>)
    ensures
        status == 401 ==> r == Err::<User, LogtimeError>(
            LogtimeError::AuthenticationFailed { status: 401 },
        ),
        !spec_is_success(status) && status != 401 ==> r == Err::<User, LogtimeError>(
            LogtimeError::TransportError { status },
        ),
        spec_is_success(status) ==> match users {
            None => r == Err::<User, LogtimeError>(LogtimeError::MalformedResponse),
            Some(us) => {
                if us@.len() == 0 {
                    r matches Err(e) && e matches LogtimeError::UnknownLogin { login: l } && l@
                        == login@
                } else {
                    r matches Ok(u) && u.id == us@[0].id && u.login@ == us@[0].login@
                }
            },
        },
{
    if status == 401 {
        return Err(LogtimeError::AuthenticationFailed { status: 401 });
    }
    if !is_success_status(status) {
        return Err(LogtimeError::TransportError { status });
    }
    match users {
        None => Err(LogtimeError::MalformedResponse),
        Some(us) => {
            if us.len() == 0 {
                Err(LogtimeError::UnknownLogin { login: login.to_owned() })
            } else {
                Ok(User { id: us[0].id, login: us[0].login.clone() })
            }
        },
    }
}

/// Interprets the interval-fetch response. A 401 signals an unusable
/// token (distinct from other HTTP failures); any other non-success
/// status is a transport failure; a success body must decode into
/// interpretable interval records. An empty record list is a valid
/// result, not an error.
pub fn interpret_locations_response(status: u16, locations: Option<Vec<Location>>) -> (r: Result<
    Vec<PresenceInterval>,
    LogtimeError,
>)
    ensures
        status == 401 ==> r == Err::<Vec<PresenceInterval>, LogtimeError>(
            LogtimeError::AuthenticationFailed { status: 401 },
        ),
        !spec_is_success(status) && status != 401 ==> r == Err::<Vec<PresenceInterval>, LogtimeError>(
            LogtimeError::TransportError { status },
        ),
        spec_is_success(status) ==> match locations {
            None => r == Err::<Vec<PresenceInterval>, LogtimeError>(LogtimeError::MalformedResponse),
            Some(locs) => match spec_intervals_of(locs@) {
                Some(ivs) => r matches Ok(v) && v@ == ivs && spec_all_wf(v@),
                None => r == Err::<Vec<PresenceInterval>, LogtimeError>(
                    LogtimeError::MalformedResponse,
                ),
            },
        },
{
    if status == 401 {
        return Err(LogtimeError::AuthenticationFailed { status: 401 });
    }
    if !is_success_status(status) {
        return Err(LogtimeError::TransportError { status });
    }
    match locations {
        None => Err(LogtimeError::MalformedResponse),
        Some(locs) => crate::intervals::locations_to_intervals(&locs),
    }
}

} // verus!
