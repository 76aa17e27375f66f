use gettime::config::Config;
use gettime::error::LogtimeError;
use gettime::intervals::Location;
use gettime::request::auth_url;
use gettime::request::interpret_auth_response;
use gettime::request::interpret_locations_response;
use gettime::request::interpret_users_response;
use gettime::request::is_success_status;
use gettime::request::locations_stats_url;
use gettime::request::locations_url;
use gettime::request::users_url;
use gettime::request::User;
use gettime::span::explicit_span;

fn config() -> Config {
    Config {
        client_id: String::from("my:client"),
        secret: String::from("s&cret"),
        from: None,
        to: None,
        login: None,
    }
}

#[test]
fn auth_url_percent_encodes_credentials() {
    let url = auth_url(&config());
    assert_eq!(
        url,
        "https://api.intra.42.fr/oauth/token?grant_type=client_credentials\
         &client_id=my%3Aclient&client_secret=s%26cret"
    );
}

#[test]
fn users_url_percent_encodes_the_login() {
    assert_eq!(
        users_url("jdoe"),
        "https://api.intra.42.fr/v2/users?filter[login]=jdoe"
    );
    assert_eq!(
        users_url("j d:oe"),
        "https://api.intra.42.fr/v2/users?filter[login]=j+d%3Aoe"
    );
}

#[test]
fn locations_url_carries_page_size_and_encoded_range() {
    let span = explicit_span("2024-06-01", "2024-06-30").unwrap();
    assert_eq!(
        locations_url(1234, &span),
        "https://api.intra.42.fr/v2/users/1234/locations?per_page=100\
         &range[begin_at]=2024-06-01,2024-06-30"
    );
}

#[test]
fn locations_stats_url_carries_the_span_start() {
    let span = explicit_span("2024-06-01", "2024-06-30").unwrap();
    assert_eq!(
        locations_stats_url(7, &span),
        "https://api.intra.42.fr/v2/users/7/locations_stats?per_page=100&begin_at=2024-06-01"
    );
}

#[test]
fn success_statuses_are_the_2xx_range() {
    assert!(is_success_status(200));
    assert!(is_success_status(204));
    assert!(!is_success_status(199));
    assert!(!is_success_status(301));
    assert!(!is_success_status(401));
    assert!(!is_success_status(500));
}

#[test]
fn auth_response_interpretation() {
    assert_eq!(
        interpret_auth_response(401, Some(String::from("t"))).unwrap_err(),
        LogtimeError::AuthenticationFailed { status: 401 }
    );
    assert_eq!(
        interpret_auth_response(500, None).unwrap_err(),
        LogtimeError::AuthenticationFailed { status: 500 }
    );
    assert_eq!(
        interpret_auth_response(200, Some(String::from("token-1"))).unwrap(),
        "token-1"
    );
    assert_eq!(
        interpret_auth_response(200, None).unwrap_err(),
        LogtimeError::MalformedResponse
    );
}

#[test]
fn users_response_interpretation() {
    let users = vec![
        User { id: 42, login: String::from("jdoe") },
        User { id: 43, login: String::from("jdoe2") },
    ];
    let first = interpret_users_response(200, Some(users), "jdoe").unwrap();
    assert_eq!(first.id, 42);
    assert_eq!(first.login, "jdoe");

    assert_eq!(
        interpret_users_response(200, Some(Vec::new()), "ghost").unwrap_err(),
        LogtimeError::UnknownLogin { login: String::from("ghost") }
    );
    assert_eq!(
        interpret_users_response(401, None, "jdoe").unwrap_err(),
        LogtimeError::AuthenticationFailed { status: 401 }
    );
    assert_eq!(
        interpret_users_response(404, None, "jdoe").unwrap_err(),
        LogtimeError::TransportError { status: 404 }
    );
    assert_eq!(
        interpret_users_response(200, None, "jdoe").unwrap_err(),
        LogtimeError::MalformedResponse
    );
}

#[test]
fn locations_response_interpretation() {
    let locs = vec![Location {
        begin_at: Some(String::from("2024-06-12T10:00:00Z")),
        end_at: Some(String::from("2024-06-12T10:30:00Z")),
    }];
    let ivs = interpret_locations_response(200, Some(locs)).unwrap();
    assert_eq!(ivs.len(), 1);

    let empty = interpret_locations_response(200, Some(Vec::new())).unwrap();
    assert!(empty.is_empty());

    assert_eq!(
        interpret_locations_response(401, None).unwrap_err(),
        LogtimeError::AuthenticationFailed { status: 401 }
    );
    assert_eq!(
        interpret_locations_response(404, None).unwrap_err(),
        LogtimeError::TransportError { status: 404 }
    );
    assert_eq!(
        interpret_locations_response(200, None).unwrap_err(),
        LogtimeError::MalformedResponse
    );
}

#[test]
fn error_messages() {
    assert_eq!(
        LogtimeError::InvalidDateFormat.message(),
        "Bad date format: date format must be YYYY-MM-DD"
    );
    assert_eq!(
        LogtimeError::AuthenticationFailed { status: 401 }.message(),
        "Authentication failed: HTTP 401"
    );
    assert_eq!(
        LogtimeError::UnknownLogin { login: String::from("ghost") }.message(),
        "Bad login: ghost"
    );
    assert_eq!(LogtimeError::TransportError { status: 503 }.message(), "HTTP error 503");
    assert_eq!(LogtimeError::MalformedResponse.message(), "Malformed API response");
}

#[test]
fn config_date_validation() {
    let mut c = config();
    assert!(gettime::config::validate_config_dates(&c).is_ok());
    c.from = Some(String::from("2024-06-01"));
    c.to = Some(String::from("2024-06-31"));
    assert!(gettime::config::validate_config_dates(&c).is_ok());
    c.to = Some(String::from("2024-6-31"));
    assert_eq!(
        gettime::config::validate_config_dates(&c).unwrap_err(),
        LogtimeError::InvalidDateFormat
    );
    c.to = None;
    c.from = Some(String::from("junk"));
    assert_eq!(
        gettime::config::validate_config_dates(&c).unwrap_err(),
        LogtimeError::InvalidDateFormat
    );
}
