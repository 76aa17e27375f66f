use gettime::batch::Action;
use gettime::batch::BatchRunner;
use gettime::batch::Outcome;
use gettime::batch::Phase;
use gettime::error::LogtimeError;
use gettime::intervals::Location;
use gettime::request::User;

fn logins(names: &[&str]) -> Vec<String> {
    names.iter().map(|s| String::from(*s)).collect()
}

fn user(id: u32, login: &str) -> User {
    User { id, login: String::from(login) }
}

fn closed_location(begin: &str, end: &str) -> Location {
    Location { begin_at: Some(String::from(begin)), end_at: Some(String::from(end)) }
}

/// Answers lookups from a table of (login, users) pairs and serves
/// every fetch the given locations, pausing as asked.
fn drive(runner: &mut BatchRunner, lookup: &[(&str, Vec<User>)], fetch_locations: Vec<Location>) {
    loop {
        match runner.next_action() {
            Action::Lookup { login } => {
                let users = lookup
                    .iter()
                    .find(|(l, _)| *l == login)
                    .map(|(_, us)| us.clone())
                    .unwrap_or_default();
                runner.on_lookup_reply(200, Some(users));
            }
            Action::Fetch { user_id: _ } => {
                runner.on_fetch_reply(200, Some(fetch_locations.clone()));
            }
            Action::Pause => runner.pause_done(),
            Action::Finished => break,
        }
    }
}

#[test]
fn batch_isolates_a_bad_login_and_keeps_order() {
    let mut runner = BatchRunner::new(logins(&["good1", "badlogin", "good2"]));
    let table = [
        ("good1", vec![user(1, "good1")]),
        ("badlogin", Vec::new()),
        ("good2", vec![user(2, "good2")]),
    ];
    let locations = vec![closed_location(
        "2024-06-12T10:00:00Z",
        "2024-06-12T10:30:00Z",
    )];
    drive(&mut runner, &table, locations);

    assert_eq!(runner.phase, Phase::Done);
    assert!(runner.fatal.is_none());
    assert_eq!(runner.results.len(), 3);
    assert_eq!(runner.results[0].login, "good1");
    assert_eq!(runner.results[0].outcome, Outcome::Seconds(1800));
    assert_eq!(runner.results[1].login, "badlogin");
    assert_eq!(runner.results[1].outcome, Outcome::UnknownLogin);
    assert_eq!(runner.results[2].login, "good2");
    assert_eq!(runner.results[2].outcome, Outcome::Seconds(1800));
}

#[test]
fn unauthorized_first_fetch_aborts_the_batch() {
    let mut runner = BatchRunner::new(logins(&["first", "second"]));
    match runner.next_action() {
        Action::Lookup { login } => assert_eq!(login, "first"),
        other => panic!("unexpected action {:?}", other),
    }
    runner.on_lookup_reply(200, Some(vec![user(1, "first")]));
    assert_eq!(runner.phase, Phase::Fetch { user_id: 1 });
    runner.on_fetch_reply(401, None);

    assert_eq!(runner.phase, Phase::Aborted);
    assert_eq!(runner.fatal, Some(LogtimeError::AuthenticationFailed { status: 401 }));
    // no further login is attempted
    assert_eq!(runner.next_action(), Action::Finished);
    assert!(runner.results.is_empty());
}

#[test]
fn unauthorized_later_fetch_still_aborts() {
    let mut runner = BatchRunner::new(logins(&["first", "second", "third"]));
    runner.on_lookup_reply(200, Some(vec![user(1, "first")]));
    runner.on_fetch_reply(200, Some(Vec::new()));
    runner.pause_done();
    runner.on_lookup_reply(200, Some(vec![user(2, "second")]));
    runner.on_fetch_reply(401, None);

    assert_eq!(runner.phase, Phase::Aborted);
    assert_eq!(runner.fatal, Some(LogtimeError::AuthenticationFailed { status: 401 }));
    assert_eq!(runner.next_action(), Action::Finished);
    // the first login's result stands, the rest were never attempted
    assert_eq!(runner.results.len(), 1);
    assert_eq!(runner.results[0].outcome, Outcome::Seconds(0));
}

#[test]
fn not_found_fetch_does_not_abort() {
    let mut runner = BatchRunner::new(logins(&["first", "second"]));
    runner.on_lookup_reply(200, Some(vec![user(1, "first")]));
    runner.on_fetch_reply(404, None);

    // the 404 is recorded for this login and the batch continues
    assert_eq!(runner.phase, Phase::Pause);
    runner.pause_done();
    runner.on_lookup_reply(200, Some(vec![user(2, "second")]));
    runner.on_fetch_reply(200, Some(Vec::new()));

    assert_eq!(runner.phase, Phase::Done);
    assert_eq!(runner.results.len(), 2);
    assert_eq!(runner.results[0].outcome, Outcome::TransportError { status: 404 });
    assert_eq!(runner.results[1].outcome, Outcome::Seconds(0));
}

#[test]
fn transport_error_on_the_very_first_call_aborts() {
    let mut runner = BatchRunner::new(logins(&["first", "second"]));
    runner.on_lookup_reply(500, None);

    assert_eq!(runner.phase, Phase::Aborted);
    assert_eq!(runner.fatal, Some(LogtimeError::TransportError { status: 500 }));
    assert!(runner.results.is_empty());
}

#[test]
fn transport_error_on_a_later_lookup_is_isolated() {
    let mut runner = BatchRunner::new(logins(&["first", "second", "third"]));
    runner.on_lookup_reply(200, Some(vec![user(1, "first")]));
    runner.on_fetch_reply(200, Some(Vec::new()));
    runner.pause_done();
    runner.on_lookup_reply(500, None);

    assert_eq!(runner.phase, Phase::Pause);
    runner.pause_done();
    runner.on_lookup_reply(200, Some(vec![user(3, "third")]));
    runner.on_fetch_reply(200, Some(Vec::new()));

    assert_eq!(runner.phase, Phase::Done);
    assert_eq!(runner.results.len(), 3);
    assert_eq!(runner.results[1].outcome, Outcome::TransportError { status: 500 });
}

#[test]
fn unauthorized_lookup_aborts_anywhere() {
    let mut runner = BatchRunner::new(logins(&["first", "second"]));
    runner.on_lookup_reply(200, Some(vec![user(1, "first")]));
    runner.on_fetch_reply(200, Some(Vec::new()));
    runner.pause_done();
    runner.on_lookup_reply(401, None);

    assert_eq!(runner.phase, Phase::Aborted);
    assert_eq!(runner.fatal, Some(LogtimeError::AuthenticationFailed { status: 401 }));
}

#[test]
fn malformed_body_aborts() {
    let mut runner = BatchRunner::new(logins(&["first"]));
    runner.on_lookup_reply(200, None);
    assert_eq!(runner.phase, Phase::Aborted);
    assert_eq!(runner.fatal, Some(LogtimeError::MalformedResponse));
}

#[test]
fn empty_batch_finishes_at_once() {
    let runner = BatchRunner::new(Vec::new());
    assert_eq!(runner.phase, Phase::Done);
    assert_eq!(runner.next_action(), Action::Finished);
    assert!(runner.results.is_empty());
}

#[test]
fn lookup_takes_the_first_of_several_matches() {
    let mut runner = BatchRunner::new(logins(&["dup"]));
    runner.on_lookup_reply(200, Some(vec![user(7, "dup"), user(8, "dup")]));
    assert_eq!(runner.phase, Phase::Fetch { user_id: 7 });
}

#[test]
fn no_pause_follows_the_last_login() {
    let mut runner = BatchRunner::new(logins(&["only"]));
    runner.on_lookup_reply(200, Some(vec![user(1, "only")]));
    runner.on_fetch_reply(200, Some(Vec::new()));
    // straight to done: no trailing pause
    assert_eq!(runner.phase, Phase::Done);
}
