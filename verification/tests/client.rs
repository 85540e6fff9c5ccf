use onekp::client::{Action, Client, Outcome};
use onekp::error::OneKpError;

const S: u64 = 1_000_000_000;

fn play(client: &mut Client, start: u64, outcomes: &[Outcome]) -> (Action, usize, Vec<u64>) {
    let mut now = start;
    let mut sent = 0;
    let mut waits = vec![];
    let mut action = client.begin(now);
    while let Action::Request { wait_secs } = action {
        if sent == outcomes.len() {
            break;
        }
        waits.push(wait_secs);
        now += (wait_secs + 1) * S;
        action = client.react(outcomes[sent], now);
        sent += 1;
    }
    (action, sent, waits)
}

#[test]
fn get_succeeds_on_the_last_allowed_attempt() {
    let mut client = Client::new(3, 5, 0);
    let fail = Outcome::Status(503);
    let (action, sent, _) = play(&mut client, 10, &[fail, Outcome::NoResponse, fail, fail, Outcome::Status(200)]);
    assert_eq!(action, Action::Deliver);
    assert_eq!(sent, 5);
    assert_eq!(client.attempts(), 5);
}

#[test]
fn get_succeeds_at_once() {
    let mut client = Client::new(3, 5, 0);
    let (action, sent, waits) = play(&mut client, 100 * S, &[Outcome::Status(200), Outcome::Status(500)]);
    assert_eq!(action, Action::Deliver);
    assert_eq!(sent, 1);
    assert_eq!(waits, vec![0]);
    assert_eq!(client.last_fetch_time(), 101 * S);
}

#[test]
fn get_gives_up_after_exactly_max_retry_attempts() {
    let mut client = Client::new(3, 5, 0);
    let fail = Outcome::Status(404);
    let (action, sent, _) = play(&mut client, 10, &[fail; 9]);
    assert_eq!(action, Action::GiveUp { attempts: 5 });
    assert_eq!(sent, 5);
    assert_eq!(client.last_fetch_time(), 0);
    match Client::exhausted("http://host/file", 5) {
        OneKpError::FetchExhausted { url, attempts } => {
            assert_eq!(url, "http://host/file");
            assert_eq!(attempts, 5);
        }
        other => panic!("unexpected: {:?}", other),
    }
}

#[test]
fn get_with_no_attempts_allowed_gives_up_without_a_request() {
    let mut client = Client::new(3, 0, 0);
    assert_eq!(client.begin(50 * S), Action::GiveUp { attempts: 0 });
}

#[test]
fn statuses_outside_200_to_299_are_failures() {
    for code in [0u16, 100, 199, 300, 301, 304, 404, 500, 503, u16::MAX] {
        let mut client = Client::new(0, 2, 0);
        assert_eq!(client.begin(0), Action::Request { wait_secs: 0 });
        assert_eq!(client.react(Outcome::Status(code), 1), Action::Request { wait_secs: 0 });
        assert_eq!(client.react(Outcome::Status(code), 2), Action::GiveUp { attempts: 2 });
        assert_eq!(client.last_fetch_time(), 0);
    }
}

#[test]
fn statuses_200_to_299_are_successes() {
    for code in [200u16, 201, 204, 206, 299] {
        let mut client = Client::new(0, 1, 0);
        client.begin(0);
        assert_eq!(client.react(Outcome::Status(code), 7), Action::Deliver);
        assert_eq!(client.last_fetch_time(), 7);
    }
}

#[test]
fn get_delivers_a_success_status_other_than_200() {
    let mut client = Client::new(3, 3, 0);
    let replies = vec![(Outcome::Status(500), 4), (Outcome::Status(204), 8), (Outcome::Status(200), 12)];
    assert!(matches!(client.get("u", 0, &replies), Ok(Some(1))));
    assert_eq!(client.last_fetch_time(), 8);
    assert_eq!(client.attempts(), 2);
}

#[test]
fn wait_is_the_whole_interval_or_nothing() {
    let client = Client::new(3, 5, 100 * S);
    assert_eq!(client.wait_before(100 * S), 3);
    assert_eq!(client.wait_before(102 * S), 3);
    assert_eq!(client.wait_before(103 * S - 1), 3);
    assert_eq!(client.wait_before(103 * S), 0);
    assert_eq!(client.wait_before(1000 * S), 0);
    assert_eq!(client.wait_before(99 * S), 3);
    assert_eq!(client.wait_before(0), 3);
    assert_eq!(Client::new(0, 5, 100 * S).wait_before(100 * S), 0);
    assert_eq!(Client::new(u64::MAX, 5, 0).wait_before(u64::MAX), u64::MAX);
}

#[test]
fn wait_counts_whole_seconds_between_the_two_times() {
    let client = Client::new(3, 5, S - 1);
    assert_eq!(client.wait_before(3 * S + 1), 3);
    assert_eq!(client.wait_before(4 * S - 2), 3);
    assert_eq!(client.wait_before(4 * S - 1), 0);
}

#[test]
fn every_retry_waits_the_same_interval() {
    let mut client = Client::new(7, 3, 0);
    assert_eq!(client.begin(0), Action::Request { wait_secs: 7 });
    assert_eq!(client.react(Outcome::NoResponse, 1), Action::Request { wait_secs: 7 });
    assert_eq!(client.react(Outcome::NoResponse, 2), Action::Request { wait_secs: 7 });
    assert_eq!(client.react(Outcome::NoResponse, 3), Action::GiveUp { attempts: 3 });
}

#[test]
fn success_moves_the_last_fetch_time() {
    let mut client = Client::new(3, 5, 0);
    assert_eq!(client.begin(10 * S), Action::Request { wait_secs: 0 });
    assert_eq!(client.react(Outcome::Status(200), 11 * S), Action::Deliver);
    assert_eq!(client.last_fetch_time(), 11 * S);
    assert_eq!(client.begin(12 * S), Action::Request { wait_secs: 3 });
    assert_eq!(client.attempts(), 0);
    assert_eq!(client.interval_time(), 3);
    assert_eq!(client.max_retry(), 5);
}

#[test]
fn failure_keeps_the_last_fetch_time() {
    let mut client = Client::new(3, 5, 0);
    assert_eq!(client.begin(10 * S), Action::Request { wait_secs: 0 });
    assert_eq!(client.react(Outcome::Status(500), 11 * S), Action::Request { wait_secs: 0 });
    assert_eq!(client.last_fetch_time(), 0);
    assert_eq!(client.attempts(), 1);
}

#[test]
fn get_returns_the_place_of_the_successful_reply() {
    let fail = Outcome::Status(500);
    let mut client = Client::new(3, 4, 0);
    let replies = vec![(fail, 4), (fail, 8), (fail, 12), (Outcome::Status(200), 16), (fail, 20)];
    match client.get("http://host/x", 0, &replies) {
        Ok(Some(at)) => assert_eq!(at, 3),
        other => panic!("unexpected: {:?}", other),
    }
    assert_eq!(client.last_fetch_time(), 16);
    assert_eq!(client.attempts(), 4);
}

#[test]
fn get_fails_after_exactly_max_retry_replies() {
    let fail = Outcome::NoResponse;
    let mut client = Client::new(3, 4, 0);
    let replies = vec![(fail, 4), (fail, 8), (fail, 12), (fail, 16), (Outcome::Status(200), 20)];
    match client.get("http://host/x", 0, &replies) {
        Err(OneKpError::FetchExhausted { url, attempts }) => {
            assert_eq!(url, "http://host/x");
            assert_eq!(attempts, 4);
        }
        other => panic!("unexpected: {:?}", other),
    }
    assert_eq!(client.attempts(), 4);
    assert_eq!(client.last_fetch_time(), 0);
}

#[test]
fn get_with_too_few_replies_is_undecided() {
    let mut client = Client::new(3, 4, 0);
    let replies = vec![(Outcome::Status(404), 4)];
    assert!(matches!(client.get("u", 0, &replies), Ok(None)));
    assert_eq!(client.attempts(), 1);
    let mut never = Client::new(3, 0, 0);
    assert!(matches!(
        never.get("u", 0, &replies),
        Err(OneKpError::FetchExhausted { attempts: 0, .. })
    ));
}

#[test]
fn error_messages() {
    assert_eq!(
        OneKpError::PrefixNotFound { id: "ABCD".to_string() }.message(),
        "ABCD dirname is not found"
    );
    assert_eq!(
        Client::exhausted("http://host/x", 5).message(),
        "Error 5 times when fetching http://host/x"
    );
    assert_eq!(OneKpError::CacheIo { detail: "disk full".to_string() }.message(), "disk full");
    assert_eq!(OneKpError::Io { detail: "denied".to_string() }.message(), "denied");
    assert_eq!(
        OneKpError::FetchExhausted { url: "u".to_string(), attempts: 1203 }.message(),
        "Error 1203 times when fetching u"
    );
}
