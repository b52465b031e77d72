use mega::{
    collect_responses, on_body, send_requests, BodyDecision, ClientState, Error, Reply,
    RetryState, StatusDecision, Transport, EAGAIN,
};
use serde_json::Value;

struct Fake {
    replies: Vec<Reply>,
    posts: usize,
    sleeps: Vec<u64>,
    headers: Vec<Option<String>>,
    solved: Vec<(String, u8)>,
}

impl Fake {
    fn new(replies: Vec<Reply>) -> Fake {
        Fake { replies, posts: 0, sleeps: vec![], headers: vec![], solved: vec![] }
    }
}

impl Transport for Fake {
    fn sleep(&mut self, millis: u64) {
        self.sleeps.push(millis);
    }

    fn solve(&mut self, token: &str, easiness: u8) -> String {
        self.solved.push((token.to_string(), easiness));
        "STAMP".to_string()
    }

    fn post(&mut self, _url: &url::Url, hashcash: Option<&String>, _body: &Vec<u8>, _timeout: Option<u64>) -> Reply {
        self.posts += 1;
        self.headers.push(hashcash.cloned());
        if self.replies.len() > 1 {
            self.replies.remove(0)
        } else {
            match &self.replies[0] {
                Reply::NetworkError => Reply::NetworkError,
                Reply::Timeout => Reply::Timeout,
                Reply::Response { status, challenge_header, body } => Reply::Response {
                    status: *status,
                    challenge_header: challenge_header.clone(),
                    body: body.clone(),
                },
            }
        }
    }
}

fn state(max_retries: usize, min: u64, max: u64) -> ClientState {
    ClientState::new(url::Url::parse("https://g.api.example.net/").unwrap(), max_retries, min, max, Some(1000), true)
}

fn ok(body: &str) -> Reply {
    Reply::Response { status: 200, challenge_header: None, body: Some(body.as_bytes().to_vec()) }
}

fn requests(n: usize) -> Vec<Value> {
    (0..n).map(|i| Value::from(i as u64)).collect()
}

#[test]
fn success_keeps_request_order() {
    let st = state(3, 10, 100);
    let mut t = Fake::new(vec![ok("[\"a\",\"b\",\"c\"]")]);
    let r = send_requests(&mut t, &st, &requests(3), &vec![]).unwrap();
    assert_eq!(r, vec![Value::from("a"), Value::from("b"), Value::from("c")]);
    assert_eq!(t.posts, 1);
    assert!(t.sleeps.is_empty());
}

#[test]
fn challenge_then_success_takes_two_attempts() {
    let st = state(5, 10, 100);
    let mut t = Fake::new(vec![
        Reply::Response { status: 402, challenge_header: Some("1:192:1700000000:TOKEN".to_string()), body: None },
        ok("[0]"),
    ]);
    let r = send_requests(&mut t, &st, &requests(1), &vec![]).unwrap();
    assert_eq!(r.len(), 1);
    assert_eq!(t.posts, 2);
    assert_eq!(t.headers, vec![None, Some("1:TOKEN:STAMP".to_string())]);
    assert_eq!(t.solved, vec![("TOKEN".to_string(), 192)]);
    assert!(t.sleeps.is_empty());
}

#[test]
fn challenge_on_409_is_answered() {
    let st = state(5, 10, 100);
    let mut t = Fake::new(vec![
        Reply::Response { status: 409, challenge_header: Some("1:10:1:T".to_string()), body: None },
        ok("[1]"),
    ]);
    assert!(send_requests(&mut t, &st, &requests(1), &vec![]).is_ok());
    assert_eq!(t.headers[1], Some("1:T:STAMP".to_string()));
}

#[test]
fn missing_challenge_fails_at_once() {
    let st = state(5, 10, 100);
    let mut t = Fake::new(vec![Reply::Response { status: 402, challenge_header: None, body: None }]);
    let r = send_requests(&mut t, &st, &requests(1), &vec![]);
    assert_eq!(r.err(), Some(Error::MaxRetriesReached));
    assert_eq!(t.posts, 1);
}

#[test]
fn garbled_challenge_fails_at_once() {
    let st = state(5, 10, 100);
    let mut t = Fake::new(vec![Reply::Response { status: 402, challenge_header: Some("nonsense".to_string()), body: None }]);
    let r = send_requests(&mut t, &st, &requests(1), &vec![]);
    assert_eq!(r.err(), Some(Error::MaxRetriesReached));
    assert_eq!(t.posts, 1);
}

#[test]
fn retry_code_exhausts_budget() {
    let st = state(6, 10, 50);
    let mut t = Fake::new(vec![ok("-3")]);
    let r = send_requests(&mut t, &st, &requests(2), &vec![]);
    assert_eq!(r.err(), Some(Error::MaxRetriesReached));
    assert_eq!(t.posts, 6);
    assert_eq!(t.sleeps, vec![10, 20, 40, 50, 50]);
    assert!(t.sleeps.windows(2).all(|w| w[0] <= w[1]));
    assert!(t.sleeps.iter().all(|d| *d <= 50));
}

#[test]
fn network_errors_and_timeouts_are_retried() {
    let st = state(4, 1, 8);
    let mut t = Fake::new(vec![Reply::NetworkError, Reply::Timeout, ok("[7]")]);
    let r = send_requests(&mut t, &st, &requests(1), &vec![]).unwrap();
    assert_eq!(r, vec![Value::from(7)]);
    assert_eq!(t.posts, 3);
    assert_eq!(t.sleeps, vec![1, 2]);
}

#[test]
fn error_status_is_retried() {
    let st = state(2, 1, 8);
    let mut t = Fake::new(vec![Reply::Response { status: 500, challenge_header: None, body: None }]);
    let r = send_requests(&mut t, &st, &requests(1), &vec![]);
    assert_eq!(r.err(), Some(Error::MaxRetriesReached));
    assert_eq!(t.posts, 2);
}

#[test]
fn application_error_is_terminal() {
    let st = state(5, 1, 8);
    let mut t = Fake::new(vec![ok("-9")]);
    let r = send_requests(&mut t, &st, &requests(1), &vec![]);
    assert_eq!(r.err(), Some(Error::Api(-9)));
    assert_eq!(t.posts, 1);
}

#[test]
fn unreadable_body_is_terminal() {
    let st = state(5, 1, 8);
    let mut t = Fake::new(vec![Reply::Response { status: 200, challenge_header: None, body: None }]);
    let r = send_requests(&mut t, &st, &requests(1), &vec![]);
    assert_eq!(r.err(), Some(Error::Transport));
}

#[test]
fn zero_budget_fails() {
    let st = state(0, 1, 8);
    let mut t = Fake::new(vec![ok("[1]")]);
    let r = send_requests(&mut t, &st, &requests(1), &vec![]);
    assert_eq!(r.err(), Some(Error::MaxRetriesReached));
    assert_eq!(t.posts, 0);
}

#[test]
fn body_classification() {
    assert!(matches!(on_body(&b"-3".to_vec(), 1), BodyDecision::Retry));
    assert_eq!(EAGAIN, -3);
    assert!(matches!(on_body(&b"0".to_vec(), 1), BodyDecision::Fail(Error::Api(0))));
    assert!(matches!(on_body(&b"-9".to_vec(), 1), BodyDecision::Fail(Error::Api(-9))));
    assert!(matches!(on_body(&b"{}".to_vec(), 1), BodyDecision::Fail(Error::Json)));
    assert!(matches!(on_body(&b"[1]".to_vec(), 2), BodyDecision::Fail(Error::ResponseCount)));
    match on_body(&b"[1, {\"a\": 2}]".to_vec(), 2) {
        BodyDecision::Done(v) => assert_eq!(v[0], Value::from(1)),
        _ => panic!("expected results"),
    }
}

#[test]
fn retry_state_steps() {
    let st = state(3, 300, 200);
    let mut rs = RetryState::new(&st);
    assert_eq!(rs.delay, 200);
    assert_eq!(rs.first_delay, 200);
    let p = rs.next_attempt().unwrap();
    assert!(p.sleep.is_none());
    assert_eq!(rs.on_status(402, Some("1:3:0:tk")), StatusDecision::Retry);
    let p = rs.next_attempt().unwrap();
    assert!(p.sleep.is_none());
    assert_eq!(p.challenge.unwrap().token, "tk");
    assert_eq!(rs.on_status(503, None), StatusDecision::Retry);
    assert_eq!(rs.on_status(200, None), StatusDecision::ReadBody);
    assert_eq!(rs.on_status(302, None), StatusDecision::ReadBody);
    let p = rs.next_attempt().unwrap();
    assert_eq!(p.sleep, Some(200));
    assert!(rs.next_attempt().is_none());
}

#[test]
fn collect_all_or_first_failure() {
    let all: Vec<Result<u32, &str>> = vec![Ok(1), Ok(2), Ok(3)];
    assert_eq!(collect_responses(all), Ok(vec![1, 2, 3]));
    let some: Vec<Result<u32, &str>> = vec![Ok(1), Err("first"), Err("second")];
    assert_eq!(collect_responses(some), Err("first"));
    let none: Vec<Result<u32, &str>> = vec![];
    assert_eq!(collect_responses(none), Ok(vec![]));
}

#[test]
fn unusable_origin_fails_before_posting() {
    let st = ClientState::new(url::Url::parse("mailto:someone@example.net").unwrap(), 3, 1, 8, None, true);
    let mut t = Fake::new(vec![ok("[1]")]);
    let r = send_requests(&mut t, &st, &requests(1), &vec![]);
    assert_eq!(r.err(), Some(Error::Url));
    assert_eq!(t.posts, 0);
    assert_eq!(st.request_url(&vec![]).err(), Some(Error::Url));
}

#[test]
fn reply_decisions() {
    let st = state(3, 1, 8);
    let mut rs = RetryState::new(&st);
    assert!(matches!(rs.on_reply(Reply::NetworkError, 1), BodyDecision::Retry));
    assert!(matches!(rs.on_reply(Reply::Timeout, 1), BodyDecision::Retry));
    let unreadable = Reply::Response { status: 200, challenge_header: None, body: None };
    assert!(matches!(rs.on_reply(unreadable, 1), BodyDecision::Fail(Error::Transport)));
    let server_error = Reply::Response { status: 503, challenge_header: None, body: None };
    assert!(matches!(rs.on_reply(server_error, 1), BodyDecision::Retry));
    let no_challenge = Reply::Response { status: 409, challenge_header: None, body: None };
    assert!(matches!(rs.on_reply(no_challenge, 1), BodyDecision::Fail(Error::MaxRetriesReached)));
    assert!(rs.challenge.is_none());
    let challenge = Reply::Response { status: 402, challenge_header: Some("1:20:9:tk".to_string()), body: None };
    assert!(matches!(rs.on_reply(challenge, 1), BodyDecision::Retry));
    assert_eq!(rs.challenge.as_ref().unwrap().token, "tk");
    assert_eq!(rs.challenge.as_ref().unwrap().easiness, 20);
    assert!(matches!(rs.on_reply(ok("-3"), 1), BodyDecision::Retry));
    assert!(matches!(rs.on_reply(ok("-2"), 1), BodyDecision::Fail(Error::Api(-2))));
    match rs.on_reply(ok("[5]"), 1) {
        BodyDecision::Done(v) => assert_eq!(v, vec![Value::from(5)]),
        _ => panic!("expected results"),
    }
}

#[test]
fn prepared_call_fixes_url_and_body() {
    let st = state(3, 1, 8);
    let extra = vec![("v".to_string(), "1".to_string())];
    let (u, b) = mega::prepare_call(&st, &requests(2), &extra).unwrap();
    assert_eq!(u.as_str(), "https://g.api.example.net/cs?id=0&v=1");
    assert_eq!(b, b"[0,1]".to_vec());
}
