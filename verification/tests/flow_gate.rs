use device_auth::apis::{
    apply_refresh, bearer_for_profile, bearer_header, export_url, SkillStage, TokenGate,
};
use device_auth::auth::{classify_token_response, AuthorizationError, CodePairResponse, TokenResponse};
use device_auth::config::{Config, ConfigProfile};
use device_auth::flow::{
    begin_flow, flow_timed_out, mark_expired, on_poll_result, start_polling, wait_interval,
    FlowState,
};

fn to_doc(s: &str) -> Vec<char> {
    s.chars().collect()
}

fn code_pair() -> CodePairResponse {
    CodePairResponse {
        user_code: String::from("ABCDEF"),
        device_code: String::from("dev-1"),
        verification_uri: String::from("https://amazon.com/us/code"),
        expires_in: 600,
        interval: 5,
    }
}

fn token(tag: &str) -> TokenResponse {
    TokenResponse {
        access_token: format!("acc-{}", tag),
        refresh_token: format!("ref-{}", tag),
        token_type: String::from("bearer"),
        expires_in: 3600,
    }
}

/// A scripted authorization server: a queue of reply bodies, counting how
/// often it was polled.
struct MockServer {
    replies: Vec<&'static str>,
    polls: usize,
}

impl MockServer {
    fn poll(&mut self) -> Result<TokenResponse, AuthorizationError> {
        let body = self.replies.remove(0);
        self.polls += 1;
        classify_token_response(&to_doc(body))
    }
}

const SUCCESS_BODY: &str = "{\"access_token\":\"acc-new\",\"refresh_token\":\"ref-new\",\
     \"token_type\":\"bearer\",\"expires_in\":3600}";

#[test]
fn pending_twice_then_success_polls_three_times_and_stores() {
    let mut server = MockServer {
        replies: vec![
            "{\"error\":\"authorization_pending\"}",
            "{\"error\":\"authorization_pending\"}",
            SUCCESS_BODY,
        ],
        polls: 0,
    };
    let mut cfg = Config::empty();
    cfg.add_profile(&ConfigProfile::new(String::from("main"))).unwrap();

    let mut now: u64 = 100;
    let mut st = start_polling(begin_flow(code_pair(), now));
    loop {
        match st {
            FlowState::Polling { .. } => {
                if flow_timed_out(&st, now) {
                    st = mark_expired(st);
                    continue;
                }
                let wait = wait_interval(&st);
                let outcome = server.poll();
                now += wait;
                st = on_poll_result(st, outcome, now);
            }
            _ => break,
        }
    }
    assert_eq!(server.polls, 3);
    let granted = match st {
        FlowState::Authorized { token } => token,
        _ => panic!("flow did not authorize"),
    };
    cfg.update_profile_tokens_at(
        "main",
        granted.access_token,
        granted.refresh_token,
        granted.expires_in,
        String::from("vendor-1"),
        now,
    )
    .unwrap();
    let p = cfg.get_profile("main").unwrap();
    assert_eq!(p.access_token.as_deref(), Some("acc-new"));
    assert_eq!(p.refresh_token.as_deref(), Some("ref-new"));
    assert!(p.is_valid_at(now));
}

#[test]
fn expired_token_reply_ends_expired_without_touching_profiles() {
    let mut server =
        MockServer { replies: vec!["{\"error\":\"expired_token\"}"], polls: 0 };
    let cfg = Config::empty();
    let before = device_auth::json::encode_config(&cfg);

    let now: u64 = 100;
    let st = start_polling(begin_flow(code_pair(), now));
    let outcome = server.poll();
    let st = on_poll_result(st, outcome, now + 5);
    assert!(matches!(st, FlowState::Expired));
    assert_eq!(server.polls, 1);

    let after = device_auth::json::encode_config(&cfg);
    let a: String = before.iter().collect();
    let b: String = after.iter().collect();
    assert_eq!(a, b);
}

#[test]
fn slow_down_widens_the_wait_by_exactly_five_seconds() {
    let mut server = MockServer {
        replies: vec![
            "{\"error\":\"authorization_pending\"}",
            "{\"error\":\"slow_down\"}",
            SUCCESS_BODY,
        ],
        polls: 0,
    };
    let mut now: u64 = 0;
    let mut st = start_polling(begin_flow(code_pair(), now));

    let first_wait = wait_interval(&st);
    assert_eq!(first_wait, 5);
    now += first_wait;
    st = on_poll_result(st, server.poll(), now);

    // Second poll is answered with slow_down...
    let second_wait = wait_interval(&st);
    assert_eq!(second_wait, 5);
    now += second_wait;
    st = on_poll_result(st, server.poll(), now);

    // ...so the wait between the second and third poll grew by five.
    let third_wait = wait_interval(&st);
    assert_eq!(third_wait, second_wait + 5);
    now += third_wait;
    st = on_poll_result(st, server.poll(), now);
    assert!(matches!(st, FlowState::Authorized { .. }));
}

#[test]
fn terminal_error_fails_the_flow() {
    let st = start_polling(begin_flow(code_pair(), 0));
    let st = on_poll_result(st, Err(AuthorizationError::AccessDenied), 5);
    match st {
        FlowState::Failed { error } => assert_eq!(error, AuthorizationError::AccessDenied),
        _ => panic!("flow did not fail"),
    }
}

#[test]
fn outliving_the_code_lifetime_expires_even_while_pending() {
    let st = start_polling(begin_flow(code_pair(), 0));
    // The code lives 600 seconds; a pending reply after that expires it.
    let st = on_poll_result(st, Err(AuthorizationError::AuthorizationPending), 601);
    assert!(matches!(st, FlowState::Expired));
}

#[test]
fn negative_lifetime_counts_as_already_dead() {
    let mut pair = code_pair();
    pair.expires_in = -5;
    let st = start_polling(begin_flow(pair, 100));
    assert!(flow_timed_out(&st, 101));
}

#[test]
fn gate_refreshes_an_expired_profile_exactly_once_when_engaged() {
    let now: u64 = 1_000_000;
    let mut cfg = Config::empty();
    let mut p = ConfigProfile::new(String::from("main"));
    // Expired one second ago: initialized at `now - 11` for 10 seconds.
    p.init_at(String::from("acc-old"), String::from("ref-old"), 10, String::from("v1"), now - 11);
    assert_eq!(p.expires_at, Some(now - 1));
    cfg.add_profile(&p).unwrap();

    let mut refresh_calls: usize = 0;
    let header = loop {
        match bearer_for_profile(&cfg, "main", true, now) {
            TokenGate::Header { value } => break value,
            TokenGate::RefreshNeeded { refresh_token } => {
                assert_eq!(refresh_token, "ref-old");
                refresh_calls += 1;
                apply_refresh(&mut cfg, "main", token("new"), now).unwrap();
            }
            _ => panic!("gate refused the profile"),
        }
    };
    assert_eq!(refresh_calls, 1);
    assert_eq!(header, "Bearer acc-new");
    let q = cfg.get_profile("main").unwrap();
    assert!(q.is_valid_at(now));
    assert_eq!(q.vendor_id.as_deref(), Some("v1"));
}

#[test]
fn gate_without_auto_refresh_refuses_and_makes_no_call() {
    let now: u64 = 1_000_000;
    let mut cfg = Config::empty();
    let mut p = ConfigProfile::new(String::from("main"));
    p.init_at(String::from("acc-old"), String::from("ref-old"), 10, String::from("v1"), now - 11);
    cfg.add_profile(&p).unwrap();

    let refresh_calls: usize = 0;
    assert!(matches!(bearer_for_profile(&cfg, "main", false, now), TokenGate::NotValid));
    assert_eq!(refresh_calls, 0);
    // The profile is untouched.
    assert_eq!(cfg.get_profile("main").unwrap().access_token.as_deref(), Some("acc-old"));
}

#[test]
fn gate_on_missing_and_uninitialized_profiles() {
    let now: u64 = 50;
    let mut cfg = Config::empty();
    cfg.add_profile(&ConfigProfile::new(String::from("fresh"))).unwrap();
    assert!(matches!(bearer_for_profile(&cfg, "ghost", true, now), TokenGate::NotFound));
    // Uninitialized: no refresh token, so even auto-refresh cannot help.
    assert!(matches!(bearer_for_profile(&cfg, "fresh", true, now), TokenGate::NotValid));
}

#[test]
fn gate_hands_out_the_bearer_header_for_a_valid_profile() {
    let now: u64 = 100;
    let mut cfg = Config::empty();
    let mut p = ConfigProfile::new(String::from("main"));
    p.init_at(String::from("acc"), String::from("ref"), 60, String::from("v"), now);
    cfg.add_profile(&p).unwrap();
    match bearer_for_profile(&cfg, "main", false, now + 59) {
        TokenGate::Header { value } => assert_eq!(value, "Bearer acc"),
        _ => panic!("gate refused a valid profile"),
    }
}

#[test]
fn bearer_header_is_exact() {
    assert_eq!(bearer_header("Atza|abc"), "Bearer Atza|abc");
}

#[test]
fn export_url_is_exact() {
    assert_eq!(
        export_url("amzn1.ask.skill.123", &SkillStage::Development),
        "https://api.amazonalexa.com/v1/skills/amzn1.ask.skill.123/stages/development/exports"
    );
    assert_eq!(SkillStage::Live.stage_name(), "live");
}
