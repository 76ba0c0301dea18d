use ddns_update::ipv4::{HostAddr, Ipv4};
use ddns_update::run::{
    bearer_text, record_url_text, records_url_text, update_body_text, Action, ApiRequest, Event,
    Outcome, Params, Run, RunError, Stage, DEFAULT_CHECK_URL,
};

fn params(id: Option<u64>) -> Params {
    Params {
        domain_name: String::from("home.example.com"),
        domain_record_id: id,
        api_token: String::from("tok"),
        url_check_ip: String::from(DEFAULT_CHECK_URL),
    }
}

fn fetched(s: &str) -> Event {
    Event::Fetched(String::from(s))
}

/// Steps a run in update mode up to the point where it has the domain's address.
fn resolved_run(domain_ip: Ipv4) -> Run {
    let mut run = Run::new(params(Some(42)));
    match run.step(Event::Begin) {
        Action::ResolveDomain(name) => assert_eq!(name, "home.example.com"),
        other => panic!("unexpected {:?}", other),
    }
    match run.step(Event::DomainResolved(vec![HostAddr::V6(9), HostAddr::V4(domain_ip)])) {
        Action::FetchHostIp(url) => assert_eq!(url, "https://icanhazip.com"),
        other => panic!("unexpected {:?}", other),
    }
    assert_eq!(run.stage, Stage::FetchingHostIp(42, domain_ip));
    run
}

fn expect_update(a: Action) -> ApiRequest {
    match a {
        Action::UpdateRecord(q) => q,
        other => panic!("unexpected {:?}", other),
    }
}

#[test]
fn builds_provider_requests() {
    assert_eq!(
        records_url_text("example.com"),
        "https://api.digitalocean.com/v2/domains/example.com/records"
    );
    assert_eq!(
        record_url_text("example.com", 1234567),
        "https://api.digitalocean.com/v2/domains/example.com/records/1234567"
    );
    assert_eq!(bearer_text("abc"), "Bearer abc");
    assert_eq!(
        update_body_text(Ipv4::new(203, 0, 113, 5)),
        "{\"type\":\"A\",\"data\":\"203.0.113.5\"}"
    );
}

#[test]
fn equal_addresses_do_not_update() {
    let ip = Ipv4::new(198, 51, 100, 1);
    let mut run = resolved_run(ip);
    match run.step(fetched("198.51.100.1\n")) {
        Action::Finish(Ok(Outcome::Unchanged(got))) => assert_eq!(got, ip),
        other => panic!("unexpected {:?}", other),
    }
    assert_eq!(run.stage, Stage::Done);
    assert!(matches!(run.step(fetched("{}")), Action::Nothing));
    assert!(matches!(run.step(Event::RequestFailed), Action::Nothing));
}

#[test]
fn different_addresses_update_once() {
    let mut run = resolved_run(Ipv4::new(198, 51, 100, 1));
    let q = expect_update(run.step(fetched("203.0.113.5\n")));
    assert_eq!(q.url, "https://api.digitalocean.com/v2/domains/home.example.com/records/42");
    assert_eq!(q.authorization, "Bearer tok");
    assert_eq!(q.body, "{\"type\":\"A\",\"data\":\"203.0.113.5\"}");
    assert_eq!(run.stage, Stage::Updating(Ipv4::new(203, 0, 113, 5)));
    match run.step(fetched("{\"domain_record\":{}}")) {
        Action::Finish(Ok(Outcome::Updated(ip))) => assert_eq!(ip, Ipv4::new(203, 0, 113, 5)),
        other => panic!("unexpected {:?}", other),
    }
    assert!(matches!(run.step(fetched("{}")), Action::Nothing));
}

#[test]
fn failed_update_fails_the_run() {
    let mut run = resolved_run(Ipv4::new(198, 51, 100, 1));
    expect_update(run.step(fetched("203.0.113.5")));
    assert!(matches!(run.step(Event::RequestFailed), Action::Finish(Err(RunError::Update))));
    assert_eq!(run.stage, Stage::Done);
}

#[test]
fn ipv6_only_domain_fails_before_http() {
    let mut run = Run::new(params(Some(7)));
    assert!(matches!(run.step(Event::Begin), Action::ResolveDomain(_)));
    let a = run.step(Event::DomainResolved(vec![HostAddr::V6(1), HostAddr::V6(0x2001_0db8 << 96)]));
    assert!(matches!(a, Action::Finish(Err(RunError::NoIpv4Address))));
    assert_eq!(run.stage, Stage::Done);
}

#[test]
fn unresolvable_domain_fails() {
    let mut run = Run::new(params(Some(7)));
    run.step(Event::Begin);
    assert!(matches!(run.step(Event::DomainUnresolved), Action::Finish(Err(RunError::Resolution))));
}

#[test]
fn host_answer_not_an_ip_fails_without_more_calls() {
    let mut run = resolved_run(Ipv4::new(198, 51, 100, 1));
    assert!(matches!(run.step(fetched("not-an-ip")), Action::Finish(Err(RunError::Parse))));
    assert_eq!(run.stage, Stage::Done);
    assert!(matches!(run.step(fetched("1.2.3.4")), Action::Nothing));
}

#[test]
fn failed_address_lookup_is_a_transport_error() {
    let mut run = resolved_run(Ipv4::new(198, 51, 100, 1));
    assert!(matches!(run.step(Event::RequestFailed), Action::Finish(Err(RunError::Transport))));
}

#[test]
fn list_mode_lists_once() {
    let mut run = Run::new(params(None));
    match run.step(Event::Begin) {
        Action::ListRecords(q) => {
            assert_eq!(q.url, "https://api.digitalocean.com/v2/domains/home.example.com/records");
            assert_eq!(q.authorization, "Bearer tok");
            assert_eq!(q.body, "{}");
        },
        other => panic!("unexpected {:?}", other),
    }
    assert_eq!(run.stage, Stage::Listing);
    assert!(matches!(run.step(Event::DomainResolved(vec![])), Action::Nothing));
    match run.step(fetched("{\"domain_records\":[{\"id\":3}]}")) {
        Action::Finish(Ok(Outcome::Listed(p))) => {
            assert_eq!(p, "{\n  \"domain_records\": [\n    {\n      \"id\": 3\n    }\n  ]\n}")
        },
        other => panic!("unexpected {:?}", other),
    }
    assert!(matches!(run.step(fetched("{}")), Action::Nothing));
}

#[test]
fn listing_that_is_no_json_fails() {
    let mut run = Run::new(params(None));
    run.step(Event::Begin);
    assert!(matches!(run.step(fetched("<html>")), Action::Finish(Err(RunError::Transport))));
}

#[test]
fn failed_listing_is_a_transport_error() {
    let mut run = Run::new(params(None));
    run.step(Event::Begin);
    assert!(matches!(run.step(Event::RequestFailed), Action::Finish(Err(RunError::Transport))));
}

#[test]
fn second_run_after_update_does_nothing() {
    let host = Ipv4::new(203, 0, 113, 5);
    let mut first = resolved_run(Ipv4::new(198, 51, 100, 1));
    let q = expect_update(first.step(fetched("203.0.113.5\n")));
    assert_eq!(q.body, "{\"type\":\"A\",\"data\":\"203.0.113.5\"}");
    assert!(matches!(first.step(fetched("{}")), Action::Finish(Ok(Outcome::Updated(_)))));
    let mut second = resolved_run(host);
    match second.step(fetched("203.0.113.5\n")) {
        Action::Finish(Ok(Outcome::Unchanged(ip))) => assert_eq!(ip, host),
        other => panic!("unexpected {:?}", other),
    }
}

#[test]
fn events_out_of_turn_change_nothing() {
    let mut run = Run::new(params(Some(1)));
    assert!(matches!(run.step(fetched("1.2.3.4")), Action::Nothing));
    assert_eq!(run.stage, Stage::Start);
}
