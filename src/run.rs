use vstd::prelude::*;
use vstd::string::StringExecFns;

use crate::ipv4::{decimal_string, decimal_text, dotted, first_ipv4, parse_ipv4, v4_entries, HostAddr, Ipv4};
use crate::text::{pretty_json, pretty_json_of, trim, trimmed};

verus! {

/// The provider's API root.
pub const API_ROOT: &'static str = "https://api.digitalocean.com/v2";

/// The endpoint asked for the host's public address when none is given.
pub const DEFAULT_CHECK_URL: &'static str = "https://icanhazip.com";

/// What one run is asked to do.
#[derive(Debug)]
pub struct Params {
    pub domain_name: String,
    /// The record to update; without one the run lists the domain's records.
    pub domain_record_id: Option<u64>,
    pub api_token: String,
    pub url_check_ip: String,
}

/// Why a run failed.
#[derive(Clone, Copy, Debug, PartialEq, Eq, Structural)]
pub enum RunError {
    /// The domain name did not resolve.
    Resolution,
    /// The domain resolved, but to no IPv4 address.
    NoIpv4Address,
    /// An HTTP call other than the update did not complete with success.
    Transport,
    /// The address endpoint answered with no IPv4 literal.
    Parse,
    /// The update call did not complete with success.
    Update,
}

/// How a run ended well.
#[derive(Clone, Debug)]
pub enum Outcome {
    /// The record already held the host's address.
    Unchanged(Ipv4),
    /// The record was set to the host's address.
    Updated(Ipv4),
    /// The domain's records, as an indented JSON document.
    Listed(String),
}

/// Where a run stands.
#[derive(Clone, Copy, Debug, PartialEq, Eq, Structural)]
pub enum Stage {
    Start,
    /// Waiting for the domain's addresses; the record to update.
    ResolvingDomain(u64),
    /// Waiting for the host's address; the record and the domain's address.
    FetchingHostIp(u64, Ipv4),
    Updating(Ipv4),
    Listing,
    Done,
}

/// What the outside world reports to a run.
#[derive(Debug)]
pub enum Event {
    /// The run is to start.
    Begin,
    /// Name resolution of the domain gave these addresses, in its order.
    DomainResolved(Vec<HostAddr>),
    /// Name resolution of the domain failed.
    DomainUnresolved,
    /// The HTTP call asked for succeeded, with this body.
    Fetched(String),
    /// The HTTP call asked for failed.
    RequestFailed,
}

/// An authenticated call to the provider's API.
#[derive(Debug)]
pub struct ApiRequest {
    pub url: String,
    /// The value of the `Authorization` header.
    pub authorization: String,
    /// The JSON body.
    pub body: String,
}

/// What a run asks the outside world to do next.
#[derive(Debug)]
pub enum Action {
    /// Resolve this name to its addresses.
    ResolveDomain(String),
    /// GET this URL, whose body is the host's public address.
    FetchHostIp(String),
    /// GET the domain's records.
    ListRecords(ApiRequest),
    /// PUT the record's new contents.
    UpdateRecord(ApiRequest),
    /// The run is over.
    Finish(Result<Outcome, RunError>),
    /// The event did not fit the stage: nothing to do.
    Nothing,
}

/// How a run ended well, in terms of values.
pub enum OutcomeView {
    Unchanged(Ipv4),
    Updated(Ipv4),
    Listed(Seq<char>),
}

/// What an action asks for, in terms of values.
pub enum Effect {
    ResolveDomain(Seq<char>),
    FetchHostIp(Seq<char>),
    ListRecords { url: Seq<char>, authorization: Seq<char>, body: Seq<char> },
    UpdateRecord { url: Seq<char>, authorization: Seq<char>, body: Seq<char> },
    Finish(Result<OutcomeView, RunError>),
    Nothing,
}

impl Outcome {
    pub open spec fn view(&self) -> OutcomeView {
        match self {
            Outcome::Unchanged(ip) => OutcomeView::Unchanged(*ip),
            Outcome::Updated(ip) => OutcomeView::Updated(*ip),
            Outcome::Listed(s) => OutcomeView::Listed(s@),
        }
    }
}

impl Action {
    pub open spec fn view(&self) -> Effect {
        match self {
            Action::ResolveDomain(n) => Effect::ResolveDomain(n@),
            Action::FetchHostIp(u) => Effect::FetchHostIp(u@),
            Action::ListRecords(q) => Effect::ListRecords {
                url: q.url@,
                authorization: q.authorization@,
                body: q.body@,
            },
            Action::UpdateRecord(q) => Effect::UpdateRecord {
                url: q.url@,
                authorization: q.authorization@,
                body: q.body@,
            },
            Action::Finish(Ok(o)) => Effect::Finish(Ok(o.view())),
            Action::Finish(Err(e)) => Effect::Finish(Err(*e)),
            Action::Nothing => Effect::Nothing,
        }
    }
}

/// The URL that lists a domain's records.
pub open spec fn records_url(domain: Seq<char>) -> Seq<char> {
    API_ROOT@ + "/domains/"@ + domain + "/records"@
}

/// The URL of one record of a domain.
pub open spec fn record_url(domain: Seq<char>, id: u64) -> Seq<char> {
    records_url(domain) + "/"@ + decimal_text(id as nat)
}

/// The `Authorization` header that carries a bearer token.
pub open spec fn bearer(token: Seq<char>) -> Seq<char> {
    "Bearer "@ + token
}

/// The body of an update: an A record holding the address.
pub open spec fn update_body(ip: Ipv4) -> Seq<char> {
    "{\"type\":\"A\",\"data\":\""@ + dotted(ip) + "\"}"@
}

/// The address written as a whole in `s`, if there is one.
pub open spec fn literal_ip(s: Seq<char>) -> Option<Ipv4> {
    if exists|ip: Ipv4| #[trigger] dotted(ip) == s {
        Some(choose|ip: Ipv4| #[trigger] dotted(ip) == s)
    } else {
        None
    }
}

/// The stage a run moves to on an event, and what it asks for then.
pub open spec fn plan(stage: Stage, params: Params, event: Event) -> (Stage, Effect) {
    match (stage, event) {
        (Stage::Start, Event::Begin) => match params.domain_record_id {
            None => (
                Stage::Listing,
                Effect::ListRecords {
                    url: records_url(params.domain_name@),
                    authorization: bearer(params.api_token@),
                    body: "{}"@,
                },
            ),
            Some(id) => (Stage::ResolvingDomain(id), Effect::ResolveDomain(params.domain_name@)),
        },
        (Stage::ResolvingDomain(id), Event::DomainResolved(addrs)) => {
            let found = v4_entries(addrs@);
            if found.len() == 0 {
                (Stage::Done, Effect::Finish(Err(RunError::NoIpv4Address)))
            } else {
                (Stage::FetchingHostIp(id, found[0]), Effect::FetchHostIp(params.url_check_ip@))
            }
        },
        (Stage::ResolvingDomain(_), Event::DomainUnresolved) => (
            Stage::Done,
            Effect::Finish(Err(RunError::Resolution)),
        ),
        (Stage::FetchingHostIp(id, domain_ip), Event::Fetched(body)) => match literal_ip(
            trimmed(body@),
        ) {
            None => (Stage::Done, Effect::Finish(Err(RunError::Parse))),
            Some(host_ip) => if host_ip == domain_ip {
                (Stage::Done, Effect::Finish(Ok(OutcomeView::Unchanged(host_ip))))
            } else {
                (
                    Stage::Updating(host_ip),
                    Effect::UpdateRecord {
                        url: record_url(params.domain_name@, id),
                        authorization: bearer(params.api_token@),
                        body: update_body(host_ip),
                    },
                )
            },
        },
        (Stage::FetchingHostIp(_, _), Event::RequestFailed) => (
            Stage::Done,
            Effect::Finish(Err(RunError::Transport)),
        ),
        (Stage::Updating(host_ip), Event::Fetched(_)) => (
            Stage::Done,
            Effect::Finish(Ok(OutcomeView::Updated(host_ip))),
        ),
        (Stage::Updating(_), Event::RequestFailed) => (
            Stage::Done,
            Effect::Finish(Err(RunError::Update)),
        ),
        (Stage::Listing, Event::Fetched(body)) => match pretty_json_of(body@) {
            Some(p) => (Stage::Done, Effect::Finish(Ok(OutcomeView::Listed(p)))),
            None => (Stage::Done, Effect::Finish(Err(RunError::Transport))),
        },
        (Stage::Listing, Event::RequestFailed) => (
            Stage::Done,
            Effect::Finish(Err(RunError::Transport)),
        ),
        _ => (stage, Effect::Nothing),
    }
}

/// A run: the parameters it was given and where it stands.
pub struct Run {
    pub params: Params,
    pub stage: Stage,
}

/// `r` is what `parse_ipv4` gave for `s`.
proof fn lemma_literal_ip(s: Seq<char>, r: Option<Ipv4>)
    requires
        forall|ip: Ipv4| #![trigger dotted(ip)] r == Some(ip) <==> s == dotted(ip),
    ensures
        r == literal_ip(s),
{
    if let Some(ip) = r {
        assert(dotted(ip) == s);
        let other = choose|ip: Ipv4| #[trigger] dotted(ip) == s;
        assert(r == Some(other));
    }
}

/// The host's address out of the address endpoint's answer: the IPv4 literal that
/// the body holds once the white space around it is removed.
pub fn parse_host_ip(body: &str) -> (r: Result<Ipv4, RunError>)
    ensures
        r == match literal_ip(trimmed(body@)) {
            Some(ip) => Ok::<Ipv4, RunError>(ip),
            None => Err(RunError::Parse),
        },
{
    let t = trim(body);
    let p = parse_ipv4(t);
    proof {
        lemma_literal_ip(t@, p);
    }
    match p {
        Some(ip) => Ok(ip),
        None => Err(RunError::Parse),
    }
}

/// The domain's address out of its resolution: the first IPv4 entry.
pub fn select_domain_ip(addrs: &Vec<HostAddr>) -> (r: Result<Ipv4, RunError>)
    ensures
        v4_entries(addrs@).len() == 0 ==> r == Err::<Ipv4, RunError>(RunError::NoIpv4Address),
        v4_entries(addrs@).len() > 0 ==> r == Ok::<Ipv4, RunError>(v4_entries(addrs@)[0]),
{
    match first_ipv4(addrs) {
        Some(ip) => Ok(ip),
        None => Err(RunError::NoIpv4Address),
    }
}

/// The URL that lists the records of `domain`.
pub fn records_url_text(domain: &str) -> (r: String)
    ensures
        r@ == records_url(domain@),
{
    let mut r = String::from_str(API_ROOT);
    r.append("/domains/");
    r.append(domain);
    r.append("/records");
    r
}

/// The URL of record `id` of `domain`.
pub fn record_url_text(domain: &str, id: u64) -> (r: String)
    ensures
        r@ == record_url(domain@, id),
{
    let mut r = records_url_text(domain);
    r.append("/");
    r.append(decimal_string(id).as_str());
    r
}

/// The `Authorization` header for `token`.
pub fn bearer_text(token: &str) -> (r: String)
    ensures
        r@ == bearer(token@),
{
    let mut r = String::from_str("Bearer ");
    r.append(token);
    r
}

/// The body of an update that sets an A record to `ip`.
pub fn update_body_text(ip: Ipv4) -> (r: String)
    ensures
        r@ == update_body(ip),
{
    let mut r = String::from_str("{\"type\":\"A\",\"data\":\"");
    r.append(ip.to_text().as_str());
    r.append("\"}");
    r
}

impl Run {
    pub fn new(params: Params) -> (r: Run)
        ensures
            r.params == params,
            r.stage == Stage::Start,
    {
        Run { params, stage: Stage::Start }
    }

    /// Takes in what the outside world reports, moves on, and says what to do next.
    pub fn step(&mut self, event: Event) -> (a: Action)
        ensures
            final(self).params == old(self).params,
            (final(self).stage, a.view()) == plan(old(self).stage, old(self).params, event),
    {
        match self.stage {
            Stage::Start => match event {
                Event::Begin => match self.params.domain_record_id {
                    None => {
                        self.stage = Stage::Listing;
                        Action::ListRecords(
                            ApiRequest {
                                url: records_url_text(self.params.domain_name.as_str()),
                                authorization: bearer_text(self.params.api_token.as_str()),
                                body: String::from_str("{}"),
                            },
                        )
                    },
                    Some(id) => {
                        self.stage = Stage::ResolvingDomain(id);
                        Action::ResolveDomain(self.params.domain_name.clone())
                    },
                },
                _ => Action::Nothing,
            },
            Stage::ResolvingDomain(id) => match event {
                Event::DomainResolved(addrs) => match select_domain_ip(&addrs) {
                    Ok(ip) => {
                        self.stage = Stage::FetchingHostIp(id, ip);
                        Action::FetchHostIp(self.params.url_check_ip.clone())
                    },
                    Err(e) => {
                        self.stage = Stage::Done;
                        Action::Finish(Err(e))
                    },
                },
                Event::DomainUnresolved => {
                    self.stage = Stage::Done;
                    Action::Finish(Err(RunError::Resolution))
                },
                _ => Action::Nothing,
            },
            Stage::FetchingHostIp(id, domain_ip) => match event {
                Event::Fetched(body) => match parse_host_ip(body.as_str()) {
                    Ok(host_ip) => {
                        if host_ip == domain_ip {
                            self.stage = Stage::Done;
                            Action::Finish(Ok(Outcome::Unchanged(host_ip)))
                        } else {
                            self.stage = Stage::Updating(host_ip);
                            Action::UpdateRecord(
                                ApiRequest {
                                    url: record_url_text(self.params.domain_name.as_str(), id),
                                    authorization: bearer_text(self.params.api_token.as_str()),
                                    body: update_body_text(host_ip),
                                },
                            )
                        }
                    },
                    Err(e) => {
                        self.stage = Stage::Done;
                        Action::Finish(Err(e))
                    },
                },
                Event::RequestFailed => {
                    self.stage = Stage::Done;
                    Action::Finish(Err(RunError::Transport))
                },
                _ => Action::Nothing,
            },
            Stage::Updating(host_ip) => match event {
                Event::Fetched(_) => {
                    self.stage = Stage::Done;
                    Action::Finish(Ok(Outcome::Updated(host_ip)))
                },
                Event::RequestFailed => {
                    self.stage = Stage::Done;
                    Action::Finish(Err(RunError::Update))
                },
                _ => Action::Nothing,
            },
            Stage::Listing => match event {
                Event::Fetched(body) => match pretty_json(body.as_str()) {
                    Some(p) => {
                        self.stage = Stage::Done;
                        Action::Finish(Ok(Outcome::Listed(p)))
                    },
                    None => {
                        self.stage = Stage::Done;
                        Action::Finish(Err(RunError::Transport))
                    },
                },
                Event::RequestFailed => {
                    self.stage = Stage::Done;
                    Action::Finish(Err(RunError::Transport))
                },
                _ => Action::Nothing,
            },
            Stage::Done => Action::Nothing,
        }
    }
}

/// A resolution result made of IPv6 entries alone has no IPv4 entry.
proof fn lemma_v6_only(addrs: Seq<HostAddr>)
    requires
        forall|i: int| 0 <= i < addrs.len() ==> #[trigger] addrs[i] is V6,
    ensures
        v4_entries(addrs).len() == 0,
    decreases addrs.len(),
{
    if addrs.len() > 0 {
        assert(addrs[0] is V6);
        assert forall|i: int| 0 <= i < addrs.drop_first().len() implies #[trigger] addrs.drop_first()[i] is V6 by {
            assert(addrs.drop_first()[i] == addrs[i + 1]);
        }
        lemma_v6_only(addrs.drop_first());
    }
}

/// Once a run is over, no event makes it ask for anything more.
pub proof fn done_is_final(params: Params, event: Event)
    ensures
        plan(Stage::Done, params, event) == (Stage::Done, Effect::Nothing),
{
}

/// Where the host's address equals the domain's, the run ends well and the record is
/// left alone: no update is asked for, then or later.
pub proof fn equal_addresses_leave_record(params: Params, id: u64, ip: Ipv4, body: String)
    requires
        literal_ip(trimmed(body@)) == Some(ip),
    ensures
        plan(Stage::FetchingHostIp(id, ip), params, Event::Fetched(body)) == (
            Stage::Done,
            Effect::Finish(Ok(OutcomeView::Unchanged(ip))),
        ),
        forall|e: Event| #[trigger] plan(Stage::Done, params, e) == (Stage::Done, Effect::Nothing),
{
}

/// Where the host's address differs from the domain's, the run asks for exactly one
/// update, which sets an A record to the host's address; it ends well if and only if
/// that call succeeds.
pub proof fn different_addresses_update_once(
    params: Params,
    id: u64,
    domain_ip: Ipv4,
    host_ip: Ipv4,
    body: String,
)
    requires
        literal_ip(trimmed(body@)) == Some(host_ip),
        domain_ip != host_ip,
    ensures
        plan(Stage::FetchingHostIp(id, domain_ip), params, Event::Fetched(body)) == (
            Stage::Updating(host_ip),
            Effect::UpdateRecord {
                url: record_url(params.domain_name@, id),
                authorization: bearer(params.api_token@),
                body: update_body(host_ip),
            },
        ),
        forall|response: String|
            #[trigger] plan(Stage::Updating(host_ip), params, Event::Fetched(response)) == (
                Stage::Done,
                Effect::Finish(Ok(OutcomeView::Updated(host_ip))),
            ),
        plan(Stage::Updating(host_ip), params, Event::RequestFailed) == (
            Stage::Done,
            Effect::Finish(Err(RunError::Update)),
        ),
        forall|e: Event|
            !(#[trigger] plan(Stage::Updating(host_ip), params, e).1 is UpdateRecord),
        forall|e: Event| #[trigger] plan(Stage::Done, params, e) == (Stage::Done, Effect::Nothing),
{
}

/// A domain that resolves to IPv6 addresses alone fails the run, and the only thing
/// asked for before is the resolution itself: no HTTP call.
pub proof fn ipv6_only_domain_fails(params: Params, id: u64, addrs: Vec<HostAddr>)
    requires
        params.domain_record_id == Some(id),
        forall|i: int| 0 <= i < addrs@.len() ==> #[trigger] addrs@[i] is V6,
    ensures
        plan(Stage::Start, params, Event::Begin) == (
            Stage::ResolvingDomain(id),
            Effect::ResolveDomain(params.domain_name@),
        ),
        plan(Stage::ResolvingDomain(id), params, Event::DomainResolved(addrs)) == (
            Stage::Done,
            Effect::Finish(Err(RunError::NoIpv4Address)),
        ),
{
    lemma_v6_only(addrs@);
}

/// Without a record id the run asks for one listing of the domain's records and
/// then only ends: it never asks for the host's address nor for an update.
pub proof fn list_mode_lists_once(params: Params)
    requires
        params.domain_record_id is None,
    ensures
        plan(Stage::Start, params, Event::Begin) == (
            Stage::Listing,
            Effect::ListRecords {
                url: records_url(params.domain_name@),
                authorization: bearer(params.api_token@),
                body: "{}"@,
            },
        ),
        forall|e: Event|
            {
                let (s, f) = #[trigger] plan(Stage::Listing, params, e);
                (s == Stage::Done && f is Finish) || (s == Stage::Listing && f is Nothing)
            },
        forall|e: Event| #[trigger] plan(Stage::Done, params, e) == (Stage::Done, Effect::Nothing),
{
}

/// A second run after an update, with the domain now resolving to the address that
/// the update wrote and the host's address unchanged, leaves the record alone.
pub proof fn second_run_leaves_record(
    params: Params,
    id: u64,
    old_ip: Ipv4,
    host_ip: Ipv4,
    first_body: String,
    addrs: Vec<HostAddr>,
    second_body: String,
)
    requires
        literal_ip(trimmed(first_body@)) == Some(host_ip),
        literal_ip(trimmed(second_body@)) == Some(host_ip),
        old_ip != host_ip,
        v4_entries(addrs@).len() > 0,
        v4_entries(addrs@)[0] == host_ip,
    ensures
        plan(Stage::FetchingHostIp(id, old_ip), params, Event::Fetched(first_body)).1 == (
        Effect::UpdateRecord {
            url: record_url(params.domain_name@, id),
            authorization: bearer(params.api_token@),
            body: update_body(host_ip),
        }),
        plan(Stage::ResolvingDomain(id), params, Event::DomainResolved(addrs)) == (
            Stage::FetchingHostIp(id, host_ip),
            Effect::FetchHostIp(params.url_check_ip@),
        ),
        plan(Stage::FetchingHostIp(id, host_ip), params, Event::Fetched(second_body)) == (
            Stage::Done,
            Effect::Finish(Ok(OutcomeView::Unchanged(host_ip))),
        ),
{
}

} // verus!
