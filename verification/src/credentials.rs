//! The decisions of the credential fetch: which source the credentials come
//! from, and, in the official login loop, what each failure leads to. The
//! network work (directory, dashboard, login, address resolution) and the
//! waiting are done by the caller, who hands each outcome here.

use vstd::prelude::*;
use crate::server_data::{GtpsConfig, ServerData, gtps_applies};
use crate::text::{decimal, push_decimal};

verus! {

/// Where the credentials come from.
#[derive(Debug, Clone, Copy, PartialEq, Eq, Structural)]
pub enum CredentialSource {
    /// The private server of the given configuration; no login.
    Gtps,
    /// The private server of the `GTPS_*` environment settings; no login.
    GtpsEnv,
    /// The official directory, dashboard and login, retried until they succeed.
    Official,
}

/// Picks the source: a configured private server with a host, else one set
/// in the environment (`env_host_set`: `GTPS_HOST` is set), else the official login.
pub fn credential_source(gtps: Option<&GtpsConfig>, env_host_set: bool) -> (r: CredentialSource)
    ensures
        gtps_applies(gtps) ==> r == CredentialSource::Gtps,
        !gtps_applies(gtps) && env_host_set ==> r == CredentialSource::GtpsEnv,
        !gtps_applies(gtps) && !env_host_set ==> r == CredentialSource::Official,
{
    if let Some(cfg) = gtps {
        if !cfg.host.as_str().is_empty() {
            return CredentialSource::Gtps;
        }
    }
    if env_host_set {
        CredentialSource::GtpsEnv
    } else {
        CredentialSource::Official
    }
}

/// The line logged as a source without login is chosen.
pub open spec fn source_text(source: CredentialSource) -> Option<Seq<char>> {
    match source {
        CredentialSource::Gtps => Some("[Bot] GTPS mode detected - using direct connection"@),
        CredentialSource::GtpsEnv => Some(
            "[Bot] GTPS mode detected (env) - using direct connection"@,
        ),
        CredentialSource::Official => None,
    }
}

/// The line to log as `source` is chosen, where there is one.
pub fn source_message(source: CredentialSource) -> (r: Option<String>)
    ensures
        r matches Some(s) ==> source_text(source) == Some(s@),
        r is None ==> source_text(source) is None,
{
    match source {
        CredentialSource::Gtps => Some(
            String::from_str("[Bot] GTPS mode detected - using direct connection"),
        ),
        CredentialSource::GtpsEnv => Some(
            String::from_str("[Bot] GTPS mode detected (env) - using direct connection"),
        ),
        CredentialSource::Official => None,
    }
}

/// `<server>:<port>`, the address of a game server.
pub open spec fn address_text(server: Seq<char>, port: u16) -> Seq<char> {
    server + ":"@ + decimal(port as nat)
}

/// The address of the game server that `data` names, as `host:port`.
pub fn server_address(data: &ServerData) -> (r: String)
    ensures
        r@ == address_text(data.server@, data.port),
{
    let mut s = data.server.clone();
    s.append(":");
    push_decimal(&mut s, data.port as u32);
    s
}

/// The line logged once a private server is known.
pub fn gtps_server_message(data: &ServerData) -> (r: String)
    ensures
        r@ == "[Bot] GTPS server: "@ + address_text(data.server@, data.port),
{
    let mut s = String::from_str("[Bot] GTPS server: ");
    let a = server_address(data);
    s.append(a.as_str());
    s
}

/// The line logged once a token is had.
pub fn token_message(token: &String) -> (r: String)
    ensures
        r@ == "[Bot] Got token: "@ + token@,
{
    let mut s = String::from_str("[Bot] Got token: ");
    s.append(token.as_str());
    s
}

/// Picks the address to connect to among the resolved ones, given whether
/// each is IPv4: the first IPv4 one, else the first one, else none.
pub fn preferred_address(is_ipv4: &Vec<bool>) -> (r: Option<usize>)
    ensures
        r matches Some(i) ==> i < is_ipv4.len(),
        r is None <==> is_ipv4.len() == 0,
        r matches Some(i) ==> (is_ipv4[i as int] || forall|j: int| 0 <= j < is_ipv4.len() ==> !is_ipv4[j]),
        r matches Some(i) ==> (is_ipv4[i as int] ==> forall|j: int| 0 <= j < i ==> !is_ipv4[j]),
        r matches Some(i) ==> (!is_ipv4[i as int] ==> i == 0),
{
    let mut i: usize = 0;
    while i < is_ipv4.len()
        invariant
            i <= is_ipv4.len(),
            forall|j: int| 0 <= j < i ==> !is_ipv4[j],
        decreases is_ipv4.len() - i,
    {
        if is_ipv4[i] {
            return Some(i);
        }
        i = i + 1;
    }
    if is_ipv4.len() > 0 {
        Some(0)
    } else {
        None
    }
}

/// What the credentials are made of, the address still as text.
pub struct CredentialParts {
    pub ltoken: String,
    pub meta: String,
    pub address: String,
}

/// The credentials for a private server: the password stands in for the
/// token, and the address is that of the server data.
pub fn direct_credentials(password: &str, data: &ServerData) -> (c: CredentialParts)
    ensures
        c.ltoken@ == password@,
        c.meta@ == data.meta@,
        c.address@ == address_text(data.server@, data.port),
{
    CredentialParts {
        ltoken: String::from_str(password),
        meta: data.meta.clone(),
        address: server_address(data),
    }
}

/// The credentials from the official login: its token, and the meta text and
/// address of the server data.
pub fn official_credentials(token: String, data: &ServerData) -> (c: CredentialParts)
    ensures
        c.ltoken@ == token@,
        c.meta@ == data.meta@,
        c.address@ == address_text(data.server@, data.port),
{
    CredentialParts { ltoken: token, meta: data.meta.clone(), address: server_address(data) }
}

/// How a login attempt failed.
#[derive(Debug, Clone, Copy, PartialEq, Eq, Structural)]
pub enum LoginFailure {
    /// No attempts are left.
    Exhausted,
    /// The name or password is wrong.
    WrongCredentials,
    /// Anything else; worth another try.
    Other,
}

/// Why a round of the official login did not give a token. Each failure
/// carries the text that describes its error.
#[derive(Debug)]
pub enum RoundFailure {
    /// The directory could not be read.
    ServerData(String),
    /// The dashboard could not be read.
    Dashboard(String),
    /// The dashboard names no game URL.
    NoGrowtopiaUrl,
    /// The login was refused.
    Login(LoginFailure, String),
}

/// What the loop does after a failed round.
#[derive(Debug)]
pub enum FlowDecision {
    /// Waits this many seconds, then starts the next round.
    RetryAfter(u64),
    /// Gives up, for the reason given.
    Stop(String),
}

/// The lines to log after a failed round, and what follows.
pub struct FlowStep {
    pub logs: Vec<String>,
    pub decision: FlowDecision,
}

/// The state of the official login loop: which directory the next round asks.
pub struct LoginFlow {
    pub alternate: bool,
}

/// The line logged at the start of a round.
pub open spec fn round_text(alternate: bool) -> Seq<char> {
    "[Bot] fetching server_data (alternate="@ + (if alternate {
        "true"@
    } else {
        "false"@
    }) + ")..."@
}

/// The lines logged after a failed round.
pub open spec fn failure_logs(failure: RoundFailure) -> Seq<Seq<char>> {
    match failure {
        RoundFailure::ServerData(e) => seq![
            "[Bot] fetch: server_data failed: "@ + e@ + " - retrying in 5s"@,
        ],
        RoundFailure::Dashboard(e) => seq![
            "[Bot] fetch: dashboard failed: "@ + e@ + " - retrying in 5s"@,
        ],
        RoundFailure::NoGrowtopiaUrl => seq![
            "[Bot] fetch: no Growtopia URL in dashboard - retrying in 5s"@,
        ],
        RoundFailure::Login(LoginFailure::Exhausted, e) => seq![
            "[Bot] fetch: login failed: "@ + e@,
            "[Bot] login attempts exhausted - stopping"@,
        ],
        RoundFailure::Login(LoginFailure::WrongCredentials, e) => seq![
            "[Bot] fetch: login failed: "@ + e@,
            "[Bot] wrong credentials - stopping"@,
        ],
        RoundFailure::Login(LoginFailure::Other, e) => seq![
            "[Bot] fetch: login failed: "@ + e@,
            "[Bot] retrying in 5s"@,
        ],
    }
}

/// Whether a failed round ends the loop: only a login with no attempts
/// left or with wrong credentials does.
pub open spec fn failure_stops(failure: RoundFailure) -> bool {
    failure matches RoundFailure::Login(kind, _) && kind != LoginFailure::Other
}

/// The loop gives up only when the login has no attempts left or the
/// credentials are wrong; directory, dashboard and other login failures
/// are retried.
pub proof fn law_only_final_refusals_stop(failure: RoundFailure)
    ensures
        failure_stops(failure) <==> (failure matches RoundFailure::Login(k, _) && (k
            == LoginFailure::Exhausted || k == LoginFailure::WrongCredentials)),
        failure is ServerData ==> !failure_stops(failure),
        failure is Dashboard ==> !failure_stops(failure),
        failure is NoGrowtopiaUrl ==> !failure_stops(failure),
{
}

/// Why the loop stops after `failure`, where it does.
pub open spec fn stop_reason(failure: RoundFailure) -> Seq<char> {
    match failure {
        RoundFailure::Login(LoginFailure::Exhausted, _) => "[Bot] login attempts exhausted - stopping"@,
        _ => "[Bot] wrong credentials - stopping"@,
    }
}

/// The texts of `logs`.
pub open spec fn texts(logs: Seq<String>) -> Seq<Seq<char>> {
    logs.map_values(|s: String| s@)
}

fn joined(a: &str, b: &String, c: &str) -> (r: String)
    ensures
        r@ == a@ + b@ + c@,
{
    let mut s = String::from_str(a);
    s.append(b.as_str());
    s.append(c);
    s
}

impl LoginFlow {
    /// The loop before its first round: it asks the main directory first.
    pub fn new() -> (f: LoginFlow)
        ensures
            !f.alternate,
    {
        LoginFlow { alternate: false }
    }

    /// The line to log as a round starts.
    pub fn round_message(&self) -> (r: String)
        ensures
            r@ == round_text(self.alternate),
    {
        let mut s = String::from_str("[Bot] fetching server_data (alternate=");
        if self.alternate {
            s.append("true");
        } else {
            s.append("false");
        }
        s.append(")...");
        s
    }

    /// Decides what follows a failed round. A directory failure switches to
    /// the other directory; every failure but a final login refusal is
    /// retried after five seconds.
    pub fn round_failed(&mut self, failure: RoundFailure) -> (step: FlowStep)
        ensures
            final(self).alternate == (old(self).alternate != (failure is ServerData)),
            texts(step.logs@) == failure_logs(failure),
            failure_stops(failure) ==> (step.decision matches FlowDecision::Stop(r) && r@
                == stop_reason(failure)),
            !failure_stops(failure) ==> step.decision == FlowDecision::RetryAfter(5),
    {
        let mut logs: Vec<String> = Vec::new();
        let decision = match failure {
            RoundFailure::ServerData(e) => {
                self.alternate = !self.alternate;
                logs.push(joined("[Bot] fetch: server_data failed: ", &e, " - retrying in 5s"));
                FlowDecision::RetryAfter(5)
            },
            RoundFailure::Dashboard(e) => {
                logs.push(joined("[Bot] fetch: dashboard failed: ", &e, " - retrying in 5s"));
                FlowDecision::RetryAfter(5)
            },
            RoundFailure::NoGrowtopiaUrl => {
                logs.push(
                    String::from_str("[Bot] fetch: no Growtopia URL in dashboard - retrying in 5s"),
                );
                FlowDecision::RetryAfter(5)
            },
            RoundFailure::Login(kind, e) => {
                let mut line = String::from_str("[Bot] fetch: login failed: ");
                line.append(e.as_str());
                logs.push(line);
                match kind {
                    LoginFailure::Exhausted => {
                        logs.push(String::from_str("[Bot] login attempts exhausted - stopping"));
                        FlowDecision::Stop(
                            String::from_str("[Bot] login attempts exhausted - stopping"),
                        )
                    },
                    LoginFailure::WrongCredentials => {
                        logs.push(String::from_str("[Bot] wrong credentials - stopping"));
                        FlowDecision::Stop(String::from_str("[Bot] wrong credentials - stopping"))
                    },
                    LoginFailure::Other => {
                        logs.push(String::from_str("[Bot] retrying in 5s"));
                        FlowDecision::RetryAfter(5)
                    },
                }
            },
        };
        assert(texts(logs@) =~= failure_logs(failure));
        FlowStep { logs, decision }
    }
}

} // verus!
