use gtbot::credentials::{
    credential_source, direct_credentials, gtps_server_message, official_credentials,
    preferred_address, server_address, source_message, token_message, CredentialSource,
    FlowDecision, LoginFailure, LoginFlow, RoundFailure,
};
use gtbot::server_data::{GtpsConfig, ServerData};

fn data() -> ServerData {
    let mut d = ServerData::default();
    d.server = "1.2.3.4".to_string();
    d.port = 17091;
    d.meta = "meta".to_string();
    d
}

#[test]
fn source_prefers_config_then_env() {
    let cfg = GtpsConfig {
        host: "h".to_string(),
        port: 1,
        server_type: 1,
        type2: 1,
        meta: String::new(),
    };
    assert_eq!(credential_source(Some(&cfg), true), CredentialSource::Gtps);
    assert_eq!(credential_source(None, true), CredentialSource::GtpsEnv);
    assert_eq!(credential_source(None, false), CredentialSource::Official);
    let empty = GtpsConfig { host: String::new(), ..cfg };
    assert_eq!(credential_source(Some(&empty), false), CredentialSource::Official);
    assert_eq!(
        source_message(CredentialSource::Gtps).as_deref(),
        Some("[Bot] GTPS mode detected - using direct connection")
    );
    assert_eq!(
        source_message(CredentialSource::GtpsEnv).as_deref(),
        Some("[Bot] GTPS mode detected (env) - using direct connection")
    );
    assert_eq!(source_message(CredentialSource::Official), None);
}

#[test]
fn addresses_and_messages() {
    let d = data();
    assert_eq!(server_address(&d), "1.2.3.4:17091");
    assert_eq!(gtps_server_message(&d), "[Bot] GTPS server: 1.2.3.4:17091");
    assert_eq!(token_message(&"tok".to_string()), "[Bot] Got token: tok");
    let c = direct_credentials("pw", &d);
    assert_eq!((c.ltoken.as_str(), c.meta.as_str(), c.address.as_str()), ("pw", "meta", "1.2.3.4:17091"));
    let c = official_credentials("t".to_string(), &d);
    assert_eq!(c.ltoken, "t");
    assert_eq!(c.address, "1.2.3.4:17091");
}

#[test]
fn preferred_address_picks_first_ipv4() {
    assert_eq!(preferred_address(&vec![false, true, true]), Some(1));
    assert_eq!(preferred_address(&vec![false, false]), Some(0));
    assert_eq!(preferred_address(&vec![]), None);
}

#[test]
fn directory_failure_switches_directory() {
    let mut flow = LoginFlow::new();
    assert_eq!(flow.round_message(), "[Bot] fetching server_data (alternate=false)...");
    let step = flow.round_failed(RoundFailure::ServerData("timeout".to_string()));
    assert!(flow.alternate);
    assert_eq!(step.logs, vec!["[Bot] fetch: server_data failed: timeout - retrying in 5s".to_string()]);
    assert!(matches!(step.decision, FlowDecision::RetryAfter(5)));
    assert_eq!(flow.round_message(), "[Bot] fetching server_data (alternate=true)...");
    flow.round_failed(RoundFailure::ServerData("x".to_string()));
    assert!(!flow.alternate);
}

#[test]
fn other_failures_retry_on_same_directory() {
    let mut flow = LoginFlow::new();
    let step = flow.round_failed(RoundFailure::Dashboard("bad".to_string()));
    assert!(!flow.alternate);
    assert_eq!(step.logs, vec!["[Bot] fetch: dashboard failed: bad - retrying in 5s".to_string()]);
    assert!(matches!(step.decision, FlowDecision::RetryAfter(5)));
    let step = flow.round_failed(RoundFailure::NoGrowtopiaUrl);
    assert_eq!(step.logs, vec!["[Bot] fetch: no Growtopia URL in dashboard - retrying in 5s".to_string()]);
    let step = flow.round_failed(RoundFailure::Login(LoginFailure::Other, "e".to_string()));
    assert_eq!(step.logs, vec!["[Bot] fetch: login failed: e".to_string(), "[Bot] retrying in 5s".to_string()]);
    assert!(matches!(step.decision, FlowDecision::RetryAfter(5)));
    assert!(!flow.alternate);
}

#[test]
fn final_login_failures_stop() {
    let mut flow = LoginFlow::new();
    let step = flow.round_failed(RoundFailure::Login(LoginFailure::Exhausted, "no".to_string()));
    assert_eq!(
        step.logs,
        vec!["[Bot] fetch: login failed: no".to_string(), "[Bot] login attempts exhausted - stopping".to_string()]
    );
    assert!(matches!(step.decision, FlowDecision::Stop(ref r) if r == "[Bot] login attempts exhausted - stopping"));
    let step = flow.round_failed(RoundFailure::Login(LoginFailure::WrongCredentials, "w".to_string()));
    assert!(matches!(step.decision, FlowDecision::Stop(ref r) if r == "[Bot] wrong credentials - stopping"));
}
