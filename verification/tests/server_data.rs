use gtbot::server_data::{
    get_server_data, get_server_data_proxied, GtpsConfig, GtpsEnv, LoginInfo, ServerData,
    ServerDataError, ServerDataSource,
};
use gtbot::text::IntErrorKind;

fn login() -> LoginInfo {
    LoginInfo { protocol: 217, game_version: "5.21".to_string() }
}

#[test]
fn form_data_lists_protocol_and_version() {
    assert_eq!(login().to_form_data(), "protocol=217&version=5.21");
    let zero = LoginInfo { protocol: 0, game_version: String::new() };
    assert_eq!(zero.to_form_data(), "protocol=0&version=");
    let max = LoginInfo { protocol: u32::MAX, game_version: "x".to_string() };
    assert_eq!(max.to_form_data(), "protocol=4294967295&version=x");
}

#[test]
fn parse_full_answer() {
    let body = "server|213.179.209.168\nport|17198\ntype|1\nbeta_server|beta.growtopiagame.com\nbeta_loginurl|beta.login\nbeta_port|26999\nbeta_type|1\nbeta2_server|b2\nbeta2_loginurl|b2l\nbeta2_port|26000\nbeta2_type|2\nbeta3_server|b3\nbeta3_loginurl|b3l\nbeta3_port|27000\nbeta3_type|3\ntype2|1\n#maint|Server is under maintenance\nloginurl|login.growtopiagame.com\nmeta|ni.1HqgtfzOsA8ePdYmTr\nRTENDMARKERBS1001\nserver|ignored\n";
    let d = ServerData::parse_from_response(body).unwrap();
    assert_eq!(d.server, "213.179.209.168");
    assert_eq!(d.port, 17198);
    assert_eq!(d.server_type, 1);
    assert_eq!(d.beta_server, "beta.growtopiagame.com");
    assert_eq!(d.beta_loginurl, "beta.login");
    assert_eq!(d.beta_port, 26999);
    assert_eq!(d.beta_type, 1);
    assert_eq!(d.beta2_server, "b2");
    assert_eq!(d.beta2_loginurl, "b2l");
    assert_eq!(d.beta2_port, 26000);
    assert_eq!(d.beta2_type, 2);
    assert_eq!(d.beta3_server, "b3");
    assert_eq!(d.beta3_loginurl, "b3l");
    assert_eq!(d.beta3_port, 27000);
    assert_eq!(d.beta3_type, 3);
    assert_eq!(d.type2, 1);
    assert_eq!(d.maint.as_deref(), Some("Server is under maintenance"));
    assert_eq!(d.loginurl, "login.growtopiagame.com");
    assert_eq!(d.meta, "ni.1HqgtfzOsA8ePdYmTr");
}

#[test]
fn parse_empty_answer_gives_defaults() {
    let d = ServerData::parse_from_response("").unwrap();
    assert_eq!(d.server, "");
    assert_eq!(d.port, 0);
    assert_eq!(d.maint, None);
    assert_eq!(d.meta, "");
}

#[test]
fn parse_trims_keys_and_values_and_handles_crlf() {
    let d = ServerData::parse_from_response("  server \t|  host.example \r\nport| 80\r\n").unwrap();
    assert_eq!(d.server, "host.example");
    assert_eq!(d.port, 80);
    let d = ServerData::parse_from_response("meta|a\u{3000}\u{a0}").unwrap();
    assert_eq!(d.meta, "a");
}

#[test]
fn parse_skips_lines_without_bar_or_unknown_key() {
    let d = ServerData::parse_from_response("hello\nunknown|5\nport|12\nPORT|99\n\n").unwrap();
    assert_eq!(d.port, 12);
}

#[test]
fn parse_later_value_wins() {
    let d = ServerData::parse_from_response("server|a\nserver|b\nport|1\nport|2").unwrap();
    assert_eq!(d.server, "b");
    assert_eq!(d.port, 2);
}

#[test]
fn parse_value_keeps_later_bars() {
    let d = ServerData::parse_from_response("meta|a|b").unwrap();
    assert_eq!(d.meta, "a|b");
}

#[test]
fn parse_stops_at_end_marker_prefix() {
    let d = ServerData::parse_from_response("port|5\nRTENDMARKERBS1001xyz\nport|bad").unwrap();
    assert_eq!(d.port, 5);
    let d = ServerData::parse_from_response(" RTENDMARKERBS1001\nport|7").unwrap();
    assert_eq!(d.port, 7);
}

#[test]
fn parse_number_errors() {
    let err = |s: &str| match ServerData::parse_from_response(s) {
        Err(ServerDataError::InvalidNumber(k)) => k,
        other => panic!("unexpected {:?}", other),
    };
    assert_eq!(err("port|"), IntErrorKind::Empty);
    assert_eq!(err("port|abc"), IntErrorKind::InvalidDigit);
    assert_eq!(err("port|-1"), IntErrorKind::InvalidDigit);
    assert_eq!(err("port|+"), IntErrorKind::InvalidDigit);
    assert_eq!(err("port|65536"), IntErrorKind::PosOverflow);
    assert_eq!(err("type|256"), IntErrorKind::PosOverflow);
    assert_eq!(err("type|2x"), IntErrorKind::InvalidDigit);
    assert_eq!(err("type|999x"), IntErrorKind::PosOverflow);
    assert_eq!(err("type2|1 2"), IntErrorKind::InvalidDigit);
    assert!(ServerData::parse_from_response("port|+65535\ntype|255").is_ok());
    assert_eq!(ServerData::parse_from_response("port|0065535").unwrap().port, 65535);
}

#[test]
fn parse_handles_non_ascii_text() {
    let d = ServerData::parse_from_response("meta|héllo wörld ✓\nport|1").unwrap();
    assert_eq!(d.meta, "héllo wörld ✓");
    assert_eq!(d.port, 1);
}

#[test]
fn port_written_in_decimal_reads_back() {
    for p in [0u16, 9, 10, 255, 17091, 65535] {
        let d = ServerData::parse_from_response(&format!("port|{}", p)).unwrap();
        assert_eq!(d.port, p);
    }
}

#[test]
fn gtps_config_is_used_directly() {
    let cfg = GtpsConfig {
        host: "127.0.0.1".to_string(),
        port: 17091,
        server_type: 1,
        type2: 0,
        meta: "local".to_string(),
    };
    match get_server_data(true, &login(), Some(&cfg), None).unwrap() {
        ServerDataSource::Direct(d) => {
            assert_eq!(d.server, "127.0.0.1");
            assert_eq!(d.port, 17091);
            assert_eq!(d.server_type, 1);
            assert_eq!(d.type2, 0);
            assert_eq!(d.meta, "local");
            assert_eq!(d.loginurl, "");
            assert_eq!(d.beta_port, 0);
        }
        other => panic!("unexpected {:?}", other),
    }
}

#[test]
fn gtps_config_with_empty_host_falls_through() {
    let cfg = GtpsConfig {
        host: String::new(),
        port: 1,
        server_type: 1,
        type2: 1,
        meta: String::new(),
    };
    match get_server_data(false, &login(), Some(&cfg), None).unwrap() {
        ServerDataSource::Fetch(req) => {
            assert_eq!(req.url, "https://www.growtopia1.com/growtopia/server_data.php");
        }
        other => panic!("unexpected {:?}", other),
    }
}

#[test]
fn env_settings_with_defaults() {
    let env = GtpsEnv {
        host: "10.0.0.2".to_string(),
        port: None,
        server_type: Some("x".to_string()),
        type2: Some("7".to_string()),
        meta: None,
    };
    match get_server_data(false, &login(), None, Some(&env)).unwrap() {
        ServerDataSource::DirectEnv(d) => {
            assert_eq!(d.server, "10.0.0.2");
            assert_eq!(d.port, 17091);
            assert_eq!(d.server_type, 1);
            assert_eq!(d.type2, 7);
            assert_eq!(d.meta, "localhost");
        }
        other => panic!("unexpected {:?}", other),
    }
    let env = GtpsEnv {
        host: "h".to_string(),
        port: Some("1234".to_string()),
        server_type: Some("300".to_string()),
        type2: None,
        meta: Some("m".to_string()),
    };
    match get_server_data(false, &login(), None, Some(&env)).unwrap() {
        ServerDataSource::DirectEnv(d) => {
            assert_eq!(d.port, 1234);
            assert_eq!(d.server_type, 1);
            assert_eq!(d.type2, 1);
            assert_eq!(d.meta, "m");
        }
        other => panic!("unexpected {:?}", other),
    }
}

#[test]
fn directory_request_without_proxy() {
    match get_server_data(true, &login(), None, None).unwrap() {
        ServerDataSource::Fetch(req) => {
            assert_eq!(req.url, "https://www.growtopia2.com/growtopia/server_data.php");
            assert_eq!(req.body, "platform=0&protocol=217&version=5.21");
            assert_eq!(req.user_agent, "UbiServices_SDK_2022.Release.9_PC64_ansi_static");
            assert_eq!(req.content_type, "application/x-www-form-urlencoded");
            assert!(req.proxy.is_none());
        }
        other => panic!("unexpected {:?}", other),
    }
}

#[test]
fn directory_request_with_proxy() {
    match get_server_data_proxied(false, &login(), Some("socks5://user:pw@127.0.0.1:1080"), None, None)
        .unwrap()
    {
        ServerDataSource::Fetch(req) => {
            assert_eq!(req.url, "https://www.growtopia1.com/growtopia/server_data.php");
            let proxy = req.proxy.expect("a proxy");
            assert_eq!(proxy.host(), "127.0.0.1");
            assert_eq!(proxy.port(), 1080);
            assert_eq!(proxy.username(), Some("user"));
        }
        other => panic!("unexpected {:?}", other),
    }
    assert!(matches!(
        get_server_data_proxied(false, &login(), Some("ftp://127.0.0.1:21"), None, None),
        Err(ServerDataError::InvalidProxyUrl)
    ));
}

#[test]
fn empty_host_config_counts_as_none() {
    let cfg = GtpsConfig {
        host: String::new(),
        port: 5,
        server_type: 5,
        type2: 5,
        meta: "m".to_string(),
    };
    let env = GtpsEnv {
        host: "e".to_string(),
        port: None,
        server_type: None,
        type2: None,
        meta: None,
    };
    match get_server_data(false, &login(), Some(&cfg), Some(&env)).unwrap() {
        ServerDataSource::DirectEnv(d) => assert_eq!(d.server, "e"),
        other => panic!("unexpected {:?}", other),
    }
}
