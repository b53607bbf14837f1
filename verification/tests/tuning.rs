use pimax_alvr::config::ClientConfig;
use pimax_alvr::page::build_html;
use pimax_alvr::scan::trim;
use pimax_alvr::settings::{AudioStreamSettings, StreamProtocol, StreamSocketSettings};
use pimax_alvr::tune::{
    add_discovered_server, clear_discovered_servers, color_gain, convergence_shift_ndc,
    discovered_hostname, get_discovered_servers, get_server_ip, get_server_status, handle_set,
    http_response, init, ipd_scale, page_response, route_request, save_server_ip_to_config,
    save_tuning_settings, servers_body, servers_html, set_parameter, set_server_ip,
    set_server_status, trim_zeros, values_body, Route, ServerProgress, TuneCommand, TuneEffect,
    TuneParameter, TuneState,
};

fn fresh() -> TuneState {
    init(
        None,
        0.124_f32.to_bits(),
        1.0_f32.to_bits(),
        0.0_f32.to_bits(),
        1.0_f32.to_bits(),
    )
}

#[test]
fn numbers_start_from_their_defaults() {
    let before = TuneState::default();
    assert_eq!(get_server_status(&before), "Not connected");
    assert_eq!(get_server_ip(&before), "192.168.1.100");
    let state = fresh();
    assert_eq!(f32::from_bits(convergence_shift_ndc(&state)), 0.124);
    assert_eq!(f32::from_bits(ipd_scale(&state)), 1.0);
    assert_eq!(f32::from_bits(color_gain(&state)), 1.0);
    assert_eq!(get_server_ip(&state), "192.168.1.100");
    assert_eq!(get_server_status(&state), "Not connected - configure below");
}

#[test]
fn numbers_come_from_the_configuration() {
    let mut config = ClientConfig::for_host(None, None);
    config.ipd_scale = Some(1.25_f32.to_bits());
    config.last_server_ip = Some("10.0.0.1".to_string());
    let state = init(Some(&config), 0, 0, 0, 0);
    assert_eq!(f32::from_bits(ipd_scale(&state)), 1.25);
    assert_eq!(get_server_ip(&state), "10.0.0.1");
}

#[test]
fn numbers_stay_in_range() {
    let mut state = fresh();
    for parameter in [
        TuneParameter::ConvergenceShift,
        TuneParameter::IpdScale,
        TuneParameter::ColorBlackCrush,
        TuneParameter::ColorGain,
    ] {
        let (low, high) = parameter.range();
        let (low, high) = (f32::from_bits(low), f32::from_bits(high));
        assert!(low < high);
        set_parameter(&mut state, parameter, 1.0e9_f32.to_bits());
    }
    let (_, highest) = TuneParameter::IpdScale.range();
    assert_eq!(ipd_scale(&state), highest);
    let before = ipd_scale(&state);
    assert!(matches!(
        set_parameter(&mut state, TuneParameter::IpdScale, f32::NAN.to_bits()),
        TuneEffect::Rejected
    ));
    assert_eq!(ipd_scale(&state), before);
    assert!(matches!(
        set_parameter(&mut state, TuneParameter::IpdScale, 1.0_f32.to_bits()),
        TuneEffect::SaveAndResendViews
    ));
    assert!(matches!(
        set_parameter(&mut state, TuneParameter::ColorGain, 1.0_f32.to_bits()),
        TuneEffect::Save
    ));
}

#[test]
fn numbers_are_saved() {
    let mut state = fresh();
    set_parameter(&mut state, TuneParameter::ColorGain, 1.5_f32.to_bits());
    let mut config = ClientConfig::for_host(None, None);
    save_tuning_settings(&state, &mut config);
    assert_eq!(config.color_gain.map(f32::from_bits), Some(1.5));
    save_server_ip_to_config("10.0.0.7", &mut config);
    assert_eq!(config.last_server_ip.as_deref(), Some("10.0.0.7"));
}

#[test]
fn requests_are_routed() {
    assert!(matches!(route_request("GET / HTTP/1.1"), Route::Page));
    assert!(matches!(route_request("GET /values HTTP/1.1"), Route::Values));
    assert!(matches!(route_request("GET /servers HTTP/1.1"), Route::Servers));
    match route_request("GET /set?ipd_scale=1.1 HTTP/1.1") {
        Route::Change(query) => assert_eq!(query, "ipd_scale=1.1"),
        _ => panic!("expected a change"),
    }
    assert!(matches!(route_request(""), Route::Page));
}

#[test]
fn queries_become_commands() {
    let commands = handle_set("ipd_scale=1.1&bogus=2&server_ip=10.0.0.1&discover_servers");
    assert_eq!(commands.len(), 3);
    match &commands[0] {
        TuneCommand::SetNumber(parameter, value) => {
            assert!(matches!(parameter, TuneParameter::IpdScale));
            assert_eq!(value, "1.1");
        }
        _ => panic!("expected a number"),
    }
    match &commands[1] {
        TuneCommand::SetServerIp(ip) => assert_eq!(ip, "10.0.0.1"),
        _ => panic!("expected an address"),
    }
    assert!(matches!(commands[2], TuneCommand::DiscoverServers));
}

#[test]
fn every_scan_request_counts() {
    assert_eq!(handle_set("discover_servers&discover_servers=1").len(), 2);
}

#[test]
fn servers_are_listed_once() {
    let mut state = fresh();
    add_discovered_server(&mut state, "desk".to_string(), "10.0.0.1".to_string());
    add_discovered_server(&mut state, "again".to_string(), "10.0.0.1".to_string());
    add_discovered_server(&mut state, "lap".to_string(), "10.0.0.2".to_string());
    let servers = get_discovered_servers(&state);
    assert_eq!(servers.len(), 2);
    let body = servers_body(&state);
    assert!(body.contains("10.0.0.1") && body.contains("lap"), "{body}");
    let html = servers_html(&state);
    assert!(html.contains("desk"), "{html}");
    clear_discovered_servers(&mut state);
    assert!(get_discovered_servers(&state).is_empty());
    assert_eq!(servers_body(&state), "{\"servers\":[]}");
}

#[test]
fn values_are_written_as_json() {
    let mut state = fresh();
    set_server_ip(&mut state, "10.0.0.1".to_string());
    set_server_status(&mut state, ServerProgress::Connected.text());
    assert_eq!(
        values_body(&state, "0.124", "1.000", "0.000", "1.000"),
        "{\"convergence_shift_ndc\":0.124,\"ipd_scale\":1.000,\"color_black_crush\":0.000,\
         \"color_gain\":1.000,\"server_ip\":\"10.0.0.1\",\"server_status\":\"Connected\"}"
    );
    let parsed: serde_json::Value =
        serde_json::from_str(&values_body(&state, "0.124", "1.000", "0.000", "1.000")).unwrap();
    assert_eq!(parsed.pointer("/server_ip").and_then(|ip| ip.as_str()), Some("10.0.0.1"));
}

#[test]
fn responses_carry_their_length() {
    assert_eq!(
        page_response("hell\u{f6}"),
        "HTTP/1.1 200 OK\r\nContent-Type: text/html\r\nContent-Length: 6\r\n\r\nhell\u{f6}"
    );
    assert_eq!(
        http_response("application/json", "{}"),
        "HTTP/1.1 200 OK\r\nContent-Type: application/json\r\n\
         Access-Control-Allow-Origin: *\r\nContent-Length: 2\r\n\r\n{}"
    );
}

#[test]
fn progress_is_told() {
    assert_eq!(
        ServerProgress::Connecting("10.0.0.1".to_string()).text(),
        "Connecting to 10.0.0.1..."
    );
    assert_eq!(ServerProgress::InvalidAddress("x".to_string()).text(), "Invalid IP: x");
    assert_eq!(ServerProgress::Found(2).text(), "Found 2 server(s)");
    assert_eq!(
        ServerProgress::Failed("refused".to_string()).text(),
        "Connection failed: refused"
    );
}

#[test]
fn answers_name_their_sender() {
    let mut answer = vec![0_u8; 18];
    answer.extend_from_slice(b"desk");
    answer.extend_from_slice(&[0; 28]);
    assert_eq!(discovered_hostname(&answer).as_deref(), Some("desk"));
    assert_eq!(discovered_hostname(&answer[..18]), None);
    let mut broken = vec![0_u8; 18];
    broken.extend_from_slice(&[b'a', 0xff, b'b']);
    assert_eq!(discovered_hostname(&broken).as_deref(), Some("a\u{fffd}b"));
    assert_eq!(trim_zeros("\0ab\0c\0\0"), "\0ab\0c");
}

#[test]
fn silent_sessions_use_the_defaults() {
    let settings = StreamSocketSettings::from_stream_config("{}", false, true).ok().unwrap();
    assert!(matches!(settings.protocol, StreamProtocol::Udp));
    assert_eq!(settings.port, 9944);
    assert_eq!(settings.packet_size, 1400);
    assert!(settings.foveated_encoding.is_none());
    assert!(StreamSocketSettings::from_stream_config("{", false, true).is_err());
    let audio = AudioStreamSettings::from_stream_config("not json");
    assert_eq!(audio.game_audio_buffering.average_buffering_ms, 50);
    assert_eq!(audio.game_audio_buffering.batch_ms, 5);
}

#[test]
fn sessions_set_the_stream_up() {
    let session = r#"{"session_settings": {"connection": {
        "stream_port": 1234, "packet_size": 1000, "stream_protocol": {"variant": "Tcp"}}}}"#;
    let settings = StreamSocketSettings::from_stream_config(session, false, true).ok().unwrap();
    assert!(matches!(settings.protocol, StreamProtocol::Tcp));
    assert_eq!(settings.port, 1234);
    assert_eq!(settings.packet_size, 1000);
}

#[test]
fn wired_streams_use_tcp() {
    let settings = StreamSocketSettings::from_stream_config("{}", true, true).ok().unwrap();
    assert!(matches!(settings.protocol, StreamProtocol::Tcp));
}

#[test]
fn sessions_set_the_foveation_up() {
    let session = r#"{"openvr_config": {"enable_foveated_encoding": true,
        "eye_resolution_width": 2000, "eye_resolution_height": 1800,
        "foveation_center_size_x": 0.5}}"#;
    let settings = StreamSocketSettings::from_stream_config(session, false, true).ok().unwrap();
    let foveation = settings.foveated_encoding.unwrap();
    assert_eq!(foveation.expanded_view_width, 2000);
    assert_eq!(foveation.expanded_view_height, 1800);
    assert_eq!(f64::from_bits(foveation.center_size_x), 0.5);
    assert_eq!(f64::from_bits(foveation.center_size_y), 0.4);
    assert_eq!(f64::from_bits(foveation.edge_ratio_x), 4.0);
    let off = StreamSocketSettings::from_stream_config(session, false, false).ok().unwrap();
    assert!(off.foveated_encoding.is_none());
}

#[test]
fn sessions_set_the_sound_up() {
    let session = r#"{"session_settings": {"audio": {
        "game_audio": {"enabled": true, "content": {"buffering": {"average_buffering_ms": 7, "batch_ms": 3}},
            "buffering": {"average_buffering_ms": 7, "batch_ms": 3}},
        "microphone": {"enabled": true}}}}"#;
    let audio = AudioStreamSettings::from_stream_config(session);
    assert!(audio.game_audio_enabled);
    assert_eq!(audio.game_audio_buffering.average_buffering_ms, 7);
    assert_eq!(audio.game_audio_buffering.batch_ms, 3);
    assert!(audio.microphone_enabled);
    assert_eq!(audio.microphone_buffering.batch_ms, 5);
}

#[test]
fn the_page_shows_the_settings() {
    let mut state = fresh();
    set_server_ip(&mut state, "10.0.0.7".to_string());
    set_server_status(&mut state, "Connected".to_string());
    add_discovered_server(&mut state, "tower".to_string(), "10.0.0.9".to_string());
    let html = build_html(&state, "0.1240", "1.0000", "0.0720", "1.2200");
    assert!(html.starts_with("<!DOCTYPE html>\n"), "{html}");
    assert!(html.ends_with("</html>\n"), "{html}");
    assert!(html.contains("id=\"server_ip\" value=\"10.0.0.7\""), "{html}");
    assert!(html.contains("class=\"server-status\">Connected</div>"), "{html}");
    assert!(html.contains(&servers_html(&state)), "{html}");
    assert!(html.contains("<span id=\"v_cs\">0.1240</span>"), "{html}");
    assert!(html.contains("max=\"0.5\" step=\"0.004\" value=\"0.1240\""), "{html}");
    assert!(html.contains("<span id=\"v_is\">1.0000</span>"), "{html}");
    assert!(html.contains("<span id=\"v_bc\">0.0720</span>"), "{html}");
    assert!(html.contains("<span id=\"v_cg\">1.2200</span>"), "{html}");
    assert!(!html.contains("{{"), "{html}");
}

#[test]
fn white_space_is_what_unicode_says() {
    let listed = |c: char| {
        matches!(u32::from(c), 0x09..=0x0d | 0x20 | 0x85 | 0xa0 | 0x1680 | 0x2000..=0x200a
            | 0x2028 | 0x2029 | 0x202f | 0x205f | 0x3000)
    };
    for c in '\u{0}'..=char::MAX {
        assert_eq!(trim(&c.to_string()).is_empty(), listed(c), "{c:?}");
    }
}
