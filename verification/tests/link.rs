use sensor_uplink::error::{Error, ErrorKind};
use sensor_uplink::wifi::{
    connect_begin, deadline_after, select_channel, step, ApInfo, AuthMethod, Ipv4, LinkEvent,
    LinkState, WIFI_DHCP_TIMEOUT_MS, WIFI_START_TIMEOUT_MS,
};

fn ap(ssid: &str, channel: u8) -> ApInfo {
    ApInfo {
        ssid: ssid.to_string(),
        channel,
    }
}

#[test]
fn auth_method_is_wpa2_when_password_given() {
    let st = connect_begin("mynet".to_string(), "secret".to_string()).unwrap();
    match st {
        LinkState::ScanPending {
            ssid,
            password,
            auth_method,
        } => {
            assert_eq!(ssid, "mynet");
            assert_eq!(password, "secret");
            assert_eq!(auth_method, AuthMethod::Wpa2Personal);
        }
        _ => panic!("expected ScanPending"),
    }
}

#[test]
fn auth_method_is_open_when_password_empty() {
    let st = connect_begin("mynet".to_string(), "".to_string()).unwrap();
    match st {
        LinkState::ScanPending { auth_method, .. } => {
            assert_eq!(auth_method, AuthMethod::Open);
        }
        _ => panic!("expected ScanPending"),
    }
}

#[test]
fn empty_ssid_is_a_config_error() {
    let r = connect_begin("".to_string(), "secret".to_string());
    let e = r.unwrap_err();
    assert_eq!(e, Error::MissingWifiName);
    assert_eq!(e.kind(), ErrorKind::Config);
    assert_eq!(e.message(), "Missing WiFi name");
}

#[test]
fn empty_ssid_with_empty_password_is_still_a_config_error() {
    let r = connect_begin("".to_string(), "".to_string());
    assert_eq!(r.unwrap_err(), Error::MissingWifiName);
}

#[test]
fn scan_match_is_exact_and_first_wins() {
    let aps = vec![
        ap("other", 3),
        ap("mynet ", 4),
        ap("mynet", 6),
        ap("mynet", 11),
    ];
    assert_eq!(select_channel(&aps, &"mynet".to_string()), Some(6));
}

#[test]
fn scan_without_match_leaves_channel_absent() {
    let aps = vec![ap("other", 3), ap("MYNET", 4)];
    assert_eq!(select_channel(&aps, &"mynet".to_string()), None);
    let none: Vec<ApInfo> = Vec::new();
    assert_eq!(select_channel(&none, &"mynet".to_string()), None);
}

#[test]
fn scan_step_fills_config_and_start_deadline() {
    let st = connect_begin("mynet".to_string(), "secret".to_string()).unwrap();
    let st = step(
        st,
        LinkEvent::ScanDone {
            access_points: vec![ap("mynet", 6)],
            now_ms: 1_000,
        },
    );
    match st {
        LinkState::StartPending {
            config,
            deadline_ms,
        } => {
            assert_eq!(config.ssid, "mynet");
            assert_eq!(config.password, "secret");
            assert_eq!(config.channel, Some(6));
            assert_eq!(config.auth_method, AuthMethod::Wpa2Personal);
            assert_eq!(deadline_ms, 1_000 + WIFI_START_TIMEOUT_MS);
        }
        _ => panic!("expected StartPending"),
    }
}

#[test]
fn radio_that_never_starts_fails_with_start_timeout() {
    let st = connect_begin("mynet".to_string(), "".to_string()).unwrap();
    let mut st = step(
        st,
        LinkEvent::ScanDone {
            access_points: Vec::new(),
            now_ms: 0,
        },
    );
    // Polls before the deadline keep waiting.
    for now_ms in [1_000u64, 10_000, 19_999] {
        st = step(
            st,
            LinkEvent::StartedPoll {
                started: false,
                now_ms,
            },
        );
        assert!(matches!(st, LinkState::StartPending { .. }));
    }
    // The poll at the deadline fails the bring-up; no association happened.
    st = step(
        st,
        LinkEvent::StartedPoll {
            started: false,
            now_ms: WIFI_START_TIMEOUT_MS,
        },
    );
    match st {
        LinkState::Failed { error } => {
            assert_eq!(error, Error::WifiStartTimeout);
            assert_eq!(error.kind(), ErrorKind::Network);
            assert_eq!(error.message(), "Wifi did not start");
        }
        _ => panic!("expected Failed"),
    }
}

#[test]
fn radio_without_lease_fails_with_dhcp_timeout() {
    let st = connect_begin("mynet".to_string(), "pw".to_string()).unwrap();
    let st = step(
        st,
        LinkEvent::ScanDone {
            access_points: vec![ap("mynet", 1)],
            now_ms: 0,
        },
    );
    let mut st = step(
        st,
        LinkEvent::StartedPoll {
            started: true,
            now_ms: 500,
        },
    );
    assert!(matches!(st, LinkState::AddressPending { .. }));
    // Associated, but the address stays 0.0.0.0 past the deadline.
    for now_ms in [1_000u64, 10_000] {
        st = step(
            st,
            LinkEvent::AddressPoll {
                associated: true,
                ip: Ipv4::new(0, 0, 0, 0),
                now_ms,
            },
        );
        assert!(matches!(st, LinkState::AddressPending { .. }));
    }
    st = step(
        st,
        LinkEvent::AddressPoll {
            associated: true,
            ip: Ipv4::new(0, 0, 0, 0),
            now_ms: 500 + WIFI_DHCP_TIMEOUT_MS,
        },
    );
    match st {
        LinkState::Failed { error } => {
            assert_eq!(error, Error::WifiDhcpTimeout);
            assert_eq!(error.kind(), ErrorKind::Network);
            assert_eq!(
                error.message(),
                "Wifi did not connect or did not receive a DHCP lease"
            );
        }
        _ => panic!("expected Failed"),
    }
}

#[test]
fn lease_on_time_connects() {
    let st = LinkState::AddressPending { deadline_ms: 20_000 };
    let st = step(
        st,
        LinkEvent::AddressPoll {
            associated: true,
            ip: Ipv4::new(192, 168, 1, 7),
            now_ms: 3_000,
        },
    );
    match st {
        LinkState::Connected { ip } => assert_eq!(ip, Ipv4::new(192, 168, 1, 7)),
        _ => panic!("expected Connected"),
    }
}

#[test]
fn lease_present_at_the_deadline_still_wins() {
    // The success predicate is checked before the deadline.
    let st = LinkState::AddressPending { deadline_ms: 20_000 };
    let st = step(
        st,
        LinkEvent::AddressPoll {
            associated: true,
            ip: Ipv4::new(10, 0, 0, 2),
            now_ms: 20_000,
        },
    );
    assert!(matches!(st, LinkState::Connected { .. }));
}

#[test]
fn association_without_address_keeps_waiting() {
    let st = LinkState::AddressPending { deadline_ms: 20_000 };
    let st = step(
        st,
        LinkEvent::AddressPoll {
            associated: false,
            ip: Ipv4::new(10, 0, 0, 2),
            now_ms: 1_000,
        },
    );
    assert!(matches!(st, LinkState::AddressPending { .. }));
}

#[test]
fn failed_state_absorbs_further_events() {
    let st = LinkState::Failed {
        error: Error::WifiStartTimeout,
    };
    let st = step(
        st,
        LinkEvent::StartedPoll {
            started: true,
            now_ms: 99,
        },
    );
    match st {
        LinkState::Failed { error } => assert_eq!(error, Error::WifiStartTimeout),
        _ => panic!("expected Failed"),
    }
}

#[test]
fn deadline_saturates_at_the_top_of_the_clock() {
    assert_eq!(deadline_after(5, 20_000), 20_005);
    assert_eq!(deadline_after(u64::MAX - 5, 20_000), u64::MAX);
    assert_eq!(deadline_after(u64::MAX, 0), u64::MAX);
}

#[test]
fn unspecified_address_is_all_zero() {
    assert!(Ipv4::new(0, 0, 0, 0).is_unspecified());
    assert!(!Ipv4::new(0, 0, 0, 1).is_unspecified());
    assert!(!Ipv4::new(127, 0, 0, 0).is_unspecified());
}
