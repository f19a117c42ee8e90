use turn_proxy::address::{
    choose_interface, finish_lookup, get_socket_addr, listen_address, parse_port, plan_socket_addr, split_host_port, AddressError, AddressPlan, IpAddress, SocketAddress,
};

#[test]
fn ports_parse_like_u16() {
    assert_eq!(parse_port("8080"), Some(8080));
    assert_eq!(parse_port("0"), Some(0));
    assert_eq!(parse_port("65535"), Some(65535));
    assert_eq!(parse_port("+53"), Some(53));
    assert_eq!(parse_port("0080"), Some(80));
    assert_eq!(parse_port("65536"), None);
    assert_eq!(parse_port("99999999999"), None);
    assert_eq!(parse_port(""), None);
    assert_eq!(parse_port("+"), None);
    assert_eq!(parse_port("-1"), None);
    assert_eq!(parse_port("++1"), None);
    assert_eq!(parse_port("12a"), None);
    assert_eq!(parse_port(" 1"), None);
    assert_eq!(parse_port("٣"), None);
    for p in [0u16, 1, 9, 10, 99, 443, 51820, 65535] {
        assert_eq!(parse_port(&p.to_string()), Some(p));
        assert_eq!(parse_port(&p.to_string()), p.to_string().parse::<u16>().ok());
    }
}

#[test]
fn split_uses_last_colon() {
    assert_eq!(split_host_port("wireguard:8080"), Some(("wireguard", "8080")));
    assert_eq!(split_host_port("a:b:c"), Some(("a:b", "c")));
    assert_eq!(split_host_port("host:"), Some(("host", "")));
    assert_eq!(split_host_port(":1"), Some(("", "1")));
    assert_eq!(split_host_port("nohost"), None);
    assert_eq!(split_host_port("хост:53"), Some(("хост", "53")));
    assert_eq!(split_host_port("a:b:c"), "a:b:c".rsplit_once(':'));
}

#[test]
fn ready_address_is_kept() {
    let a = SocketAddress::V4 { ip: [10, 0, 0, 1], port: 51820 };
    match plan_socket_addr("10.0.0.1:51820", Some(a)) {
        Ok(AddressPlan::Ready(r)) => assert_eq!(r, a),
        _ => panic!("expected a ready address"),
    }
    match get_socket_addr("10.0.0.1:51820") {
        Ok(AddressPlan::Ready(r)) => assert_eq!(r, a),
        _ => panic!("expected a ready address"),
    }
    match get_socket_addr("[fe80::1%3]:443") {
        Ok(AddressPlan::Ready(r)) => {
            assert_eq!(r, SocketAddress::V6 { ip: [0xfe80, 0, 0, 0, 0, 0, 0, 1], port: 443, flowinfo: 0, scope_id: 3 })
        }
        _ => panic!("expected a ready address"),
    }
}

#[test]
fn plan_without_direct_address_looks_up() {
    match plan_socket_addr("10.0.0.1:51820", None) {
        Ok(AddressPlan::Lookup { host, port, .. }) => {
            assert_eq!(host, "10.0.0.1");
            assert_eq!(port, 51820);
        }
        _ => panic!("expected a lookup"),
    }
}

#[test]
fn host_and_port_are_looked_up() {
    match get_socket_addr("wireguard:56040") {
        Ok(AddressPlan::Lookup { host, port }) => {
            assert_eq!(host, "wireguard");
            assert_eq!(port, 56040);
        }
        _ => panic!("expected a lookup"),
    }
}

#[test]
fn missing_port_is_refused() {
    assert!(matches!(get_socket_addr("wireguard"), Err(AddressError::MissingPort)));
}

#[test]
fn invalid_port_is_refused() {
    assert!(matches!(get_socket_addr("wireguard:http"), Err(AddressError::InvalidPort)));
    assert!(matches!(get_socket_addr("wireguard:70000"), Err(AddressError::InvalidPort)));
    assert!(matches!(get_socket_addr("[::1]:x"), Err(AddressError::InvalidPort)));
}

#[test]
fn lookup_result_gets_the_port() {
    let r = finish_lookup("h".to_string(), 53, Ok(Some(IpAddress::V4([77, 88, 8, 8])))).unwrap();
    assert_eq!(r, SocketAddress::V4 { ip: [77, 88, 8, 8], port: 53 });
    let r6 = finish_lookup("h".to_string(), 443, Ok(Some(IpAddress::V6([0x2001, 0xdb8, 0, 0, 0, 0, 0, 1])))).unwrap();
    assert_eq!(r6, SocketAddress::V6 { ip: [0x2001, 0xdb8, 0, 0, 0, 0, 0, 1], port: 443, flowinfo: 0, scope_id: 0 });
    assert_eq!(r6.port(), 443);
    assert_eq!(r6.ip(), IpAddress::V6([0x2001, 0xdb8, 0, 0, 0, 0, 0, 1]));
}

#[test]
fn lookup_failures_are_reported() {
    assert!(matches!(finish_lookup("h".to_string(), 1, Ok(None)), Err(AddressError::NoAddressFound)));
    match finish_lookup("h".to_string(), 1, Err("timeout".to_string())) {
        Err(AddressError::ResolutionFailed { host, reason }) => {
            assert_eq!(host, "h");
            assert_eq!(reason, "timeout");
        }
        _ => panic!("expected a resolution failure"),
    }
}

#[test]
fn new_socket_address_has_no_scope() {
    let a = SocketAddress::new(IpAddress::V4([1, 2, 3, 4]), 5);
    assert_eq!(a, SocketAddress::V4 { ip: [1, 2, 3, 4], port: 5 });
}

#[test]
fn yandex_name_servers_are_both_on_port_53() {
    assert_eq!(
        turn_proxy::dns::yandex_name_servers(),
        vec![
            SocketAddress::V4 { ip: [77, 88, 8, 8], port: 53 },
            SocketAddress::V4 { ip: [77, 88, 8, 1], port: 53 },
        ]
    );
}

#[test]
fn lookup_asks_for_the_host_before_the_last_colon() {
    match get_socket_addr("a:b:51820") {
        Ok(AddressPlan::Lookup { host, port }) => {
            assert_eq!(host, "a:b");
            assert_eq!(port, 51820);
        }
        _ => panic!("expected a lookup"),
    }
}

#[test]
fn listen_address_must_be_a_socket_address() {
    assert_eq!(listen_address("0.0.0.0:56000").unwrap(), SocketAddress::V4 { ip: [0, 0, 0, 0], port: 56000 });
    assert_eq!(
        listen_address("[::]:9").unwrap(),
        SocketAddress::V6 { ip: [0; 8], port: 9, flowinfo: 0, scope_id: 0 }
    );
    assert!(matches!(listen_address("localhost:56000"), Err(AddressError::InvalidListenAddress)));
    assert!(matches!(listen_address("0.0.0.0"), Err(AddressError::InvalidListenAddress)));
}

#[test]
fn configured_interface_wins_when_it_reads() {
    let current = IpAddress::V4([192, 168, 0, 2]);
    assert_eq!(choose_interface(Some("10.1.2.3"), current), IpAddress::V4([10, 1, 2, 3]));
    assert_eq!(choose_interface(Some("::1"), current), IpAddress::V6([0, 0, 0, 0, 0, 0, 0, 1]));
    assert_eq!(choose_interface(Some("eth0"), current), current);
    assert_eq!(choose_interface(None, current), current);
}
