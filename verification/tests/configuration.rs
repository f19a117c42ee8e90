use turn_proxy::client_config::{
    self, apply_provider_defaults, AppConfiguration, CommonConfiguration, ConfigError, DefaultProvider,
    ProviderCommonArgs, ProviderConfiguration, ProviderDetails, ProviderType,
};
use turn_proxy::server_config;

fn provider(priority: Option<u32>, details: ProviderDetails, threads: Option<usize>) -> ProviderConfiguration {
    ProviderConfiguration { priority, using_udp: false, using_dtls_obfuscation: false, details, threads }
}

fn vk() -> ProviderDetails {
    ProviderDetails::Default { kind: DefaultProvider::VkCalls, link: "https://vk.com/call/join/x".to_string() }
}

fn client_args(provider_type: Option<ProviderType>) -> client_config::Args {
    client_config::Args {
        config: "config.toml".to_string(),
        listening_on: None,
        peer_addr: None,
        provider_type,
        provider_common: None,
    }
}

fn file_config() -> AppConfiguration {
    AppConfiguration {
        common: CommonConfiguration {
            listening_on: "127.0.0.1:51820".to_string(),
            peer_addr: "203.0.113.5:56000".to_string(),
            interface_addr: Some("192.168.1.10".to_string()),
        },
        providers: vec![
            provider(Some(2), ProviderDetails::Direct, None),
            provider(Some(1), vk(), None),
            provider(None, ProviderDetails::Default { kind: DefaultProvider::YandexTelemost, link: "l".to_string() }, Some(4)),
        ],
    }
}

#[test]
fn defaults_for_vk_calls_are_sixteen_threads() {
    let mut p = provider(None, vk(), None);
    apply_provider_defaults(&mut p);
    assert_eq!(p.threads, Some(16));
}

#[test]
fn defaults_for_direct_leave_threads_unset() {
    let mut p = provider(None, ProviderDetails::Direct, None);
    apply_provider_defaults(&mut p);
    assert_eq!(p.threads, None);
}

#[test]
fn defaults_for_other_providers_are_one_thread() {
    let mut p = provider(None, ProviderDetails::Default { kind: DefaultProvider::YandexTelemost, link: String::new() }, None);
    apply_provider_defaults(&mut p);
    assert_eq!(p.threads, Some(1));
    let mut c = provider(
        None,
        ProviderDetails::Custom {
            username: "u".to_string(),
            password: "p".to_string(),
            turn_address: "turn.example.org:3478".to_string(),
            stun_address: "stun.example.org:3478".to_string(),
            realm: "r".to_string(),
        },
        None,
    );
    apply_provider_defaults(&mut c);
    assert_eq!(c.threads, Some(1));
}

#[test]
fn defaults_keep_a_given_thread_count() {
    let mut p = provider(None, vk(), Some(3));
    apply_provider_defaults(&mut p);
    assert_eq!(p.threads, Some(3));
    let mut d = provider(None, ProviderDetails::Direct, Some(2));
    apply_provider_defaults(&mut d);
    assert_eq!(d.threads, Some(2));
}

#[test]
fn defaults_applied_twice_change_nothing_more() {
    let mut p = provider(None, vk(), None);
    apply_provider_defaults(&mut p);
    apply_provider_defaults(&mut p);
    assert_eq!(p.threads, Some(16));
}

#[test]
fn client_config_from_file_applies_defaults() {
    let cfg = client_config::init_config(Some(file_config()), client_args(None)).unwrap();
    assert_eq!(cfg.common.listening_on, "127.0.0.1:51820");
    assert_eq!(cfg.common.peer_addr, "203.0.113.5:56000");
    assert_eq!(cfg.common.interface_addr.as_deref(), Some("192.168.1.10"));
    let threads: Vec<Option<usize>> = cfg.providers.iter().map(|p| p.threads).collect();
    assert_eq!(threads, vec![None, Some(16), Some(4)]);
    let priorities: Vec<Option<u32>> = cfg.providers.iter().map(|p| p.priority).collect();
    assert_eq!(priorities, vec![Some(2), Some(1), None]);
}

#[test]
fn client_command_line_overrides_addresses() {
    let mut args = client_args(None);
    args.listening_on = Some("0.0.0.0:9000".to_string());
    args.peer_addr = Some("wireguard:56040".to_string());
    let cfg = client_config::init_config(Some(file_config()), args).unwrap();
    assert_eq!(cfg.common.listening_on, "0.0.0.0:9000");
    assert_eq!(cfg.common.peer_addr, "wireguard:56040");
    assert_eq!(cfg.providers.len(), 3);
}

#[test]
fn client_without_file_starts_from_defaults() {
    let cfg = client_config::init_config(None, client_args(None)).unwrap();
    assert_eq!(cfg.common.listening_on, "");
    assert_eq!(cfg.common.peer_addr, "");
    assert!(cfg.common.interface_addr.is_none());
    assert!(cfg.providers.is_empty());
}

#[test]
fn client_requires_file_for_from_config_file() {
    let res = client_config::init_config(None, client_args(Some(ProviderType::FromConfigFile)));
    match res {
        Err(ConfigError::ConfigFileNotFound { path }) => assert_eq!(path, "config.toml"),
        Ok(_) => panic!("expected an error"),
    }
}

#[test]
fn client_from_config_file_keeps_file_providers() {
    let cfg = client_config::init_config(Some(file_config()), client_args(Some(ProviderType::FromConfigFile))).unwrap();
    assert_eq!(cfg.providers.len(), 3);
}

#[test]
fn client_command_line_provider_replaces_file_providers() {
    let mut args = client_args(Some(ProviderType::Default { kind: DefaultProvider::VkCalls, link: "link".to_string() }));
    args.provider_common = Some(ProviderCommonArgs { using_udp: true, using_dtls_obfuscation: true, threads: Some(8) });
    let cfg = client_config::init_config(Some(file_config()), args).unwrap();
    assert_eq!(cfg.providers.len(), 1);
    let p = &cfg.providers[0];
    assert_eq!(p.priority, Some(0));
    assert!(p.using_udp);
    assert!(p.using_dtls_obfuscation);
    assert_eq!(p.threads, Some(8));
    match &p.details {
        ProviderDetails::Default { kind, link } => {
            assert_eq!(*kind, DefaultProvider::VkCalls);
            assert_eq!(link, "link");
        }
        _ => panic!("wrong details"),
    }
}

#[test]
fn client_command_line_provider_gets_defaults() {
    let cfg = client_config::init_config(None, client_args(Some(ProviderType::Direct))).unwrap();
    assert_eq!(cfg.providers.len(), 1);
    assert!(matches!(cfg.providers[0].details, ProviderDetails::Direct));
    assert_eq!(cfg.providers[0].threads, None);
    assert!(!cfg.providers[0].using_udp);
    let cfg = client_config::init_config(None, client_args(Some(ProviderType::Custom {
        username: "u".to_string(),
        password: "p".to_string(),
        turn_address: "t".to_string(),
        stun_address: "s".to_string(),
        realm: "r".to_string(),
    })))
    .unwrap();
    assert_eq!(cfg.providers[0].threads, Some(1));
    match &cfg.providers[0].details {
        ProviderDetails::Custom { username, realm, .. } => {
            assert_eq!(username, "u");
            assert_eq!(realm, "r");
        }
        _ => panic!("wrong details"),
    }
}

fn server_args() -> server_config::Args {
    server_config::Args {
        config: "server.toml".to_string(),
        no_config: false,
        listening_on: None,
        proxy_into: None,
        max_connections: None,
    }
}

fn server_file(listen: Option<&str>, proxy: Option<&str>, max: Option<usize>) -> server_config::AppConfig {
    server_config::AppConfig {
        common: server_config::CommonConfig {
            listening_on: listen.map(|s| s.to_string()),
            proxy_into: proxy.map(|s| s.to_string()),
            max_connections: max,
        },
    }
}

#[test]
fn server_listens_on_default_address() {
    let mut args = server_args();
    args.proxy_into = Some("127.0.0.1:51820".to_string());
    args.max_connections = Some(10);
    let cfg = server_config::init_config(None, args).unwrap();
    assert_eq!(cfg.common.listening_on.as_deref(), Some("0.0.0.0:56000"));
    assert_eq!(cfg.common.proxy_into.as_deref(), Some("127.0.0.1:51820"));
    assert_eq!(cfg.common.max_connections, Some(10));
}

#[test]
fn server_command_line_wins_over_file() {
    let mut args = server_args();
    args.listening_on = Some("0.0.0.0:1".to_string());
    args.max_connections = Some(5);
    let cfg = server_config::init_config(Some(server_file(Some("0.0.0.0:2"), Some("wireguard:51820"), Some(7))), args).unwrap();
    assert_eq!(cfg.common.listening_on.as_deref(), Some("0.0.0.0:1"));
    assert_eq!(cfg.common.proxy_into.as_deref(), Some("wireguard:51820"));
    assert_eq!(cfg.common.max_connections, Some(5));
}

#[test]
fn server_takes_file_values() {
    let cfg = server_config::init_config(Some(server_file(Some("0.0.0.0:2"), Some("wireguard:51820"), Some(7))), server_args()).unwrap();
    assert_eq!(cfg.common.listening_on.as_deref(), Some("0.0.0.0:2"));
    assert_eq!(cfg.common.max_connections, Some(7));
}

#[test]
fn server_requires_proxy_into() {
    let res = server_config::init_config(Some(server_file(None, None, Some(7))), server_args());
    assert_eq!(res.err(), Some(server_config::ConfigError::MissingProxyInto));
    let res = server_config::init_config(None, server_args());
    assert_eq!(res.err(), Some(server_config::ConfigError::MissingProxyInto));
}

#[test]
fn server_requires_max_connections() {
    let res = server_config::init_config(Some(server_file(None, Some("a:1"), None)), server_args());
    assert_eq!(res.err(), Some(server_config::ConfigError::MissingMaxConnections));
}

#[test]
fn server_connection_limit_defaults_to_two_thousand() {
    assert_eq!(server_config::connection_limit(&server_file(None, None, None)), 2000);
    assert_eq!(server_config::connection_limit(&server_file(None, None, Some(3))), 3);
}
