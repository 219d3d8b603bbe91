use zeroclaw::tunnel::{
    create_tunnel, CloudflareTunnelConfig, CustomTunnelConfig, NgrokTunnelConfig, NoneTunnel,
    TunnelConfig, TunnelError,
};

/// Helper: assert `create_tunnel` returns an error containing `needle`.
fn assert_tunnel_err(cfg: &TunnelConfig, needle: &str) {
    match create_tunnel(cfg) {
        Err(e) => assert!(
            e.message().contains(needle),
            "Expected error containing \"{needle}\", got: {}",
            e.message()
        ),
        Ok(_) => panic!("Expected error containing \"{needle}\", but got Ok"),
    }
}

#[test]
fn factory_none_returns_none() {
    let cfg = TunnelConfig::default();
    let t = create_tunnel(&cfg).unwrap();
    assert!(t.is_none());
}

#[test]
fn factory_empty_string_returns_none() {
    let cfg = TunnelConfig {
        provider: String::new(),
        ..TunnelConfig::default()
    };
    let t = create_tunnel(&cfg).unwrap();
    assert!(t.is_none());
}

#[test]
fn factory_unknown_provider_errors() {
    let cfg = TunnelConfig {
        provider: "wireguard".into(),
        ..TunnelConfig::default()
    };
    assert_tunnel_err(&cfg, "Unknown tunnel provider");
}

#[test]
fn factory_cloudflare_missing_config_errors() {
    let cfg = TunnelConfig {
        provider: "cloudflare".into(),
        ..TunnelConfig::default()
    };
    assert_tunnel_err(&cfg, "[tunnel.cloudflare]");
}

#[test]
fn factory_cloudflare_with_config_ok() {
    let cfg = TunnelConfig {
        provider: "cloudflare".into(),
        cloudflare: Some(CloudflareTunnelConfig {
            token: "test-token".into(),
        }),
        ..TunnelConfig::default()
    };
    let t = create_tunnel(&cfg).unwrap();
    assert!(t.is_some());
    assert_eq!(t.unwrap().name(), "cloudflare");
}

#[test]
fn factory_tailscale_defaults_ok() {
    let cfg = TunnelConfig {
        provider: "tailscale".into(),
        ..TunnelConfig::default()
    };
    let t = create_tunnel(&cfg).unwrap();
    assert!(t.is_some());
    assert_eq!(t.unwrap().name(), "tailscale");
}

#[test]
fn factory_ngrok_missing_config_errors() {
    let cfg = TunnelConfig {
        provider: "ngrok".into(),
        ..TunnelConfig::default()
    };
    assert_tunnel_err(&cfg, "[tunnel.ngrok]");
}

#[test]
fn factory_ngrok_with_config_ok() {
    let cfg = TunnelConfig {
        provider: "ngrok".into(),
        ngrok: Some(NgrokTunnelConfig {
            auth_token: "tok".into(),
            domain: None,
        }),
        ..TunnelConfig::default()
    };
    let t = create_tunnel(&cfg).unwrap();
    assert!(t.is_some());
    assert_eq!(t.unwrap().name(), "ngrok");
}

#[test]
fn factory_custom_missing_config_errors() {
    let cfg = TunnelConfig {
        provider: "custom".into(),
        ..TunnelConfig::default()
    };
    assert_tunnel_err(&cfg, "[tunnel.custom]");
}

#[test]
fn factory_custom_with_config_ok() {
    let cfg = TunnelConfig {
        provider: "custom".into(),
        custom: Some(CustomTunnelConfig {
            start_command: "echo tunnel".into(),
            health_url: None,
            url_pattern: None,
        }),
        ..TunnelConfig::default()
    };
    let t = create_tunnel(&cfg).unwrap();
    assert!(t.is_some());
    assert_eq!(t.unwrap().name(), "custom");
}

#[test]
fn none_tunnel_name() {
    let t = NoneTunnel;
    assert_eq!(t.name(), "none");
}

#[test]
fn unknown_provider_message_names_provider_and_choices() {
    let cfg = TunnelConfig {
        provider: "wireguard".into(),
        ..TunnelConfig::default()
    };
    let e = create_tunnel(&cfg).err().unwrap();
    assert_eq!(
        e.message(),
        "Unknown tunnel provider: \"wireguard\". Valid: none, cloudflare, tailscale, ngrok, custom"
    );
    assert!(matches!(e, TunnelError::UnknownProvider(_)));
}

#[test]
fn missing_section_message_is_exact() {
    let cfg = TunnelConfig {
        provider: "ngrok".into(),
        ..TunnelConfig::default()
    };
    let e = create_tunnel(&cfg).err().unwrap();
    assert_eq!(
        e.message(),
        "tunnel.provider = \"ngrok\" but [tunnel.ngrok] section is missing"
    );
}

#[test]
fn provider_names_are_case_sensitive() {
    let cfg = TunnelConfig {
        provider: "None".into(),
        ..TunnelConfig::default()
    };
    assert_tunnel_err(&cfg, "Unknown tunnel provider");
}
