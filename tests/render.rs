use frp_panel::config::{push_decimal, render_ini, AppConfig, CommonConfig, ProxyNode, ServerConfig};

fn common() -> CommonConfig {
    CommonConfig {
        server_addr: "frp.example.com".to_string(),
        server_port: 7000,
        tls_enable: true,
        user: "alice".to_string(),
        token: "tok123".to_string(),
    }
}

fn node(name: &str, proxy_type: &str, local_port: u16, remote_port: Option<u16>) -> ProxyNode {
    ProxyNode {
        name: name.to_string(),
        proxy_type: proxy_type.to_string(),
        local_ip: "127.0.0.1".to_string(),
        local_port,
        remote_port,
        custom_domains: None,
        subdomain: None,
        use_encryption: None,
        use_compression: None,
    }
}

fn server(nodes: Vec<ProxyNode>) -> ServerConfig {
    ServerConfig {
        id: "p1".to_string(),
        name: "first".to_string(),
        common: common(),
        nodes,
        status: None,
        pid: None,
    }
}

const COMMON_TEXT: &str = "[common]\nserver_addr = frp.example.com\nserver_port = 7000\ntls_enable = true\nuser = alice\ntoken = tok123\n\n";

#[test]
fn renders_web_endpoint_scenario() {
    let text = render_ini(&server(vec![node("web", "tcp", 8080, Some(6000))]));
    assert!(text.starts_with("[common]\n"));
    let common_at = text.find("[common]").unwrap();
    let web_at = text.find("[web]").unwrap();
    assert!(common_at < web_at);
    assert!(text.contains("[web]\ntype = tcp\n"));
    assert!(text.contains("local_port = 8080\nremote_port = 6000\n"));
    assert_eq!(
        text,
        format!(
            "{}[web]\ntype = tcp\nlocal_ip = 127.0.0.1\nlocal_port = 8080\nremote_port = 6000\n\n",
            COMMON_TEXT
        )
    );
}

#[test]
fn renders_common_section_alone() {
    assert_eq!(render_ini(&server(vec![])), COMMON_TEXT);
}

#[test]
fn renders_every_optional_field_once_in_order() {
    let mut n = node("site", "http", 80, Some(8081));
    n.custom_domains = Some("a.example.com".to_string());
    n.subdomain = Some("blog".to_string());
    n.use_encryption = Some(true);
    n.use_compression = Some(false);
    let text = render_ini(&server(vec![n]));
    let section = "[site]\ntype = http\nlocal_ip = 127.0.0.1\nlocal_port = 80\nremote_port = 8081\ncustom_domains = a.example.com\nsubdomain = blog\nuse_encryption = true\nuse_compression = false\n\n";
    assert_eq!(text, format!("{}{}", COMMON_TEXT, section));
    for key in ["remote_port", "custom_domains", "subdomain", "use_encryption", "use_compression"] {
        assert_eq!(text.matches(&format!("{} = ", key)).count(), 1);
    }
}

#[test]
fn omitted_fields_leave_no_line() {
    let text = render_ini(&server(vec![node("ssh", "tcp", 22, None)]));
    assert!(!text.contains("remote_port"));
    assert!(!text.contains("custom_domains"));
    assert!(!text.contains("subdomain"));
    assert!(!text.contains("use_encryption"));
    assert!(!text.contains("use_compression"));
    assert!(!text.contains("= \n"));
}

#[test]
fn sections_follow_endpoint_order() {
    let text = render_ini(&server(vec![
        node("zeta", "tcp", 1, None),
        node("alpha", "udp", 2, Some(3)),
    ]));
    let expected = format!(
        "{}[zeta]\ntype = tcp\nlocal_ip = 127.0.0.1\nlocal_port = 1\n\n[alpha]\ntype = udp\nlocal_ip = 127.0.0.1\nlocal_port = 2\nremote_port = 3\n\n",
        COMMON_TEXT
    );
    assert_eq!(text, expected);
}

#[test]
fn renders_tls_off_and_port_extremes() {
    let mut s = server(vec![node("edge", "tcp", 0, Some(65535))]);
    s.common.tls_enable = false;
    s.common.server_port = 10;
    let text = render_ini(&s);
    assert!(text.contains("server_port = 10\ntls_enable = false\n"));
    assert!(text.contains("local_port = 0\nremote_port = 65535\n"));
}

#[test]
fn decimal_digits_are_exact() {
    for (n, s) in [(0u16, "0"), (9, "9"), (10, "10"), (407, "407"), (65535, "65535")] {
        let mut out = "x".to_string();
        push_decimal(&mut out, n);
        assert_eq!(out, format!("x{}", s));
    }
}

#[test]
fn initial_config_points_at_default_binary() {
    let c = AppConfig::initial();
    assert_eq!(c.frpc_path, "/Volumes/SSD4T/dev/ChmlFrp/frpc");
    assert!(c.servers.is_empty());
}


#[test]
fn empty_optional_strings_leave_no_line() {
    let mut n = node("web", "http", 80, None);
    n.custom_domains = Some(String::new());
    n.subdomain = Some(String::new());
    let text = render_ini(&server(vec![n]));
    assert!(!text.contains("custom_domains"));
    assert!(!text.contains("subdomain"));
    assert!(!text.contains("= \n"));
    assert_eq!(
        text,
        format!("{}[web]\ntype = http\nlocal_ip = 127.0.0.1\nlocal_port = 80\n\n", COMMON_TEXT)
    );
}
