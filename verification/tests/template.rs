use ztui::model::{Member, Network, NetworkStatus};
use ztui::template::UserConfig;

fn network(id: &str, name: &str, addr: Option<&str>, dev: &str) -> Network {
    Network {
        id: id.to_string(),
        name: name.to_string(),
        status: NetworkStatus::Okay,
        assigned_addresses: addr.map(|a| vec![a.to_string()]).unwrap_or_default(),
        port_device_name: dev.to_string(),
        allow_dns: false,
        allow_managed: true,
        allow_global: false,
        allow_default: false,
    }
}

fn member(net: &str, node: &str, name: &str, ip: &str) -> Member {
    Member {
        node_id: node.to_string(),
        network_id: net.to_string(),
        name: name.to_string(),
        authorized: true,
        capabilities: vec![],
        last_online: 0,
        ip_assignments: vec![ip.to_string()],
    }
}

#[test]
fn network_template_substitutes_address_and_id() {
    let uc = UserConfig {
        network_commands: vec![('p', "ping %a on %n".to_string())],
        member_commands: vec![],
    };
    let net = network("abcd", "home", Some("10.0.0.2"), "zt0");
    let cmd = uc.command_for_network('p', &net);
    assert_eq!(cmd, Some("ping 10.0.0.2 on abcd".to_string()));
}

#[test]
fn network_template_substitutes_interface() {
    let uc = UserConfig {
        network_commands: vec![('i', "ip addr show %i".to_string())],
        member_commands: vec![],
    };
    let net = network("abcd", "home", Some("10.0.0.2"), "zt7");
    assert_eq!(uc.command_for_network('i', &net), Some("ip addr show zt7".to_string()));
}

#[test]
fn unknown_placeholder_left_untouched() {
    let uc = UserConfig {
        network_commands: vec![('p', "echo %x %a %".to_string())],
        member_commands: vec![],
    };
    let net = network("abcd", "home", Some("10.0.0.2"), "zt0");
    assert_eq!(uc.command_for_network('p', &net), Some("echo %x 10.0.0.2 %".to_string()));
}

#[test]
fn template_without_placeholders_unchanged() {
    let uc = UserConfig {
        network_commands: vec![('l', "ls -la".to_string())],
        member_commands: vec![],
    };
    let net = network("abcd", "home", Some("10.0.0.2"), "zt0");
    assert_eq!(uc.command_for_network('l', &net), Some("ls -la".to_string()));
}

#[test]
fn unbound_key_gives_no_command() {
    let uc = UserConfig { network_commands: vec![], member_commands: vec![] };
    let net = network("abcd", "home", Some("10.0.0.2"), "zt0");
    assert_eq!(uc.command_for_network('z', &net), None);
}

#[test]
fn member_template_substitutes_all_tokens() {
    let uc = UserConfig {
        network_commands: vec![],
        member_commands: vec![('s', "ssh %N@%a # node %i net %n".to_string())],
    };
    let m = member("abcd", "feed1234", "box", "10.0.0.9");
    assert_eq!(
        uc.command_for_member('s', &m),
        Some("ssh box@10.0.0.9 # node feed1234 net abcd".to_string())
    );
}

#[test]
fn first_binding_for_key_wins() {
    let uc = UserConfig {
        network_commands: vec![('p', "first %n".to_string()), ('p', "second %n".to_string())],
        member_commands: vec![],
    };
    let net = network("abcd", "home", Some("10.0.0.2"), "zt0");
    assert_eq!(uc.command_for_network('p', &net), Some("first abcd".to_string()));
}

#[test]
fn empty_template_stays_empty() {
    let uc = UserConfig {
        network_commands: vec![('e', String::new())],
        member_commands: vec![],
    };
    let net = network("abcd", "home", Some("10.0.0.2"), "zt0");
    assert_eq!(uc.command_for_network('e', &net), Some(String::new()));
}
