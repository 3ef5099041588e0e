use ztui::delegate::{
    delegation_step, DelegationEffect, DelegationEvent, DelegationState,
};
use ztui::paths::{authtoken_path, HostOs};
use ztui::usage::{IfaceIo, Nets};

#[test]
fn cancellation_signals_child_then_restore_matches_release() {
    let st = DelegationState::Idle;
    let (st, eff) = delegation_step(st, DelegationEvent::Begin(true));
    assert_eq!(eff, DelegationEffect::ReleaseTerminal);
    assert_eq!(st, DelegationState::Active(true));
    // the operator interrupts: the child is signalled, the terminal is
    // not touched until the child actually exits
    let (st, eff) = delegation_step(st, DelegationEvent::Cancel);
    assert_eq!(eff, DelegationEffect::SignalChild);
    assert_eq!(st, DelegationState::Active(true));
    let (st, eff) = delegation_step(st, DelegationEvent::ChildExit);
    assert_eq!(eff, DelegationEffect::RestoreTerminal);
    assert_eq!(st, DelegationState::Idle);
}

#[test]
fn untrapped_command_ignores_cancellation() {
    let st = DelegationState::Idle;
    let (st, _) = delegation_step(st, DelegationEvent::Begin(false));
    let (st, eff) = delegation_step(st, DelegationEvent::Cancel);
    assert_eq!(eff, DelegationEffect::NoEffect);
    let (_, eff) = delegation_step(st, DelegationEvent::ChildExit);
    assert_eq!(eff, DelegationEffect::RestoreTerminal);
}

#[test]
fn stray_events_have_no_effect() {
    let (st, eff) = delegation_step(DelegationState::Idle, DelegationEvent::ChildExit);
    assert_eq!(st, DelegationState::Idle);
    assert_eq!(eff, DelegationEffect::NoEffect);
    let (st, eff) = delegation_step(DelegationState::Idle, DelegationEvent::Cancel);
    assert_eq!(st, DelegationState::Idle);
    assert_eq!(eff, DelegationEffect::NoEffect);
    let (st2, eff) = delegation_step(DelegationState::Active(true), DelegationEvent::Begin(false));
    assert_eq!(st2, DelegationState::Active(true));
    assert_eq!(eff, DelegationEffect::NoEffect);
}

#[test]
fn token_path_prefers_the_supplied_override() {
    assert_eq!(
        authtoken_path(Some("/tmp/token".to_string()), HostOs::Linux),
        "/tmp/token".to_string()
    );
    assert_eq!(
        authtoken_path(Some("/tmp/token".to_string()), HostOs::Unknown),
        "/tmp/token".to_string()
    );
}

#[test]
fn token_path_per_platform_defaults() {
    assert_eq!(
        authtoken_path(None, HostOs::Linux),
        "/var/lib/zerotier-one/authtoken.secret".to_string()
    );
    assert_eq!(
        authtoken_path(None, HostOs::Windows),
        "C:/ProgramData/ZeroTier/One/authtoken.secret".to_string()
    );
    assert_eq!(
        authtoken_path(None, HostOs::MacOs),
        "/Library/Application Support/ZeroTier/One/authtoken.secret".to_string()
    );
}

fn reading(iface: &str, rx: u64, tx: u64) -> IfaceIo {
    IfaceIo { interface: iface.to_string(), rx_bytes: rx, tx_bytes: tx }
}

#[test]
fn usage_window_needs_two_samples() {
    let mut nets = Nets::new();
    nets.refresh(vec![reading("zt0", 100, 50)]);
    nets.store_usage("zt0".to_string(), 1_000);
    assert!(nets.usage_window("zt0".to_string()).is_none());
    nets.refresh(vec![reading("zt0", 300, 80)]);
    nets.store_usage("zt0".to_string(), 2_000);
    let (a, b) = nets.usage_window("zt0".to_string()).unwrap();
    assert_eq!((a.rx_bytes, a.tx_bytes, a.at_millis), (100, 50, 1_000));
    assert_eq!((b.rx_bytes, b.tx_bytes, b.at_millis), (300, 80, 2_000));
}

#[test]
fn usage_history_keeps_only_last_three_samples() {
    let mut nets = Nets::new();
    for k in 0..5u64 {
        nets.refresh(vec![reading("zt0", 100 * k, 10 * k)]);
        nets.store_usage("zt0".to_string(), 1_000 * k);
    }
    let (a, b) = nets.usage_window("zt0".to_string()).unwrap();
    assert_eq!(a.at_millis, 3_000);
    assert_eq!(b.at_millis, 4_000);
}

#[test]
fn unknown_interface_records_nothing() {
    let mut nets = Nets::new();
    nets.refresh(vec![reading("zt0", 1, 1)]);
    nets.store_usage("eth0".to_string(), 1_000);
    assert!(nets.usage_window("eth0".to_string()).is_none());
    assert!(nets.find_by_interface("eth0".to_string()).is_none());
    let found = nets.find_by_interface("zt0".to_string()).unwrap();
    assert_eq!(found.rx_bytes, 1);
    assert_eq!(nets.len(), 1);
}
