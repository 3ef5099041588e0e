use ztui::model::{Network, NetworkStatus};
use ztui::refresh::{apply_members_poll, merge_networks_poll};
use ztui::session::Settings;
use ztui::state::ListFilter;

fn network(id: &str, status: NetworkStatus) -> Network {
    Network {
        id: id.to_string(),
        name: format!("net-{}", id),
        status,
        assigned_addresses: vec![format!("10.0.0.1/{}", id)],
        port_device_name: format!("zt-{}", id),
        allow_dns: false,
        allow_managed: true,
        allow_global: false,
        allow_default: false,
    }
}

#[test]
fn update_networks_appends_new_ids_in_order() {
    let mut s = Settings::default();
    let fresh = s.update_networks(vec![
        network("aaaa", NetworkStatus::Okay),
        network("bbbb", NetworkStatus::Okay),
    ]);
    assert!(fresh);
    let ids: Vec<String> = s.network_ids();
    assert_eq!(ids, vec!["aaaa".to_string(), "bbbb".to_string()]);
    assert_eq!(s.count(), 2);
}

#[test]
fn network_absent_from_poll_is_soft_deleted() {
    let mut s = Settings::default();
    s.update_networks(vec![
        network("aaaa", NetworkStatus::Okay),
        network("bbbb", NetworkStatus::Okay),
    ]);
    // the next poll no longer reports bbbb
    let fresh = s.update_networks(vec![network("aaaa", NetworkStatus::Okay)]);
    assert!(!fresh);
    // still present in the ordered index, status forced to disconnected
    let ids = s.network_ids();
    assert_eq!(ids, vec!["aaaa".to_string(), "bbbb".to_string()]);
    let b = s.get("bbbb").expect("bookmark must remain");
    assert_eq!(b.status, NetworkStatus::Disconnected);
    assert_eq!(b.name, "net-bbbb");
    let a = s.get("aaaa").expect("reported network present");
    assert_eq!(a.status, NetworkStatus::Okay);
}

#[test]
fn upsert_replaces_record_under_same_id() {
    let mut s = Settings::default();
    s.update_networks(vec![network("aaaa", NetworkStatus::RequestingConfiguration)]);
    let fresh = s.update_networks(vec![network("aaaa", NetworkStatus::Okay)]);
    assert!(!fresh);
    assert_eq!(s.network_ids().len(), 1);
    assert_eq!(s.get("aaaa").unwrap().status, NetworkStatus::Okay);
}

#[test]
fn remove_network_keeps_index_and_map_in_step() {
    let mut s = Settings::default();
    s.update_networks(vec![
        network("aaaa", NetworkStatus::Okay),
        network("bbbb", NetworkStatus::Okay),
        network("cccc", NetworkStatus::Okay),
    ]);
    s.remove_network(1);
    let ids = s.network_ids();
    assert_eq!(ids, vec!["aaaa".to_string(), "cccc".to_string()]);
    assert!(s.get("bbbb").is_none());
    assert_eq!(s.count(), 2);
    // the same position now names the network that moved up
    assert_eq!(s.get_network_id_by_pos(1), "cccc".to_string());
}

#[test]
fn count_honours_connectivity_filter() {
    let mut s = Settings::default();
    s.update_networks(vec![
        network("aaaa", NetworkStatus::Okay),
        network("bbbb", NetworkStatus::Disconnected),
        network("cccc", NetworkStatus::Okay),
    ]);
    assert_eq!(s.count(), 3);
    s.set_filter(ListFilter::Connected);
    assert_eq!(s.count(), 2);
    let visible = s.visible_network_ids();
    assert_eq!(visible, vec!["aaaa".to_string(), "cccc".to_string()]);
    s.set_filter(ListFilter::All);
    assert_eq!(s.count(), 3);
}

#[test]
fn merge_poll_resets_selection_on_new_network() {
    let mut s = Settings::default();
    s.update_networks(vec![network("aaaa", NetworkStatus::Okay)]);
    s.network_selected = Some(0);
    merge_networks_poll(&mut s, vec![
        network("aaaa", NetworkStatus::Okay),
        network("bbbb", NetworkStatus::Okay),
    ]);
    assert_eq!(s.network_selected, None);
}

#[test]
fn members_poll_success_replaces_roster() {
    let mut s = Settings::default();
    apply_members_poll(&mut s, "aaaa".to_string(), Ok(vec![]));
    assert!(s.members.get("aaaa").is_some());
    assert_eq!(s.last_error, None);
}

#[test]
fn members_poll_failure_keeps_roster_and_records_error() {
    let mut s = Settings::default();
    apply_members_poll(&mut s, "aaaa".to_string(), Ok(vec![]));
    apply_members_poll(&mut s, "aaaa".to_string(), Err("timeout reading".to_string()));
    assert!(s.members.get("aaaa").is_some());
    assert_eq!(s.last_error, Some("timeout reading".to_string()));
}

#[test]
fn api_keys_are_stored_per_network() {
    let mut s = Settings::default();
    assert!(s.api_key_for_id("aaaa".to_string()).is_none());
    s.set_api_key_for_id("aaaa".to_string(), "token-one".to_string());
    assert_eq!(
        s.api_key_for_id("aaaa".to_string()),
        Some(&"token-one".to_string())
    );
    assert!(s.api_key_for_id("bbbb".to_string()).is_none());
}
