use ztui::model::{Network, NetworkStatus};
use ztui::persist::restore;
use ztui::refresh::apply_members_poll;
use ztui::session::Settings;
use ztui::state::{ListFilter, Page};

fn network(id: &str, status: NetworkStatus) -> Network {
    Network {
        id: id.to_string(),
        name: format!("net-{}", id),
        status,
        assigned_addresses: vec!["10.0.0.2".to_string()],
        port_device_name: "zt0".to_string(),
        allow_dns: true,
        allow_managed: false,
        allow_global: false,
        allow_default: true,
    }
}

#[test]
fn round_trip_reproduces_bookmarks_keys_and_filter() {
    let mut s = Settings::default();
    s.update_networks(vec![
        network("aaaa", NetworkStatus::Okay),
        network("bbbb", NetworkStatus::Disconnected),
    ]);
    s.set_api_key_for_id("aaaa".to_string(), "token-seven".to_string());
    apply_members_poll(&mut s, "aaaa".to_string(), Ok(vec![]));
    s.set_filter(ListFilter::Connected);
    // transient state that must not survive the round trip
    s.network_selected = Some(1);
    s.last_error = Some("stale".to_string());
    s.page = Page::Network("aaaa".to_string());

    let r = restore(s.persist());

    assert_eq!(r.network_ids(), s.network_ids());
    let old_a = s.get("aaaa").unwrap();
    let new_a = r.get("aaaa").unwrap();
    assert_eq!(new_a.name, old_a.name);
    assert_eq!(new_a.status, old_a.status);
    assert_eq!(new_a.assigned_addresses, old_a.assigned_addresses);
    assert_eq!(new_a.allow_dns, old_a.allow_dns);
    let old_b = s.get("bbbb").unwrap();
    let new_b = r.get("bbbb").unwrap();
    assert_eq!(new_b.status, old_b.status);
    assert_eq!(
        r.api_key_for_id("aaaa".to_string()),
        Some(&"token-seven".to_string())
    );
    assert!(r.members.get("aaaa").is_some());
    assert_eq!(r.filter(), ListFilter::Connected);
    // transient fields come back at their initial values
    assert_eq!(r.network_selected, None);
    assert_eq!(r.last_error, None);
    assert_eq!(r.page, Page::Networks);
}

#[test]
fn empty_store_round_trips_to_empty() {
    let s = Settings::default();
    let r = restore(s.persist());
    assert_eq!(r.network_ids(), Vec::<String>::new());
    assert_eq!(r.count(), 0);
    assert_eq!(r.filter(), ListFilter::All);
}

#[test]
fn restore_deduplicates_a_corrupt_listing() {
    // a hand-edited or damaged settings file may list an id twice: the
    // reload keeps one entry and the later record
    let mut s = Settings::default();
    s.update_networks(vec![network("aaaa", NetworkStatus::Okay)]);
    let mut stored = s.persist();
    stored.networks.push(network("aaaa", NetworkStatus::Disconnected));
    let r = restore(stored);
    assert_eq!(r.network_ids(), vec!["aaaa".to_string()]);
    assert_eq!(r.get("aaaa").unwrap().status, NetworkStatus::Disconnected);
}
