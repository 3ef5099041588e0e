use ztui::input::App;
use ztui::model::{Member, Network, NetworkStatus};
use ztui::refresh::{apply_members_poll, refresh_decision, RefreshAction};
use ztui::session::Settings;
use ztui::state::{Action, Dialog, EditingMode, Key, ListFilter, Page};

fn network(id: &str) -> Network {
    Network {
        id: id.to_string(),
        name: format!("net-{}", id),
        status: NetworkStatus::Okay,
        assigned_addresses: vec!["10.0.0.2".to_string()],
        port_device_name: "zt0".to_string(),
        allow_dns: false,
        allow_managed: true,
        allow_global: false,
        allow_default: false,
    }
}

fn member(net: &str, node: &str, name: &str) -> Member {
    Member {
        node_id: node.to_string(),
        network_id: net.to_string(),
        name: name.to_string(),
        authorized: false,
        capabilities: vec![],
        last_online: 0,
        ip_assignments: vec!["10.0.0.9".to_string()],
    }
}

fn three_networks() -> Settings {
    let mut s = Settings::default();
    s.update_networks(vec![network("aaaa"), network("bbbb"), network("cccc")]);
    s
}

#[test]
fn selection_stays_clamped_under_any_cursor_burst() {
    let mut app = App::default();
    let mut s = three_networks();
    for _ in 0..10 {
        app.handle_key(&mut s, Key::Down);
    }
    assert_eq!(s.network_selected, Some(2));
    for _ in 0..10 {
        app.handle_key(&mut s, Key::Up);
    }
    assert_eq!(s.network_selected, Some(0));
}

#[test]
fn cursor_keys_never_panic_on_empty_list() {
    let mut app = App::default();
    let mut s = Settings::default();
    app.handle_key(&mut s, Key::Down);
    app.handle_key(&mut s, Key::Up);
    app.handle_key(&mut s, Key::Down);
    match s.network_selected {
        None => {},
        Some(i) => assert_eq!(i, 0),
    }
}

#[test]
fn filter_toggle_resets_selection_to_top() {
    let mut app = App::default();
    let mut s = three_networks();
    app.handle_key(&mut s, Key::Down);
    app.handle_key(&mut s, Key::Down);
    assert_eq!(s.network_selected, Some(2));
    let r = app.handle_key(&mut s, Key::Char('t'));
    assert_eq!(r, Action::Nothing);
    assert_eq!(s.network_selected, Some(0));
    assert_eq!(s.filter(), ListFilter::Connected);
    app.handle_key(&mut s, Key::Char('t'));
    assert_eq!(s.network_selected, Some(0));
    assert_eq!(s.filter(), ListFilter::All);
}

#[test]
fn member_page_without_credential_prompts_instead() {
    let mut app = App::default();
    let mut s = three_networks();
    let r = app.handle_key(&mut s, Key::Char('s'));
    // no credential stored: stay on the list, ask for one, fetch nothing
    assert_eq!(r, Action::Nothing);
    assert_eq!(s.page, Page::Networks);
    assert_eq!(app.dialog, Dialog::APIKey("aaaa".to_string()));
    assert_eq!(app.editing_mode, EditingMode::Editing);
    assert_eq!(refresh_decision(&s), RefreshAction::PollNetworks);
}

#[test]
fn entered_credential_opens_member_page_and_polls_roster() {
    let mut app = App::default();
    let mut s = three_networks();
    app.handle_key(&mut s, Key::Char('s'));
    for c in "token-two".chars() {
        app.handle_key(&mut s, Key::Char(c));
    }
    let r = app.handle_key(&mut s, Key::Enter);
    assert_eq!(r, Action::Nothing);
    assert_eq!(s.page, Page::Network("aaaa".to_string()));
    assert_eq!(app.editing_mode, EditingMode::Command);
    assert_eq!(
        refresh_decision(&s),
        RefreshAction::PollMembers("aaaa".to_string(), "token-two".to_string())
    );
}

#[test]
fn stored_credential_enters_member_page_directly() {
    let mut app = App::default();
    let mut s = three_networks();
    s.set_api_key_for_id("aaaa".to_string(), "token-three".to_string());
    let r = app.handle_key(&mut s, Key::Char('s'));
    assert_eq!(r, Action::Nothing);
    assert_eq!(s.page, Page::Network("aaaa".to_string()));
    assert_eq!(app.member_selected, Some(0));
}

#[test]
fn escape_discards_text_entry() {
    let mut app = App::default();
    let mut s = three_networks();
    app.handle_key(&mut s, Key::Char('J'));
    assert_eq!(app.dialog, Dialog::Join);
    app.handle_key(&mut s, Key::Char('x'));
    app.handle_key(&mut s, Key::Esc);
    assert_eq!(app.dialog, Dialog::Closed);
    assert_eq!(app.inputbuffer, String::new());
    assert_eq!(app.editing_mode, EditingMode::Command);
}

#[test]
fn join_prompt_commits_buffer_as_join_request() {
    let mut app = App::default();
    let mut s = three_networks();
    app.handle_key(&mut s, Key::Char('J'));
    for c in "dddd".chars() {
        app.handle_key(&mut s, Key::Char(c));
    }
    let r = app.handle_key(&mut s, Key::Enter);
    assert_eq!(r, Action::JoinNetwork("dddd".to_string()));
    assert_eq!(app.inputbuffer, String::new());
    assert_eq!(app.dialog, Dialog::Closed);
}

#[test]
fn backspace_shrinks_buffer_and_is_safe_on_empty() {
    let mut app = App::default();
    let mut s = Settings::default();
    app.handle_key(&mut s, Key::Char('J'));
    app.handle_key(&mut s, Key::Backspace);
    assert_eq!(app.inputbuffer, String::new());
    app.handle_key(&mut s, Key::Char('a'));
    app.handle_key(&mut s, Key::Char('b'));
    app.handle_key(&mut s, Key::Backspace);
    assert_eq!(app.inputbuffer, "a".to_string());
}

#[test]
fn delete_key_removes_selected_network() {
    let mut app = App::default();
    let mut s = three_networks();
    app.handle_key(&mut s, Key::Down);
    let r = app.handle_key(&mut s, Key::Char('d'));
    assert_eq!(r, Action::Nothing);
    assert_eq!(s.network_ids(), vec!["aaaa".to_string(), "cccc".to_string()]);
}

#[test]
fn leave_and_join_name_the_selected_network() {
    let mut app = App::default();
    let mut s = three_networks();
    app.handle_key(&mut s, Key::Down);
    assert_eq!(
        app.handle_key(&mut s, Key::Char('l')),
        Action::LeaveNetwork("bbbb".to_string())
    );
    assert_eq!(
        app.handle_key(&mut s, Key::Char('j')),
        Action::JoinNetwork("bbbb".to_string())
    );
}

#[test]
fn quit_key_requests_quit() {
    let mut app = App::default();
    let mut s = three_networks();
    assert_eq!(app.handle_key(&mut s, Key::Char('q')), Action::Quit);
}

#[test]
fn unmapped_key_runs_configured_network_command() {
    let mut app = App::default();
    let mut s = three_networks();
    s.user_config.network_commands.push(('p', "ping %a".to_string()));
    let r = app.handle_key(&mut s, Key::Char('p'));
    assert_eq!(r, Action::RunCommand("ping 10.0.0.2".to_string()));
}

#[test]
fn flags_editor_toggles_flags_remotely() {
    let mut app = App::default();
    let mut s = three_networks();
    app.handle_key(&mut s, Key::Char('f'));
    assert_eq!(app.dialog, Dialog::NetworkFlags("aaaa".to_string()));
    let r = app.handle_key(&mut s, Key::Char('m'));
    assert_eq!(
        r,
        Action::ToggleFlag("aaaa".to_string(), ztui::model::NetworkFlag::AllowManaged)
    );
    app.handle_key(&mut s, Key::Char('q'));
    assert_eq!(app.dialog, Dialog::Closed);
}

#[test]
fn member_page_keys_drive_member_actions() {
    let mut app = App::default();
    let mut s = three_networks();
    s.set_api_key_for_id("aaaa".to_string(), "token-four".to_string());
    app.handle_key(&mut s, Key::Char('s'));
    apply_members_poll(
        &mut s,
        "aaaa".to_string(),
        Ok(vec![member("aaaa", "node1", "alpha"), member("aaaa", "node2", "beta")]),
    );
    app.set_member_count(2);
    app.handle_key(&mut s, Key::Down);
    assert_eq!(app.member_selected, Some(1));
    assert_eq!(
        app.handle_key(&mut s, Key::Char('a')),
        Action::AuthorizeMember("aaaa".to_string(), "node2".to_string())
    );
    assert_eq!(
        app.handle_key(&mut s, Key::Char('D')),
        Action::DeleteMember("aaaa".to_string(), "node2".to_string())
    );
    // rename pre-fills the buffer with the current name
    app.handle_key(&mut s, Key::Char('r'));
    assert_eq!(
        app.dialog,
        Dialog::RenameMember("aaaa".to_string(), "node2".to_string())
    );
    assert_eq!(app.inputbuffer, "beta".to_string());
    for c in "x".chars() {
        app.handle_key(&mut s, Key::Char(c));
    }
    let r = app.handle_key(&mut s, Key::Enter);
    assert_eq!(
        r,
        Action::RenameMemberRemote("aaaa".to_string(), "node2".to_string(), "betax".to_string())
    );
}

#[test]
fn member_page_quit_returns_to_network_list() {
    let mut app = App::default();
    let mut s = three_networks();
    s.set_api_key_for_id("aaaa".to_string(), "token-five".to_string());
    app.handle_key(&mut s, Key::Char('s'));
    assert_eq!(s.page, Page::Network("aaaa".to_string()));
    app.handle_key(&mut s, Key::Char('q'));
    assert_eq!(s.page, Page::Networks);
    assert_eq!(app.member_selected, Some(0));
}

#[test]
fn roster_error_falls_back_to_credential_prompt() {
    let mut app = App::default();
    let mut s = three_networks();
    s.set_api_key_for_id("aaaa".to_string(), "token-six".to_string());
    app.handle_key(&mut s, Key::Char('s'));
    apply_members_poll(&mut s, "aaaa".to_string(), Err("denied".to_string()));
    let toast = app.error_fallback(&mut s);
    assert_eq!(toast, Some("denied".to_string()));
    assert_eq!(s.page, Page::Networks);
    assert_eq!(s.last_error, None);
    assert_eq!(app.dialog, Dialog::APIKey("aaaa".to_string()));
    assert_eq!(app.editing_mode, EditingMode::Editing);
}

#[test]
fn show_config_defers_rendering_to_the_caller() {
    let mut app = App::default();
    let mut s = three_networks();
    let r = app.handle_key(&mut s, Key::Char('c'));
    assert_eq!(r, Action::ShowConfig("aaaa".to_string()));
    assert_eq!(app.dialog, Dialog::Config);
    app.config_shown();
    assert_eq!(app.dialog, Dialog::Closed);
}
