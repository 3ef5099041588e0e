//! The interaction state machine. Each keystroke is consumed by exactly
//! one handler, chosen by the current page, dialog and editing mode; the
//! handlers mutate the per-terminal state and the session store, and
//! return the `Action` the caller must carry out. Every transition is
//! stated by a spec function and the handlers are proved to follow it.

use vstd::prelude::*;
use crate::model::NetworkFlag;
use crate::session::{clamp_sel, pos_in_idx, Settings, SettingsV};
use crate::state::{Action, ActionV, Dialog, DialogV, EditingMode, Key, ListFilter, Page, PageV};
use crate::template::{bind_lookup, member_binds, network_binds, subst};

verus! {

/// Per-terminal interaction state: what keystrokes currently mean, the
/// text being entered, and the member-table cursor.
pub struct App {
    pub editing_mode: EditingMode,
    pub dialog: Dialog,
    pub inputbuffer: String,
    pub member_count: usize,
    pub member_selected: Option<usize>,
}

/// The mathematical value of an `App`.
#[verifier::ext_equal]
pub struct AppV {
    pub editing_mode: EditingMode,
    pub dialog: DialogV,
    pub inputbuffer: Seq<char>,
    pub member_count: usize,
    pub member_selected: Option<usize>,
}

impl View for App {
    type V = AppV;

    open spec fn view(&self) -> AppV {
        AppV {
            editing_mode: self.editing_mode,
            dialog: self.dialog@,
            inputbuffer: self.inputbuffer@,
            member_count: self.member_count,
            member_selected: self.member_selected,
        }
    }
}

impl AppV {
    /// The state a fresh session starts in: command mode, no dialog,
    /// empty buffer, empty member table.
    pub open spec fn initial() -> AppV {
        AppV {
            editing_mode: EditingMode::Command,
            dialog: DialogV::Closed,
            inputbuffer: Seq::empty(),
            member_count: 0,
            member_selected: None,
        }
    }

    /// The member-table cursor never points past the table (position 0 is
    /// always admissible, even over an empty table).
    pub open spec fn msel_ok(self) -> bool {
        match self.member_selected {
            None => true,
            Some(i) => i == 0 || i < self.member_count,
        }
    }

    /// The effective member selection: an unset cursor acts as position 0.
    pub open spec fn msel_or0(self) -> usize {
        match self.member_selected {
            None => 0,
            Some(i) => i,
        }
    }
}

/// The member-table cursor kept where it still points inside the table,
/// and reset to the top where the table shrank under it.
pub open spec fn clamp_msel(sel: Option<usize>, n: usize) -> Option<usize> {
    match sel {
        None => None,
        Some(i) => if i == 0 || i < n {
            Some(i)
        } else {
            Some(0)
        },
    }
}

/// A dialog that will commit to a network's member roster is only ever
/// open while a credential for that network is stored; entering the
/// member page itself is gated the same way (see `SettingsV::wf`).
pub open spec fn app_ok(a: AppV, s: SettingsV) -> bool {
    &&& a.msel_ok()
    &&& match a.dialog {
        DialogV::RenameMember(nid, _) => s.api_keys.contains_key(nid),
        _ => true,
    }
}

/// The outcome of one keystroke: the new interaction state, the new
/// session store, and what the caller must carry out.
#[verifier::ext_equal]
pub struct StepV {
    pub app: AppV,
    pub settings: SettingsV,
    pub action: ActionV,
}

/// A step that changes nothing and demands nothing.
pub open spec fn no_step(a: AppV, s: SettingsV) -> StepV {
    StepV { app: a, settings: s, action: ActionV::Nothing }
}

/// Text-entry mode: characters grow the edit buffer, backspace shrinks
/// it, escape discards it, and enter commits it to the action implied by
/// the open dialog, then returns to command mode.
pub open spec fn edit_step(a: AppV, s: SettingsV, key: Key) -> StepV {
    let closed = AppV {
        inputbuffer: Seq::empty(),
        dialog: DialogV::Closed,
        editing_mode: EditingMode::Command,
        ..a
    };
    match key {
        Key::Char(c) => StepV {
            app: AppV { inputbuffer: a.inputbuffer.push(c), ..a },
            settings: s,
            action: ActionV::Nothing,
        },
        Key::Backspace => StepV {
            app: AppV {
                inputbuffer: if a.inputbuffer.len() > 0 {
                    a.inputbuffer.drop_last()
                } else {
                    a.inputbuffer
                },
                ..a
            },
            settings: s,
            action: ActionV::Nothing,
        },
        Key::Esc => StepV { app: closed, settings: s, action: ActionV::Nothing },
        Key::Enter => {
            match a.dialog {
                DialogV::Join => StepV {
                    app: closed,
                    settings: s,
                    action: ActionV::JoinNetwork(a.inputbuffer),
                },
                DialogV::APIKey(id) => StepV {
                    app: closed,
                    settings: SettingsV {
                        api_keys: s.api_keys.insert(id, a.inputbuffer),
                        api_key_ids: if s.api_keys.contains_key(id) {
                            s.api_key_ids
                        } else {
                            s.api_key_ids.push(id)
                        },
                        page: PageV::Network(id),
                        ..s
                    },
                    action: ActionV::Nothing,
                },
                DialogV::AddMember(nid) => StepV {
                    app: closed,
                    settings: s,
                    action: ActionV::AuthorizeMember(nid, a.inputbuffer),
                },
                DialogV::RenameMember(nid, mid) => StepV {
                    app: closed,
                    settings: SettingsV { page: PageV::Network(nid), ..s },
                    action: ActionV::RenameMemberRemote(nid, mid, a.inputbuffer),
                },
                _ => StepV { app: closed, settings: s, action: ActionV::Nothing },
            }
        },
        _ => no_step(a, s),
    }
}

/// Network-list keystrokes while no dialog is open. Arrows move the
/// cursor, clamped to the visible cardinality; single characters map to
/// the commands of the list page; anything else is looked up in the
/// operator's network-command table.
pub open spec fn list_step(a: AppV, s: SettingsV, key: Key) -> StepV {
    let pos = s.sel_or0() as int;
    let n = s.visible_n() as int;
    match key {
        Key::Up => StepV {
            app: a,
            settings: SettingsV {
                sel: Some((if pos > 0 {
                    pos - 1
                } else {
                    0
                }) as usize),
                ..s
            },
            action: ActionV::Nothing,
        },
        Key::Down => if pos + 1 < n {
            StepV {
                app: a,
                settings: SettingsV { sel: Some((pos + 1) as usize), ..s },
                action: ActionV::Nothing,
            }
        } else {
            no_step(a, s)
        },
        Key::Esc => StepV {
            app: AppV { dialog: DialogV::Closed, editing_mode: EditingMode::Command, ..a },
            settings: s,
            action: ActionV::Nothing,
        },
        Key::Char(c) => list_char_step(a, s, c),
        _ => no_step(a, s),
    }
}

/// The single-character commands of the network list page.
pub open spec fn list_char_step(a: AppV, s: SettingsV, c: char) -> StepV {
    let pos = s.sel_or0() as int;
    let n = s.visible_n() as int;
    let in_range = pos < n;
    let vid = s.visible_ids()[pos];
    if c == 'q' {
        StepV { app: a, settings: s, action: ActionV::Quit }
    } else if c == 'd' {
        if in_range {
            let s2 = SettingsV {
                networks: s.networks.remove(vid),
                idx: s.idx.remove(pos_in_idx(s.idx, vid)),
                ..s
            };
            StepV {
                app: a,
                settings: SettingsV { sel: clamp_sel(s.sel, s2.visible_n()), ..s2 },
                action: ActionV::Nothing,
            }
        } else {
            no_step(a, s)
        }
    } else if c == 'l' {
        if in_range {
            StepV { app: a, settings: s, action: ActionV::LeaveNetwork(vid) }
        } else {
            no_step(a, s)
        }
    } else if c == 'j' {
        if in_range {
            StepV { app: a, settings: s, action: ActionV::JoinNetwork(vid) }
        } else {
            no_step(a, s)
        }
    } else if c == 'J' {
        StepV {
            app: AppV {
                dialog: DialogV::Join,
                editing_mode: EditingMode::Editing,
                inputbuffer: Seq::empty(),
                ..a
            },
            settings: s,
            action: ActionV::Nothing,
        }
    } else if c == 'c' {
        if in_range {
            StepV {
                app: AppV { dialog: DialogV::Config, ..a },
                settings: s,
                action: ActionV::ShowConfig(vid),
            }
        } else {
            no_step(a, s)
        }
    } else if c == 't' {
        StepV {
            app: a,
            settings: SettingsV {
                filter: if s.filter == ListFilter::All {
                    ListFilter::Connected
                } else {
                    ListFilter::All
                },
                sel: Some(0usize),
                ..s
            },
            action: ActionV::Nothing,
        }
    } else if c == 'h' {
        StepV {
            app: AppV {
                dialog: if a.dialog is Help {
                    DialogV::Closed
                } else {
                    DialogV::Help
                },
                ..a
            },
            settings: s,
            action: ActionV::Nothing,
        }
    } else if c == 's' {
        if in_range {
            if s.api_keys.contains_key(vid) {
                StepV {
                    app: AppV { member_selected: Some(0usize), ..a },
                    settings: SettingsV { page: PageV::Network(vid), ..s },
                    action: ActionV::Nothing,
                }
            } else {
                StepV {
                    app: AppV {
                        dialog: DialogV::APIKey(vid),
                        editing_mode: EditingMode::Editing,
                        inputbuffer: Seq::empty(),
                        ..a
                    },
                    settings: s,
                    action: ActionV::Nothing,
                }
            }
        } else {
            no_step(a, s)
        }
    } else if c == 'f' {
        if in_range {
            StepV {
                app: AppV { dialog: DialogV::NetworkFlags(vid), ..a },
                settings: s,
                action: ActionV::Nothing,
            }
        } else {
            no_step(a, s)
        }
    } else if c == 'e' {
        if in_range && s.api_keys.contains_key(vid) {
            StepV { app: a, settings: s, action: ActionV::EditRules(vid) }
        } else {
            no_step(a, s)
        }
    } else {
        if in_range && s.networks.contains_key(vid) && s.networks[vid].assigned_addresses.len()
            > 0 && bind_lookup(s.user_config.network_commands, c) is Some {
            StepV {
                app: a,
                settings: s,
                action: ActionV::RunCommand(
                    subst(
                        bind_lookup(s.user_config.network_commands, c).unwrap(),
                        network_binds(s.networks[vid]),
                    ),
                ),
            }
        } else {
            no_step(a, s)
        }
    }
}

/// Member-table keystrokes on a network's member page.
pub open spec fn member_step(a: AppV, s: SettingsV, id: Seq<char>, key: Key) -> StepV {
    match key {
        Key::Up => match a.member_selected {
            Some(pos) => if pos > 0 {
                StepV {
                    app: AppV { member_selected: Some((pos - 1) as usize), ..a },
                    settings: s,
                    action: ActionV::Nothing,
                }
            } else {
                no_step(a, s)
            },
            None => no_step(a, s),
        },
        Key::Down => {
            let pos = a.msel_or0() as int + 1;
            if pos < a.member_count as int {
                StepV {
                    app: AppV { member_selected: Some(pos as usize), ..a },
                    settings: s,
                    action: ActionV::Nothing,
                }
            } else {
                no_step(a, s)
            }
        },
        Key::Esc => StepV {
            app: AppV { dialog: DialogV::Closed, editing_mode: EditingMode::Command, ..a },
            settings: s,
            action: ActionV::Nothing,
        },
        Key::Char(c) => member_char_step(a, s, id, c),
        _ => no_step(a, s),
    }
}

/// The single-character commands of the member page.
pub open spec fn member_char_step(a: AppV, s: SettingsV, id: Seq<char>, c: char) -> StepV {
    let known = s.members.contains_key(id);
    let roster = s.members[id];
    let sel = a.msel_or0() as int;
    let selected = a.member_selected is Some && known && sel < roster.len();
    if c == 'q' {
        StepV {
            app: AppV {
                member_selected: Some(0usize),
                dialog: DialogV::Closed,
                editing_mode: EditingMode::Command,
                ..a
            },
            settings: SettingsV { page: PageV::Networks, ..s },
            action: ActionV::Nothing,
        }
    } else if c == 'h' {
        StepV {
            app: AppV {
                dialog: if a.dialog is Help {
                    DialogV::Closed
                } else {
                    DialogV::Help
                },
                ..a
            },
            settings: s,
            action: ActionV::Nothing,
        }
    } else if c == 'r' {
        if selected {
            StepV {
                app: AppV {
                    dialog: DialogV::RenameMember(id, roster[sel].node_id),
                    editing_mode: EditingMode::Editing,
                    inputbuffer: roster[sel].name,
                    ..a
                },
                settings: s,
                action: ActionV::Nothing,
            }
        } else {
            no_step(a, s)
        }
    } else if c == 'A' {
        StepV {
            app: AppV {
                dialog: DialogV::AddMember(id),
                editing_mode: EditingMode::Editing,
                inputbuffer: Seq::empty(),
                ..a
            },
            settings: s,
            action: ActionV::Nothing,
        }
    } else if c == 'a' {
        if selected {
            StepV {
                app: a,
                settings: s,
                action: ActionV::AuthorizeMember(id, roster[sel].node_id),
            }
        } else {
            no_step(a, s)
        }
    } else if c == 'd' {
        if selected {
            StepV {
                app: a,
                settings: s,
                action: ActionV::DeauthorizeMember(id, roster[sel].node_id),
            }
        } else {
            no_step(a, s)
        }
    } else if c == 'D' {
        if selected {
            StepV {
                app: a,
                settings: s,
                action: ActionV::DeleteMember(id, roster[sel].node_id),
            }
        } else {
            no_step(a, s)
        }
    } else {
        if known && sel < roster.len() && roster[sel].ip_assignments.len() > 0 && bind_lookup(
            s.user_config.member_commands,
            c,
        ) is Some {
            StepV {
                app: a,
                settings: s,
                action: ActionV::RunCommand(
                    subst(
                        bind_lookup(s.user_config.member_commands, c).unwrap(),
                        member_binds(roster[sel]),
                    ),
                ),
            }
        } else {
            no_step(a, s)
        }
    }
}

/// The flags editor intercepts its own single-character bindings, one per
/// boolean flag, and closes on escape or `q`.
pub open spec fn flags_step(a: AppV, s: SettingsV, id: Seq<char>, key: Key) -> StepV {
    match key {
        Key::Char(c) => if c == 'n' {
            StepV { app: a, settings: s, action: ActionV::ToggleFlag(id, NetworkFlag::AllowDNS) }
        } else if c == 'd' {
            StepV {
                app: a,
                settings: s,
                action: ActionV::ToggleFlag(id, NetworkFlag::AllowDefault),
            }
        } else if c == 'g' {
            StepV {
                app: a,
                settings: s,
                action: ActionV::ToggleFlag(id, NetworkFlag::AllowGlobal),
            }
        } else if c == 'm' {
            StepV {
                app: a,
                settings: s,
                action: ActionV::ToggleFlag(id, NetworkFlag::AllowManaged),
            }
        } else if c == 'q' {
            StepV {
                app: AppV { dialog: DialogV::Closed, ..a },
                settings: s,
                action: ActionV::Nothing,
            }
        } else {
            no_step(a, s)
        },
        Key::Esc => StepV {
            app: AppV { dialog: DialogV::Closed, ..a },
            settings: s,
            action: ActionV::Nothing,
        },
        _ => no_step(a, s),
    }
}

/// Any other open dialog in command mode only reacts to escape, which
/// clears it.
pub open spec fn dialog_step(a: AppV, s: SettingsV, key: Key) -> StepV {
    match key {
        Key::Esc => StepV {
            app: AppV { dialog: DialogV::Closed, ..a },
            settings: s,
            action: ActionV::Nothing,
        },
        _ => no_step(a, s),
    }
}

/// Command-mode dispatch: the member page consumes the keystroke when it
/// is open; otherwise the flags editor, any other open dialog, or the
/// plain network list does.
pub open spec fn command_step(a: AppV, s: SettingsV, key: Key) -> StepV {
    match s.page {
        PageV::Network(id) => member_step(a, s, id, key),
        PageV::Networks => match a.dialog {
            DialogV::NetworkFlags(id) => flags_step(a, s, id, key),
            DialogV::Closed => list_step(a, s, key),
            _ => dialog_step(a, s, key),
        },
    }
}

/// Every keystroke is consumed by exactly one handler, chosen by the
/// editing mode, the page and the dialog.
pub open spec fn step(a: AppV, s: SettingsV, key: Key) -> StepV {
    match a.editing_mode {
        EditingMode::Command => command_step(a, s, key),
        EditingMode::Editing => edit_step(a, s, key),
    }
}

/// Relies on `String::push`: appends exactly the given character.
#[verifier::external_body]
fn push_char(s: &mut String, c: char)
    ensures
        final(s)@ == old(s)@.push(c),
{
    s.push(c);
}

/// Relies on `String::pop`: removes exactly the last character, and
/// leaves an empty string empty.
#[verifier::external_body]
fn pop_char(s: &mut String)
    ensures
        final(s)@ == if old(s)@.len() > 0 {
            old(s)@.drop_last()
        } else {
            old(s)@
        },
{
    let _ = s.pop();
}

impl Default for App {
    /// A fresh interaction state.
    fn default() -> (res: Self)
        ensures
            res@ == AppV::initial(),
    {
        let res = App {
            editing_mode: EditingMode::Command,
            dialog: Dialog::Closed,
            inputbuffer: String::new(),
            member_count: 0,
            member_selected: None,
        };
        proof {
            assert(res@ =~= AppV::initial());
        }
        res
    }
}

impl App {
    /// Records the member-table cardinality the renderer just produced,
    /// clamping the member cursor against it.
    pub fn set_member_count(&mut self, n: usize)
        ensures
            final(self)@ == (AppV {
                member_count: n,
                member_selected: clamp_msel(old(self)@.member_selected, n),
                ..old(self)@
            }),
            final(self)@.msel_ok(),
    {
        self.member_count = n;
        match self.member_selected {
            Some(i) => {
                if !(i == 0 || i < n) {
                    self.member_selected = Some(0);
                }
            },
            None => {},
        }
        proof {
            assert(self@ =~= (AppV {
                member_count: n,
                member_selected: clamp_msel(old(self)@.member_selected, n),
                ..old(self)@
            }));
        }
    }

    /// Acknowledges that the settings viewer has been shown: the dialog
    /// closes and the edit buffer is cleared.
    pub fn config_shown(&mut self)
        ensures
            final(self)@ == (AppV {
                dialog: DialogV::Closed,
                inputbuffer: Seq::empty(),
                ..old(self)@
            }),
    {
        self.dialog = Dialog::Closed;
        self.inputbuffer = String::new();
        proof {
            assert(self@ =~= (AppV {
                dialog: DialogV::Closed,
                inputbuffer: Seq::empty(),
                ..old(self)@
            }));
        }
    }

    /// Falls back to the credential prompt for the given network: the
    /// page returns to the network list and text entry begins.
    pub fn set_dialog_api_key(&mut self, settings: &mut Settings, id: String)
        ensures
            final(self)@ == (AppV {
                dialog: DialogV::APIKey(id@),
                editing_mode: EditingMode::Editing,
                inputbuffer: Seq::empty(),
                ..old(self)@
            }),
            final(settings)@ == (SettingsV { page: PageV::Networks, ..old(settings)@ }),
    {
        settings.page = Page::Networks;
        self.dialog = Dialog::APIKey(id);
        self.editing_mode = EditingMode::Editing;
        self.inputbuffer = String::new();
        proof {
            assert(self@ =~= (AppV {
                dialog: DialogV::APIKey(id@),
                editing_mode: EditingMode::Editing,
                inputbuffer: Seq::empty(),
                ..old(self)@
            }));
            assert(settings@ =~= (SettingsV { page: PageV::Networks, ..old(settings)@ }));
        }
    }

    /// Consumes a stored poll error while the member page is open: the
    /// error is returned for display as a toast, and the session falls
    /// back to the credential prompt for that network, on the heuristic
    /// that any roster-fetch failure means the credential is bad.
    pub fn error_fallback(&mut self, settings: &mut Settings) -> (r: Option<String>)
        requires
            old(settings)@.wf(),
        ensures
            match (old(settings)@.page, old(settings)@.last_error) {
                (PageV::Network(id), Some(err)) => {
                    &&& final(settings)@ == (SettingsV {
                        page: PageV::Networks,
                        last_error: None,
                        ..old(settings)@
                    })
                    &&& final(self)@ == (AppV {
                        dialog: DialogV::APIKey(id),
                        editing_mode: EditingMode::Editing,
                        inputbuffer: Seq::empty(),
                        ..old(self)@
                    })
                    &&& r.deep_view() == Some(err)
                },
                _ => {
                    &&& final(settings)@ == old(settings)@
                    &&& final(self)@ == old(self)@
                    &&& r is None
                },
            },
            final(settings)@.wf(),
    {
        let id = match &settings.page {
            Page::Network(id) => id.clone(),
            Page::Networks => {
                return None;
            },
        };
        let err = match &settings.last_error {
            Some(e) => e.clone(),
            None => {
                return None;
            },
        };
        settings.last_error = None;
        let ghost mid = settings@;
        self.set_dialog_api_key(settings, id);
        proof {
            assert(settings@ =~= (SettingsV {
                page: PageV::Networks,
                last_error: None,
                ..old(settings)@
            }));
        }
        Some(err)
    }

    /// One keystroke, dispatched as `step` states: to the text-entry
    /// handler in editing mode, else to the command-mode dispatch.
    pub fn handle_key(&mut self, settings: &mut Settings, key: Key) -> (r: Action)
        requires
            old(settings)@.wf(),
            old(settings)@.sel_ok(),
            app_ok(old(self)@, old(settings)@),
        ensures
            ({
                let st = step(old(self)@, old(settings)@, key);
                &&& final(self)@ == st.app
                &&& final(settings)@ == st.settings
                &&& r@ == st.action
            }),
            final(settings)@.wf(),
            final(settings)@.sel_ok(),
            app_ok(final(self)@, final(settings)@),
    {
        match self.editing_mode {
            EditingMode::Command => self.command_mode_key(settings, key),
            EditingMode::Editing => self.edit_mode_key(settings, key),
        }
    }

    /// Command-mode keystrokes, as `command_step` states.
    pub fn command_mode_key(&mut self, settings: &mut Settings, key: Key) -> (r: Action)
        requires
            old(settings)@.wf(),
            old(settings)@.sel_ok(),
            app_ok(old(self)@, old(settings)@),
        ensures
            ({
                let st = command_step(old(self)@, old(settings)@, key);
                &&& final(self)@ == st.app
                &&& final(settings)@ == st.settings
                &&& r@ == st.action
            }),
            final(settings)@.wf(),
            final(settings)@.sel_ok(),
            app_ok(final(self)@, final(settings)@),
    {
        let page_id = match &settings.page {
            Page::Networks => None,
            Page::Network(id) => Some(id.clone()),
        };
        match page_id {
            Some(id) => self.member_view_key(settings, id, key),
            None => {
                let flags_id = match &self.dialog {
                    Dialog::NetworkFlags(id) => Some(id.clone()),
                    _ => None,
                };
                match flags_id {
                    Some(id) => self.flags_dialog_key(settings, id, key),
                    None => {
                        if matches!(self.dialog, Dialog::Closed) {
                            self.network_list_key(settings, key)
                        } else {
                            self.open_dialog_key(settings, key)
                        }
                    },
                }
            },
        }
    }

    /// Network-list keystrokes, as `list_step` states.
    pub fn network_list_key(&mut self, settings: &mut Settings, key: Key) -> (r: Action)
        requires
            old(settings)@.wf(),
            old(settings)@.sel_ok(),
            app_ok(old(self)@, old(settings)@),
            old(settings)@.page == PageV::Networks,
            old(self)@.dialog == DialogV::Closed,
        ensures
            ({
                let st = list_step(old(self)@, old(settings)@, key);
                &&& final(self)@ == st.app
                &&& final(settings)@ == st.settings
                &&& r@ == st.action
            }),
            final(settings)@.wf(),
            final(settings)@.sel_ok(),
            app_ok(final(self)@, final(settings)@),
    {
        let ghost a0 = self@;
        let ghost s0 = settings@;
        match key {
            Key::Up => {
                let pos = match settings.network_selected {
                    Some(i) => i,
                    None => 0,
                };
                settings.network_selected = Some(if pos > 0 {
                    pos - 1
                } else {
                    0
                });
                proof {
                    crate::session::lemma_visible_same(s0, settings@);
                    assert(settings@ =~= list_step(a0, s0, key).settings);
                }
                Action::Nothing
            },
            Key::Down => {
                let pos = match settings.network_selected {
                    Some(i) => i,
                    None => 0,
                };
                let n = settings.count();
                if n > 0 && pos < n - 1 {
                    settings.network_selected = Some(pos + 1);
                    proof {
                        crate::session::lemma_visible_same(s0, settings@);
                        assert(settings@ =~= list_step(a0, s0, key).settings);
                    }
                }
                Action::Nothing
            },
            Key::Esc => {
                self.dialog = Dialog::Closed;
                self.editing_mode = EditingMode::Command;
                proof {
                    assert(self@ =~= list_step(a0, s0, key).app);
                }
                Action::Nothing
            },
            Key::Char(c) => self.network_list_char(settings, c),
            _ => Action::Nothing,
        }
    }

    /// The single-character commands of the network list page, as
    /// `list_char_step` states.
    fn network_list_char(&mut self, settings: &mut Settings, c: char) -> (r: Action)
        requires
            old(settings)@.wf(),
            old(settings)@.sel_ok(),
            app_ok(old(self)@, old(settings)@),
            old(settings)@.page == PageV::Networks,
            old(self)@.dialog == DialogV::Closed,
        ensures
            ({
                let st = list_char_step(old(self)@, old(settings)@, c);
                &&& final(self)@ == st.app
                &&& final(settings)@ == st.settings
                &&& r@ == st.action
            }),
            final(settings)@.wf(),
            final(settings)@.sel_ok(),
            app_ok(final(self)@, final(settings)@),
    {
        let ghost a0 = self@;
        let ghost s0 = settings@;
        if c == 'q' {
            return Action::Quit;
        }
        if c == 'J' {
            self.dialog = Dialog::Join;
            self.editing_mode = EditingMode::Editing;
            self.inputbuffer = String::new();
            proof {
                assert(self@ =~= list_char_step(a0, s0, c).app);
            }
            return Action::Nothing;
        }
        if c == 't' {
            let toggled = match settings.filter {
                ListFilter::All => ListFilter::Connected,
                ListFilter::Connected => ListFilter::All,
            };
            settings.filter = toggled;
            settings.network_selected = Some(0);
            proof {
                assert(settings@ =~= list_char_step(a0, s0, c).settings);
            }
            return Action::Nothing;
        }
        if c == 'h' {
            let is_help = matches!(self.dialog, Dialog::Help);
            self.dialog = if is_help {
                Dialog::Closed
            } else {
                Dialog::Help
            };
            proof {
                assert(self@ =~= list_char_step(a0, s0, c).app);
            }
            return Action::Nothing;
        }
        // the remaining commands act on the selected visible network
        let pos = match settings.network_selected {
            Some(i) => i,
            None => 0,
        };
        let visible = settings.visible_network_ids();
        if pos >= visible.len() {
            proof {
                assert(list_char_step(a0, s0, c) == no_step(a0, s0));
            }
            return Action::Nothing;
        }
        proof {
            assert(visible.deep_view()[pos as int] == s0.visible_ids()[pos as int]);
        }
        if c == 'd' {
            let vid = &visible[pos];
            proof {
                crate::session::lemma_visible_subset(s0, s0.idx.len() as int);
                assert(s0.idx.contains(vid@));
            }
            let ipos = settings.position_of_id(vid);
            proof {
                let w = pos_in_idx(s0.idx, vid@);
                assert(0 <= w < s0.idx.len() && s0.idx[w] == vid@);
                assert(w == ipos as int);
            }
            settings.remove_network(ipos);
            proof {
                crate::session::lemma_visible_same(
                    list_char_step(a0, s0, c).settings,
                    settings@,
                );
                assert(settings@ =~= list_char_step(a0, s0, c).settings);
            }
            return Action::Nothing;
        }
        if c == 'l' {
            let vid = visible[pos].clone();
            return Action::LeaveNetwork(vid);
        }
        if c == 'j' {
            let vid = visible[pos].clone();
            return Action::JoinNetwork(vid);
        }
        if c == 'c' {
            let vid = visible[pos].clone();
            self.dialog = Dialog::Config;
            proof {
                assert(self@ =~= list_char_step(a0, s0, c).app);
            }
            return Action::ShowConfig(vid);
        }
        if c == 's' {
            let vid = visible[pos].clone();
            if settings.api_keys.contains_key(vid.as_str()) {
                self.member_selected = Some(0);
                settings.page = Page::Network(vid);
                proof {
                    assert(self@ =~= list_char_step(a0, s0, c).app);
                    assert(settings@ =~= list_char_step(a0, s0, c).settings);
                    crate::session::lemma_visible_same(s0, settings@);
                }
            } else {
                self.dialog = Dialog::APIKey(vid);
                self.editing_mode = EditingMode::Editing;
                self.inputbuffer = String::new();
                proof {
                    assert(self@ =~= list_char_step(a0, s0, c).app);
                }
            }
            return Action::Nothing;
        }
        if c == 'f' {
            let vid = visible[pos].clone();
            self.dialog = Dialog::NetworkFlags(vid);
            proof {
                assert(self@ =~= list_char_step(a0, s0, c).app);
            }
            return Action::Nothing;
        }
        if c == 'e' {
            let vid = visible[pos].clone();
            if settings.api_keys.contains_key(vid.as_str()) {
                return Action::EditRules(vid);
            }
            return Action::Nothing;
        }
        // any unmapped character: look up the operator's command table
        let vid = &visible[pos];
        match settings.get(vid.as_str()) {
            Some(net) => {
                if net.assigned_addresses.len() > 0 {
                    match settings.user_config.command_for_network(c, net) {
                        Some(cmd) => Action::RunCommand(cmd),
                        None => Action::Nothing,
                    }
                } else {
                    Action::Nothing
                }
            },
            None => Action::Nothing,
        }
    }

    /// Member-page keystrokes, as `member_step` states.
    pub fn member_view_key(&mut self, settings: &mut Settings, id: String, key: Key) -> (r:
        Action)
        requires
            old(settings)@.wf(),
            old(settings)@.sel_ok(),
            app_ok(old(self)@, old(settings)@),
            old(settings)@.page == PageV::Network(id@),
        ensures
            ({
                let st = member_step(old(self)@, old(settings)@, id@, key);
                &&& final(self)@ == st.app
                &&& final(settings)@ == st.settings
                &&& r@ == st.action
            }),
            final(settings)@.wf(),
            final(settings)@.sel_ok(),
            app_ok(final(self)@, final(settings)@),
    {
        let ghost a0 = self@;
        let ghost s0 = settings@;
        match key {
            Key::Up => {
                match self.member_selected {
                    Some(pos) => {
                        if pos > 0 {
                            self.member_selected = Some(pos - 1);
                            proof {
                                assert(self@ =~= member_step(a0, s0, id@, key).app);
                            }
                        }
                    },
                    None => {},
                }
                Action::Nothing
            },
            Key::Down => {
                let pos = match self.member_selected {
                    Some(i) => i,
                    None => 0,
                };
                if self.member_count > 0 && pos < self.member_count - 1 {
                    self.member_selected = Some(pos + 1);
                    proof {
                        assert(self@ =~= member_step(a0, s0, id@, key).app);
                    }
                }
                Action::Nothing
            },
            Key::Esc => {
                self.dialog = Dialog::Closed;
                self.editing_mode = EditingMode::Command;
                proof {
                    assert(self@ =~= member_step(a0, s0, id@, key).app);
                }
                Action::Nothing
            },
            Key::Char(c) => self.member_view_char(settings, id, c),
            _ => Action::Nothing,
        }
    }

    /// The single-character commands of the member page, as
    /// `member_char_step` states.
    fn member_view_char(&mut self, settings: &mut Settings, id: String, c: char) -> (r: Action)
        requires
            old(settings)@.wf(),
            old(settings)@.sel_ok(),
            app_ok(old(self)@, old(settings)@),
            old(settings)@.page == PageV::Network(id@),
        ensures
            ({
                let st = member_char_step(old(self)@, old(settings)@, id@, c);
                &&& final(self)@ == st.app
                &&& final(settings)@ == st.settings
                &&& r@ == st.action
            }),
            final(settings)@.wf(),
            final(settings)@.sel_ok(),
            app_ok(final(self)@, final(settings)@),
    {
        let ghost a0 = self@;
        let ghost s0 = settings@;
        if c == 'q' {
            settings.page = Page::Networks;
            self.member_selected = Some(0);
            self.dialog = Dialog::Closed;
            self.editing_mode = EditingMode::Command;
            proof {
                assert(self@ =~= member_char_step(a0, s0, id@, c).app);
                assert(settings@ =~= member_char_step(a0, s0, id@, c).settings);
                crate::session::lemma_visible_same(s0, settings@);
            }
            return Action::Nothing;
        }
        if c == 'h' {
            let is_help = matches!(self.dialog, Dialog::Help);
            self.dialog = if is_help {
                Dialog::Closed
            } else {
                Dialog::Help
            };
            proof {
                assert(self@ =~= member_char_step(a0, s0, id@, c).app);
            }
            return Action::Nothing;
        }
        if c == 'A' {
            self.dialog = Dialog::AddMember(id);
            self.editing_mode = EditingMode::Editing;
            self.inputbuffer = String::new();
            proof {
                assert(self@ =~= member_char_step(a0, s0, id@, c).app);
            }
            return Action::Nothing;
        }
        if c == 'r' || c == 'a' || c == 'd' || c == 'D' {
            let selected = match self.member_selected {
                Some(_) => true,
                None => false,
            };
            if !selected {
                return Action::Nothing;
            }
            let sel = match self.member_selected {
                Some(i) => i,
                None => 0,
            };
            let (node, name) = match settings.members.get(id.as_str()) {
                Some(roster) => {
                    if sel < roster.len() {
                        (roster[sel].node_id.clone(), roster[sel].name.clone())
                    } else {
                        return Action::Nothing;
                    }
                },
                None => {
                    return Action::Nothing;
                },
            };
            if c == 'r' {
                self.dialog = Dialog::RenameMember(id, node);
                self.editing_mode = EditingMode::Editing;
                self.inputbuffer = name;
                proof {
                    assert(self@ =~= member_char_step(a0, s0, id@, c).app);
                }
                return Action::Nothing;
            }
            if c == 'a' {
                return Action::AuthorizeMember(id, node);
            }
            if c == 'd' {
                return Action::DeauthorizeMember(id, node);
            }
            return Action::DeleteMember(id, node);
        }
        // any unmapped character: look up the operator's command table
        let sel = match self.member_selected {
            Some(i) => i,
            None => 0,
        };
        match settings.members.get(id.as_str()) {
            Some(roster) => {
                if sel < roster.len() {
                    let member = &roster[sel];
                    if member.ip_assignments.len() > 0 {
                        match settings.user_config.command_for_member(c, member) {
                            Some(cmd) => Action::RunCommand(cmd),
                            None => Action::Nothing,
                        }
                    } else {
                        Action::Nothing
                    }
                } else {
                    Action::Nothing
                }
            },
            None => Action::Nothing,
        }
    }

    /// Flags-editor keystrokes, as `flags_step` states.
    pub fn flags_dialog_key(&mut self, settings: &mut Settings, id: String, key: Key) -> (r:
        Action)
        requires
            old(settings)@.wf(),
            old(settings)@.sel_ok(),
            app_ok(old(self)@, old(settings)@),
        ensures
            ({
                let st = flags_step(old(self)@, old(settings)@, id@, key);
                &&& final(self)@ == st.app
                &&& final(settings)@ == st.settings
                &&& r@ == st.action
            }),
            final(settings)@.wf(),
            final(settings)@.sel_ok(),
            app_ok(final(self)@, final(settings)@),
    {
        let ghost a0 = self@;
        match key {
            Key::Char(c) => {
                if c == 'n' {
                    Action::ToggleFlag(id, NetworkFlag::AllowDNS)
                } else if c == 'd' {
                    Action::ToggleFlag(id, NetworkFlag::AllowDefault)
                } else if c == 'g' {
                    Action::ToggleFlag(id, NetworkFlag::AllowGlobal)
                } else if c == 'm' {
                    Action::ToggleFlag(id, NetworkFlag::AllowManaged)
                } else if c == 'q' {
                    self.dialog = Dialog::Closed;
                    proof {
                        assert(self@ =~= flags_step(a0, old(settings)@, id@, key).app);
                    }
                    Action::Nothing
                } else {
                    Action::Nothing
                }
            },
            Key::Esc => {
                self.dialog = Dialog::Closed;
                proof {
                    assert(self@ =~= flags_step(a0, old(settings)@, id@, key).app);
                }
                Action::Nothing
            },
            _ => Action::Nothing,
        }
    }

    /// Keystrokes while any other dialog is open in command mode, as
    /// `dialog_step` states.
    pub fn open_dialog_key(&mut self, settings: &mut Settings, key: Key) -> (r: Action)
        requires
            old(settings)@.wf(),
            old(settings)@.sel_ok(),
            app_ok(old(self)@, old(settings)@),
        ensures
            ({
                let st = dialog_step(old(self)@, old(settings)@, key);
                &&& final(self)@ == st.app
                &&& final(settings)@ == st.settings
                &&& r@ == st.action
            }),
            final(settings)@.wf(),
            final(settings)@.sel_ok(),
            app_ok(final(self)@, final(settings)@),
    {
        let ghost a0 = self@;
        match key {
            Key::Esc => {
                self.dialog = Dialog::Closed;
                proof {
                    assert(self@ =~= dialog_step(a0, old(settings)@, key).app);
                }
                Action::Nothing
            },
            _ => Action::Nothing,
        }
    }

    /// Text-entry mode keystrokes, as `edit_step` states.
    pub fn edit_mode_key(&mut self, settings: &mut Settings, key: Key) -> (r: Action)
        requires
            old(settings)@.wf(),
            old(settings)@.sel_ok(),
            app_ok(old(self)@, old(settings)@),
        ensures
            ({
                let st = edit_step(old(self)@, old(settings)@, key);
                &&& final(self)@ == st.app
                &&& final(settings)@ == st.settings
                &&& r@ == st.action
            }),
            final(settings)@.wf(),
            final(settings)@.sel_ok(),
            app_ok(final(self)@, final(settings)@),
    {
        let ghost a0 = self@;
        let ghost s0 = settings@;
        match key {
            Key::Char(c) => {
                push_char(&mut self.inputbuffer, c);
                proof {
                    assert(self@ =~= edit_step(a0, s0, key).app);
                }
                Action::Nothing
            },
            Key::Backspace => {
                pop_char(&mut self.inputbuffer);
                proof {
                    assert(self@ =~= edit_step(a0, s0, key).app);
                }
                Action::Nothing
            },
            Key::Esc => {
                self.inputbuffer = String::new();
                self.dialog = Dialog::Closed;
                self.editing_mode = EditingMode::Command;
                proof {
                    assert(self@ =~= edit_step(a0, s0, key).app);
                }
                Action::Nothing
            },
            Key::Enter => {
                let r: Action = match &self.dialog {
                    Dialog::Join => Action::JoinNetwork(self.inputbuffer.clone()),
                    Dialog::APIKey(id) => {
                        let idc = id.clone();
                        settings.set_api_key_for_id(idc.clone(), self.inputbuffer.clone());
                        settings.page = Page::Network(idc);
                        proof {
                            assert(settings@ =~= edit_step(a0, s0, key).settings);
                        }
                        Action::Nothing
                    },
                    Dialog::AddMember(nid) => Action::AuthorizeMember(
                        nid.clone(),
                        self.inputbuffer.clone(),
                    ),
                    Dialog::RenameMember(nid, mid) => {
                        settings.page = Page::Network(nid.clone());
                        proof {
                            assert(settings@ =~= edit_step(a0, s0, key).settings);
                        }
                        Action::RenameMemberRemote(
                            nid.clone(),
                            mid.clone(),
                            self.inputbuffer.clone(),
                        )
                    },
                    _ => Action::Nothing,
                };
                self.inputbuffer = String::new();
                self.dialog = Dialog::Closed;
                self.editing_mode = EditingMode::Command;
                proof {
                    assert(self@ =~= edit_step(a0, s0, key).app);
                    crate::session::lemma_visible_same(s0, settings@);
                }
                r
            },
            _ => Action::Nothing,
        }
    }
}

/// Whether a keystroke is plain cursor movement.
pub open spec fn is_updown(key: Key) -> bool {
    key == Key::Up || key == Key::Down
}

/// The state after a sequence of keystrokes.
pub open spec fn run_keys(a: AppV, s: SettingsV, keys: Seq<Key>) -> (AppV, SettingsV)
    decreases keys.len(),
{
    if keys.len() == 0 {
        (a, s)
    } else {
        let st = step(a, s, keys[0]);
        run_keys(st.app, st.settings, keys.drop_first())
    }
}

/// One cursor keystroke keeps both cursors clamped, whatever handler
/// consumes it, and changes nothing but a cursor.
pub proof fn lemma_updown_step_preserves(a: AppV, s: SettingsV, key: Key)
    requires
        s.wf(),
        s.sel_ok(),
        app_ok(a, s),
        is_updown(key),
    ensures
        step(a, s, key).settings.wf(),
        step(a, s, key).settings.sel_ok(),
        app_ok(step(a, s, key).app, step(a, s, key).settings),
        step(a, s, key).settings.visible_n() == s.visible_n(),
        step(a, s, key).app.member_count == a.member_count,
{
    let st = step(a, s, key);
    match a.editing_mode {
        EditingMode::Editing => {
            assert(st == no_step(a, s));
        },
        EditingMode::Command => {
            match s.page {
                PageV::Network(id) => {
                    assert(st.settings == s);
                },
                PageV::Networks => {
                    match a.dialog {
                        DialogV::NetworkFlags(_) => {
                            assert(st == no_step(a, s));
                        },
                        DialogV::Closed => {
                            crate::session::lemma_visible_same(s, st.settings);
                        },
                        _ => {
                            assert(st == no_step(a, s));
                        },
                    }
                },
            }
        },
    }
}

/// Selection clamping: from any well-formed state, after any sequence of
/// cursor keystrokes, both selection cursors still lie inside their
/// lists — the network cursor within the visible cardinality, the member
/// cursor within the member table — with position 0 admissible even over
/// an empty list. No sequence of cursor keystrokes can move a cursor out
/// of range.
pub proof fn lemma_selection_clamped(a: AppV, s: SettingsV, keys: Seq<Key>)
    requires
        s.wf(),
        s.sel_ok(),
        app_ok(a, s),
        forall|i: int| 0 <= i < keys.len() ==> is_updown(#[trigger] keys[i]),
    ensures
        run_keys(a, s, keys).1.wf(),
        run_keys(a, s, keys).1.sel_ok(),
        run_keys(a, s, keys).0.msel_ok(),
    decreases keys.len(),
{
    if keys.len() > 0 {
        lemma_updown_step_preserves(a, s, keys[0]);
        let st = step(a, s, keys[0]);
        assert forall|i: int| 0 <= i < keys.drop_first().len() implies is_updown(
            #[trigger] keys.drop_first()[i],
        ) by {
            assert(keys.drop_first()[i] == keys[i + 1]);
        }
        lemma_selection_clamped(st.app, st.settings, keys.drop_first());
    }
}

/// Filter reset: toggling the connectivity filter resets the network
/// selection cursor to 0, regardless of its prior value.
pub proof fn lemma_filter_toggle_resets(a: AppV, s: SettingsV)
    ensures
        list_char_step(a, s, 't').settings.sel == Some(0usize),
        list_char_step(a, s, 't').settings.filter == (if s.filter == ListFilter::All {
            ListFilter::Connected
        } else {
            ListFilter::All
        }),
        list_char_step(a, s, 't').app == a,
        list_char_step(a, s, 't').action == ActionV::Nothing,
{
}

/// Credential gating, entry half: asking for a network's member page
/// without a stored credential opens the credential prompt instead, stays
/// on the network list, and issues no request; with a stored credential
/// it enters the member page, from which the refresher will poll the
/// roster with that credential.
pub proof fn lemma_credential_gating(a: AppV, s: SettingsV)
    requires
        (s.sel_or0() as int) < s.visible_n(),
    ensures
        ({
            let vid = s.visible_ids()[s.sel_or0() as int];
            let st = list_char_step(a, s, 's');
            &&& !s.api_keys.contains_key(vid) ==> {
                &&& st.settings == s
                &&& st.app.dialog == DialogV::APIKey(vid)
                &&& st.app.editing_mode == EditingMode::Editing
                &&& st.action == ActionV::Nothing
            }
            &&& s.api_keys.contains_key(vid) ==> {
                &&& st.settings.page == PageV::Network(vid)
                &&& st.app.member_selected == Some(0usize)
                &&& st.action == ActionV::Nothing
                &&& crate::refresh::refresh_decision_of(st.settings)
                    == crate::refresh::RefreshActionV::PollMembers(vid, s.api_keys[vid])
            }
        }),
{
}

/// Credential gating, commit half: entering a credential through text
/// entry stores it for the prompted network and moves to that network's
/// member page, from which the refresher will poll the roster with the
/// credential just entered.
pub proof fn lemma_credential_commit(a: AppV, s: SettingsV, id: Seq<char>)
    requires
        a.dialog == DialogV::APIKey(id),
    ensures
        ({
            let st = edit_step(a, s, Key::Enter);
            &&& st.settings.page == PageV::Network(id)
            &&& st.settings.api_keys.contains_key(id)
            &&& st.settings.api_keys[id] == a.inputbuffer
            &&& st.app.editing_mode == EditingMode::Command
            &&& st.app.dialog == DialogV::Closed
            &&& crate::refresh::refresh_decision_of(st.settings)
                == crate::refresh::RefreshActionV::PollMembers(id, a.inputbuffer)
        }),
{
}

} // verus!
