//! The small enumerations of the interaction state machine: the current
//! page, the open dialog, the editing mode, the display filter, and the
//! events and actions that the key handlers consume and produce.

use vstd::prelude::*;

verus! {

/// Whether keystrokes are interpreted as commands or as text entry.
#[derive(Clone, Copy, Debug, PartialEq, Eq, Structural)]
pub enum EditingMode {
    Command,
    Editing,
}

/// The display filter over the network list. Toggling it resets the
/// selection cursor, because the visible cardinality can change.
#[derive(Clone, Copy, Debug, PartialEq, Eq, Structural)]
pub enum ListFilter {
    All,
    Connected,
}

/// Which screen the session is on.
#[derive(Clone, Debug, PartialEq, Eq)]
pub enum Page {
    Networks,
    Network(String),
}

impl Default for Page {
    /// A session starts on the network list.
    fn default() -> (r: Self)
        ensures
            r@ == PageV::Networks,
    {
        Page::Networks
    }
}

/// The mathematical value of a `Page`.
pub enum PageV {
    Networks,
    Network(Seq<char>),
}

impl View for Page {
    type V = PageV;

    open spec fn view(&self) -> PageV {
        match self {
            Page::Networks => PageV::Networks,
            Page::Network(id) => PageV::Network(id@),
        }
    }
}

/// The dialog currently overlaid on the page, if any.
#[derive(Clone, Debug, PartialEq, Eq)]
pub enum Dialog {
    Closed,
    Join,
    Config,
    Help,
    APIKey(String),
    RenameMember(String, String),
    AddMember(String),
    NetworkFlags(String),
}

/// The mathematical value of a `Dialog`.
pub enum DialogV {
    Closed,
    Join,
    Config,
    Help,
    APIKey(Seq<char>),
    RenameMember(Seq<char>, Seq<char>),
    AddMember(Seq<char>),
    NetworkFlags(Seq<char>),
}

impl View for Dialog {
    type V = DialogV;

    open spec fn view(&self) -> DialogV {
        match self {
            Dialog::Closed => DialogV::Closed,
            Dialog::Join => DialogV::Join,
            Dialog::Config => DialogV::Config,
            Dialog::Help => DialogV::Help,
            Dialog::APIKey(id) => DialogV::APIKey(id@),
            Dialog::RenameMember(net, node) => DialogV::RenameMember(net@, node@),
            Dialog::AddMember(net) => DialogV::AddMember(net@),
            Dialog::NetworkFlags(net) => DialogV::NetworkFlags(net@),
        }
    }
}

/// A keystroke, reduced to the cases the state machine distinguishes.
#[derive(Clone, Copy, Debug, PartialEq, Eq, Structural)]
pub enum Key {
    Up,
    Down,
    Esc,
    Enter,
    Backspace,
    Char(char),
    Other,
}

/// What the caller of a key handler must carry out. Every remote request
/// and every delegated command leaves the verified core through one of
/// these; the handlers themselves never perform I/O.
#[derive(Clone, Debug, PartialEq, Eq)]
pub enum Action {
    Nothing,
    Quit,
    JoinNetwork(String),
    LeaveNetwork(String),
    AuthorizeMember(String, String),
    DeauthorizeMember(String, String),
    DeleteMember(String, String),
    RenameMemberRemote(String, String, String),
    ToggleFlag(String, crate::model::NetworkFlag),
    ShowConfig(String),
    EditRules(String),
    RunCommand(String),
}

/// The mathematical value of an `Action`.
pub enum ActionV {
    Nothing,
    Quit,
    JoinNetwork(Seq<char>),
    LeaveNetwork(Seq<char>),
    AuthorizeMember(Seq<char>, Seq<char>),
    DeauthorizeMember(Seq<char>, Seq<char>),
    DeleteMember(Seq<char>, Seq<char>),
    RenameMemberRemote(Seq<char>, Seq<char>, Seq<char>),
    ToggleFlag(Seq<char>, crate::model::NetworkFlag),
    ShowConfig(Seq<char>),
    EditRules(Seq<char>),
    RunCommand(Seq<char>),
}

impl View for Action {
    type V = ActionV;

    open spec fn view(&self) -> ActionV {
        match self {
            Action::Nothing => ActionV::Nothing,
            Action::Quit => ActionV::Quit,
            Action::JoinNetwork(id) => ActionV::JoinNetwork(id@),
            Action::LeaveNetwork(id) => ActionV::LeaveNetwork(id@),
            Action::AuthorizeMember(net, node) => ActionV::AuthorizeMember(net@, node@),
            Action::DeauthorizeMember(net, node) => ActionV::DeauthorizeMember(net@, node@),
            Action::DeleteMember(net, node) => ActionV::DeleteMember(net@, node@),
            Action::RenameMemberRemote(net, node, name) => ActionV::RenameMemberRemote(
                net@,
                node@,
                name@,
            ),
            Action::ToggleFlag(net, flag) => ActionV::ToggleFlag(net@, *flag),
            Action::ShowConfig(id) => ActionV::ShowConfig(id@),
            Action::EditRules(id) => ActionV::EditRules(id@),
            Action::RunCommand(cmd) => ActionV::RunCommand(cmd@),
        }
    }
}

} // verus!
