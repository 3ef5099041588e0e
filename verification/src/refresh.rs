//! The background-refresh protocol: on each period the refresher asks
//! which dataset the current view needs, performs the poll outside the
//! verified core, and hands the outcome back to a merge function that
//! updates the session store.

use vstd::prelude::*;
use crate::model::{Member, Network};
use crate::session::{
    clamp_sel, mark_absent, new_ids, upserted, Settings, SettingsV,
    lemma_index_consistent_insert, lemma_visible_same,
};
use crate::state::{Page, PageV};

verus! {

/// What the refresher should do on this period: poll the network list,
/// poll one network's member roster with the stored credential, or wait.
#[derive(Clone, Debug, PartialEq, Eq)]
pub enum RefreshAction {
    PollNetworks,
    PollMembers(String, String),
    Idle,
}

/// The mathematical value of a `RefreshAction`.
pub enum RefreshActionV {
    PollNetworks,
    PollMembers(Seq<char>, Seq<char>),
    Idle,
}

impl View for RefreshAction {
    type V = RefreshActionV;

    open spec fn view(&self) -> RefreshActionV {
        match self {
            RefreshAction::PollNetworks => RefreshActionV::PollNetworks,
            RefreshAction::PollMembers(id, key) => RefreshActionV::PollMembers(id@, key@),
            RefreshAction::Idle => RefreshActionV::Idle,
        }
    }
}

/// The dataset the current view needs: the network list on the list page;
/// a member roster on a member page, and only with a stored credential —
/// without one, no roster request is ever issued.
pub open spec fn refresh_decision_of(s: SettingsV) -> RefreshActionV {
    match s.page {
        PageV::Networks => RefreshActionV::PollNetworks,
        PageV::Network(id) => if s.api_keys.contains_key(id) {
            RefreshActionV::PollMembers(id, s.api_keys[id])
        } else {
            RefreshActionV::Idle
        },
    }
}

/// Decides what to poll for the current view, as `refresh_decision_of`
/// states.
pub fn refresh_decision(settings: &Settings) -> (r: RefreshAction)
    ensures
        r@ == refresh_decision_of(settings@),
{
    match &settings.page {
        Page::Networks => RefreshAction::PollNetworks,
        Page::Network(id) => match settings.api_keys.get(id.as_str()) {
            Some(key) => RefreshAction::PollMembers(id.clone(), key.clone()),
            None => RefreshAction::Idle,
        },
    }
}

/// Merges a successful network poll into the store, and resets the
/// selection cursor when the poll brought a network the store had not
/// seen before (the list the operator was looking at has changed shape).
pub fn merge_networks_poll(settings: &mut Settings, networks: Vec<Network>)
    requires
        old(settings)@.wf(),
    ensures
        final(settings)@ == (SettingsV {
            networks: mark_absent(
                upserted(old(settings)@.networks, networks.deep_view()),
                networks.deep_view(),
            ),
            idx: old(settings)@.idx + new_ids(
                old(settings)@.networks.dom(),
                networks.deep_view(),
            ),
            sel: if exists|j: int|
                0 <= j < networks.deep_view().len() && !old(settings)@.networks.contains_key(
                    #[trigger] networks.deep_view()[j].id,
                ) {
                None
            } else {
                clamp_sel(old(settings)@.sel, final(settings)@.visible_n())
            },
            ..old(settings)@
        }),
        final(settings)@.wf(),
        final(settings)@.sel_ok(),
{
    let is_new = settings.update_networks(networks);
    let ghost mid = settings@;
    if is_new {
        settings.network_selected = None;
        proof {
            lemma_visible_same(mid, settings@);
        }
    }
}

/// Merges one member-roster poll outcome into the store: on success the
/// roster for that network is replaced wholesale; on failure the prior
/// roster is left intact and the error is recorded for the render pass.
pub fn apply_members_poll(settings: &mut Settings, id: String, result: Result<Vec<Member>, String>)
    requires
        old(settings)@.wf(),
    ensures
        match result {
            Ok(roster) => final(settings)@ == (SettingsV {
                members: old(settings)@.members.insert(id@, roster.deep_view()),
                member_ids: if old(settings)@.members.contains_key(id@) {
                    old(settings)@.member_ids
                } else {
                    old(settings)@.member_ids.push(id@)
                },
                ..old(settings)@
            }),
            Err(e) => final(settings)@ == (SettingsV {
                last_error: Some(e@),
                ..old(settings)@
            }),
        },
        final(settings)@.wf(),
        final(settings)@.sel_ok() == old(settings)@.sel_ok(),
{
    let ghost pre = settings@;
    match result {
        Ok(roster) => {
            let ghost idv = id@;
            let ghost rv = roster.deep_view();
            if !settings.members.contains_key(id.as_str()) {
                settings.member_ids.push(id.clone());
            }
            settings.members.insert(id, roster);
            proof {
                assert(settings@.members =~= pre.members.insert(idv, rv));
                if pre.members.contains_key(idv) {
                    assert(settings@.member_ids =~= pre.member_ids);
                } else {
                    assert(settings@.member_ids =~= pre.member_ids.push(idv));
                }
                assert(settings@ =~= (SettingsV {
                    members: pre.members.insert(idv, rv),
                    member_ids: if pre.members.contains_key(idv) {
                        pre.member_ids
                    } else {
                        pre.member_ids.push(idv)
                    },
                    ..pre
                }));
                lemma_index_consistent_insert(pre.member_ids, pre.members.dom(), idv);
                lemma_visible_same(pre, settings@);
            }
        },
        Err(e) => {
            settings.last_error = Some(e);
            proof {
                assert(settings@ =~= (SettingsV { last_error: settings@.last_error, ..pre }));
                lemma_visible_same(pre, settings@);
            }
        },
    }
}

} // verus!
