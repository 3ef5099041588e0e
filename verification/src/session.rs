//! The shared session store: bookmarked networks with their stable display
//! order, per-network credentials, per-network member rosters, the display
//! filter, the current page and the network-list selection cursor.
//!
//! The store keeps one ordering list per map; the list always holds exactly
//! the keys of its map, each once, so that positional lookups from the
//! rendered tables can never go out of bounds.

use vstd::prelude::*;
use vstd::hash_map::StringHashMap;
use crate::model::{with_status, Member, MemberV, Network, NetworkStatus, NetworkV};
use crate::state::{ListFilter, Page, PageV};
use crate::template::{UserConfig, UserConfigV};

verus! {

/// An ordering list holds exactly the keys of its map, each once.
pub open spec fn index_consistent(ids: Seq<Seq<char>>, dom: Set<Seq<char>>) -> bool {
    &&& ids.no_duplicates()
    &&& forall|i: int| 0 <= i < ids.len() ==> dom.contains(#[trigger] ids[i])
    &&& forall|k: Seq<char>| #[trigger] dom.contains(k) ==> ids.contains(k)
}

/// The mathematical value of the session store.
#[verifier::ext_equal]
pub struct SettingsV {
    pub api_keys: Map<Seq<char>, Seq<char>>,
    pub api_key_ids: Seq<Seq<char>>,
    pub networks: Map<Seq<char>, NetworkV>,
    pub idx: Seq<Seq<char>>,
    pub members: Map<Seq<char>, Seq<MemberV>>,
    pub member_ids: Seq<Seq<char>>,
    pub filter: ListFilter,
    pub last_error: Option<Seq<char>>,
    pub page: PageV,
    pub sel: Option<usize>,
    pub user_config: UserConfigV,
}

impl SettingsV {
    /// The store as a fresh session starts: empty, unfiltered, on the
    /// network list, nothing selected.
    pub open spec fn initial() -> SettingsV {
        SettingsV {
            api_keys: Map::empty(),
            api_key_ids: Seq::empty(),
            networks: Map::empty(),
            idx: Seq::empty(),
            members: Map::empty(),
            member_ids: Seq::empty(),
            filter: ListFilter::All,
            last_error: None,
            page: PageV::Networks,
            sel: None,
            user_config: UserConfigV {
                network_commands: Seq::empty(),
                member_commands: Seq::empty(),
            },
        }
    }

    /// Every ordering list matches its map, every network record is keyed
    /// by its own identifier, and the member page is only ever open for a
    /// network with a stored credential.
    pub open spec fn wf(self) -> bool {
        &&& index_consistent(self.idx, self.networks.dom())
        &&& forall|k: Seq<char>|
            #[trigger] self.networks.contains_key(k) ==> self.networks[k].id == k
        &&& index_consistent(self.api_key_ids, self.api_keys.dom())
        &&& index_consistent(self.member_ids, self.members.dom())
        &&& match self.page {
            PageV::Network(id) => self.api_keys.contains_key(id),
            PageV::Networks => true,
        }
    }

    /// Whether the network under key `k` passes the display filter.
    pub open spec fn visible_key(self, k: Seq<char>) -> bool {
        self.filter == ListFilter::All || (self.networks.contains_key(k)
            && self.networks[k].status != NetworkStatus::Disconnected)
    }

    /// The keys of the first `i` ordering entries that pass the filter,
    /// in display order.
    pub open spec fn visible_prefix(self, i: int) -> Seq<Seq<char>>
        decreases i,
    {
        if i <= 0 {
            Seq::empty()
        } else {
            let rest = self.visible_prefix(i - 1);
            if self.visible_key(self.idx[i - 1]) {
                rest.push(self.idx[i - 1])
            } else {
                rest
            }
        }
    }

    /// The keys of the networks the list page currently shows, in order.
    pub open spec fn visible_ids(self) -> Seq<Seq<char>> {
        self.visible_prefix(self.idx.len() as int)
    }

    /// The cardinality the selection cursor is clamped against.
    pub open spec fn visible_n(self) -> nat {
        self.visible_ids().len()
    }

    /// The effective selection: an unset cursor acts as position 0.
    pub open spec fn sel_or0(self) -> usize {
        match self.sel {
            None => 0,
            Some(i) => i,
        }
    }

    /// The cursor never points past the visible list (position 0 is always
    /// admissible, even over an empty list).
    pub open spec fn sel_ok(self) -> bool {
        match self.sel {
            None => true,
            Some(i) => i == 0 || (i as nat) < self.visible_n(),
        }
    }
}

/// A cursor kept where it still points inside the list, and reset to the
/// top where the list shrank under it.
pub open spec fn clamp_sel(sel: Option<usize>, n: nat) -> Option<usize> {
    match sel {
        None => None,
        Some(i) => if i == 0 || (i as nat) < n {
            Some(i)
        } else {
            Some(0)
        },
    }
}

/// The shared session store.
pub struct Settings {
    pub api_keys: StringHashMap<String>,
    pub api_key_ids: Vec<String>,
    pub savednetworks: StringHashMap<Network>,
    pub savednetworksidx: Vec<String>,
    pub members: StringHashMap<Vec<Member>>,
    pub member_ids: Vec<String>,
    pub filter: ListFilter,
    pub last_error: Option<String>,
    pub page: Page,
    pub network_selected: Option<usize>,
    pub user_config: UserConfig,
}

impl View for Settings {
    type V = SettingsV;

    open spec fn view(&self) -> SettingsV {
        SettingsV {
            api_keys: self.api_keys@.map_values(|v: String| v@),
            api_key_ids: self.api_key_ids.deep_view(),
            networks: self.savednetworks@.map_values(|n: Network| n@),
            idx: self.savednetworksidx.deep_view(),
            members: self.members@.map_values(|v: Vec<Member>| v.deep_view()),
            member_ids: self.member_ids.deep_view(),
            filter: self.filter,
            last_error: self.last_error.deep_view(),
            page: self.page@,
            sel: self.network_selected,
            user_config: self.user_config@,
        }
    }
}

impl Default for Settings {
    /// A fresh, empty session store.
    fn default() -> (res: Self)
        ensures
            res@ == SettingsV::initial(),
            res@.wf(),
            res@.sel_ok(),
    {
        let res = Settings {
            api_keys: StringHashMap::new(),
            api_key_ids: Vec::new(),
            savednetworks: StringHashMap::new(),
            savednetworksidx: Vec::new(),
            members: StringHashMap::new(),
            member_ids: Vec::new(),
            filter: ListFilter::All,
            last_error: None,
            page: Page::Networks,
            network_selected: None,
            user_config: UserConfig::default(),
        };
        proof {
            assert(res@.api_keys =~= Map::<Seq<char>, Seq<char>>::empty());
            assert(res@.networks =~= Map::<Seq<char>, NetworkV>::empty());
            assert(res@.members =~= Map::<Seq<char>, Seq<MemberV>>::empty());
            assert(res@.api_key_ids =~= Seq::<Seq<char>>::empty());
            assert(res@.idx =~= Seq::<Seq<char>>::empty());
            assert(res@.member_ids =~= Seq::<Seq<char>>::empty());
            assert(res@ =~= SettingsV::initial());
        }
        res
    }
}

impl Settings {
    /// The current display filter.
    pub fn filter(&self) -> (r: ListFilter)
        ensures
            r == self@.filter,
    {
        self.filter
    }

    /// Replaces the display filter; the caller is responsible for resetting
    /// the selection cursor afterwards.
    pub fn set_filter(&mut self, filter: ListFilter)
        ensures
            final(self)@ == (SettingsV { filter, ..old(self)@ }),
    {
        self.filter = filter;
    }

    /// The stored credential for the given network, if any.
    pub fn api_key_for_id(&self, id: String) -> (r: Option<&String>)
        ensures
            match r {
                Some(k) => self@.api_keys.contains_key(id@) && k@ == self@.api_keys[id@],
                None => !self@.api_keys.contains_key(id@),
            },
    {
        self.api_keys.get(id.as_str())
    }

    /// Stores (or replaces) the credential for the given network.
    pub fn set_api_key_for_id(&mut self, id: String, api_key: String)
        requires
            old(self)@.wf(),
        ensures
            final(self)@ == (SettingsV {
                api_keys: old(self)@.api_keys.insert(id@, api_key@),
                api_key_ids: if old(self)@.api_keys.contains_key(id@) {
                    old(self)@.api_key_ids
                } else {
                    old(self)@.api_key_ids.push(id@)
                },
                ..old(self)@
            }),
            final(self)@.wf(),
            final(self)@.visible_n() == old(self)@.visible_n(),
    {
        let ghost pre = self@;
        if !self.api_keys.contains_key(id.as_str()) {
            self.api_key_ids.push(id.clone());
        }
        self.api_keys.insert(id, api_key);
        proof {
            assert(self@.api_keys =~= pre.api_keys.insert(id@, api_key@));
            if !pre.api_keys.contains_key(id@) {
                assert(self@.api_key_ids =~= pre.api_key_ids.push(id@));
            } else {
                assert(self@.api_key_ids =~= pre.api_key_ids);
            }
            assert(self@ =~= (SettingsV {
                api_keys: pre.api_keys.insert(id@, api_key@),
                api_key_ids: if pre.api_keys.contains_key(id@) {
                    pre.api_key_ids
                } else {
                    pre.api_key_ids.push(id@)
                },
                ..pre
            }));
            lemma_index_consistent_insert(pre.api_key_ids, pre.api_keys.dom(), id@);
            lemma_visible_same(pre, self@);
        }
    }

    /// The operator's command tables.
    pub fn user_config(&self) -> (r: &UserConfig)
        ensures
            r@ == self@.user_config,
    {
        &self.user_config
    }

    /// The keys of the ordering list, in display order, unfiltered.
    pub fn network_ids(&self) -> (r: Vec<String>)
        ensures
            r.deep_view() == self@.idx,
    {
        let mut r: Vec<String> = Vec::new();
        let mut i: usize = 0;
        while i < self.savednetworksidx.len()
            invariant
                i <= self@.idx.len(),
                r.deep_view() =~= self@.idx.take(i as int),
            decreases self@.idx.len() - i,
        {
            let ghost pre = r.deep_view();
            r.push(self.savednetworksidx[i].clone());
            proof {
                assert(r.deep_view() =~= pre.push(self@.idx[i as int]));
            }
            i = i + 1;
        }
        proof {
            assert(r.deep_view() =~= self@.idx);
        }
        r
    }

    /// The bookmarked network under the given key, if any.
    pub fn get(&self, id: &str) -> (r: Option<&Network>)
        ensures
            match r {
                Some(n) => self@.networks.contains_key(id@) && n@ == self@.networks[id@],
                None => !self@.networks.contains_key(id@),
            },
    {
        self.savednetworks.get(id)
    }

    /// The key at the given position of the ordering list.
    pub fn get_network_id_by_pos(&self, pos: usize) -> (r: String)
        requires
            pos < self@.idx.len(),
        ensures
            r@ == self@.idx[pos as int],
    {
        self.savednetworksidx[pos].clone()
    }

    /// The network record at the given position of the ordering list.
    /// Under the store invariant the record is always found.
    pub fn get_network_by_pos(&self, pos: usize) -> (r: Option<&Network>)
        requires
            self@.wf(),
            pos < self@.idx.len(),
        ensures
            match r {
                Some(n) => n@ == self@.networks[self@.idx[pos as int]],
                None => false,
            },
    {
        let id = &self.savednetworksidx[pos];
        let r = self.savednetworks.get(id.as_str());
        proof {
            assert(self@.networks.contains_key(self@.idx[pos as int]));
        }
        r
    }

    /// The number of networks the list page currently shows.
    pub fn count(&self) -> (r: usize)
        requires
            self@.wf(),
        ensures
            r as nat == self@.visible_n(),
    {
        let ghost sv = self@;
        let mut c: usize = 0;
        let mut i: usize = 0;
        while i < self.savednetworksidx.len()
            invariant
                self@ == sv,
                sv.wf(),
                i <= sv.idx.len(),
                c <= i,
                c as nat == sv.visible_prefix(i as int).len(),
            decreases sv.idx.len() - i,
        {
            let id = &self.savednetworksidx[i];
            let visible = match self.filter {
                ListFilter::All => true,
                ListFilter::Connected => {
                    match self.savednetworks.get(id.as_str()) {
                        Some(n) => !matches!(n.status, NetworkStatus::Disconnected),
                        None => false,
                    }
                },
            };
            proof {
                assert(sv.idx[i as int] == id@);
                assert(visible == sv.visible_key(sv.idx[i as int]));
            }
            if visible {
                c = c + 1;
            }
            i = i + 1;
        }
        c
    }

    /// The keys of the networks the list page currently shows, in order.
    pub fn visible_network_ids(&self) -> (r: Vec<String>)
        requires
            self@.wf(),
        ensures
            r.deep_view() == self@.visible_ids(),
    {
        let ghost sv = self@;
        let mut r: Vec<String> = Vec::new();
        let mut i: usize = 0;
        while i < self.savednetworksidx.len()
            invariant
                self@ == sv,
                sv.wf(),
                i <= sv.idx.len(),
                r.deep_view() =~= sv.visible_prefix(i as int),
            decreases sv.idx.len() - i,
        {
            let id = &self.savednetworksidx[i];
            let visible = match self.filter {
                ListFilter::All => true,
                ListFilter::Connected => {
                    match self.savednetworks.get(id.as_str()) {
                        Some(n) => !matches!(n.status, NetworkStatus::Disconnected),
                        None => false,
                    }
                },
            };
            proof {
                assert(sv.idx[i as int] == id@);
                assert(visible == sv.visible_key(sv.idx[i as int]));
            }
            if visible {
                let ghost pre = r.deep_view();
                r.push(id.clone());
                proof {
                    assert(r.deep_view() =~= pre.push(id@));
                }
            }
            i = i + 1;
        }
        r
    }

    /// The position of the given key in the ordering list.
    pub fn position_of_id(&self, id: &String) -> (r: usize)
        requires
            self@.idx.contains(id@),
        ensures
            r < self@.idx.len(),
            self@.idx[r as int] == id@,
    {
        let mut i: usize = 0;
        while i < self.savednetworksidx.len()
            invariant
                i <= self@.idx.len(),
                self@.idx.contains(id@),
                forall|j: int| 0 <= j < i ==> self@.idx[j] != id@,
            decreases self@.idx.len() - i,
        {
            if self.savednetworksidx[i].eq(id) {
                return i;
            }
            i = i + 1;
        }
        proof {
            let w = choose|w: int| 0 <= w < self@.idx.len() && self@.idx[w] == id@;
            assert(false);
        }
        0
    }

    /// Clamps the selection cursor against the current visible cardinality.
    pub fn clamp_selection(&mut self)
        requires
            old(self)@.wf(),
        ensures
            final(self)@ == (SettingsV {
                sel: clamp_sel(old(self)@.sel, old(self)@.visible_n()),
                ..old(self)@
            }),
            final(self)@.sel_ok(),
            final(self)@.wf(),
    {
        let n = self.count();
        match self.network_selected {
            Some(i) => {
                if !(i == 0 || i < n) {
                    self.network_selected = Some(0);
                }
            },
            None => {},
        }
        proof {
            lemma_visible_same(old(self)@, self@);
            assert(self@ =~= (SettingsV {
                sel: clamp_sel(old(self)@.sel, old(self)@.visible_n()),
                ..old(self)@
            }));
        }
    }

    /// Removes the bookmark at the given position of the ordering list:
    /// the key leaves the ordering list and the record leaves the map
    /// together, and the cursor is clamped to the shrunken list.
    pub fn remove_network(&mut self, pos: usize)
        requires
            old(self)@.wf(),
            pos < old(self)@.idx.len(),
        ensures
            final(self)@ == (SettingsV {
                networks: old(self)@.networks.remove(old(self)@.idx[pos as int]),
                idx: old(self)@.idx.remove(pos as int),
                sel: final(self)@.sel,
                ..old(self)@
            }),
            final(self)@.sel == clamp_sel(old(self)@.sel, final(self)@.visible_n()),
            final(self)@.wf(),
            final(self)@.sel_ok(),
    {
        let ghost pre = self@;
        let id = self.savednetworksidx.remove(pos);
        self.savednetworks.remove(id.as_str());
        proof {
            assert(self@.idx =~= pre.idx.remove(pos as int));
            assert(self@.networks =~= pre.networks.remove(pre.idx[pos as int]));
            assert(self@ =~= (SettingsV {
                networks: pre.networks.remove(pre.idx[pos as int]),
                idx: pre.idx.remove(pos as int),
                sel: self@.sel,
                ..pre
            }));
            lemma_index_consistent_remove(pre.idx, pre.networks.dom(), pos as int);
        }
        let ghost mid = self@;
        self.clamp_selection();
        proof {
            lemma_visible_same(mid, self@);
        }
    }
}

/// The position of a key in an ordering list; meaningful when the key
/// occurs, unique when the list has no duplicates.
pub open spec fn pos_in_idx(ids: Seq<Seq<char>>, k: Seq<char>) -> int {
    choose|i: int| 0 <= i < ids.len() && #[trigger] ids[i] == k
}

/// Every key the visible list shows is a key of the ordering list, and
/// the visible list is never longer than the ordering prefix it came from.
pub proof fn lemma_visible_subset(s: SettingsV, i: int)
    requires
        i <= s.idx.len(),
    ensures
        forall|p: int|
            0 <= p < s.visible_prefix(i).len() ==> s.idx.contains(
                #[trigger] s.visible_prefix(i)[p],
            ),
        s.visible_prefix(i).len() <= if i < 0 {
            0
        } else {
            i
        },
    decreases i,
{
    if i > 0 {
        lemma_visible_subset(s, i - 1);
        if s.visible_key(s.idx[i - 1]) {
            assert(s.idx.contains(s.idx[i - 1]));
        }
    }
}

/// Whether some record in the poll result carries the given identifier.
pub open spec fn has_id(s: Seq<NetworkV>, k: Seq<char>) -> bool {
    exists|j: int| 0 <= j < s.len() && s[j].id == k
}

/// The map after upserting every polled record, in order, under its own
/// identifier; on duplicate identifiers the later record wins.
pub open spec fn upserted(m: Map<Seq<char>, NetworkV>, s: Seq<NetworkV>) -> Map<Seq<char>, NetworkV>
    decreases s.len(),
{
    if s.len() == 0 {
        m
    } else {
        upserted(m, s.drop_last()).insert(s.last().id, s.last())
    }
}

/// The record with its connectivity forced to `Disconnected`.
pub open spec fn disconnected_of(n: NetworkV) -> NetworkV {
    NetworkV { status: NetworkStatus::Disconnected, ..n }
}

/// The map with every record whose identifier the poll did not report
/// marked `Disconnected`; no record is removed.
pub open spec fn mark_absent(m: Map<Seq<char>, NetworkV>, s: Seq<NetworkV>) -> Map<
    Seq<char>,
    NetworkV,
> {
    Map::new(
        |k: Seq<char>| m.contains_key(k),
        |k: Seq<char>| if has_id(s, k) {
            m[k]
        } else {
            disconnected_of(m[k])
        },
    )
}

/// As `mark_absent`, but with only the keys listed in `done` marked so far.
pub open spec fn mark_prefix(
    m: Map<Seq<char>, NetworkV>,
    s: Seq<NetworkV>,
    done: Seq<Seq<char>>,
) -> Map<Seq<char>, NetworkV> {
    Map::new(
        |k: Seq<char>| m.contains_key(k),
        |k: Seq<char>| if done.contains(k) && !has_id(s, k) {
            disconnected_of(m[k])
        } else {
            m[k]
        },
    )
}

/// The identifiers the poll reports that the map does not know yet, in
/// order of first occurrence; these are appended to the ordering list.
pub open spec fn new_ids(dom: Set<Seq<char>>, s: Seq<NetworkV>) -> Seq<Seq<char>>
    decreases s.len(),
{
    if s.len() == 0 {
        Seq::empty()
    } else if dom.contains(s[0].id) {
        new_ids(dom, s.drop_first())
    } else {
        seq![s[0].id] + new_ids(dom.insert(s[0].id), s.drop_first())
    }
}

/// Upserting affects exactly the polled identifiers: every other key keeps
/// its presence and its record.
pub proof fn lemma_upserted_absent(m: Map<Seq<char>, NetworkV>, s: Seq<NetworkV>, k: Seq<char>)
    requires
        !has_id(s, k),
    ensures
        upserted(m, s).contains_key(k) == m.contains_key(k),
        m.contains_key(k) ==> upserted(m, s)[k] == m[k],
    decreases s.len(),
{
    if s.len() > 0 {
        assert(s[s.len() - 1].id != k);
        assert(!has_id(s.drop_last(), k)) by {
            if has_id(s.drop_last(), k) {
                let j = choose|j: int|
                    0 <= j < s.drop_last().len() && s.drop_last()[j].id == k;
                assert(s[j].id == k);
            }
        }
        lemma_upserted_absent(m, s.drop_last(), k);
    }
}

/// A key is in the upserted map exactly when the map knew it or the poll
/// reported it.
pub proof fn lemma_upserted_dom(m: Map<Seq<char>, NetworkV>, s: Seq<NetworkV>, k: Seq<char>)
    ensures
        upserted(m, s).contains_key(k) <==> (m.contains_key(k) || has_id(s, k)),
    decreases s.len(),
{
    if s.len() > 0 {
        lemma_upserted_dom(m, s.drop_last(), k);
        if s[s.len() - 1].id == k {
            assert(has_id(s, k));
        } else {
            assert(has_id(s.drop_last(), k) <==> has_id(s, k)) by {
                if has_id(s, k) {
                    let j = choose|j: int| 0 <= j < s.len() && s[j].id == k;
                    assert(s.drop_last()[j].id == k);
                }
                if has_id(s.drop_last(), k) {
                    let j = choose|j: int|
                        0 <= j < s.drop_last().len() && s.drop_last()[j].id == k;
                    assert(s[j].id == k);
                }
            }
        }
    }
}

impl Settings {
    /// Merges one poll of the local daemon into the store: every reported
    /// record is upserted under its identifier (new identifiers are
    /// appended to the ordering list), every bookmark the poll did not
    /// report is marked `Disconnected` but kept, and the cursor is clamped
    /// to the new visible cardinality. Returns whether the poll reported a
    /// network the store had not seen before.
    pub fn update_networks(&mut self, networks: Vec<Network>) -> (r: bool)
        requires
            old(self)@.wf(),
        ensures
            final(self)@ == (SettingsV {
                networks: mark_absent(
                    upserted(old(self)@.networks, networks.deep_view()),
                    networks.deep_view(),
                ),
                idx: old(self)@.idx + new_ids(old(self)@.networks.dom(), networks.deep_view()),
                sel: final(self)@.sel,
                ..old(self)@
            }),
            final(self)@.sel == clamp_sel(old(self)@.sel, final(self)@.visible_n()),
            final(self)@.wf(),
            final(self)@.sel_ok(),
            r == exists|j: int|
                0 <= j < networks.deep_view().len() && !old(self)@.networks.contains_key(
                    #[trigger] networks.deep_view()[j].id,
                ),
            forall|k: Seq<char>|
                old(self)@.networks.contains_key(k) && !has_id(networks.deep_view(), k)
                    ==> #[trigger] final(self)@.networks[k] == disconnected_of(
                    old(self)@.networks[k],
                ) && final(self)@.networks.contains_key(k) && final(self)@.idx.contains(k),
    {
        let ghost poll = networks.deep_view();
        let ghost m0 = self@.networks;
        let ghost dom0 = m0.dom();
        let ghost idx0 = self@.idx;
        let ghost pre = self@;

        let mut new_any = false;
        let mut j: usize = 0;
        proof {
            assert(poll.take(0) =~= Seq::<NetworkV>::empty());
            assert(poll.skip(0) =~= poll);
        }
        while j < networks.len()
            invariant
                pre.wf(),
                j <= networks@.len(),
                poll == networks.deep_view(),
                poll.len() == networks@.len(),
                m0 == pre.networks,
                dom0 == m0.dom(),
                idx0 == pre.idx,
                self@.wf(),
                self@.networks == upserted(m0, poll.take(j as int)),
                idx0 + new_ids(dom0, poll) == self@.idx + new_ids(
                    self@.networks.dom(),
                    poll.skip(j as int),
                ),
                new_any == exists|j2: int|
                    0 <= j2 < j && !dom0.contains(#[trigger] poll[j2].id),
                self@ == (SettingsV { networks: self@.networks, idx: self@.idx, ..pre }),
            decreases networks@.len() - j,
        {
            let ghost prev = self@;
            let ghost kid = poll[j as int].id;
            let ghost rest = poll.skip(j as int);
            proof {
                assert(rest[0] == poll[j as int]);
                assert(rest.drop_first() =~= poll.skip(j as int + 1));
                assert(poll.take(j as int + 1).drop_last() =~= poll.take(j as int));
                assert(poll.take(j as int + 1).last() == poll[j as int]);
                lemma_upserted_dom(m0, poll.take(j as int), kid);
            }
            let net = networks[j].clone();
            let id = net.id.clone();
            let known = self.savednetworks.contains_key(id.as_str());
            if !known {
                new_any = true;
                self.savednetworksidx.push(id.clone());
            }
            self.savednetworks.insert(id, net);
            proof {
                assert(self@.networks =~= prev.networks.insert(kid, poll[j as int]));
                assert(self@.networks == upserted(m0, poll.take(j as int + 1)));
                lemma_index_consistent_insert(prev.idx, prev.networks.dom(), kid);
                if known {
                    assert(self@.idx =~= prev.idx);
                    assert(prev.networks.dom().insert(kid) =~= prev.networks.dom());
                    assert(self@.networks.dom() =~= prev.networks.dom());
                    assert(new_ids(prev.networks.dom(), rest) == new_ids(
                        self@.networks.dom(),
                        poll.skip(j as int + 1),
                    ));
                    // a known identifier that was new relative to the start of
                    // the merge was introduced by an earlier polled record
                    if !dom0.contains(kid) {
                        assert(has_id(poll.take(j as int), kid));
                        let j2 = choose|j2: int|
                            0 <= j2 < poll.take(j as int).len() && poll.take(j as int)[j2].id
                                == kid;
                        assert(!dom0.contains(poll[j2].id));
                    }
                } else {
                    assert(self@.idx =~= prev.idx.push(kid));
                    assert(self@.networks.dom() =~= prev.networks.dom().insert(kid));
                    assert(new_ids(prev.networks.dom(), rest) == seq![kid] + new_ids(
                        self@.networks.dom(),
                        poll.skip(j as int + 1),
                    ));
                    assert(prev.idx + (seq![kid] + new_ids(
                        self@.networks.dom(),
                        poll.skip(j as int + 1),
                    )) =~= self@.idx + new_ids(self@.networks.dom(), poll.skip(j as int + 1)));
                }
            }
            j = j + 1;
        }
        proof {
            assert(poll.take(poll.len() as int) =~= poll);
            assert(poll.skip(poll.len() as int) =~= Seq::<NetworkV>::empty());
            assert(idx0 + new_ids(dom0, poll) =~= self@.idx);
        }
        let ghost up = self@.networks;
        let ghost idxv = self@.idx;

        let mut i: usize = 0;
        proof {
            assert(idxv.take(0) =~= Seq::<Seq<char>>::empty());
            assert(self@.networks =~= mark_prefix(up, poll, idxv.take(0)));
        }
        while i < self.savednetworksidx.len()
            invariant
                pre.wf(),
                i <= idxv.len(),
                poll == networks.deep_view(),
                self@.wf(),
                self@.idx == idxv,
                up.dom() == self@.networks.dom(),
                self@.networks == mark_prefix(up, poll, idxv.take(i as int)),
                self@ == (SettingsV { networks: self@.networks, idx: idxv, ..pre }),
            decreases idxv.len() - i,
        {
            let ghost cur = self@.networks;
            proof {
                assert(idxv.take(i as int + 1).drop_last() =~= idxv.take(i as int));
                assert(idxv.take(i as int + 1).last() == idxv[i as int]);
            }
            let id = self.savednetworksidx[i].clone();
            let polled = has_network_id(&networks, &id);
            if !polled {
                let updated = match self.savednetworks.get(id.as_str()) {
                    Some(n) => with_status(n, NetworkStatus::Disconnected),
                    None => {
                        proof {
                            assert(self@.networks.contains_key(id@));
                            assert(false);
                        }
                        unreached()
                    },
                };
                self.savednetworks.insert(id, updated);
                proof {
                    assert(self@.networks =~= cur.insert(idxv[i as int], disconnected_of(
                        cur[idxv[i as int]],
                    )));
                    assert(self@.networks.dom() =~= cur.dom());
                }
            }
            proof {
                assert forall|k2: Seq<char>|
                    idxv.take(i as int + 1).contains(k2) implies idxv.take(i as int).contains(k2)
                    || k2 == idxv[i as int] by {
                    let w = choose|w: int|
                        0 <= w < idxv.take(i as int + 1).len() && #[trigger] idxv.take(
                            i as int + 1,
                        )[w] == k2;
                    if w < i {
                        assert(idxv.take(i as int)[w] == k2);
                    }
                }
                assert forall|k2: Seq<char>|
                    idxv.take(i as int).contains(k2) implies idxv.take(i as int + 1).contains(k2) by {
                    let w = choose|w: int|
                        0 <= w < idxv.take(i as int).len() && #[trigger] idxv.take(i as int)[w]
                            == k2;
                    assert(idxv.take(i as int + 1)[w] == k2);
                }
                assert(idxv.take(i as int + 1).contains(idxv[i as int])) by {
                    assert(idxv.take(i as int + 1)[i as int] == idxv[i as int]);
                }
                assert(self@.networks =~= mark_prefix(up, poll, idxv.take(i as int + 1)));
            }
            i = i + 1;
        }
        proof {
            assert(idxv.take(idxv.len() as int) =~= idxv);
            assert(self@.networks =~= mark_absent(up, poll)) by {
                assert forall|k2: Seq<char>| up.contains_key(k2) implies idxv.contains(k2) by {
                }
            }
        }
        let ghost mid = self@;
        self.clamp_selection();
        proof {
            lemma_visible_same(mid, self@);
            assert(self@ =~= (SettingsV {
                networks: mark_absent(upserted(pre.networks, poll), poll),
                idx: pre.idx + new_ids(pre.networks.dom(), poll),
                sel: self@.sel,
                ..pre
            }));
            assert forall|k: Seq<char>|
                pre.networks.contains_key(k) && !has_id(poll, k) implies #[trigger] self@.networks[k]
                == disconnected_of(pre.networks[k]) && self@.networks.contains_key(k)
                && self@.idx.contains(k) by {
                lemma_upserted_absent(pre.networks, poll, k);
                lemma_upserted_dom(pre.networks, poll, k);
                assert(self@.networks.contains_key(k));
            }
        }
        new_any
    }
}

/// Index/map consistency: under the store invariant the ordering list is
/// exactly as long as the network map has keys, and every ordering entry
/// is a valid map key. Every mutation of the store preserves the
/// invariant, so this holds after any sequence of insertions and
/// removals.
pub proof fn lemma_index_map_consistency(s: SettingsV)
    requires
        s.wf(),
    ensures
        s.idx.len() == s.networks.dom().len(),
        forall|i: int| 0 <= i < s.idx.len() ==> s.networks.contains_key(#[trigger] s.idx[i]),
{
    s.idx.unique_seq_to_set();
    assert(s.idx.to_set() =~= s.networks.dom());
}

/// Soft-delete by status: a network the store knows that a fresh poll no
/// longer reports keeps its place in the merged map and in the ordering
/// list, and only its connectivity changes, to `Disconnected`. Nothing
/// short of an explicit delete removes a bookmark.
pub proof fn lemma_network_soft_delete(s: SettingsV, poll: Seq<NetworkV>, k: Seq<char>)
    requires
        s.wf(),
        s.networks.contains_key(k),
        !has_id(poll, k),
    ensures
        mark_absent(upserted(s.networks, poll), poll).contains_key(k),
        mark_absent(upserted(s.networks, poll), poll)[k] == disconnected_of(s.networks[k]),
        (s.idx + new_ids(s.networks.dom(), poll)).contains(k),
{
    lemma_upserted_absent(s.networks, poll, k);
    lemma_upserted_dom(s.networks, poll, k);
    assert(s.idx.contains(k));
    let w = choose|w: int| 0 <= w < s.idx.len() && s.idx[w] == k;
    assert((s.idx + new_ids(s.networks.dom(), poll))[w] == k);
}

/// Whether some record in the poll carries the given identifier.
pub fn has_network_id(networks: &Vec<Network>, id: &String) -> (r: bool)
    ensures
        r == has_id(networks.deep_view(), id@),
{
    let ghost poll = networks.deep_view();
    let mut j: usize = 0;
    while j < networks.len()
        invariant
            j <= networks@.len(),
            poll == networks.deep_view(),
            poll.len() == networks@.len(),
            forall|j2: int| 0 <= j2 < j ==> #[trigger] poll[j2].id != id@,
        decreases networks@.len() - j,
    {
        if networks[j].id.eq(id) {
            proof {
                assert(poll[j as int].id == id@);
            }
            return true;
        }
        j = j + 1;
    }
    proof {
        if has_id(poll, id@) {
            let w = choose|w: int| 0 <= w < poll.len() && poll[w].id == id@;
            assert(false);
        }
    }
    false
}

/// Appending a fresh key to an ordering list together with its map keeps
/// them consistent; re-inserting a known key changes neither side's key set.
pub proof fn lemma_index_consistent_insert(
    ids: Seq<Seq<char>>,
    dom: Set<Seq<char>>,
    k: Seq<char>,
)
    requires
        index_consistent(ids, dom),
    ensures
        index_consistent(
            if dom.contains(k) {
                ids
            } else {
                ids.push(k)
            },
            dom.insert(k),
        ),
{
    if dom.contains(k) {
        assert(dom.insert(k) =~= dom);
    } else {
        let ids2 = ids.push(k);
        assert forall|i: int| 0 <= i < ids2.len() implies dom.insert(k).contains(#[trigger] ids2[i]) by {
            if i < ids.len() {
                assert(dom.contains(ids[i]));
            }
        }
        assert forall|k2: Seq<char>| #[trigger] dom.insert(k).contains(k2) implies ids2.contains(k2) by {
            if k2 == k {
                assert(ids2[ids.len() as int] == k);
            } else {
                assert(dom.contains(k2));
                let w = choose|w: int| 0 <= w < ids.len() && ids[w] == k2;
                assert(ids2[w] == k2);
            }
        }
        assert forall|i: int, j: int| 0 <= i < j < ids2.len() implies ids2[i] != ids2[j] by {
            if j == ids.len() as int {
                assert(dom.contains(ids[i]));
            }
        }
        assert(ids2.no_duplicates()) by {
            assert(forall|i: int, j: int|
                0 <= i < ids2.len() && 0 <= j < ids2.len() && i != j ==> ids2[i] != ids2[j]) by {
                assert forall|i: int, j: int|
                    0 <= i < ids2.len() && 0 <= j < ids2.len() && i != j implies ids2[i] != ids2[j] by {
                    if i < j {
                        assert(ids2[i] != ids2[j]);
                    } else {
                        assert(ids2[j] != ids2[i]);
                    }
                }
            }
        }
    }
}

/// Removing one position from an ordering list together with its key from
/// the map keeps them consistent.
pub proof fn lemma_index_consistent_remove(ids: Seq<Seq<char>>, dom: Set<Seq<char>>, pos: int)
    requires
        index_consistent(ids, dom),
        0 <= pos < ids.len(),
    ensures
        index_consistent(ids.remove(pos), dom.remove(ids[pos])),
{
    let ids2 = ids.remove(pos);
    let dom2 = dom.remove(ids[pos]);
    assert forall|i: int| 0 <= i < ids2.len() implies dom2.contains(#[trigger] ids2[i]) by {
        if i < pos {
            assert(ids2[i] == ids[i]);
            assert(ids[i] != ids[pos]);
        } else {
            assert(ids2[i] == ids[i + 1]);
            assert(ids[i + 1] != ids[pos]);
        }
    }
    assert forall|k: Seq<char>| #[trigger] dom2.contains(k) implies ids2.contains(k) by {
        assert(dom.contains(k));
        let w = choose|w: int| 0 <= w < ids.len() && ids[w] == k;
        assert(w != pos);
        if w < pos {
            assert(ids2[w] == k);
        } else {
            assert(ids2[w - 1] == k);
        }
    }
    assert forall|i: int, j: int| 0 <= i < j < ids2.len() implies ids2[i] != ids2[j] by {
        let i0 = if i < pos { i } else { i + 1 };
        let j0 = if j < pos { j } else { j + 1 };
        assert(ids2[i] == ids[i0]);
        assert(ids2[j] == ids[j0]);
    }
    assert(ids2.no_duplicates()) by {
        assert forall|i: int, j: int|
            0 <= i < ids2.len() && 0 <= j < ids2.len() && i != j implies ids2[i] != ids2[j] by {
            if i < j {
                assert(ids2[i] != ids2[j]);
            } else {
                assert(ids2[j] != ids2[i]);
            }
        }
    }
}

/// Two store values that agree on the ordering list, the network map and
/// the filter show the same visible list.
pub proof fn lemma_visible_same(a: SettingsV, b: SettingsV)
    requires
        a.idx == b.idx,
        a.networks == b.networks,
        a.filter == b.filter,
    ensures
        a.visible_ids() == b.visible_ids(),
        a.visible_n() == b.visible_n(),
{
    lemma_visible_prefix_same(a, b, a.idx.len() as int);
}

proof fn lemma_visible_prefix_same(a: SettingsV, b: SettingsV, i: int)
    requires
        a.idx == b.idx,
        a.networks == b.networks,
        a.filter == b.filter,
    ensures
        a.visible_prefix(i) == b.visible_prefix(i),
    decreases i,
{
    if i > 0 {
        lemma_visible_prefix_same(a, b, i - 1);
    }
}

} // verus!
