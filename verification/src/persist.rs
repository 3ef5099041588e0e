//! The persistent projection of the session store: what a normal quit
//! writes to the settings file and what startup reads back. Transient
//! state — cursors, the page, the dialog, the last error — is not
//! persisted; reloading restores it to its initial value.

use vstd::prelude::*;
use crate::model::{clone_members, Member, MemberV, Network, NetworkV};
use crate::session::{
    index_consistent, lemma_index_consistent_insert, new_ids, upserted, Settings, SettingsV,
};
use crate::state::ListFilter;

verus! {

/// The stored form of the session store: bookmarked networks in display
/// order, stored credentials, the last member rosters, and the display
/// filter.
pub struct StoredSettings {
    pub api_keys: Vec<(String, String)>,
    pub networks: Vec<Network>,
    pub members: Vec<(String, Vec<Member>)>,
    pub filter: ListFilter,
}

/// The mathematical value of a `StoredSettings`.
#[verifier::ext_equal]
pub struct StoredSettingsV {
    pub api_keys: Seq<(Seq<char>, Seq<char>)>,
    pub networks: Seq<NetworkV>,
    pub members: Seq<(Seq<char>, Seq<MemberV>)>,
    pub filter: ListFilter,
}

impl View for StoredSettings {
    type V = StoredSettingsV;

    open spec fn view(&self) -> StoredSettingsV {
        StoredSettingsV {
            api_keys: Seq::new(self.api_keys@.len(), |i: int| (self.api_keys@[i].0@, self.api_keys@[i].1@)),
            networks: self.networks.deep_view(),
            members: Seq::new(self.members@.len(), |i: int| (self.members@[i].0@, self.members@[i].1.deep_view())),
            filter: self.filter,
        }
    }
}

/// The stored form of a session store: each map is written out in the
/// order of its ordering list.
pub open spec fn persisted(s: SettingsV) -> StoredSettingsV {
    StoredSettingsV {
        api_keys: Seq::new(s.api_key_ids.len(), |i: int| (s.api_key_ids[i], s.api_keys[s.api_key_ids[i]])),
        networks: Seq::new(s.idx.len(), |i: int| s.networks[s.idx[i]]),
        members: Seq::new(s.member_ids.len(), |i: int| (s.member_ids[i], s.members[s.member_ids[i]])),
        filter: s.filter,
    }
}

/// The map after upserting every stored pair, in order; the later pair
/// wins on a duplicate key.
pub open spec fn pairs_upserted<V>(m: Map<Seq<char>, V>, s: Seq<(Seq<char>, V)>) -> Map<
    Seq<char>,
    V,
>
    decreases s.len(),
{
    if s.len() == 0 {
        m
    } else {
        pairs_upserted(m, s.drop_last()).insert(s.last().0, s.last().1)
    }
}

/// The stored keys the map does not know yet, in order of first
/// occurrence.
pub open spec fn pairs_new_ids<V>(dom: Set<Seq<char>>, s: Seq<(Seq<char>, V)>) -> Seq<Seq<char>>
    decreases s.len(),
{
    if s.len() == 0 {
        Seq::empty()
    } else if dom.contains(s[0].0) {
        pairs_new_ids(dom, s.drop_first())
    } else {
        seq![s[0].0] + pairs_new_ids(dom.insert(s[0].0), s.drop_first())
    }
}

/// The session store a stored form reloads to: every map rebuilt pair by
/// pair with its ordering list, the stored filter, and every transient
/// field at its initial value.
pub open spec fn restored(st: StoredSettingsV) -> SettingsV {
    SettingsV {
        api_keys: pairs_upserted(Map::empty(), st.api_keys),
        api_key_ids: pairs_new_ids(Set::empty(), st.api_keys),
        networks: upserted(Map::empty(), st.networks),
        idx: new_ids(Set::empty(), st.networks),
        members: pairs_upserted(Map::empty(), st.members),
        member_ids: pairs_new_ids(Set::empty(), st.members),
        filter: st.filter,
        ..SettingsV::initial()
    }
}

impl Settings {
    /// The persistent projection of this store, ready to be written out.
    pub fn persist(&self) -> (r: StoredSettings)
        requires
            self@.wf(),
        ensures
            r@ == persisted(self@),
    {
        let ghost sv = self@;
        let mut api_keys: Vec<(String, String)> = Vec::new();
        let mut i: usize = 0;
        while i < self.api_key_ids.len()
            invariant
                self@ == sv,
                sv.wf(),
                i <= sv.api_key_ids.len(),
                Seq::new(api_keys@.len(), |n: int| (api_keys@[n].0@, api_keys@[n].1@)) =~= persisted(
                    sv,
                ).api_keys.take(i as int),
            decreases sv.api_key_ids.len() - i,
        {
            let id = &self.api_key_ids[i];
            proof {
                assert(id@ == sv.api_key_ids[i as int]);
                assert(sv.api_keys.contains_key(id@));
            }
            let key = match self.api_keys.get(id.as_str()) {
                Some(k) => k.clone(),
                None => {
                    proof {
                        assert(sv.api_keys.contains_key(id@));
                        assert(false);
                    }
                    unreached()
                },
            };
            proof {
                assert(key@ == sv.api_keys[id@]);
            }
            let ghost idv = id@;
            let ghost keyv = key@;
            let ghost prev = Seq::new(api_keys@.len(), |n: int| (api_keys@[n].0@, api_keys@[n].1@));
            api_keys.push((id.clone(), key));
            proof {
                assert(Seq::new(api_keys@.len(), |n: int| (api_keys@[n].0@, api_keys@[n].1@))
                    =~= prev.push((idv, keyv)));
                assert(persisted(sv).api_keys.take(i as int + 1) =~= persisted(sv).api_keys.take(
                    i as int,
                ).push(persisted(sv).api_keys[i as int]));
                assert(Seq::new(api_keys@.len(), |n: int| (api_keys@[n].0@, api_keys@[n].1@))
                    =~= persisted(sv).api_keys.take(i as int + 1));
            }
            i = i + 1;
        }
        let mut networks: Vec<Network> = Vec::new();
        let mut i: usize = 0;
        while i < self.savednetworksidx.len()
            invariant
                self@ == sv,
                sv.wf(),
                i <= sv.idx.len(),
                networks.deep_view() =~= persisted(sv).networks.take(i as int),
            decreases sv.idx.len() - i,
        {
            let id = &self.savednetworksidx[i];
            proof {
                assert(id@ == sv.idx[i as int]);
                assert(sv.networks.contains_key(id@));
            }
            let net = match self.savednetworks.get(id.as_str()) {
                Some(n) => n.clone(),
                None => {
                    proof {
                        assert(sv.networks.contains_key(id@));
                        assert(false);
                    }
                    unreached()
                },
            };
            proof {
                assert(net@ == sv.networks[id@]);
            }
            let ghost netv = net@;
            let ghost prev = networks.deep_view();
            networks.push(net);
            proof {
                assert(networks.deep_view() =~= prev.push(netv));
                assert(persisted(sv).networks.take(i as int + 1) =~= persisted(sv).networks.take(
                    i as int,
                ).push(persisted(sv).networks[i as int]));
                assert(networks.deep_view() =~= persisted(sv).networks.take(i as int + 1));
            }
            i = i + 1;
        }
        let mut members: Vec<(String, Vec<Member>)> = Vec::new();
        let mut i: usize = 0;
        while i < self.member_ids.len()
            invariant
                self@ == sv,
                sv.wf(),
                i <= sv.member_ids.len(),
                Seq::new(members@.len(), |n: int| (members@[n].0@, members@[n].1.deep_view()))
                    =~= persisted(sv).members.take(i as int),
            decreases sv.member_ids.len() - i,
        {
            let id = &self.member_ids[i];
            proof {
                assert(id@ == sv.member_ids[i as int]);
                assert(sv.members.contains_key(id@));
            }
            let roster = match self.members.get(id.as_str()) {
                Some(v) => clone_members(v),
                None => {
                    proof {
                        assert(sv.members.contains_key(id@));
                        assert(false);
                    }
                    unreached()
                },
            };
            proof {
                assert(roster.deep_view() == sv.members[id@]);
            }
            let ghost idv = id@;
            let ghost rosterv = roster.deep_view();
            let ghost prev = Seq::new(
                members@.len(),
                |n: int| (members@[n].0@, members@[n].1.deep_view()),
            );
            members.push((id.clone(), roster));
            proof {
                assert(Seq::new(
                    members@.len(),
                    |n: int| (members@[n].0@, members@[n].1.deep_view()),
                ) =~= prev.push((idv, rosterv)));
                assert(persisted(sv).members.take(i as int + 1) =~= persisted(sv).members.take(
                    i as int,
                ).push(persisted(sv).members[i as int]));
                assert(Seq::new(
                    members@.len(),
                    |n: int| (members@[n].0@, members@[n].1.deep_view()),
                ) =~= persisted(sv).members.take(i as int + 1));
            }
            i = i + 1;
        }
        let r = StoredSettings { api_keys, networks, members, filter: self.filter };
        proof {
            assert(r@.api_keys =~= persisted(sv).api_keys);
            assert(r@.networks =~= persisted(sv).networks);
            assert(r@.members =~= persisted(sv).members);
            assert(r@ =~= persisted(sv));
        }
        r
    }
}

/// Reloads a stored form into a fresh session store, as `restored`
/// states. The rebuild keeps the first occurrence of each key in the
/// ordering lists and the last stored value in the maps, so a store read
/// back from disk always satisfies the index invariant, whatever the file
/// held.
pub fn restore(stored: StoredSettings) -> (r: Settings)
    ensures
        r@ == restored(stored@),
        r@.wf(),
        r@.sel_ok(),
{
    let ghost stv = stored@;
    let StoredSettings { api_keys, networks, members, filter } = stored;
    let mut s = Settings::default();

    let mut j: usize = 0;
    proof {
        assert(stv.networks.take(0) =~= Seq::<NetworkV>::empty());
        assert(stv.networks.skip(0) =~= stv.networks);
        assert(s@.networks =~= upserted(Map::empty(), stv.networks.take(0)));
        assert(s@.idx + new_ids(s@.networks.dom(), stv.networks) =~= new_ids(
            Set::empty(),
            stv.networks,
        ));
        assert(s@.networks.dom() =~= Set::<Seq<char>>::empty());
        assert(new_ids(s@.networks.dom(), stv.networks) == new_ids(Set::empty(), stv.networks));
    }
    while j < networks.len()
        invariant
            j <= networks@.len(),
            stv.networks == networks.deep_view(),
            stv.networks.len() == networks@.len(),
            s@.wf(),
            s@.networks == upserted(Map::empty(), stv.networks.take(j as int)),
            new_ids(Set::empty(), stv.networks) == s@.idx + new_ids(
                s@.networks.dom(),
                stv.networks.skip(j as int),
            ),
            s@ == (SettingsV { networks: s@.networks, idx: s@.idx, ..SettingsV::initial() }),
        decreases networks@.len() - j,
    {
        let ghost prev = s@;
        let ghost kid = stv.networks[j as int].id;
        let ghost rest = stv.networks.skip(j as int);
        proof {
            assert(rest[0] == stv.networks[j as int]);
            assert(rest.drop_first() =~= stv.networks.skip(j as int + 1));
            assert(stv.networks.take(j as int + 1).drop_last() =~= stv.networks.take(j as int));
            assert(stv.networks.take(j as int + 1).last() == stv.networks[j as int]);
        }
        let net = networks[j].clone();
        let id = net.id.clone();
        let known = s.savednetworks.contains_key(id.as_str());
        if !known {
            s.savednetworksidx.push(id.clone());
        }
        s.savednetworks.insert(id, net);
        proof {
            assert(s@.networks =~= prev.networks.insert(kid, stv.networks[j as int]));
            assert(s@.networks == upserted(Map::empty(), stv.networks.take(j as int + 1)));
            lemma_index_consistent_insert(prev.idx, prev.networks.dom(), kid);
            if known {
                assert(s@.idx =~= prev.idx);
                assert(prev.networks.dom().insert(kid) =~= prev.networks.dom());
                assert(s@.networks.dom() =~= prev.networks.dom());
                assert(new_ids(prev.networks.dom(), rest) == new_ids(
                    s@.networks.dom(),
                    stv.networks.skip(j as int + 1),
                ));
            } else {
                assert(s@.idx =~= prev.idx.push(kid));
                assert(s@.networks.dom() =~= prev.networks.dom().insert(kid));
                assert(new_ids(prev.networks.dom(), rest) == seq![kid] + new_ids(
                    s@.networks.dom(),
                    stv.networks.skip(j as int + 1),
                ));
                assert(prev.idx + (seq![kid] + new_ids(
                    s@.networks.dom(),
                    stv.networks.skip(j as int + 1),
                )) =~= s@.idx + new_ids(s@.networks.dom(), stv.networks.skip(j as int + 1)));
            }
        }
        j = j + 1;
    }
    proof {
        assert(stv.networks.take(stv.networks.len() as int) =~= stv.networks);
        assert(stv.networks.skip(stv.networks.len() as int) =~= Seq::<NetworkV>::empty());
        assert(s@.idx =~= new_ids(Set::empty(), stv.networks));
    }
    let ghost netm = s@.networks;
    let ghost idxv = s@.idx;

    let mut j: usize = 0;
    proof {
        assert(stv.api_keys.take(0) =~= Seq::<(Seq<char>, Seq<char>)>::empty());
        assert(stv.api_keys.skip(0) =~= stv.api_keys);
        assert(s@.api_keys =~= pairs_upserted(Map::empty(), stv.api_keys.take(0)));
        assert(s@.api_keys.dom() =~= Set::<Seq<char>>::empty());
        assert(s@.api_key_ids + pairs_new_ids(s@.api_keys.dom(), stv.api_keys) =~= pairs_new_ids(
            Set::empty(),
            stv.api_keys,
        ));
        assert(pairs_new_ids(s@.api_keys.dom(), stv.api_keys) == pairs_new_ids(
            Set::empty(),
            stv.api_keys,
        ));
    }
    while j < api_keys.len()
        invariant
            j <= api_keys@.len(),
            stv.api_keys == Seq::new(
                api_keys@.len(),
                |i: int| (api_keys@[i].0@, api_keys@[i].1@),
            ),
            stv.api_keys.len() == api_keys@.len(),
            s@.wf(),
            s@.networks == netm,
            s@.idx == idxv,
            s@.api_keys == pairs_upserted(Map::empty(), stv.api_keys.take(j as int)),
            pairs_new_ids(Set::empty(), stv.api_keys) == s@.api_key_ids + pairs_new_ids(
                s@.api_keys.dom(),
                stv.api_keys.skip(j as int),
            ),
            s@ == (SettingsV {
                networks: s@.networks,
                idx: s@.idx,
                api_keys: s@.api_keys,
                api_key_ids: s@.api_key_ids,
                ..SettingsV::initial()
            }),
        decreases api_keys@.len() - j,
    {
        let ghost prev = s@;
        let ghost kid = stv.api_keys[j as int].0;
        let ghost rest = stv.api_keys.skip(j as int);
        proof {
            assert(rest[0] == stv.api_keys[j as int]);
            assert(rest.drop_first() =~= stv.api_keys.skip(j as int + 1));
            assert(stv.api_keys.take(j as int + 1).drop_last() =~= stv.api_keys.take(j as int));
            assert(stv.api_keys.take(j as int + 1).last() == stv.api_keys[j as int]);
        }
        let id = api_keys[j].0.clone();
        let val = api_keys[j].1.clone();
        let known = s.api_keys.contains_key(id.as_str());
        if !known {
            s.api_key_ids.push(id.clone());
        }
        s.api_keys.insert(id, val);
        proof {
            assert(s@.api_keys =~= prev.api_keys.insert(kid, stv.api_keys[j as int].1));
            assert(s@.api_keys == pairs_upserted(Map::empty(), stv.api_keys.take(j as int + 1)));
            lemma_index_consistent_insert(prev.api_key_ids, prev.api_keys.dom(), kid);
            if known {
                assert(s@.api_key_ids =~= prev.api_key_ids);
                assert(prev.api_keys.dom().insert(kid) =~= prev.api_keys.dom());
                assert(s@.api_keys.dom() =~= prev.api_keys.dom());
                assert(pairs_new_ids(prev.api_keys.dom(), rest) == pairs_new_ids(
                    s@.api_keys.dom(),
                    stv.api_keys.skip(j as int + 1),
                ));
            } else {
                assert(s@.api_key_ids =~= prev.api_key_ids.push(kid));
                assert(s@.api_keys.dom() =~= prev.api_keys.dom().insert(kid));
                assert(pairs_new_ids(prev.api_keys.dom(), rest) == seq![kid] + pairs_new_ids(
                    s@.api_keys.dom(),
                    stv.api_keys.skip(j as int + 1),
                ));
                assert(prev.api_key_ids + (seq![kid] + pairs_new_ids(
                    s@.api_keys.dom(),
                    stv.api_keys.skip(j as int + 1),
                )) =~= s@.api_key_ids + pairs_new_ids(
                    s@.api_keys.dom(),
                    stv.api_keys.skip(j as int + 1),
                ));
            }
        }
        j = j + 1;
    }
    proof {
        assert(stv.api_keys.take(stv.api_keys.len() as int) =~= stv.api_keys);
        assert(stv.api_keys.skip(stv.api_keys.len() as int) =~= Seq::<(Seq<char>, Seq<char>)>::empty());
        assert(s@.api_key_ids =~= pairs_new_ids(Set::empty(), stv.api_keys));
    }
    let ghost keym = s@.api_keys;
    let ghost keyids = s@.api_key_ids;

    let mut j: usize = 0;
    proof {
        assert(stv.members.take(0) =~= Seq::<(Seq<char>, Seq<MemberV>)>::empty());
        assert(stv.members.skip(0) =~= stv.members);
        assert(s@.members =~= pairs_upserted(Map::empty(), stv.members.take(0)));
        assert(s@.members.dom() =~= Set::<Seq<char>>::empty());
        assert(s@.member_ids + pairs_new_ids(s@.members.dom(), stv.members) =~= pairs_new_ids(
            Set::empty(),
            stv.members,
        ));
        assert(pairs_new_ids(s@.members.dom(), stv.members) == pairs_new_ids(
            Set::empty(),
            stv.members,
        ));
    }
    while j < members.len()
        invariant
            j <= members@.len(),
            stv.members == Seq::new(
                members@.len(),
                |i: int| (members@[i].0@, members@[i].1.deep_view()),
            ),
            stv.members.len() == members@.len(),
            s@.wf(),
            s@.networks == netm,
            s@.idx == idxv,
            s@.api_keys == keym,
            s@.api_key_ids == keyids,
            s@.members == pairs_upserted(Map::empty(), stv.members.take(j as int)),
            pairs_new_ids(Set::empty(), stv.members) == s@.member_ids + pairs_new_ids(
                s@.members.dom(),
                stv.members.skip(j as int),
            ),
            s@ == (SettingsV {
                networks: s@.networks,
                idx: s@.idx,
                api_keys: s@.api_keys,
                api_key_ids: s@.api_key_ids,
                members: s@.members,
                member_ids: s@.member_ids,
                ..SettingsV::initial()
            }),
        decreases members@.len() - j,
    {
        let ghost prev = s@;
        let ghost kid = stv.members[j as int].0;
        let ghost rest = stv.members.skip(j as int);
        proof {
            assert(rest[0] == stv.members[j as int]);
            assert(rest.drop_first() =~= stv.members.skip(j as int + 1));
            assert(stv.members.take(j as int + 1).drop_last() =~= stv.members.take(j as int));
            assert(stv.members.take(j as int + 1).last() == stv.members[j as int]);
        }
        let id = members[j].0.clone();
        let roster = clone_members(&members[j].1);
        let known = s.members.contains_key(id.as_str());
        if !known {
            s.member_ids.push(id.clone());
        }
        s.members.insert(id, roster);
        proof {
            assert(s@.members =~= prev.members.insert(kid, stv.members[j as int].1));
            assert(s@.members == pairs_upserted(Map::empty(), stv.members.take(j as int + 1)));
            lemma_index_consistent_insert(prev.member_ids, prev.members.dom(), kid);
            if known {
                assert(s@.member_ids =~= prev.member_ids);
                assert(prev.members.dom().insert(kid) =~= prev.members.dom());
                assert(s@.members.dom() =~= prev.members.dom());
                assert(pairs_new_ids(prev.members.dom(), rest) == pairs_new_ids(
                    s@.members.dom(),
                    stv.members.skip(j as int + 1),
                ));
            } else {
                assert(s@.member_ids =~= prev.member_ids.push(kid));
                assert(s@.members.dom() =~= prev.members.dom().insert(kid));
                assert(pairs_new_ids(prev.members.dom(), rest) == seq![kid] + pairs_new_ids(
                    s@.members.dom(),
                    stv.members.skip(j as int + 1),
                ));
                assert(prev.member_ids + (seq![kid] + pairs_new_ids(
                    s@.members.dom(),
                    stv.members.skip(j as int + 1),
                )) =~= s@.member_ids + pairs_new_ids(
                    s@.members.dom(),
                    stv.members.skip(j as int + 1),
                ));
            }
        }
        j = j + 1;
    }
    proof {
        assert(stv.members.take(stv.members.len() as int) =~= stv.members);
        assert(stv.members.skip(stv.members.len() as int) =~= Seq::<(Seq<char>, Seq<MemberV>)>::empty());
        assert(s@.member_ids =~= pairs_new_ids(Set::empty(), stv.members));
    }

    s.filter = filter;
    proof {
        assert(s@ =~= restored(stv));
    }
    s
}

/// Rebuilding a map from its own ordered listing reproduces the map: the
/// listed pairs, upserted into an empty map, give back exactly the map
/// the listing came from.
proof fn lemma_upserted_rebuild(m: Map<Seq<char>, NetworkV>, ids: Seq<Seq<char>>, p: Seq<NetworkV>)
    requires
        index_consistent(ids, m.dom()),
        p.len() == ids.len(),
        forall|i: int| 0 <= i < p.len() ==> (#[trigger] p[i]).id == ids[i] && p[i] == m[ids[i]],
    ensures
        upserted(Map::empty(), p) == m,
    decreases p.len(),
{
    if p.len() == 0 {
        assert forall|k: Seq<char>| !(#[trigger] m.dom().contains(k)) by {
            if m.dom().contains(k) {
                assert(ids.contains(k));
            }
        }
        assert(upserted(Map::empty(), p) =~= m);
    } else {
        let last = ids[ids.len() - 1];
        let m2 = m.remove(last);
        crate::session::lemma_index_consistent_remove(ids, m.dom(), ids.len() - 1);
        assert(ids.remove(ids.len() - 1) =~= ids.drop_last());
        assert(m.dom().remove(last) =~= m2.dom());
        assert(index_consistent(ids.drop_last(), m2.dom()));
        assert forall|i: int| 0 <= i < p.drop_last().len() implies (#[trigger] p.drop_last()[i]).id
            == ids.drop_last()[i] && p.drop_last()[i] == m2[ids.drop_last()[i]] by {
            assert(p[i].id == ids[i]);
            assert(ids[i] != last);
        }
        lemma_upserted_rebuild(m2, ids.drop_last(), p.drop_last());
        assert(p.last() == m[last]);
        assert(upserted(Map::empty(), p) =~= m2.insert(last, m[last]));
        assert(m2.insert(last, m[last]) =~= m);
    }
}

/// Rebuilding an ordering list from its own listing reproduces it: keys
/// none of which are known yet, listed without duplicates, come back in
/// the same order.
proof fn lemma_new_ids_rebuild(dom: Set<Seq<char>>, ids: Seq<Seq<char>>, p: Seq<NetworkV>)
    requires
        ids.no_duplicates(),
        p.len() == ids.len(),
        forall|i: int| 0 <= i < p.len() ==> (#[trigger] p[i]).id == ids[i],
        forall|i: int| 0 <= i < ids.len() ==> !dom.contains(#[trigger] ids[i]),
    ensures
        new_ids(dom, p) == ids,
    decreases p.len(),
{
    if p.len() == 0 {
        assert(new_ids(dom, p) =~= ids);
    } else {
        let first = ids[0];
        assert(!dom.contains(first));
        let dom2 = dom.insert(first);
        assert(p.drop_first().len() == ids.drop_first().len());
        assert forall|i: int| 0 <= i < ids.drop_first().len() implies !dom2.contains(
            #[trigger] ids.drop_first()[i],
        ) by {
            assert(ids.drop_first()[i] == ids[i + 1]);
            assert(ids[i + 1] != ids[0]);
        }
        assert forall|i: int| 0 <= i < p.drop_first().len() implies (#[trigger] p.drop_first()[
            i
        ]).id == ids.drop_first()[i] by {
            assert(p[i + 1].id == ids[i + 1]);
        }
        lemma_new_ids_rebuild(dom2, ids.drop_first(), p.drop_first());
        assert(new_ids(dom, p) == seq![first] + ids.drop_first());
        assert(seq![first] + ids.drop_first() =~= ids);
    }
}

/// As `lemma_upserted_rebuild`, for a map listed as key-value pairs.
proof fn lemma_pairs_upserted_rebuild<V>(
    m: Map<Seq<char>, V>,
    ids: Seq<Seq<char>>,
    p: Seq<(Seq<char>, V)>,
)
    requires
        index_consistent(ids, m.dom()),
        p.len() == ids.len(),
        forall|i: int| 0 <= i < p.len() ==> (#[trigger] p[i]).0 == ids[i] && p[i].1 == m[ids[i]],
    ensures
        pairs_upserted(Map::empty(), p) == m,
    decreases p.len(),
{
    if p.len() == 0 {
        assert forall|k: Seq<char>| !(#[trigger] m.dom().contains(k)) by {
            if m.dom().contains(k) {
                assert(ids.contains(k));
            }
        }
        assert(pairs_upserted(Map::empty(), p) =~= m);
    } else {
        let last = ids[ids.len() - 1];
        let m2 = m.remove(last);
        crate::session::lemma_index_consistent_remove(ids, m.dom(), ids.len() - 1);
        assert(ids.remove(ids.len() - 1) =~= ids.drop_last());
        assert(m.dom().remove(last) =~= m2.dom());
        assert(index_consistent(ids.drop_last(), m2.dom()));
        assert forall|i: int| 0 <= i < p.drop_last().len() implies (#[trigger] p.drop_last()[
            i
        ]).0 == ids.drop_last()[i] && p.drop_last()[i].1 == m2[ids.drop_last()[i]] by {
            assert(p[i].0 == ids[i]);
            assert(ids[i] != last);
        }
        lemma_pairs_upserted_rebuild(m2, ids.drop_last(), p.drop_last());
        assert(p.last().1 == m[last]);
        assert(pairs_upserted(Map::empty(), p) =~= m2.insert(last, m[last]));
        assert(m2.insert(last, m[last]) =~= m);
    }
}

/// As `lemma_new_ids_rebuild`, for a map listed as key-value pairs.
proof fn lemma_pairs_new_ids_rebuild<V>(
    dom: Set<Seq<char>>,
    ids: Seq<Seq<char>>,
    p: Seq<(Seq<char>, V)>,
)
    requires
        ids.no_duplicates(),
        p.len() == ids.len(),
        forall|i: int| 0 <= i < p.len() ==> (#[trigger] p[i]).0 == ids[i],
        forall|i: int| 0 <= i < ids.len() ==> !dom.contains(#[trigger] ids[i]),
    ensures
        pairs_new_ids(dom, p) == ids,
    decreases p.len(),
{
    if p.len() == 0 {
        assert(pairs_new_ids(dom, p) =~= ids);
    } else {
        let first = ids[0];
        assert(!dom.contains(first));
        let dom2 = dom.insert(first);
        assert forall|i: int| 0 <= i < ids.drop_first().len() implies !dom2.contains(
            #[trigger] ids.drop_first()[i],
        ) by {
            assert(ids.drop_first()[i] == ids[i + 1]);
            assert(ids[i + 1] != ids[0]);
        }
        assert forall|i: int| 0 <= i < p.drop_first().len() implies (#[trigger] p.drop_first()[
            i
        ]).0 == ids.drop_first()[i] by {
            assert(p[i + 1].0 == ids[i + 1]);
        }
        lemma_pairs_new_ids_rebuild(dom2, ids.drop_first(), p.drop_first());
        assert(pairs_new_ids(dom, p) == seq![first] + ids.drop_first());
        assert(seq![first] + ids.drop_first() =~= ids);
    }
}

/// Round-trip persistence: writing a well-formed session store out and
/// reloading it reproduces the bookmarked networks with their order, the
/// stored credentials, the member rosters and the display filter exactly,
/// while every transient field (cursors, page, dialog state, last error)
/// returns to its initial value.
pub proof fn lemma_settings_round_trip(s: SettingsV)
    requires
        s.wf(),
    ensures
        restored(persisted(s)) == (SettingsV {
            api_keys: s.api_keys,
            api_key_ids: s.api_key_ids,
            networks: s.networks,
            idx: s.idx,
            members: s.members,
            member_ids: s.member_ids,
            filter: s.filter,
            ..SettingsV::initial()
        }),
{
    let st = persisted(s);
    lemma_upserted_rebuild(s.networks, s.idx, st.networks);
    lemma_new_ids_rebuild(Set::empty(), s.idx, st.networks);
    lemma_pairs_upserted_rebuild(s.api_keys, s.api_key_ids, st.api_keys);
    lemma_pairs_new_ids_rebuild(Set::empty(), s.api_key_ids, st.api_keys);
    lemma_pairs_upserted_rebuild(s.members, s.member_ids, st.members);
    lemma_pairs_new_ids_rebuild(Set::empty(), s.member_ids, st.members);
    assert(restored(st) =~= (SettingsV {
        api_keys: s.api_keys,
        api_key_ids: s.api_key_ids,
        networks: s.networks,
        idx: s.idx,
        members: s.members,
        member_ids: s.member_ids,
        filter: s.filter,
        ..SettingsV::initial()
    }));
}

} // verus!
