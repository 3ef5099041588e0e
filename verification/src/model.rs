//! Plain records for the data the session tracks: networks as reported by
//! the local daemon, and members of a network as reported by the cloud
//! management service.

use vstd::prelude::*;

verus! {

/// Connectivity of a network as last reported by the local daemon.
/// A network absent from a fresh poll is marked `Disconnected` rather than
/// removed (soft-delete by status).
#[derive(Clone, Copy, Debug, PartialEq, Eq, Structural)]
pub enum NetworkStatus {
    Okay,
    RequestingConfiguration,
    Disconnected,
    Other,
}

/// One of the per-network routing/DNS booleans the daemon accepts.
#[derive(Clone, Copy, Debug, PartialEq, Eq, Structural)]
pub enum NetworkFlag {
    AllowDNS,
    AllowManaged,
    AllowGlobal,
    AllowDefault,
}

/// A network record: the identifier is the stable primary key.
#[derive(Debug)]
pub struct Network {
    pub id: String,
    pub name: String,
    pub status: NetworkStatus,
    pub assigned_addresses: Vec<String>,
    pub port_device_name: String,
    pub allow_dns: bool,
    pub allow_managed: bool,
    pub allow_global: bool,
    pub allow_default: bool,
}

/// The mathematical value of a `Network`.
pub struct NetworkV {
    pub id: Seq<char>,
    pub name: Seq<char>,
    pub status: NetworkStatus,
    pub assigned_addresses: Seq<Seq<char>>,
    pub port_device_name: Seq<char>,
    pub allow_dns: bool,
    pub allow_managed: bool,
    pub allow_global: bool,
    pub allow_default: bool,
}

impl View for Network {
    type V = NetworkV;

    open spec fn view(&self) -> NetworkV {
        NetworkV {
            id: self.id@,
            name: self.name@,
            status: self.status,
            assigned_addresses: self.assigned_addresses.deep_view(),
            port_device_name: self.port_device_name@,
            allow_dns: self.allow_dns,
            allow_managed: self.allow_managed,
            allow_global: self.allow_global,
            allow_default: self.allow_default,
        }
    }
}

impl DeepView for Network {
    type V = NetworkV;

    open spec fn deep_view(&self) -> NetworkV {
        self@
    }
}

/// Copies a vector of strings, element by element, so that the copy is
/// known to carry the same character sequences.
pub fn clone_strings(v: &Vec<String>) -> (res: Vec<String>)
    ensures
        res.deep_view() == v.deep_view(),
{
    let mut res: Vec<String> = Vec::new();
    let mut i: usize = 0;
    while i < v.len()
        invariant
            i <= v.len(),
            res.deep_view() =~= v.deep_view().take(i as int),
        decreases v.len() - i,
    {
        let ghost pre = res.deep_view();
        res.push(v[i].clone());
        proof {
            assert(res.deep_view() =~= pre.push(v.deep_view()[i as int]));
        }
        i = i + 1;
    }
    proof {
        assert(res.deep_view() =~= v.deep_view());
    }
    res
}

impl Clone for Network {
    /// A copy of the record, known to carry the same field values.
    fn clone(&self) -> (res: Self)
        ensures
            res@ == self@,
    {
        Network {
            id: self.id.clone(),
            name: self.name.clone(),
            status: self.status,
            assigned_addresses: clone_strings(&self.assigned_addresses),
            port_device_name: self.port_device_name.clone(),
            allow_dns: self.allow_dns,
            allow_managed: self.allow_managed,
            allow_global: self.allow_global,
            allow_default: self.allow_default,
        }
    }
}

/// A member of a network: the node identifier is the primary key within its
/// network.
#[derive(Debug)]
pub struct Member {
    pub node_id: String,
    pub network_id: String,
    pub name: String,
    pub authorized: bool,
    pub capabilities: Vec<u64>,
    pub last_online: i64,
    pub ip_assignments: Vec<String>,
}

/// The mathematical value of a `Member`.
pub struct MemberV {
    pub node_id: Seq<char>,
    pub network_id: Seq<char>,
    pub name: Seq<char>,
    pub authorized: bool,
    pub capabilities: Seq<u64>,
    pub last_online: i64,
    pub ip_assignments: Seq<Seq<char>>,
}

impl View for Member {
    type V = MemberV;

    open spec fn view(&self) -> MemberV {
        MemberV {
            node_id: self.node_id@,
            network_id: self.network_id@,
            name: self.name@,
            authorized: self.authorized,
            capabilities: self.capabilities@,
            last_online: self.last_online,
            ip_assignments: self.ip_assignments.deep_view(),
        }
    }
}

impl DeepView for Member {
    type V = MemberV;

    open spec fn deep_view(&self) -> MemberV {
        self@
    }
}

/// Copies a vector of capability numbers.
pub fn clone_caps(v: &Vec<u64>) -> (res: Vec<u64>)
    ensures
        res@ == v@,
{
    let mut res: Vec<u64> = Vec::new();
    let mut i: usize = 0;
    while i < v.len()
        invariant
            i <= v.len(),
            res@ =~= v@.take(i as int),
        decreases v.len() - i,
    {
        res.push(v[i]);
        i = i + 1;
    }
    proof {
        assert(res@ =~= v@);
    }
    res
}

impl Clone for Member {
    /// A copy of the record, known to carry the same field values.
    fn clone(&self) -> (res: Self)
        ensures
            res@ == self@,
    {
        Member {
            node_id: self.node_id.clone(),
            network_id: self.network_id.clone(),
            name: self.name.clone(),
            authorized: self.authorized,
            capabilities: clone_caps(&self.capabilities),
            last_online: self.last_online,
            ip_assignments: clone_strings(&self.ip_assignments),
        }
    }
}

/// Copies a vector of member records.
pub fn clone_members(v: &Vec<Member>) -> (res: Vec<Member>)
    ensures
        res.deep_view() == v.deep_view(),
{
    let mut res: Vec<Member> = Vec::new();
    let mut i: usize = 0;
    while i < v.len()
        invariant
            i <= v.len(),
            res.deep_view() =~= v.deep_view().take(i as int),
        decreases v.len() - i,
    {
        let ghost pre = res.deep_view();
        res.push(v[i].clone());
        proof {
            assert(res.deep_view() =~= pre.push(v.deep_view()[i as int]));
        }
        i = i + 1;
    }
    proof {
        assert(res.deep_view() =~= v.deep_view());
    }
    res
}

/// The given record with its connectivity replaced, all other fields kept.
pub fn with_status(n: &Network, status: NetworkStatus) -> (res: Network)
    ensures
        res@ == (NetworkV { status, ..n@ }),
{
    let mut res = n.clone();
    res.status = status;
    res
}

} // verus!
