//! Per-interface throughput samples. The caller reads the interface
//! counters and the clock; this module keeps, per interface, the short
//! sample history that the rate display is computed from.

use vstd::prelude::*;
use vstd::hash_map::StringHashMap;

verus! {

/// One reading of an interface's byte counters.
#[derive(Debug)]
pub struct IfaceIo {
    pub interface: String,
    pub rx_bytes: u64,
    pub tx_bytes: u64,
}

/// The mathematical value of an `IfaceIo`.
pub struct IfaceIoV {
    pub interface: Seq<char>,
    pub rx_bytes: u64,
    pub tx_bytes: u64,
}

impl View for IfaceIo {
    type V = IfaceIoV;

    open spec fn view(&self) -> IfaceIoV {
        IfaceIoV { interface: self.interface@, rx_bytes: self.rx_bytes, tx_bytes: self.tx_bytes }
    }
}

impl DeepView for IfaceIo {
    type V = IfaceIoV;

    open spec fn deep_view(&self) -> IfaceIoV {
        self@
    }
}

impl Clone for IfaceIo {
    /// A copy of the reading, known to carry the same values.
    fn clone(&self) -> (res: Self)
        ensures
            res@ == self@,
    {
        IfaceIo {
            interface: self.interface.clone(),
            rx_bytes: self.rx_bytes,
            tx_bytes: self.tx_bytes,
        }
    }
}

/// One stored usage sample: counters and the time they were read.
#[derive(Clone, Copy, Debug, PartialEq, Eq, Structural)]
pub struct UsageSample {
    pub rx_bytes: u128,
    pub tx_bytes: u128,
    pub at_millis: u64,
}

/// The interface table as last refreshed, and per interface the last few
/// usage samples.
pub struct Nets {
    pub nets: Vec<IfaceIo>,
    pub last_usage: StringHashMap<Vec<UsageSample>>,
}

/// The mathematical value of a `Nets`.
#[verifier::ext_equal]
pub struct NetsV {
    pub nets: Seq<IfaceIoV>,
    pub last_usage: Map<Seq<char>, Seq<UsageSample>>,
}

impl View for Nets {
    type V = NetsV;

    open spec fn view(&self) -> NetsV {
        NetsV {
            nets: self.nets.deep_view(),
            last_usage: self.last_usage@.map_values(|v: Vec<UsageSample>| v@),
        }
    }
}

/// The first reading in the table whose interface carries the given name.
pub open spec fn find_iface(s: Seq<IfaceIoV>, name: Seq<char>) -> Option<IfaceIoV>
    decreases s.len(),
{
    if s.len() == 0 {
        None
    } else if s[0].interface == name {
        Some(s[0])
    } else {
        find_iface(s.drop_first(), name)
    }
}

/// The sample history after recording one sample: the new sample is
/// appended and only the last three samples are kept.
pub open spec fn pushed_history(h: Seq<UsageSample>, sample: UsageSample) -> Seq<UsageSample> {
    let l = h.push(sample);
    if l.len() > 3 {
        l.skip(l.len() as int - 3)
    } else {
        l
    }
}

impl Nets {
    /// An empty table: no interfaces seen, no samples stored.
    pub fn new() -> (r: Nets)
        ensures
            r@.nets == Seq::<IfaceIoV>::empty(),
            r@.last_usage == Map::<Seq<char>, Seq<UsageSample>>::empty(),
    {
        let r = Nets { nets: Vec::new(), last_usage: StringHashMap::new() };
        proof {
            assert(r@.nets =~= Seq::<IfaceIoV>::empty());
            assert(r@.last_usage =~= Map::<Seq<char>, Seq<UsageSample>>::empty());
        }
        r
    }

    /// How many interfaces the last refresh reported.
    pub fn len(&self) -> (r: usize)
        ensures
            r == self@.nets.len(),
    {
        self.nets.len()
    }

    /// Replaces the interface table with fresh readings.
    pub fn refresh(&mut self, nets: Vec<IfaceIo>)
        ensures
            final(self)@ == (NetsV { nets: nets.deep_view(), ..old(self)@ }),
    {
        self.nets = nets;
        proof {
            assert(self@ =~= (NetsV { nets: self@.nets, ..old(self)@ }));
        }
    }

    /// The first reading for the given interface, if the table holds one.
    pub fn find_by_interface(&self, interface: String) -> (r: Option<IfaceIo>)
        ensures
            match r {
                Some(n) => find_iface(self@.nets, interface@) == Some(n@),
                None => find_iface(self@.nets, interface@) is None,
            },
    {
        let ghost s = self@.nets;
        let mut j: usize = 0;
        proof {
            assert(s.skip(0) =~= s);
        }
        while j < self.nets.len()
            invariant
                j <= self.nets@.len(),
                s == self@.nets,
                s.len() == self.nets@.len(),
                find_iface(s.skip(j as int), interface@) == find_iface(s, interface@),
            decreases self.nets@.len() - j,
        {
            proof {
                assert(s.skip(j as int)[0] == s[j as int]);
            }
            if self.nets[j].interface.eq(&interface) {
                return Some(self.nets[j].clone());
            }
            proof {
                assert(s.skip(j as int).drop_first() =~= s.skip(j as int + 1));
            }
            j = j + 1;
        }
        proof {
            assert(s.skip(s.len() as int) =~= Seq::<IfaceIoV>::empty());
        }
        None
    }

    /// Records one usage sample for the given interface from the current
    /// counter table, keeping at most the last three samples; an
    /// interface the table does not list is left unrecorded.
    pub fn store_usage(&mut self, interface: String, now_millis: u64)
        ensures
            final(self)@ == (NetsV {
                last_usage: match find_iface(old(self)@.nets, interface@) {
                    Some(net) => old(self)@.last_usage.insert(
                        interface@,
                        pushed_history(
                            if old(self)@.last_usage.contains_key(interface@) {
                                old(self)@.last_usage[interface@]
                            } else {
                                Seq::empty()
                            },
                            UsageSample {
                                rx_bytes: net.rx_bytes as u128,
                                tx_bytes: net.tx_bytes as u128,
                                at_millis: now_millis,
                            },
                        ),
                    ),
                    None => old(self)@.last_usage,
                },
                ..old(self)@
            }),
    {
        let ghost pre = self@;
        let ghost iv = interface@;
        let net = match self.find_by_interface(interface.clone()) {
            Some(n) => n,
            None => {
                return ;
            },
        };
        let sample = UsageSample {
            rx_bytes: net.rx_bytes as u128,
            tx_bytes: net.tx_bytes as u128,
            at_millis: now_millis,
        };
        let mut history: Vec<UsageSample> = match self.last_usage.get(interface.as_str()) {
            Some(v) => {
                let mut h: Vec<UsageSample> = Vec::new();
                let mut i: usize = 0;
                while i < v.len()
                    invariant
                        i <= v.len(),
                        h@ =~= v@.take(i as int),
                    decreases v.len() - i,
                {
                    h.push(v[i]);
                    i = i + 1;
                }
                proof {
                    assert(h@ =~= v@);
                }
                h
            },
            None => Vec::new(),
        };
        let ghost h0 = history@;
        history.push(sample);
        if history.len() > 3 {
            let a = history[history.len() - 3];
            let b = history[history.len() - 2];
            let c = history[history.len() - 1];
            let mut trimmed: Vec<UsageSample> = Vec::new();
            trimmed.push(a);
            trimmed.push(b);
            trimmed.push(c);
            proof {
                assert(trimmed@ =~= h0.push(sample).skip(h0.push(sample).len() as int - 3));
            }
            history = trimmed;
        }
        proof {
            assert(history@ == pushed_history(h0, sample));
            assert(h0 == if pre.last_usage.contains_key(iv) {
                pre.last_usage[iv]
            } else {
                Seq::<UsageSample>::empty()
            });
        }
        let ghost hv = history@;
        self.last_usage.insert(interface, history);
        proof {
            assert(self@.last_usage =~= pre.last_usage.insert(iv, hv));
            assert(self@ =~= (NetsV {
                last_usage: pre.last_usage.insert(iv, hv),
                ..pre
            }));
        }
    }

    /// The last two samples for the given interface, oldest first, if at
    /// least two have been recorded.
    pub fn usage_window(&self, interface: String) -> (r: Option<(UsageSample, UsageSample)>)
        ensures
            match r {
                Some(w) => {
                    &&& self@.last_usage.contains_key(interface@)
                    &&& self@.last_usage[interface@].len() >= 2
                    &&& w.0 == self@.last_usage[interface@][self@.last_usage[interface@].len()
                        - 2]
                    &&& w.1 == self@.last_usage[interface@][self@.last_usage[interface@].len()
                        - 1]
                },
                None => !self@.last_usage.contains_key(interface@) || self@.last_usage[
                    interface@
                ].len() < 2,
            },
    {
        match self.last_usage.get(interface.as_str()) {
            Some(v) => {
                if v.len() < 2 {
                    None
                } else {
                    Some((v[v.len() - 2], v[v.len() - 1]))
                }
            },
            None => None,
        }
    }
}

} // verus!
