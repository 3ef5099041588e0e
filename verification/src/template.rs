//! User-configured command templates. A template is a string in which
//! `%`-prefixed placeholders stand for fields of the selected network or
//! member; substitution scans the template once, left to right, and copies
//! every character that is not part of a known placeholder unchanged.

use vstd::prelude::*;
use crate::model::{Member, MemberV, Network, NetworkV};

verus! {

/// First replacement bound to placeholder character `c`, if any.
pub open spec fn bind_lookup(binds: Seq<(char, Seq<char>)>, c: char) -> Option<Seq<char>>
    decreases binds.len(),
{
    if binds.len() == 0 {
        None
    } else if binds[0].0 == c {
        Some(binds[0].1)
    } else {
        bind_lookup(binds.drop_first(), c)
    }
}

/// The template with every `%x` whose `x` is bound replaced by its binding;
/// everything else, including `%` before an unbound character and a trailing
/// `%`, is kept as it stands.
pub open spec fn subst(t: Seq<char>, binds: Seq<(char, Seq<char>)>) -> Seq<char>
    decreases t.len(),
{
    if t.len() == 0 {
        Seq::empty()
    } else if t.len() >= 2 && t[0] == '%' && bind_lookup(binds, t[1]) is Some {
        bind_lookup(binds, t[1]).unwrap() + subst(t.skip(2), binds)
    } else {
        seq![t[0]] + subst(t.skip(1), binds)
    }
}

/// The mathematical value of a binding table.
pub open spec fn binds_view(binds: Seq<(char, String)>) -> Seq<(char, Seq<char>)> {
    Seq::new(binds.len(), |i: int| (binds[i].0, binds[i].1@))
}

/// Scans the table for the first binding of `c`.
pub fn lookup_binding<'a>(binds: &'a Vec<(char, String)>, c: char) -> (r: Option<&'a String>)
    ensures
        match r {
            Some(v) => bind_lookup(binds_view(binds@), c) == Some(v@),
            None => bind_lookup(binds_view(binds@), c) is None,
        },
{
    let ghost bv = binds_view(binds@);
    let mut j: usize = 0;
    proof {
        assert(bv.skip(0) =~= bv);
    }
    while j < binds.len()
        invariant
            j <= binds.len(),
            bv == binds_view(binds@),
            bind_lookup(bv.skip(j as int), c) == bind_lookup(bv, c),
        decreases binds.len() - j,
    {
        if binds[j].0 == c {
            proof {
                assert(bv.skip(j as int)[0] == bv[j as int]);
            }
            return Some(&binds[j].1);
        }
        proof {
            assert(bv.skip(j as int).drop_first() =~= bv.skip(j as int + 1));
        }
        j = j + 1;
    }
    proof {
        assert(bv.skip(binds@.len() as int) =~= Seq::<(char, Seq<char>)>::empty());
    }
    None
}

/// Substitutes every bound placeholder in `template`, in one pass.
pub fn substitute(template: &str, binds: &Vec<(char, String)>) -> (r: String)
    ensures
        r@ == subst(template@, binds_view(binds@)),
{
    let ghost t = template@;
    let ghost bv = binds_view(binds@);
    let n = template.unicode_len();
    let mut out = String::new();
    let mut i: usize = 0;
    proof {
        assert(t.skip(0) =~= t);
        assert(out@ + subst(t, bv) =~= subst(t, bv));
    }
    while i < n
        invariant
            i <= n,
            n == t.len(),
            t == template@,
            bv == binds_view(binds@),
            out@ + subst(t.skip(i as int), bv) == subst(t, bv),
        decreases n - i,
    {
        let ghost rest = t.skip(i as int);
        proof {
            assert(rest[0] == t[i as int]);
        }
        let c = template.get_char(i);
        let mut replaced = false;
        if c == '%' && i + 1 < n {
            proof {
                assert(rest[1] == t[i as int + 1]);
            }
            let c2 = template.get_char(i + 1);
            if let Some(val) = lookup_binding(binds, c2) {
                let ghost pre = out@;
                out.append(val.as_str());
                proof {
                    assert(rest.skip(2) =~= t.skip(i as int + 2));
                    assert(subst(rest, bv) == val@ + subst(t.skip(i as int + 2), bv));
                    assert(pre + subst(rest, bv) == out@ + subst(t.skip(i as int + 2), bv));
                }
                i = i + 2;
                replaced = true;
            }
        }
        if !replaced {
            let ghost pre = out@;
            out.append(template.substring_char(i, i + 1));
            proof {
                assert(t.subrange(i as int, i as int + 1) =~= seq![t[i as int]]);
                assert(rest.skip(1) =~= t.skip(i as int + 1));
                assert(subst(rest, bv) == seq![rest[0]] + subst(t.skip(i as int + 1), bv));
                assert(pre + subst(rest, bv) == out@ + subst(t.skip(i as int + 1), bv));
            }
            i = i + 1;
        }
    }
    proof {
        assert(t.skip(n as int) =~= Seq::<char>::empty());
        assert(out@ + subst(t.skip(n as int), bv) == out@);
    }
    out
}

/// The placeholder table for a network-scoped template: `%i` interface
/// name, `%n` network id, `%a` first assigned address.
pub open spec fn network_binds(n: NetworkV) -> Seq<(char, Seq<char>)> {
    seq![('i', n.port_device_name), ('n', n.id), ('a', n.assigned_addresses[0])]
}

/// The placeholder table for a member-scoped template: `%n` network id,
/// `%i` node id, `%N` member name, `%a` first assigned IP.
pub open spec fn member_binds(m: MemberV) -> Seq<(char, Seq<char>)> {
    seq![('n', m.network_id), ('i', m.node_id), ('N', m.name), ('a', m.ip_assignments[0])]
}

/// The per-keystroke command tables the operator configured: one table for
/// network-scoped templates, one for member-scoped templates; the first
/// entry for a keystroke wins.
#[derive(Clone, Debug)]
pub struct UserConfig {
    pub network_commands: Vec<(char, String)>,
    pub member_commands: Vec<(char, String)>,
}

/// The mathematical value of a `UserConfig`.
pub struct UserConfigV {
    pub network_commands: Seq<(char, Seq<char>)>,
    pub member_commands: Seq<(char, Seq<char>)>,
}

impl View for UserConfig {
    type V = UserConfigV;

    open spec fn view(&self) -> UserConfigV {
        UserConfigV {
            network_commands: binds_view(self.network_commands@),
            member_commands: binds_view(self.member_commands@),
        }
    }
}

impl Default for UserConfig {
    /// No commands configured.
    fn default() -> (res: Self)
        ensures
            res@.network_commands == Seq::<(char, Seq<char>)>::empty(),
            res@.member_commands == Seq::<(char, Seq<char>)>::empty(),
    {
        let res = UserConfig { network_commands: Vec::new(), member_commands: Vec::new() };
        proof {
            assert(res@.network_commands =~= Seq::<(char, Seq<char>)>::empty());
            assert(res@.member_commands =~= Seq::<(char, Seq<char>)>::empty());
        }
        res
    }
}

impl UserConfig {
    /// The command bound to keystroke `c` for the given network, with its
    /// placeholders substituted, or `None` when no command is configured.
    pub fn command_for_network(&self, c: char, network: &Network) -> (r: Option<String>)
        requires
            network@.assigned_addresses.len() > 0,
        ensures
            match r {
                Some(s) => {
                    &&& bind_lookup(self@.network_commands, c) is Some
                    &&& s@ == subst(
                        bind_lookup(self@.network_commands, c).unwrap(),
                        network_binds(network@),
                    )
                },
                None => bind_lookup(self@.network_commands, c) is None,
            },
    {
        match lookup_binding(&self.network_commands, c) {
            Some(t) => {
                let binds: Vec<(char, String)> = vec![
                    ('i', network.port_device_name.clone()),
                    ('n', network.id.clone()),
                    ('a', network.assigned_addresses[0].clone()),
                ];
                proof {
                    assert(binds_view(binds@) =~= network_binds(network@));
                }
                Some(substitute(t.as_str(), &binds))
            },
            None => None,
        }
    }

    /// The command bound to keystroke `c` for the given member, with its
    /// placeholders substituted, or `None` when no command is configured.
    pub fn command_for_member(&self, c: char, member: &Member) -> (r: Option<String>)
        requires
            member@.ip_assignments.len() > 0,
        ensures
            match r {
                Some(s) => {
                    &&& bind_lookup(self@.member_commands, c) is Some
                    &&& s@ == subst(
                        bind_lookup(self@.member_commands, c).unwrap(),
                        member_binds(member@),
                    )
                },
                None => bind_lookup(self@.member_commands, c) is None,
            },
    {
        match lookup_binding(&self.member_commands, c) {
            Some(t) => {
                let binds: Vec<(char, String)> = vec![
                    ('n', member.network_id.clone()),
                    ('i', member.node_id.clone()),
                    ('N', member.name.clone()),
                    ('a', member.ip_assignments[0].clone()),
                ];
                proof {
                    assert(binds_view(binds@) =~= member_binds(member@));
                }
                Some(substitute(t.as_str(), &binds))
            },
            None => None,
        }
    }
}

} // verus!
