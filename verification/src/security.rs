//! Security audit: firewall state, intrusion-prevention state, listening
//! ports and pending package updates, each probe tolerating failure
//! independently of the others.

use vstd::prelude::*;
use crate::text::{
    contains_str, has_sub, lines_of, parse_u16, parsed_u64, split_at_sep, split_lines,
    split_on_char, split_tokens, tokens_of,
};
use crate::tool::{plan1, plan_is, CommandPlan};

verus! {

/// The host's resolved security posture.
#[derive(Debug, Clone)]
pub struct SecurityRecord {
    pub firewall_enabled: bool,
    pub fail2ban_active: bool,
    pub open_ports: Vec<u16>,
    pub package_updates: Vec<String>,
}

/// Whether the firewall tool's output carries its "active" marker.
pub open spec fn firewall_on(s: Seq<char>) -> bool {
    has_sub(s, "Status: active"@)
}

/// Whether the intrusion-prevention tool's output carries its status
/// keyword.
pub open spec fn intrusion_guard_on(s: Seq<char>) -> bool {
    has_sub(s, "Status"@)
}

/// Read the firewall state from its status output; a missing tool hands in
/// empty output, which reads as disabled.
pub fn firewall_state(out: &str) -> (r: bool)
    ensures
        r == firewall_on(out@),
{
    contains_str(out, "Status: active")
}

/// Read the intrusion-prevention state from its status output.
pub fn intrusion_guard_state(out: &str) -> (r: bool)
    ensures
        r == intrusion_guard_on(out@),
{
    contains_str(out, "Status")
}

/// The port a socket-listing line contributes: the number after the last
/// colon of its fifth column, when that parses as a 16-bit port; an
/// unparseable line is discarded silently.
pub open spec fn port_of(line: Seq<char>) -> Option<u16> {
    if tokens_of(line).len() >= 5 {
        let addr = tokens_of(line)[4];
        let piece = split_at_sep(addr, ':').last();
        match parsed_u64(piece) {
            Some(v) => if v <= u16::MAX as u64 {
                Some(v as u16)
            } else {
                None
            },
            None => None,
        }
    } else {
        None
    }
}

/// The ports a socket listing yields, in line order.
pub open spec fn ports_of_lines(lines: Seq<Seq<char>>) -> Seq<u16>
    decreases lines.len(),
{
    if lines.len() == 0 {
        Seq::<u16>::empty()
    } else {
        let r = ports_of_lines(lines.drop_last());
        match port_of(lines.last()) {
            Some(p) => r.push(p),
            None => r,
        }
    }
}

pub open spec fn open_ports_of(s: Seq<char>) -> Seq<u16> {
    ports_of_lines(lines_of(s))
}

/// Parse the socket-listing tool's output into the listening ports.
pub fn parse_open_ports(out: &str) -> (r: Vec<u16>)
    ensures
        r@ == open_ports_of(out@),
{
    let lines = split_lines(out);
    let mut r: Vec<u16> = Vec::new();
    let mut i: usize = 0;
    proof {
        assert(lines.deep_view().take(0) =~= Seq::<Seq<char>>::empty());
        assert(r@ =~= Seq::<u16>::empty());
    }
    while i < lines.len()
        invariant
            i <= lines@.len(),
            lines.deep_view().len() == lines@.len(),
            lines.deep_view() == lines_of(out@),
            r@ == ports_of_lines(lines.deep_view().take(i as int)),
        decreases lines@.len() - i,
    {
        proof {
            assert(lines.deep_view().take(i + 1).drop_last() =~= lines.deep_view().take(i as int));
            assert(lines.deep_view().take(i + 1).last() == lines@[i as int]@);
        }
        let toks = split_tokens(lines[i].as_str());
        if toks.len() >= 5 {
            proof {
                assert(toks.deep_view()[4] == tokens_of(lines@[i as int]@)[4]);
            }
            let fields = split_on_char(toks[4].as_str(), ':');
            proof {
                crate::text::lemma_split_at_sep_len(toks@[4]@, ':');
                assert(fields.deep_view().last() == split_at_sep(
                    tokens_of(lines@[i as int]@)[4],
                    ':',
                ).last());
            }
            let last = fields.len() - 1;
            match parse_u16(fields[last].as_str()) {
                Some(p) => {
                    r.push(p);
                },
                None => {},
            }
        }
        i += 1;
    }
    proof {
        assert(lines.deep_view().take(lines@.len() as int) =~= lines.deep_view());
    }
    r
}

/// Compose the security record from the four probes' raw results.  Each
/// probe's failure shows as its default value and never blocks the others:
/// empty outputs read as a disabled firewall, an inactive guard and no
/// ports, and the update list is handed in as the platform probe resolved
/// it.
pub fn build_security_record(
    firewall_out: &str,
    intrusion_out: &str,
    sockets_out: &str,
    package_updates: Vec<String>,
) -> (r: SecurityRecord)
    ensures
        r.firewall_enabled == firewall_on(firewall_out@),
        r.fail2ban_active == intrusion_guard_on(intrusion_out@),
        r.open_ports@ == open_ports_of(sockets_out@),
        r.package_updates == package_updates,
{
    SecurityRecord {
        firewall_enabled: firewall_state(firewall_out),
        fail2ban_active: intrusion_guard_state(intrusion_out),
        open_ports: parse_open_ports(sockets_out),
        package_updates,
    }
}

/// The firewall status query.
pub fn firewall_plan() -> (r: CommandPlan)
    ensures
        plan_is(r, "ufw"@, seq!["status"@]),
{
    plan1("ufw", "status")
}

/// The intrusion-prevention status query.
pub fn intrusion_guard_plan() -> (r: CommandPlan)
    ensures
        plan_is(r, "fail2ban-client"@, seq!["status"@]),
{
    plan1("fail2ban-client", "status")
}

/// The listening-socket query.
pub fn socket_list_plan() -> (r: CommandPlan)
    ensures
        plan_is(r, "ss"@, seq!["-tuln"@]),
{
    plan1("ss", "-tuln")
}

} // verus!
