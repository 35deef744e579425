//! Network resolution: for each kernel-reported interface, the assigned
//! addresses are read from a primary tool's output, with a secondary legacy
//! tool as fallback whenever the primary yields nothing — unconditionally,
//! so a tool-absence failure and a genuinely empty address list are treated
//! alike.

use vstd::prelude::*;
use crate::text::{
    contains_str, has_sub, lemma_split_at_sep_len, lines_of, opt_text_view, split_at_sep,
    split_lines, split_on_char, split_tokens, tokens_of,
};
use crate::tool::{plan1, plan3, plan_is, CommandPlan};

verus! {

/// One interface's resolved facts.  The byte counters are cumulative since
/// interface initialization, not deltas.
#[derive(Debug, Clone)]
pub struct NetworkInterfaceRecord {
    pub name: String,
    pub ip_addresses: Vec<String>,
    pub rx_bytes: u64,
    pub tx_bytes: u64,
}

/// Whether a line of address-tool output carries an address marker.
pub open spec fn has_addr_marker(line: Seq<char>) -> bool {
    has_sub(line, "inet "@) || has_sub(line, "inet6 "@)
}

/// The address a primary-tool line contributes: its second token up to the
/// prefix-length slash, on lines carrying an address marker.
pub open spec fn primary_addr_of(line: Seq<char>) -> Option<Seq<char>> {
    if has_addr_marker(line) && tokens_of(line).len() >= 2 {
        Some(split_at_sep(tokens_of(line)[1], '/')[0])
    } else {
        None
    }
}

/// The addresses the primary tool's raw output yields, in line order.
pub open spec fn primary_addrs_of_lines(lines: Seq<Seq<char>>) -> Seq<Seq<char>>
    decreases lines.len(),
{
    if lines.len() == 0 {
        Seq::<Seq<char>>::empty()
    } else {
        let r = primary_addrs_of_lines(lines.drop_last());
        match primary_addr_of(lines.last()) {
            Some(a) => r.push(a),
            None => r,
        }
    }
}

pub open spec fn primary_addrs(s: Seq<char>) -> Seq<Seq<char>> {
    primary_addrs_of_lines(lines_of(s))
}

/// The address a secondary-tool line contributes: its second token as it
/// stands, on lines carrying an address marker.
pub open spec fn secondary_addr_of(line: Seq<char>) -> Option<Seq<char>> {
    if has_addr_marker(line) && tokens_of(line).len() >= 2 {
        Some(tokens_of(line)[1])
    } else {
        None
    }
}

/// The addresses the secondary tool's raw output yields, in line order.
pub open spec fn secondary_addrs_of_lines(lines: Seq<Seq<char>>) -> Seq<Seq<char>>
    decreases lines.len(),
{
    if lines.len() == 0 {
        Seq::<Seq<char>>::empty()
    } else {
        let r = secondary_addrs_of_lines(lines.drop_last());
        match secondary_addr_of(lines.last()) {
            Some(a) => r.push(a),
            None => r,
        }
    }
}

pub open spec fn secondary_addrs(s: Seq<char>) -> Seq<Seq<char>> {
    secondary_addrs_of_lines(lines_of(s))
}

/// Parse the primary tool's output for one interface.
pub fn parse_primary_addresses(out: &str) -> (r: Vec<String>)
    ensures
        r.deep_view() == primary_addrs(out@),
{
    let lines = split_lines(out);
    let mut r: Vec<String> = Vec::new();
    let mut i: usize = 0;
    proof {
        assert(lines.deep_view().take(0) =~= Seq::<Seq<char>>::empty());
        assert(r.deep_view() =~= Seq::<Seq<char>>::empty());
    }
    while i < lines.len()
        invariant
            i <= lines@.len(),
            lines.deep_view().len() == lines@.len(),
            lines.deep_view() == lines_of(out@),
            r.deep_view() == primary_addrs_of_lines(lines.deep_view().take(i as int)),
        decreases lines@.len() - i,
    {
        proof {
            assert(lines.deep_view().take(i + 1).drop_last() =~= lines.deep_view().take(i as int));
            assert(lines.deep_view().take(i + 1).last() == lines@[i as int]@);
        }
        let line = lines[i].as_str();
        if contains_str(line, "inet ") || contains_str(line, "inet6 ") {
            let toks = split_tokens(line);
            if toks.len() >= 2 {
                proof {
                    assert(toks.deep_view()[1] == tokens_of(lines@[i as int]@)[1]);
                }
                let fields = split_on_char(toks[1].as_str(), '/');
                proof {
                    lemma_split_at_sep_len(toks@[1]@, '/');
                    assert(fields.deep_view()[0] == split_at_sep(tokens_of(lines@[i as int]@)[1], '/')[0]);
                }
                let ghost prev = r.deep_view();
                let addr = fields[0].clone();
                r.push(addr);
                proof {
                    assert(r.deep_view() =~= prev.push(
                        split_at_sep(tokens_of(lines@[i as int]@)[1], '/')[0],
                    ));
                }
            }
        }
        i += 1;
    }
    proof {
        assert(lines.deep_view().take(lines@.len() as int) =~= lines.deep_view());
    }
    r
}

/// Parse the secondary (legacy) tool's output for one interface.
pub fn parse_secondary_addresses(out: &str) -> (r: Vec<String>)
    ensures
        r.deep_view() == secondary_addrs(out@),
{
    let lines = split_lines(out);
    let mut r: Vec<String> = Vec::new();
    let mut i: usize = 0;
    proof {
        assert(lines.deep_view().take(0) =~= Seq::<Seq<char>>::empty());
        assert(r.deep_view() =~= Seq::<Seq<char>>::empty());
    }
    while i < lines.len()
        invariant
            i <= lines@.len(),
            lines.deep_view().len() == lines@.len(),
            lines.deep_view() == lines_of(out@),
            r.deep_view() == secondary_addrs_of_lines(lines.deep_view().take(i as int)),
        decreases lines@.len() - i,
    {
        proof {
            assert(lines.deep_view().take(i + 1).drop_last() =~= lines.deep_view().take(i as int));
            assert(lines.deep_view().take(i + 1).last() == lines@[i as int]@);
        }
        let line = lines[i].as_str();
        if contains_str(line, "inet ") || contains_str(line, "inet6 ") {
            let toks = split_tokens(line);
            if toks.len() >= 2 {
                proof {
                    assert(toks.deep_view()[1] == tokens_of(lines@[i as int]@)[1]);
                }
                let ghost prev = r.deep_view();
                let addr = toks[1].clone();
                r.push(addr);
                proof {
                    assert(r.deep_view() =~= prev.push(tokens_of(lines@[i as int]@)[1]));
                }
            }
        }
        i += 1;
    }
    proof {
        assert(lines.deep_view().take(lines@.len() as int) =~= lines.deep_view());
    }
    r
}

/// What the two-tier strategy resolves for one interface: the primary
/// tool's addresses when it yielded any, else whatever the secondary
/// yielded, else nothing.
pub open spec fn resolved_addrs(primary: Seq<char>, secondary: Option<Seq<char>>) -> Seq<
    Seq<char>,
> {
    if primary_addrs(primary).len() > 0 {
        primary_addrs(primary)
    } else {
        match secondary {
            Some(s) => secondary_addrs(s),
            None => Seq::<Seq<char>>::empty(),
        }
    }
}

/// The fallback law: whenever the primary tool reports at least one
/// address, the resolution is the primary parse alone, whatever the
/// secondary tool would have said — so the secondary need never be invoked
/// for that interface.
pub proof fn lemma_primary_sufficient(
    primary: Seq<char>,
    sec_a: Option<Seq<char>>,
    sec_b: Option<Seq<char>>,
)
    requires
        primary_addrs(primary).len() >= 1,
    ensures
        resolved_addrs(primary, sec_a) == primary_addrs(primary),
        resolved_addrs(primary, sec_a) == resolved_addrs(primary, sec_b),
{
}

/// Resolve one interface's addresses from the primary tool's output and,
/// where one was taken, the secondary tool's.  The caller consults the
/// secondary tool only when the primary parse is empty; handing in `None`
/// after a non-empty primary parse loses nothing, by
/// `lemma_primary_sufficient`.
pub fn resolve_interface_addresses(primary_out: &str, secondary_out: Option<&str>) -> (r: Vec<
    String,
>)
    ensures
        r.deep_view() == resolved_addrs(primary_out@, opt_text_view(secondary_out)),
{
    let primary = parse_primary_addresses(primary_out);
    if primary.len() > 0 {
        proof {
            assert(primary.deep_view().len() == primary@.len());
        }
        return primary;
    }
    proof {
        assert(primary.deep_view().len() == primary@.len());
    }
    match secondary_out {
        Some(s) => parse_secondary_addresses(s),
        None => {
            let r: Vec<String> = Vec::new();
            proof {
                assert(r.deep_view() =~= Seq::<Seq<char>>::empty());
            }
            r
        },
    }
}

/// Assemble one interface's record from its name, the address-tool outputs
/// and the kernel's byte counters.
pub fn build_interface_record(
    name: &str,
    primary_out: &str,
    secondary_out: Option<&str>,
    rx_bytes: u64,
    tx_bytes: u64,
) -> (r: NetworkInterfaceRecord)
    ensures
        r.name@ == name@,
        r.ip_addresses.deep_view() == resolved_addrs(primary_out@, opt_text_view(secondary_out)),
        r.rx_bytes == rx_bytes,
        r.tx_bytes == tx_bytes,
{
    NetworkInterfaceRecord {
        name: name.to_owned(),
        ip_addresses: resolve_interface_addresses(primary_out, secondary_out),
        rx_bytes,
        tx_bytes,
    }
}

/// The primary address query for one interface.
pub fn primary_address_plan(interface: &str) -> (r: CommandPlan)
    ensures
        plan_is(r, "ip"@, seq!["addr"@, "show"@, interface@]),
{
    plan3("ip", "addr", "show", interface)
}

/// The secondary (legacy) address query for one interface.
pub fn secondary_address_plan(interface: &str) -> (r: CommandPlan)
    ensures
        plan_is(r, "ifconfig"@, seq![interface@]),
{
    plan1("ifconfig", interface)
}

} // verus!
