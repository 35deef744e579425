//! Hardware profile: CPU model and core count, total memory, the
//! block-device listing, and the system vendor and model strings, each read
//! from its own tool's output with an empty or zero default on failure.

use vstd::prelude::*;
use crate::text::{
    contains_str, has_sub, lines_of, parse_u32, parse_u64, parsed_u64, split_at_sep, split_lines,
    split_on_char, split_tokens, tokens_of, trim_str, trimmed,
};
use crate::tool::{plan0, plan1, plan_is, CommandPlan};

verus! {

/// The host's resolved hardware identity.
#[derive(Debug, Clone)]
pub struct HardwareProfile {
    pub cpu_model: String,
    pub cores: u32,
    pub total_ram_mb: u64,
    pub disk_info: Vec<String>,
    pub system_vendor: String,
    pub system_model: String,
}

/// The first line of `lines` in which `pat` occurs, if any.
pub open spec fn first_line_with(lines: Seq<Seq<char>>, pat: Seq<char>) -> Option<Seq<char>>
    decreases lines.len(),
{
    if lines.len() == 0 {
        None
    } else if has_sub(lines[0], pat) {
        Some(lines[0])
    } else {
        first_line_with(lines.drop_first(), pat)
    }
}

pub proof fn lemma_first_line_with_skip(lines: Seq<Seq<char>>, pat: Seq<char>, i: int)
    requires
        0 <= i <= lines.len(),
        forall|j: int| 0 <= j < i ==> !has_sub(lines[j], pat),
    ensures
        first_line_with(lines, pat) == first_line_with(lines.skip(i), pat),
    decreases i,
{
    if i == 0 {
        assert(lines.skip(0) =~= lines);
    } else {
        lemma_first_line_with_skip(lines, pat, i - 1);
        let tail = lines.skip(i - 1);
        assert(tail[0] == lines[i - 1]);
        assert(!has_sub(tail[0], pat));
        assert(tail.drop_first() =~= lines.skip(i));
        assert(first_line_with(tail, pat) == first_line_with(tail.drop_first(), pat));
    }
}

/// Find the first line of `out` in which `pat` occurs.
pub fn first_line_containing(out: &str, pat: &str) -> (r: Option<String>)
    ensures
        match r {
            Some(v) => first_line_with(lines_of(out@), pat@) == Some(v@),
            None => first_line_with(lines_of(out@), pat@) is None,
        },
{
    let lines = split_lines(out);
    let mut i: usize = 0;
    while i < lines.len()
        invariant
            i <= lines@.len(),
            lines.deep_view().len() == lines@.len(),
            lines.deep_view() == lines_of(out@),
            forall|j: int| 0 <= j < i ==> !has_sub(lines.deep_view()[j], pat@),
        decreases lines@.len() - i,
    {
        if contains_str(lines[i].as_str(), pat) {
            proof {
                lemma_first_line_with_skip(lines.deep_view(), pat@, i as int);
                assert(lines.deep_view().skip(i as int)[0] == lines.deep_view()[i as int]);
            }
            let v = lines[i].clone();
            return Some(v);
        }
        i += 1;
    }
    proof {
        lemma_first_line_with_skip(lines.deep_view(), pat@, lines@.len() as int);
        assert(lines.deep_view().skip(lines@.len() as int) =~= Seq::<Seq<char>>::empty());
    }
    None
}

/// What a `label: value` line yields: the trimmed text after the first
/// colon, or nothing at all when the line has no colon.
pub open spec fn field_after_colon(line: Seq<char>) -> Seq<char> {
    if split_at_sep(line, ':').len() >= 2 {
        trimmed(split_at_sep(line, ':')[1])
    } else {
        Seq::<char>::empty()
    }
}

/// The value of the first `label: value` line of `out` whose text carries
/// `pat`; empty when no line does, or the found line has no colon.
pub open spec fn labeled_field(s: Seq<char>, pat: Seq<char>) -> Seq<char> {
    match first_line_with(lines_of(s), pat) {
        Some(line) => field_after_colon(line),
        None => Seq::<char>::empty(),
    }
}

/// Extract the value of the first `label: value` line carrying `pat`.
pub fn labeled_field_value(out: &str, pat: &str) -> (r: String)
    ensures
        r@ == labeled_field(out@, pat@),
{
    match first_line_containing(out, pat) {
        Some(line) => {
            let fields = split_on_char(line.as_str(), ':');
            if fields.len() >= 2 {
                proof {
                    assert(fields.deep_view()[1] == split_at_sep(line@, ':')[1]);
                }
                trim_str(fields[1].as_str())
            } else {
                String::new()
            }
        },
        None => String::new(),
    }
}

/// The core count read from the counting tool's output: the trimmed output
/// as a number, zero when it does not parse or does not fit.
pub open spec fn core_count_of(s: Seq<char>) -> u32 {
    match parsed_u64(trimmed(s)) {
        Some(v) => if v <= u32::MAX as u64 {
            v as u32
        } else {
            0
        },
        None => 0,
    }
}

/// Parse the core count.
pub fn parse_core_count(out: &str) -> (r: u32)
    ensures
        r == core_count_of(out@),
{
    let t = trim_str(out);
    match parse_u32(t.as_str()) {
        Some(v) => v,
        None => 0,
    }
}

/// The total memory in megabytes read from the memory tool's output: the
/// second column of the second line, zero when absent or unparseable.
pub open spec fn total_ram_mb_of(s: Seq<char>) -> u64 {
    if lines_of(s).len() >= 2 && tokens_of(lines_of(s)[1]).len() >= 2 {
        match parsed_u64(tokens_of(lines_of(s)[1])[1]) {
            Some(v) => v,
            None => 0,
        }
    } else {
        0
    }
}

/// Parse the total memory in megabytes.
pub fn parse_total_ram_mb(out: &str) -> (r: u64)
    ensures
        r == total_ram_mb_of(out@),
{
    let lines = split_lines(out);
    if lines.len() >= 2 {
        proof {
            assert(lines.deep_view()[1] == lines_of(out@)[1]);
        }
        let toks = split_tokens(lines[1].as_str());
        if toks.len() >= 2 {
            proof {
                assert(toks.deep_view()[1] == tokens_of(lines_of(out@)[1])[1]);
            }
            match parse_u64(toks[1].as_str()) {
                Some(v) => v,
                None => 0,
            }
        } else {
            0
        }
    } else {
        0
    }
}

/// Compose the hardware profile from the five tools' raw outputs.
pub fn build_hardware_profile(
    cpu_out: &str,
    cores_out: &str,
    memory_out: &str,
    disks_out: &str,
    identity_out: &str,
) -> (r: HardwareProfile)
    ensures
        r.cpu_model@ == labeled_field(cpu_out@, "Model name"@),
        r.cores == core_count_of(cores_out@),
        r.total_ram_mb == total_ram_mb_of(memory_out@),
        r.disk_info.deep_view() == lines_of(disks_out@),
        r.system_vendor@ == labeled_field(identity_out@, "Vendor:"@),
        r.system_model@ == labeled_field(identity_out@, "Product Name:"@),
{
    HardwareProfile {
        cpu_model: labeled_field_value(cpu_out, "Model name"),
        cores: parse_core_count(cores_out),
        total_ram_mb: parse_total_ram_mb(memory_out),
        disk_info: split_lines(disks_out),
        system_vendor: labeled_field_value(identity_out, "Vendor:"),
        system_model: labeled_field_value(identity_out, "Product Name:"),
    }
}

/// The CPU identity query.
pub fn cpu_info_plan() -> (r: CommandPlan)
    ensures
        plan_is(r, "lscpu"@, Seq::<Seq<char>>::empty()),
{
    plan0("lscpu")
}

/// The core-count query.
pub fn core_count_plan() -> (r: CommandPlan)
    ensures
        plan_is(r, "nproc"@, Seq::<Seq<char>>::empty()),
{
    plan0("nproc")
}

/// The memory query, asking for megabytes.
pub fn memory_plan() -> (r: CommandPlan)
    ensures
        plan_is(r, "free"@, seq!["-m"@]),
{
    plan1("free", "-m")
}

/// The block-device listing query.
pub fn block_device_plan() -> (r: CommandPlan)
    ensures
        plan_is(r, "lsblk"@, Seq::<Seq<char>>::empty()),
{
    plan0("lsblk")
}

/// The vendor-and-model identity query.
pub fn system_identity_plan() -> (r: CommandPlan)
    ensures
        plan_is(r, "dmidecode"@, Seq::<Seq<char>>::empty()),
{
    plan0("dmidecode")
}

} // verus!
