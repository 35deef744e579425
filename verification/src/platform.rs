//! Platform detection: which package manager and which service-supervision
//! style the host presents, and the manager-specific rules for listing
//! pending package updates.

use vstd::prelude::*;
use crate::text::{
    has_prefix, lines_of, split_lines, starts_with_str,
};
use crate::tool::{plan1, plan2, plan_is, CommandPlan};

verus! {

/// The package managers the engine knows, plus `Unknown` when none of them
/// is present.
#[derive(Debug, Clone, Copy, PartialEq, Eq, Structural)]
pub enum PackageManager {
    Apt,
    Yum,
    Dnf,
    Pacman,
    Zypper,
    Unknown,
}

/// The service-supervision styles the engine knows how to query.
#[derive(Debug, Clone, Copy, PartialEq, Eq, Structural)]
pub enum ServiceStyle {
    Unit,
    Script,
    Bsd,
}

/// The manager selected by the fixed priority order over the five
/// existence checks: the first manager whose check succeeded, `Unknown`
/// when none did.
pub open spec fn chosen_manager(
    apt: bool,
    yum: bool,
    dnf: bool,
    pacman: bool,
    zypper: bool,
) -> PackageManager {
    if apt {
        PackageManager::Apt
    } else if yum {
        PackageManager::Yum
    } else if dnf {
        PackageManager::Dnf
    } else if pacman {
        PackageManager::Pacman
    } else if zypper {
        PackageManager::Zypper
    } else {
        PackageManager::Unknown
    }
}

/// The candidate package managers, in the fixed priority order in which
/// their existence is probed.
pub fn manager_candidates() -> (r: Vec<String>)
    ensures
        r.deep_view() == seq!["apt"@, "yum"@, "dnf"@, "pacman"@, "zypper"@],
{
    let mut r: Vec<String> = Vec::new();
    r.push("apt".to_owned());
    r.push("yum".to_owned());
    r.push("dnf".to_owned());
    r.push("pacman".to_owned());
    r.push("zypper".to_owned());
    proof {
        assert(r.deep_view() =~= seq!["apt"@, "yum"@, "dnf"@, "pacman"@, "zypper"@]);
    }
    r
}

/// Select the package manager from the five existence-check results, in
/// the fixed priority order apt, yum, dnf, pacman, zypper.
pub fn select_package_manager(
    apt: bool,
    yum: bool,
    dnf: bool,
    pacman: bool,
    zypper: bool,
) -> (m: PackageManager)
    ensures
        m == chosen_manager(apt, yum, dnf, pacman, zypper),
{
    if apt {
        PackageManager::Apt
    } else if yum {
        PackageManager::Yum
    } else if dnf {
        PackageManager::Dnf
    } else if pacman {
        PackageManager::Pacman
    } else if zypper {
        PackageManager::Zypper
    } else {
        PackageManager::Unknown
    }
}

/// The supervision style chosen from the two tool-existence results:
/// unit-based tooling is preferred, then script-based, then the BSD-style
/// fallback.
pub open spec fn chosen_style(unit_tool: bool, script_tool: bool) -> ServiceStyle {
    if unit_tool {
        ServiceStyle::Unit
    } else if script_tool {
        ServiceStyle::Script
    } else {
        ServiceStyle::Bsd
    }
}

/// Select the service-supervision style once per collection cycle, so that
/// every consumer of the cycle sees the same choice.
pub fn select_service_style(unit_tool: bool, script_tool: bool) -> (s: ServiceStyle)
    ensures
        s == chosen_style(unit_tool, script_tool),
{
    if unit_tool {
        ServiceStyle::Unit
    } else if script_tool {
        ServiceStyle::Script
    } else {
        ServiceStyle::Bsd
    }
}

/// The preparatory command a manager needs before its update listing can
/// be read, where one is needed at all.
pub fn update_refresh_plan(m: PackageManager) -> (r: Option<CommandPlan>)
    ensures
        match r {
            Some(p) => m == PackageManager::Apt && plan_is(p, "apt"@, seq!["update"@]),
            None => m != PackageManager::Apt,
        },
{
    match m {
        PackageManager::Apt => Some(plan1("apt", "update")),
        _ => None,
    }
}

/// The command whose output lists pending updates for `m`; `Unknown` has
/// none, and its update list is empty by rule.
pub fn update_list_plan(m: PackageManager) -> (r: Option<CommandPlan>)
    ensures
        match r {
            Some(p) => match m {
                PackageManager::Apt => plan_is(p, "apt"@, seq!["list"@, "--upgradable"@]),
                PackageManager::Yum => plan_is(p, "yum"@, seq!["check-update"@]),
                PackageManager::Dnf => plan_is(p, "dnf"@, seq!["check-update"@]),
                PackageManager::Pacman => plan_is(p, "pacman"@, seq!["-Qu"@]),
                PackageManager::Zypper => plan_is(p, "zypper"@, seq!["list-updates"@]),
                PackageManager::Unknown => false,
            },
            None => m == PackageManager::Unknown,
        },
{
    match m {
        PackageManager::Apt => Some(plan2("apt", "list", "--upgradable")),
        PackageManager::Yum => Some(plan1("yum", "check-update")),
        PackageManager::Dnf => Some(plan1("dnf", "check-update")),
        PackageManager::Pacman => Some(plan1("pacman", "-Qu")),
        PackageManager::Zypper => Some(plan1("zypper", "list-updates")),
        PackageManager::Unknown => None,
    }
}

/// Whether `m`'s line filter keeps `line` of the update listing.  The
/// managers differ structurally: some prefix their listing with noise that
/// must be dropped, and blank lines are dropped with it.
pub open spec fn keeps_update_line(m: PackageManager, line: Seq<char>) -> bool {
    match m {
        PackageManager::Apt => true,
        PackageManager::Yum => !has_prefix(line, "Loaded plugins:"@) && line.len() > 0,
        PackageManager::Dnf => !has_prefix(line, "Last metadata"@) && line.len() > 0,
        PackageManager::Pacman => true,
        PackageManager::Zypper => !has_prefix(line, "S"@) && line.len() > 0,
        PackageManager::Unknown => false,
    }
}

/// The lines kept by `m`'s filter, in order.
pub open spec fn kept_update_lines(m: PackageManager, lines: Seq<Seq<char>>) -> Seq<Seq<char>>
    decreases lines.len(),
{
    if lines.len() == 0 {
        Seq::<Seq<char>>::empty()
    } else {
        let r = kept_update_lines(m, lines.drop_last());
        if keeps_update_line(m, lines.last()) {
            r.push(lines.last())
        } else {
            r
        }
    }
}

/// What the update listing of `m` normalizes to on raw output `s`: apt
/// drops the listing's first line, the filtering managers keep the lines
/// their rule admits, and `Unknown` yields nothing.
pub open spec fn update_lines(m: PackageManager, s: Seq<char>) -> Seq<Seq<char>> {
    match m {
        PackageManager::Apt => if lines_of(s).len() == 0 {
            Seq::<Seq<char>>::empty()
        } else {
            lines_of(s).drop_first()
        },
        PackageManager::Unknown => Seq::<Seq<char>>::empty(),
        _ => kept_update_lines(m, lines_of(s)),
    }
}

/// Normalize the raw update-listing output of `m` into the pending-update
/// lines.  An unknown manager yields an empty list, never an error.
pub fn filter_update_lines(m: PackageManager, out: &str) -> (r: Vec<String>)
    ensures
        r.deep_view() == update_lines(m, out@),
{
    let lines = split_lines(out);
    let mut r: Vec<String> = Vec::new();
    proof {
        assert(r.deep_view() =~= Seq::<Seq<char>>::empty());
    }
    match m {
        PackageManager::Unknown => r,
        PackageManager::Apt => {
            if lines.len() == 0 {
                return r;
            }
            let mut i: usize = 1;
            while i < lines.len()
                invariant
                    1 <= i <= lines@.len(),
                    lines.deep_view().len() == lines@.len(),
                    r.deep_view() =~= lines.deep_view().subrange(1, i as int),
                decreases lines@.len() - i,
            {
                let ghost prev = r.deep_view();
                let line = lines[i].clone();
                proof {
                    assert(line@ == lines.deep_view()[i as int]);
                }
                r.push(line);
                proof {
                    assert(r.deep_view() =~= prev.push(lines.deep_view()[i as int]));
                    assert(prev.push(lines.deep_view()[i as int]) =~= lines.deep_view().subrange(
                        1,
                        i + 1,
                    ));
                }
                i += 1;
            }
            proof {
                assert(lines.deep_view().subrange(1, lines@.len() as int) =~= lines.deep_view()
                    .drop_first());
            }
            r
        },
        _ => {
            let mut i: usize = 0;
            proof {
                assert(lines.deep_view().take(0) =~= Seq::<Seq<char>>::empty());
            }
            while i < lines.len()
                invariant
                    i <= lines@.len(),
                    lines.deep_view().len() == lines@.len(),
                    r.deep_view() == kept_update_lines(m, lines.deep_view().take(i as int)),
                    m != PackageManager::Unknown,
                    m != PackageManager::Apt,
                decreases lines@.len() - i,
            {
                proof {
                    assert(lines.deep_view().take(i + 1).drop_last() =~= lines.deep_view().take(
                        i as int,
                    ));
                    assert(lines.deep_view().take(i + 1).last() == lines@[i as int]@);
                }
                let keep = match m {
                    PackageManager::Yum => !starts_with_str(lines[i].as_str(), "Loaded plugins:")
                        && lines[i].as_str().unicode_len() > 0,
                    PackageManager::Dnf => !starts_with_str(lines[i].as_str(), "Last metadata")
                        && lines[i].as_str().unicode_len() > 0,
                    PackageManager::Zypper => !starts_with_str(lines[i].as_str(), "S")
                        && lines[i].as_str().unicode_len() > 0,
                    _ => true,
                };
                if keep {
                    let line = lines[i].clone();
                    r.push(line);
                }
                i += 1;
            }
            proof {
                assert(lines.deep_view().take(lines@.len() as int) =~= lines.deep_view());
            }
            r
        },
    }
}

/// The selection law of the platform probe: the chosen manager is the
/// first of the priority order whose existence check succeeded, exactly
/// one manager is ever chosen, and when no check succeeded the choice is
/// `Unknown` and its pending-update list is empty on every output.
pub proof fn lemma_manager_selection(
    apt: bool,
    yum: bool,
    dnf: bool,
    pacman: bool,
    zypper: bool,
    out: Seq<char>,
)
    ensures
        apt ==> chosen_manager(apt, yum, dnf, pacman, zypper) == PackageManager::Apt,
        !apt && yum ==> chosen_manager(apt, yum, dnf, pacman, zypper) == PackageManager::Yum,
        !apt && !yum && dnf ==> chosen_manager(apt, yum, dnf, pacman, zypper)
            == PackageManager::Dnf,
        !apt && !yum && !dnf && pacman ==> chosen_manager(apt, yum, dnf, pacman, zypper)
            == PackageManager::Pacman,
        !apt && !yum && !dnf && !pacman && zypper ==> chosen_manager(
            apt,
            yum,
            dnf,
            pacman,
            zypper,
        ) == PackageManager::Zypper,
        !apt && !yum && !dnf && !pacman && !zypper ==> chosen_manager(
            apt,
            yum,
            dnf,
            pacman,
            zypper,
        ) == PackageManager::Unknown && update_lines(
            chosen_manager(apt, yum, dnf, pacman, zypper),
            out,
        ) == Seq::<Seq<char>>::empty(),
{
}

} // verus!
