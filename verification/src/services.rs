//! Service inventory: enumerating the services the host's supervision style
//! knows, and resolving each one's activity, enablement and version through
//! the per-service fallback chains.

use vstd::prelude::*;
use crate::platform::ServiceStyle;
use crate::text::{
    contains_str, has_sub, lemma_lines_nonempty, lines_of, split_lines, split_on_char,
    split_tokens, str_eq, tokens_of, trim_str, trimmed, lemma_split_at_sep_len, split_at_sep,
};
use crate::tool::{plan1, plan2, plan3, plan_is, CommandPlan, ToolOutput};

verus! {

/// What one alias reported: the two flags are independent, so a service can
/// be enabled-but-inactive or active-but-unmanaged.
#[derive(Debug, Clone, Copy, PartialEq, Eq, Structural)]
pub struct ServiceStatus {
    pub active: bool,
    pub enabled: bool,
}

/// One fully resolved service of the inventory.
#[derive(Debug, Clone)]
pub struct ServiceRecord {
    pub name: String,
    pub active: bool,
    pub enabled: bool,
    pub version: Option<String>,
}

/// An alias counts as a hit when it reports either flag.
pub open spec fn status_hit(st: ServiceStatus) -> bool {
    st.active || st.enabled
}

/// The position of the first alias that reported either flag, if any.
pub open spec fn first_hit(sts: Seq<ServiceStatus>) -> Option<int>
    decreases sts.len(),
{
    if sts.len() == 0 {
        None
    } else if status_hit(sts[0]) {
        Some(0)
    } else {
        match first_hit(sts.drop_first()) {
            Some(i) => Some(i + 1),
            None => None,
        }
    }
}

pub proof fn lemma_first_hit_skip(sts: Seq<ServiceStatus>, i: int)
    requires
        0 <= i <= sts.len(),
        forall|j: int| 0 <= j < i ==> !status_hit(sts[j]),
    ensures
        first_hit(sts) == match first_hit(sts.skip(i)) {
            Some(k) => Some(i + k),
            None => None::<int>,
        },
    decreases i,
{
    if i == 0 {
        assert(sts.skip(0) =~= sts);
        assert(first_hit(sts) == match first_hit(sts) {
            Some(k) => Some(0 + k),
            None => None::<int>,
        });
    } else {
        lemma_first_hit_skip(sts, i - 1);
        let tail = sts.skip(i - 1);
        assert(tail[0] == sts[i - 1]);
        assert(!status_hit(tail[0]));
        assert(tail.drop_first() =~= sts.skip(i));
    }
}

/// The alias-chain law: the resolved status is that of the first alias that
/// reported either flag, and only when every alias reported neither flag is
/// the chain exhausted.
pub proof fn lemma_alias_chain(sts: Seq<ServiceStatus>)
    ensures
        (first_hit(sts) is None) <==> (forall|j: int|
            0 <= j < sts.len() ==> !sts[j].active && !sts[j].enabled),
        match first_hit(sts) {
            Some(i) => 0 <= i < sts.len() && (sts[i].active || sts[i].enabled) && (forall|j: int|
                0 <= j < i ==> !sts[j].active && !sts[j].enabled),
            None => true,
        },
    decreases sts.len(),
{
    if sts.len() > 0 {
        let rest = sts.drop_first();
        lemma_alias_chain(rest);
        assert(forall|j: int| 0 <= j < rest.len() ==> rest[j] == sts[j + 1]);
        if status_hit(sts[0]) {
            assert(first_hit(sts) == Some(0int));
        } else {
            match first_hit(rest) {
                Some(i) => {
                    assert(first_hit(sts) == Some(i + 1));
                    assert(sts[i + 1] == rest[i]);
                    assert forall|j: int| 0 <= j < i + 1 implies !sts[j].active
                        && !sts[j].enabled by {
                        if j > 0 {
                            assert(sts[j] == rest[j - 1]);
                        }
                    }
                },
                None => {
                    assert(first_hit(sts) is None);
                    assert forall|j: int| 0 <= j < sts.len() implies !sts[j].active
                        && !sts[j].enabled by {
                        if j > 0 {
                            assert(sts[j] == rest[j - 1]);
                        }
                    }
                },
            }
        }
    }
}

/// Resolve a service's status through its alias chain: the status of the
/// first alias that reports active or enabled, or `(false, false)` when no
/// alias reports anything.
pub fn resolve_service_status(statuses: &Vec<ServiceStatus>) -> (r: ServiceStatus)
    ensures
        match first_hit(statuses@) {
            Some(i) => r == statuses@[i],
            None => r == (ServiceStatus { active: false, enabled: false }),
        },
{
    let mut i: usize = 0;
    while i < statuses.len()
        invariant
            i <= statuses@.len(),
            forall|j: int| 0 <= j < i ==> !status_hit(statuses@[j]),
        decreases statuses@.len() - i,
    {
        let st = statuses[i];
        if st.active || st.enabled {
            proof {
                lemma_first_hit_skip(statuses@, i as int);
                assert(statuses@.skip(i as int)[0] == statuses@[i as int]);
            }
            return st;
        }
        i += 1;
    }
    proof {
        lemma_first_hit_skip(statuses@, statuses@.len() as int);
        assert(statuses@.skip(statuses@.len() as int) =~= Seq::<ServiceStatus>::empty());
    }
    ServiceStatus { active: false, enabled: false }
}

/// The package-dependent binary names under which a logical service may be
/// known, tried in this order.
pub open spec fn alias_names(service: Seq<char>) -> Seq<Seq<char>> {
    if service == "mysql"@ {
        seq!["mysql"@, "mariadb"@, "mysqld"@]
    } else if service == "redis"@ {
        seq!["redis"@, "redis-server"@]
    } else if service == "nginx"@ {
        seq!["nginx"@, "nginx-main"@]
    } else {
        seq![service]
    }
}

/// The alias chain of `service`.
pub fn service_aliases(service: &str) -> (r: Vec<String>)
    ensures
        r.deep_view() == alias_names(service@),
{
    let mut r: Vec<String> = Vec::new();
    if str_eq(service, "mysql") {
        r.push("mysql".to_owned());
        r.push("mariadb".to_owned());
        r.push("mysqld".to_owned());
        proof {
            assert(r.deep_view() =~= alias_names(service@));
        }
    } else if str_eq(service, "redis") {
        r.push("redis".to_owned());
        r.push("redis-server".to_owned());
        proof {
            assert(r.deep_view() =~= alias_names(service@));
        }
    } else if str_eq(service, "nginx") {
        r.push("nginx".to_owned());
        r.push("nginx-main".to_owned());
        proof {
            assert(r.deep_view() =~= alias_names(service@));
        }
    } else {
        r.push(service.to_owned());
        proof {
            assert(r.deep_view() =~= alias_names(service@));
        }
    }
    r
}

/// Whether the activity query's output reports an active service, by the
/// style's own marker.
pub open spec fn style_active(style: ServiceStyle, out: Seq<char>) -> bool {
    match style {
        ServiceStyle::Unit => trimmed(out) == "active"@,
        ServiceStyle::Script => has_sub(out, "running"@),
        ServiceStyle::Bsd => has_sub(out, "running"@),
    }
}

/// Whether the enablement query's output reports an enabled service, by the
/// style's own marker.
pub open spec fn style_enabled(style: ServiceStyle, out: Seq<char>) -> bool {
    match style {
        ServiceStyle::Unit => trimmed(out) == "enabled"@,
        ServiceStyle::Script => has_sub(out, "on"@),
        ServiceStyle::Bsd => has_sub(out, "default"@),
    }
}

/// Read one alias's status from the raw outputs of its two queries.  A
/// missing tool hands in empty output, which reports neither flag.
pub fn status_from_outputs(style: ServiceStyle, active_out: &str, enabled_out: &str) -> (r:
    ServiceStatus)
    ensures
        r.active == style_active(style, active_out@),
        r.enabled == style_enabled(style, enabled_out@),
{
    match style {
        ServiceStyle::Unit => {
            let ta = trim_str(active_out);
            let te = trim_str(enabled_out);
            ServiceStatus {
                active: str_eq(ta.as_str(), "active"),
                enabled: str_eq(te.as_str(), "enabled"),
            }
        },
        ServiceStyle::Script => ServiceStatus {
            active: contains_str(active_out, "running"),
            enabled: contains_str(enabled_out, "on"),
        },
        ServiceStyle::Bsd => ServiceStatus {
            active: contains_str(active_out, "running"),
            enabled: contains_str(enabled_out, "default"),
        },
    }
}

/// The two queries that read one alias's status under `style`: the activity
/// query first, the enablement query second.
pub fn status_query_plans(style: ServiceStyle, alias: &str) -> (r: (CommandPlan, CommandPlan))
    ensures
        match style {
            ServiceStyle::Unit => plan_is(r.0, "systemctl"@, seq!["is-active"@, alias@])
                && plan_is(r.1, "systemctl"@, seq!["is-enabled"@, alias@]),
            ServiceStyle::Script => plan_is(r.0, "service"@, seq![alias@, "status"@]) && plan_is(
                r.1,
                "chkconfig"@,
                seq!["--list"@, alias@],
            ),
            ServiceStyle::Bsd => r.0.program@ == "/etc/rc.d/"@ + alias@ && r.0.args.deep_view()
                == seq!["status"@] && plan_is(r.1, "rc-update"@, seq!["show"@, alias@]),
        },
{
    match style {
        ServiceStyle::Unit => (
            plan2("systemctl", "is-active", alias),
            plan2("systemctl", "is-enabled", alias),
        ),
        ServiceStyle::Script => (
            plan2("service", alias, "status"),
            plan2("chkconfig", "--list", alias),
        ),
        ServiceStyle::Bsd => {
            let mut program = "/etc/rc.d/".to_owned();
            program.append(alias);
            let mut args: Vec<String> = Vec::new();
            args.push("status".to_owned());
            let p0 = CommandPlan { program, args };
            proof {
                assert(p0.args.deep_view() =~= seq!["status"@]);
            }
            (p0, plan2("rc-update", "show", alias))
        },
    }
}

/// The command whose output enumerates candidate service names under
/// `style`: the service manager's own listing for unit-based hosts, a
/// listing of the service-definition directory otherwise.
pub fn service_list_plan(style: ServiceStyle) -> (r: CommandPlan)
    ensures
        match style {
            ServiceStyle::Unit => plan_is(
                r,
                "systemctl"@,
                seq!["list-units"@, "--type=service"@, "--state=loaded"@],
            ),
            ServiceStyle::Script => plan_is(r, "ls"@, seq!["/etc/init.d/"@]),
            ServiceStyle::Bsd => plan_is(r, "ls"@, seq!["/etc/rc.d/"@]),
        },
{
    match style {
        ServiceStyle::Unit => plan3("systemctl", "list-units", "--type=service", "--state=loaded"),
        ServiceStyle::Script => plan1("ls", "/etc/init.d/"),
        ServiceStyle::Bsd => plan1("ls", "/etc/rc.d/"),
    }
}

/// The candidate name a unit-listing line contributes: its first token,
/// kept only when that token names no template instance (no `@`).
pub open spec fn unit_name_of(line: Seq<char>) -> Option<Seq<char>> {
    if tokens_of(line).len() > 0 && !has_sub(tokens_of(line)[0], "@"@) {
        Some(tokens_of(line)[0])
    } else {
        None
    }
}

/// The candidate names of a unit listing, in line order.
pub open spec fn unit_service_names(lines: Seq<Seq<char>>) -> Seq<Seq<char>>
    decreases lines.len(),
{
    if lines.len() == 0 {
        Seq::<Seq<char>>::empty()
    } else {
        let r = unit_service_names(lines.drop_last());
        match unit_name_of(lines.last()) {
            Some(n) => r.push(n),
            None => r,
        }
    }
}

/// Enumerate candidate service names from the unit listing's output.
pub fn parse_unit_service_names(out: &str) -> (r: Vec<String>)
    ensures
        r.deep_view() == unit_service_names(lines_of(out@)),
{
    let lines = split_lines(out);
    let mut r: Vec<String> = Vec::new();
    let mut i: usize = 0;
    proof {
        assert(lines.deep_view().take(0) =~= Seq::<Seq<char>>::empty());
        assert(r.deep_view() =~= Seq::<Seq<char>>::empty());
    }
    while i < lines.len()
        invariant
            i <= lines@.len(),
            lines.deep_view().len() == lines@.len(),
            lines.deep_view() == lines_of(out@),
            r.deep_view() == unit_service_names(lines.deep_view().take(i as int)),
        decreases lines@.len() - i,
    {
        proof {
            assert(lines.deep_view().take(i + 1).drop_last() =~= lines.deep_view().take(i as int));
            assert(lines.deep_view().take(i + 1).last() == lines@[i as int]@);
        }
        let toks = split_tokens(lines[i].as_str());
        if toks.len() > 0 {
            proof {
                assert(toks.deep_view()[0] == tokens_of(lines@[i as int]@)[0]);
            }
            if !contains_str(toks[0].as_str(), "@") {
                let ghost prev = r.deep_view();
                let name = toks[0].clone();
                r.push(name);
                proof {
                    assert(r.deep_view() =~= prev.push(tokens_of(lines@[i as int]@)[0]));
                }
            }
        }
        i += 1;
    }
    proof {
        assert(lines.deep_view().take(lines@.len() as int) =~= lines.deep_view());
    }
    r
}

/// The candidate name a directory-listing line contributes: the trimmed
/// line, kept only when something is left.
pub open spec fn dir_name_of(line: Seq<char>) -> Option<Seq<char>> {
    if trimmed(line).len() > 0 {
        Some(trimmed(line))
    } else {
        None
    }
}

/// The candidate names of a service-directory listing, in line order.
pub open spec fn dir_service_names(lines: Seq<Seq<char>>) -> Seq<Seq<char>>
    decreases lines.len(),
{
    if lines.len() == 0 {
        Seq::<Seq<char>>::empty()
    } else {
        let r = dir_service_names(lines.drop_last());
        match dir_name_of(lines.last()) {
            Some(n) => r.push(n),
            None => r,
        }
    }
}

/// Enumerate candidate service names from a service-directory listing.
pub fn parse_dir_service_names(out: &str) -> (r: Vec<String>)
    ensures
        r.deep_view() == dir_service_names(lines_of(out@)),
{
    let lines = split_lines(out);
    let mut r: Vec<String> = Vec::new();
    let mut i: usize = 0;
    proof {
        assert(lines.deep_view().take(0) =~= Seq::<Seq<char>>::empty());
        assert(r.deep_view() =~= Seq::<Seq<char>>::empty());
    }
    while i < lines.len()
        invariant
            i <= lines@.len(),
            lines.deep_view().len() == lines@.len(),
            lines.deep_view() == lines_of(out@),
            r.deep_view() == dir_service_names(lines.deep_view().take(i as int)),
        decreases lines@.len() - i,
    {
        proof {
            assert(lines.deep_view().take(i + 1).drop_last() =~= lines.deep_view().take(i as int));
            assert(lines.deep_view().take(i + 1).last() == lines@[i as int]@);
        }
        let t = trim_str(lines[i].as_str());
        if t.as_str().unicode_len() > 0 {
            let ghost prev = r.deep_view();
            r.push(t);
            proof {
                assert(r.deep_view() =~= prev.push(trimmed(lines@[i as int]@)));
            }
        }
        i += 1;
    }
    proof {
        assert(lines.deep_view().take(lines@.len() as int) =~= lines.deep_view());
    }
    r
}

/// The binary name a service's version is asked of: the service name up to
/// its first dot.
pub open spec fn base_command(service: Seq<char>) -> Seq<char> {
    split_at_sep(service, '.')[0]
}

/// The five version invocations tried for a service, in order: the base
/// name with `--version`, `-v` and `-V`, then the `-server` and `-cli`
/// variants with `--version`.
pub fn version_attempt_plans(service: &str) -> (r: Vec<CommandPlan>)
    ensures
        r@.len() == 5,
        r@[0].program@ == base_command(service@) && r@[0].args.deep_view() == seq!["--version"@],
        r@[1].program@ == base_command(service@) && r@[1].args.deep_view() == seq!["-v"@],
        r@[2].program@ == base_command(service@) && r@[2].args.deep_view() == seq!["-V"@],
        r@[3].program@ == base_command(service@) + "-server"@ && r@[3].args.deep_view() == seq![
            "--version"@,
        ],
        r@[4].program@ == base_command(service@) + "-cli"@ && r@[4].args.deep_view() == seq![
            "--version"@,
        ],
{
    let segs = split_on_char(service, '.');
    proof {
        lemma_split_at_sep_len(service@, '.');
        assert(segs.deep_view()[0] == base_command(service@));
    }
    let base = segs[0].clone();
    let mut server_name = base.clone();
    server_name.append("-server");
    let mut cli_name = base.clone();
    cli_name.append("-cli");
    let mut r: Vec<CommandPlan> = Vec::new();
    r.push(plan1(base.as_str(), "--version"));
    r.push(plan1(base.as_str(), "-v"));
    r.push(plan1(base.as_str(), "-V"));
    r.push(plan1(server_name.as_str(), "--version"));
    r.push(plan1(cli_name.as_str(), "--version"));
    r
}

/// The version one attempt yields: the first line of its standard output
/// when that is non-empty, else the first line of its standard error when
/// that is non-empty, else nothing.
pub open spec fn version_pick(stdout: Seq<char>, stderr: Seq<char>) -> Option<Seq<char>> {
    if stdout.len() > 0 {
        Some(lines_of(stdout)[0])
    } else if stderr.len() > 0 {
        Some(lines_of(stderr)[0])
    } else {
        None
    }
}

/// Read one attempt's outcome, standard output before standard error.
pub fn version_from_output(out: &ToolOutput) -> (r: Option<String>)
    ensures
        match r {
            Some(v) => version_pick(out.stdout@, out.stderr@) == Some(v@),
            None => version_pick(out.stdout@, out.stderr@) is None,
        },
{
    if out.stdout.as_str().unicode_len() > 0 {
        proof {
            lemma_lines_nonempty(out.stdout@);
        }
        let lines = split_lines(out.stdout.as_str());
        let v = lines[0].clone();
        Some(v)
    } else if out.stderr.as_str().unicode_len() > 0 {
        proof {
            lemma_lines_nonempty(out.stderr@);
        }
        let lines = split_lines(out.stderr.as_str());
        let v = lines[0].clone();
        Some(v)
    } else {
        None
    }
}

/// The version the whole fallback chain yields: what the first attempt with
/// any output picked.
pub open spec fn first_version(outs: Seq<ToolOutput>) -> Option<Seq<char>>
    decreases outs.len(),
{
    if outs.len() == 0 {
        None
    } else {
        match version_pick(outs[0].stdout@, outs[0].stderr@) {
            Some(v) => Some(v),
            None => first_version(outs.drop_first()),
        }
    }
}

pub proof fn lemma_first_version_skip(outs: Seq<ToolOutput>, i: int)
    requires
        0 <= i <= outs.len(),
        forall|j: int| 0 <= j < i ==> version_pick(outs[j].stdout@, outs[j].stderr@) is None,
    ensures
        first_version(outs) == first_version(outs.skip(i)),
    decreases i,
{
    if i == 0 {
        assert(outs.skip(0) =~= outs);
    } else {
        lemma_first_version_skip(outs, i - 1);
        let tail = outs.skip(i - 1);
        assert(tail[0] == outs[i - 1]);
        assert(version_pick(tail[0].stdout@, tail[0].stderr@) is None);
        assert(tail.drop_first() =~= outs.skip(i));
        assert(first_version(tail) == first_version(tail.drop_first()));
    }
}

/// The exhaustion law of version resolution: the chain yields nothing
/// exactly when every attempt produced empty standard output and empty
/// standard error.
pub proof fn lemma_version_exhausted(outs: Seq<ToolOutput>)
    ensures
        (first_version(outs) is None) <==> (forall|j: int|
            0 <= j < outs.len() ==> outs[j].stdout@.len() == 0 && outs[j].stderr@.len() == 0),
    decreases outs.len(),
{
    if outs.len() > 0 {
        let rest = outs.drop_first();
        lemma_version_exhausted(rest);
        assert(forall|j: int| 0 <= j < rest.len() ==> rest[j] == outs[j + 1]);
        match version_pick(outs[0].stdout@, outs[0].stderr@) {
            Some(v) => {
                assert(outs[0].stdout@.len() > 0 || outs[0].stderr@.len() > 0);
            },
            None => {
                assert(first_version(outs) == first_version(rest));
                if first_version(rest) is None {
                    assert forall|j: int| 0 <= j < outs.len() implies outs[j].stdout@.len() == 0
                        && outs[j].stderr@.len() == 0 by {
                        if j > 0 {
                            assert(outs[j] == rest[j - 1]);
                        }
                    }
                } else {
                    let j = choose|j: int|
                        0 <= j < rest.len() && !(rest[j].stdout@.len() == 0 && rest[j].stderr@.len()
                            == 0);
                    assert(outs[j + 1] == rest[j]);
                }
            },
        }
    }
}

/// Resolve a service's version from the outputs of the five attempts, in
/// the order `version_attempt_plans` gave them: the first line of the
/// first non-empty output wins, standard output checked before standard
/// error per attempt; no version is known when every attempt was empty.
pub fn resolve_version(outputs: &Vec<ToolOutput>) -> (r: Option<String>)
    ensures
        match r {
            Some(v) => first_version(outputs@) == Some(v@),
            None => first_version(outputs@) is None,
        },
{
    let mut i: usize = 0;
    while i < outputs.len()
        invariant
            i <= outputs@.len(),
            forall|j: int|
                0 <= j < i ==> version_pick(outputs@[j].stdout@, outputs@[j].stderr@) is None,
        decreases outputs@.len() - i,
    {
        let picked = version_from_output(&outputs[i]);
        match picked {
            Some(v) => {
                proof {
                    lemma_first_version_skip(outputs@, i as int);
                    assert(outputs@.skip(i as int)[0] == outputs@[i as int]);
                }
                return Some(v);
            },
            None => {
                i += 1;
            },
        }
    }
    proof {
        lemma_first_version_skip(outputs@, outputs@.len() as int);
        assert(outputs@.skip(outputs@.len() as int) =~= Seq::<ToolOutput>::empty());
    }
    None
}

} // verus!
