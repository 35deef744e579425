//! User access: recent logins, currently active users, and the members of
//! the administrative group, each read from its own tool's output.

use vstd::prelude::*;
use crate::text::{lines_of, opt_text_view, split_at_sep, split_lines, split_on_char};
use crate::tool::{plan0, plan2, plan_is, CommandPlan};

verus! {

/// The host's resolved user-access facts.
#[derive(Debug, Clone)]
pub struct UserAccess {
    pub last_ssh_logins: Vec<String>,
    pub active_users: Vec<String>,
    pub sudo_users: Vec<String>,
}

/// The most recent login lines: the first five lines of the login tool's
/// output, or all of them when there are fewer.
pub open spec fn recent_login_lines(s: Seq<char>) -> Seq<Seq<char>> {
    if lines_of(s).len() <= 5 {
        lines_of(s)
    } else {
        lines_of(s).take(5)
    }
}

/// Parse the recent logins.
pub fn parse_recent_logins(out: &str) -> (r: Vec<String>)
    ensures
        r.deep_view() == recent_login_lines(out@),
{
    let mut lines = split_lines(out);
    proof {
        assert(lines.deep_view().len() == lines@.len());
    }
    if lines.len() > 5 {
        lines.truncate(5);
        proof {
            assert(lines.deep_view() =~= lines_of(out@).take(5));
        }
    }
    lines
}

/// The administrative-group members.  When the lookup tool ran, they are
/// the fourth colon-separated field of its output, split on commas as it
/// stands — a missing field reads as the one empty member that splitting
/// empty text leaves.  When the tool could not be run at all, the list is
/// empty.
pub open spec fn sudo_members(out: Option<Seq<char>>) -> Seq<Seq<char>> {
    match out {
        Some(s) => if split_at_sep(s, ':').len() >= 4 {
            split_at_sep(split_at_sep(s, ':')[3], ',')
        } else {
            split_at_sep(Seq::<char>::empty(), ',')
        },
        None => Seq::<Seq<char>>::empty(),
    }
}

/// Parse the administrative-group members; `None` stands for a lookup
/// tool that could not be run.
pub fn parse_sudo_users(out: Option<&str>) -> (r: Vec<String>)
    ensures
        r.deep_view() == sudo_members(opt_text_view(out)),
{
    match out {
        Some(text) => {
            let fields = split_on_char(text, ':');
            if fields.len() >= 4 {
                proof {
                    assert(fields.deep_view()[3] == split_at_sep(text@, ':')[3]);
                }
                split_on_char(fields[3].as_str(), ',')
            } else {
                let mut r: Vec<String> = Vec::new();
                r.push(String::new());
                proof {
                    assert(r.deep_view() =~= seq![Seq::<char>::empty()]);
                }
                r
            }
        },
        None => {
            let r: Vec<String> = Vec::new();
            proof {
                assert(r.deep_view() =~= Seq::<Seq<char>>::empty());
            }
            r
        },
    }
}

/// Compose the user-access record from the three tools' raw outputs.  The
/// login and active-user tools hand in empty output on failure, which
/// already reads as the empty list; the group lookup hands in `None` when
/// its tool could not be run, so that a failed lookup also yields the
/// empty list rather than one empty member.
pub fn build_user_access(logins_out: &str, who_out: &str, group_out: Option<&str>) -> (r:
    UserAccess)
    ensures
        r.last_ssh_logins.deep_view() == recent_login_lines(logins_out@),
        r.active_users.deep_view() == lines_of(who_out@),
        r.sudo_users.deep_view() == sudo_members(opt_text_view(group_out)),
{
    UserAccess {
        last_ssh_logins: parse_recent_logins(logins_out),
        active_users: split_lines(who_out),
        sudo_users: parse_sudo_users(group_out),
    }
}

/// The recent-logins query.
pub fn login_history_plan() -> (r: CommandPlan)
    ensures
        plan_is(r, "last"@, Seq::<Seq<char>>::empty()),
{
    plan0("last")
}

/// The active-users query.
pub fn active_users_plan() -> (r: CommandPlan)
    ensures
        plan_is(r, "who"@, Seq::<Seq<char>>::empty()),
{
    plan0("who")
}

/// The administrative-group query.
pub fn sudo_group_plan() -> (r: CommandPlan)
    ensures
        plan_is(r, "getent"@, seq!["group"@, "sudo"@]),
{
    plan2("getent", "group", "sudo")
}

} // verus!
