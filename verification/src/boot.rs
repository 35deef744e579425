//! Boot history: reboot events reconstructed from two independent,
//! structurally different sources — login records and the boot journal —
//! and concatenated without cross-referencing, so overlapping entries are
//! kept twice by design.

use vstd::prelude::*;
use crate::text::{
    contains_str, has_sub, join_strings, joined_with, lemma_lines_nonempty, lines_of,
    split_lines, split_tokens, tokens_of,
};
use crate::tool::{plan1, plan2, plan_is, CommandPlan};

verus! {

/// One reconstructed boot event.
#[derive(Debug, Clone)]
pub struct BootRecord {
    pub timestamp: String,
    pub reason: Option<String>,
}

/// The mathematical value of a boot record.
pub struct BootView {
    pub timestamp: Seq<char>,
    pub reason: Option<Seq<char>>,
}

impl View for BootRecord {
    type V = BootView;

    open spec fn view(&self) -> BootView {
        BootView {
            timestamp: self.timestamp@,
            reason: match self.reason {
                Some(r) => Some(r@),
                None => None,
            },
        }
    }
}

impl DeepView for BootRecord {
    type V = BootView;

    open spec fn deep_view(&self) -> BootView {
        self.view()
    }
}

/// One boot the journal lists: its identifier and its start time.
#[derive(Debug, Clone)]
pub struct JournalBoot {
    pub id: String,
    pub timestamp: String,
}

/// The mathematical value of a journal-listed boot.
pub struct JournalBootView {
    pub id: Seq<char>,
    pub timestamp: Seq<char>,
}

impl View for JournalBoot {
    type V = JournalBootView;

    open spec fn view(&self) -> JournalBootView {
        JournalBootView { id: self.id@, timestamp: self.timestamp@ }
    }
}

impl DeepView for JournalBoot {
    type V = JournalBootView;

    open spec fn deep_view(&self) -> JournalBootView {
        self.view()
    }
}

/// The record a login-source line contributes: on a line mentioning the
/// reboot tag, the timestamp is rebuilt from the fourth, fifth and sixth
/// whitespace tokens, and any tokens past the seventh position are joined
/// as the free-text reason.  A tagged line too short to hold the three
/// timestamp tokens is unparseable and is discarded.
pub open spec fn login_record_of(line: Seq<char>) -> Option<BootView> {
    if has_sub(line, "reboot"@) && tokens_of(line).len() >= 6 {
        Some(
            BootView {
                timestamp: tokens_of(line)[3] + " "@ + tokens_of(line)[4] + " "@ + tokens_of(
                    line,
                )[5],
                reason: if tokens_of(line).len() > 6 {
                    Some(joined_with(tokens_of(line).skip(6), " "@))
                } else {
                    None
                },
            },
        )
    } else {
        None
    }
}

/// The records the login source yields, in line order.
pub open spec fn login_records_of_lines(lines: Seq<Seq<char>>) -> Seq<BootView>
    decreases lines.len(),
{
    if lines.len() == 0 {
        Seq::<BootView>::empty()
    } else {
        let r = login_records_of_lines(lines.drop_last());
        match login_record_of(lines.last()) {
            Some(v) => r.push(v),
            None => r,
        }
    }
}

pub open spec fn login_records(s: Seq<char>) -> Seq<BootView> {
    login_records_of_lines(lines_of(s))
}

/// Parse the login source's raw output into boot records.
pub fn parse_login_records(out: &str) -> (r: Vec<BootRecord>)
    ensures
        r.deep_view() == login_records(out@),
{
    let lines = split_lines(out);
    let mut r: Vec<BootRecord> = Vec::new();
    let mut i: usize = 0;
    proof {
        assert(lines.deep_view().take(0) =~= Seq::<Seq<char>>::empty());
        assert(r.deep_view() =~= Seq::<BootView>::empty());
    }
    while i < lines.len()
        invariant
            i <= lines@.len(),
            lines.deep_view().len() == lines@.len(),
            lines.deep_view() == lines_of(out@),
            r.deep_view() == login_records_of_lines(lines.deep_view().take(i as int)),
        decreases lines@.len() - i,
    {
        proof {
            assert(lines.deep_view().take(i + 1).drop_last() =~= lines.deep_view().take(i as int));
            assert(lines.deep_view().take(i + 1).last() == lines@[i as int]@);
        }
        let line = lines[i].as_str();
        if contains_str(line, "reboot") {
            let toks = split_tokens(line);
            if toks.len() >= 6 {
                proof {
                    assert(toks.deep_view()[3] == tokens_of(lines@[i as int]@)[3]);
                    assert(toks.deep_view()[4] == tokens_of(lines@[i as int]@)[4]);
                    assert(toks.deep_view()[5] == tokens_of(lines@[i as int]@)[5]);
                }
                let mut stamp = toks[3].clone();
                stamp.append(" ");
                stamp.append(toks[4].as_str());
                stamp.append(" ");
                stamp.append(toks[5].as_str());
                let reason: Option<String> = if toks.len() > 6 {
                    let mut rest: Vec<String> = Vec::new();
                    let mut j: usize = 6;
                    proof {
                        assert(rest.deep_view() =~= toks.deep_view().subrange(6, 6));
                    }
                    while j < toks.len()
                        invariant
                            6 <= j <= toks@.len(),
                            toks.deep_view().len() == toks@.len(),
                            toks.deep_view() == tokens_of(lines@[i as int]@),
                            rest.deep_view() == toks.deep_view().subrange(6, j as int),
                        decreases toks@.len() - j,
                    {
                        let ghost prev = rest.deep_view();
                        let piece = toks[j].clone();
                        rest.push(piece);
                        proof {
                            assert(rest.deep_view() =~= prev.push(toks.deep_view()[j as int]));
                            assert(prev.push(toks.deep_view()[j as int]) =~= toks.deep_view()
                                .subrange(6, j + 1));
                        }
                        j += 1;
                    }
                    proof {
                        assert(toks.deep_view().subrange(6, toks@.len() as int) =~= toks
                            .deep_view().skip(6));
                    }
                    Some(join_strings(&rest, " "))
                } else {
                    None
                };
                let ghost prev = r.deep_view();
                let rec = BootRecord { timestamp: stamp, reason };
                proof {
                    assert(login_record_of(lines@[i as int]@) == Some(rec@));
                }
                r.push(rec);
                proof {
                    assert(r.deep_view() =~= prev.push(
                        login_records_of_lines(lines.deep_view().take(i + 1)).last(),
                    ));
                }
            }
        }
        i += 1;
    }
    proof {
        assert(lines.deep_view().take(lines@.len() as int) =~= lines.deep_view());
    }
    r
}

/// The boot a journal-listing line contributes: its first token as the
/// boot identifier and its second and third tokens as the start time; a
/// shorter line contributes nothing.
pub open spec fn journal_boot_of(line: Seq<char>) -> Option<JournalBootView> {
    if tokens_of(line).len() >= 3 {
        Some(
            JournalBootView {
                id: tokens_of(line)[0],
                timestamp: tokens_of(line)[1] + " "@ + tokens_of(line)[2],
            },
        )
    } else {
        None
    }
}

/// The boots a journal listing yields: every line after the header, in
/// order.
pub open spec fn journal_boots_of_lines(lines: Seq<Seq<char>>) -> Seq<JournalBootView>
    decreases lines.len(),
{
    if lines.len() == 0 {
        Seq::<JournalBootView>::empty()
    } else {
        let r = journal_boots_of_lines(lines.drop_last());
        match journal_boot_of(lines.last()) {
            Some(v) => r.push(v),
            None => r,
        }
    }
}

pub open spec fn journal_boots(s: Seq<char>) -> Seq<JournalBootView> {
    if lines_of(s).len() == 0 {
        Seq::<JournalBootView>::empty()
    } else {
        journal_boots_of_lines(lines_of(s).drop_first())
    }
}

/// Parse the journal listing's raw output, skipping its header line.
pub fn parse_journal_boots(out: &str) -> (r: Vec<JournalBoot>)
    ensures
        r.deep_view() == journal_boots(out@),
{
    let lines = split_lines(out);
    let mut r: Vec<JournalBoot> = Vec::new();
    proof {
        assert(r.deep_view() =~= Seq::<JournalBootView>::empty());
    }
    if lines.len() == 0 {
        return r;
    }
    let mut i: usize = 1;
    proof {
        assert(lines.deep_view().drop_first().take(0) =~= Seq::<Seq<char>>::empty());
    }
    while i < lines.len()
        invariant
            1 <= i <= lines@.len(),
            lines.deep_view().len() == lines@.len(),
            lines.deep_view() == lines_of(out@),
            r.deep_view() == journal_boots_of_lines(
                lines.deep_view().drop_first().take(i - 1),
            ),
        decreases lines@.len() - i,
    {
        proof {
            let rest = lines.deep_view().drop_first();
            assert(rest.take(i as int).drop_last() =~= rest.take(i - 1));
            assert(rest.take(i as int).last() == lines@[i as int]@);
        }
        let toks = split_tokens(lines[i].as_str());
        if toks.len() >= 3 {
            proof {
                assert(toks.deep_view()[0] == tokens_of(lines@[i as int]@)[0]);
                assert(toks.deep_view()[1] == tokens_of(lines@[i as int]@)[1]);
                assert(toks.deep_view()[2] == tokens_of(lines@[i as int]@)[2]);
            }
            let id = toks[0].clone();
            let mut stamp = toks[1].clone();
            stamp.append(" ");
            stamp.append(toks[2].as_str());
            let ghost prev = r.deep_view();
            let boot = JournalBoot { id, timestamp: stamp };
            proof {
                assert(journal_boot_of(lines@[i as int]@) == Some(boot@));
            }
            r.push(boot);
            proof {
                assert(r.deep_view() =~= prev.push(
                    journal_boots_of_lines(lines.deep_view().drop_first().take(i as int)).last(),
                ));
            }
        }
        i += 1;
    }
    proof {
        assert(lines.deep_view().drop_first().take(lines@.len() - 1) =~= lines.deep_view()
            .drop_first());
    }
    r
}

/// The reason a boot's own journal yields: the last line of that boot's
/// log, kept only when it textually mentions a shutdown or reboot.
pub open spec fn journal_reason_of(log: Seq<char>) -> Option<Seq<char>> {
    if lines_of(log).len() > 0 {
        if has_sub(lines_of(log).last(), "shutdown"@) || has_sub(lines_of(log).last(), "reboot"@) {
            Some(lines_of(log).last())
        } else {
            None
        }
    } else {
        None
    }
}

/// Build one journal-sourced record from a listed boot's start time and
/// that boot's own log output.
pub fn journal_boot_record(timestamp: String, log_out: &str) -> (r: BootRecord)
    ensures
        r@.timestamp == timestamp@,
        r@.reason == journal_reason_of(log_out@),
{
    if log_out.unicode_len() > 0 {
        proof {
            lemma_lines_nonempty(log_out@);
        }
        let lines = split_lines(log_out);
        let last = lines.len() - 1;
        proof {
            assert(lines.deep_view()[last as int] == lines_of(log_out@).last());
        }
        let line = lines[last].as_str();
        if contains_str(line, "shutdown") || contains_str(line, "reboot") {
            let reason = lines[last].clone();
            BootRecord { timestamp, reason: Some(reason) }
        } else {
            BootRecord { timestamp, reason: None }
        }
    } else {
        proof {
            assert(lines_of(log_out@).len() == 0) by {
                crate::text::lemma_split_at_sep_len(log_out@, '\n');
            }
        }
        BootRecord { timestamp, reason: None }
    }
}

/// Concatenate the two sources' records, login-sourced records first.
/// Nothing is deduplicated: a boot described by both sources appears
/// twice, by design.
pub fn merge_boot_history(first: Vec<BootRecord>, second: Vec<BootRecord>) -> (r: Vec<BootRecord>)
    ensures
        r.deep_view() == first.deep_view() + second.deep_view(),
        r@.len() == first@.len() + second@.len(),
{
    let mut r = first;
    let mut rest = second;
    let ghost a = r.deep_view();
    let ghost b = rest.deep_view();
    r.append(&mut rest);
    proof {
        assert(r.deep_view() =~= a + b);
    }
    r
}

/// The merge law of the boot history: the output length is the two
/// sources' lengths added, the first source's records stand unchanged at
/// their own positions followed by the second source's at offset
/// positions, and no record is dropped even when the two sources describe
/// the same boot event.
pub proof fn lemma_boot_history_merge(a: Seq<BootView>, b: Seq<BootView>)
    ensures
        (a + b).len() == a.len() + b.len(),
        forall|i: int| 0 <= i < a.len() ==> (a + b)[i] == a[i],
        forall|j: int| 0 <= j < b.len() ==> (a + b)[a.len() + j] == b[j],
{
}

/// The login-sourced reboot listing query.
pub fn login_reboot_plan() -> (r: CommandPlan)
    ensures
        plan_is(r, "last"@, seq!["reboot"@]),
{
    plan1("last", "reboot")
}

/// The journal's boot-listing query; only attempted when the journal tool
/// is present.
pub fn journal_list_plan() -> (r: CommandPlan)
    ensures
        plan_is(r, "journalctl"@, seq!["--list-boots"@, "--no-pager"@]),
{
    plan2("journalctl", "--list-boots", "--no-pager")
}

/// The query for one listed boot's own log.
pub fn journal_boot_log_plan(boot_id: &str) -> (r: CommandPlan)
    ensures
        plan_is(r, "journalctl"@, seq!["-b"@, boot_id@, "--no-pager"@]),
{
    crate::tool::plan3("journalctl", "-b", boot_id, "--no-pager")
}

} // verus!
