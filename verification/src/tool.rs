//! The model of an external tool invocation.
//!
//! The library never spawns a process itself.  It decides *which* command to
//! run, as a `CommandPlan`, and normalizes what came back, as a
//! `ToolOutput`.  The host program executes the plans and hands the captured
//! output to the probes; a missing tool or a failed run is reported as
//! `success == false` with empty output, never as an error.

use vstd::prelude::*;

verus! {

/// What running one external command produced.
#[derive(Debug, Clone)]
pub struct ToolOutput {
    pub stdout: String,
    pub stderr: String,
    pub success: bool,
}

impl ToolOutput {
    /// The outcome standing for a tool that is absent or failed to run:
    /// empty output and no success.
    pub fn absent() -> (r: ToolOutput)
        ensures
            r.stdout@ == Seq::<char>::empty(),
            r.stderr@ == Seq::<char>::empty(),
            !r.success,
    {
        ToolOutput { stdout: String::new(), stderr: String::new(), success: false }
    }
}

/// One command the engine asks the host to run: a program name and its
/// argument list.
#[derive(Debug, Clone)]
pub struct CommandPlan {
    pub program: String,
    pub args: Vec<String>,
}

/// Whether a plan invokes `prog` with exactly the arguments `args`.
pub open spec fn plan_is(p: CommandPlan, prog: Seq<char>, args: Seq<Seq<char>>) -> bool {
    p.program@ == prog && p.args.deep_view() == args
}

/// Build the plan for `prog` run without arguments.
pub fn plan0(prog: &str) -> (r: CommandPlan)
    ensures
        plan_is(r, prog@, Seq::<Seq<char>>::empty()),
{
    let r = CommandPlan { program: prog.to_owned(), args: Vec::new() };
    proof {
        assert(r.args.deep_view() =~= Seq::<Seq<char>>::empty());
    }
    r
}

/// Build the plan for `prog` run with one argument.
pub fn plan1(prog: &str, a0: &str) -> (r: CommandPlan)
    ensures
        plan_is(r, prog@, seq![a0@]),
{
    let mut args: Vec<String> = Vec::new();
    args.push(a0.to_owned());
    let r = CommandPlan { program: prog.to_owned(), args };
    proof {
        assert(r.args.deep_view() =~= seq![a0@]);
    }
    r
}

/// Build the plan for `prog` run with two arguments.
pub fn plan2(prog: &str, a0: &str, a1: &str) -> (r: CommandPlan)
    ensures
        plan_is(r, prog@, seq![a0@, a1@]),
{
    let mut args: Vec<String> = Vec::new();
    args.push(a0.to_owned());
    args.push(a1.to_owned());
    let r = CommandPlan { program: prog.to_owned(), args };
    proof {
        assert(r.args.deep_view() =~= seq![a0@, a1@]);
    }
    r
}

/// Build the plan for `prog` run with three arguments.
pub fn plan3(prog: &str, a0: &str, a1: &str, a2: &str) -> (r: CommandPlan)
    ensures
        plan_is(r, prog@, seq![a0@, a1@, a2@]),
{
    let mut args: Vec<String> = Vec::new();
    args.push(a0.to_owned());
    args.push(a1.to_owned());
    args.push(a2.to_owned());
    let r = CommandPlan { program: prog.to_owned(), args };
    proof {
        assert(r.args.deep_view() =~= seq![a0@, a1@, a2@]);
    }
    r
}

/// The plan for the `which`-style existence check of `name`: probes use it
/// to pick a strategy before spending a full invocation.
pub fn exists_probe_plan(name: &str) -> (r: CommandPlan)
    ensures
        plan_is(r, "which"@, seq![name@]),
{
    plan1("which", name)
}

} // verus!
