//! Laws of the interpreter.

use vstd::prelude::*;

use crate::ast::{
    AndOr, CaseClause, Command, CommandInner, CompleteCommand, ElseClause, ExitCode, ForClause,
    FunctionBody, FunctionDef, IfClause, IoRedirect, Pipeline, PostAction, SepKind, SimpleCommand,
    WhileClause,
};
use crate::child::ChildRequest;
use crate::env::Scope;
use crate::machine::{Action, Event, Response, State, Work};
use crate::semantics::{Outcome, World};
use crate::simulation::{Config, Run};
use crate::word::{DoubleQuote, Quotable, Word, WordEval, WordPart};

verus! {

/// An idle machine on which the complete command has been started.
pub open spec fn started<'a>(c: &'a CompleteCommand, w: World) -> Config<'a> {
    let idle = crate::simulation::config(w, 0, Seq::empty());
    Config { state: crate::machine::begin_complete(c, idle.state).0, ..idle }
}

/// How a machine stops that comes to the outcome.
pub open spec fn stopped<'a>(outcome: Outcome) -> Run<'a>
    recommends
        outcome !is OutOfFuel,
{
    match outcome {
        Outcome::Done(code, w) => Run::Finished(code, w),
        Outcome::Waiting(w) => Run::Waiting(w),
        Outcome::Unsupported(w) => Run::Unsupported(w),
        Outcome::OutOfFuel => arbitrary(),
    }
}

/// A machine that comes to an outcome stops with it, and one that runs out of fuel takes that many
/// steps.
proof fn lemma_started<'a>(fuel: nat, c: &'a CompleteCommand, w: World)
    ensures
        match crate::semantics::eval_complete(fuel, c, w) {
            Outcome::OutOfFuel => exists|n: nat|
                n >= fuel && #[trigger] crate::simulation::run(n, started(c, w)) is Running,
            outcome => exists|n: nat| #[trigger]
                crate::simulation::run(n, started(c, w)) == stopped::<'a>(outcome),
        },
{
    let from = started(c, w);
    let none = Seq::<Work<'a>>::empty();
    crate::simulation::lists_simulate(fuel, &c.lists, 0, 0, w, none);
    let outcome = crate::semantics::eval_complete(fuel, c, w);
    if let Outcome::Done(code, w1) = outcome {
        let end = crate::simulation::config(w1, code, none);
        let n = choose|n: nat| #[trigger]
            crate::simulation::run(n, from) == Run::Running(end);
        crate::simulation::lemma_one_step(end);
        crate::simulation::lemma_run_add(n, 1, from);
        assert(crate::simulation::run(n + 1, from) == stopped::<'a>(outcome));
    }
}

/// The machine does what the semantics says, no more and no less: it stops with an outcome exactly
/// if that is the outcome of the command with enough fuel.
pub proof fn law_machine_stops_with_outcome<'a>(c: &'a CompleteCommand, w: World, outcome: Outcome)
    requires
        outcome !is OutOfFuel,
    ensures
        (exists|fuel: nat| #[trigger] crate::semantics::eval_complete(fuel, c, w) == outcome) <==> (
        exists|n: nat| #[trigger]
            crate::simulation::run(n, started(c, w)) == stopped::<'a>(outcome)),
{
    let from = started(c, w);
    if exists|fuel: nat| #[trigger] crate::semantics::eval_complete(fuel, c, w) == outcome {
        let fuel = choose|fuel: nat| #[trigger]
            crate::semantics::eval_complete(fuel, c, w) == outcome;
        lemma_started(fuel, c, w);
    }
    if exists|n: nat| #[trigger] crate::simulation::run(n, from) == stopped::<'a>(outcome) {
        let n = choose|n: nat| #[trigger]
            crate::simulation::run(n, from) == stopped::<'a>(outcome);
        lemma_started(n, c, w);
        let other = crate::semantics::eval_complete(n, c, w);
        if other is OutOfFuel {
            let k = choose|k: nat|
                k >= n && #[trigger] crate::simulation::run(k, from) is Running;
            crate::simulation::lemma_run_add(n, (k - n) as nat, from);
        } else {
            let k = choose|k: nat| #[trigger]
                crate::simulation::run(k, from) == stopped::<'a>(other);
            crate::simulation::lemma_run_add(n, k, from);
            crate::simulation::lemma_run_add(k, n, from);
            assert(other == outcome);
        }
    }
}

/// The machine runs on for ever exactly if no amount of fuel brings the command to an outcome.
pub proof fn law_machine_runs_for_ever<'a>(c: &'a CompleteCommand, w: World)
    ensures
        (forall|fuel: nat| #[trigger] crate::semantics::eval_complete(fuel, c, w) is OutOfFuel)
            <==> (forall|n: nat| #[trigger] crate::simulation::run(n, started(c, w)) is Running),
{
    let from = started(c, w);
    if forall|fuel: nat| #[trigger] crate::semantics::eval_complete(fuel, c, w) is OutOfFuel {
        assert forall|n: nat| #[trigger] crate::simulation::run(n, from) is Running by {
            assert(crate::semantics::eval_complete(n, c, w) is OutOfFuel);
            lemma_started(n, c, w);
            let k = choose|k: nat|
                k >= n && #[trigger] crate::simulation::run(k, from) is Running;
            crate::simulation::lemma_run_add(n, (k - n) as nat, from);
        }
    }
    if forall|n: nat| #[trigger] crate::simulation::run(n, from) is Running {
        assert forall|fuel: nat| #[trigger]
            crate::semantics::eval_complete(fuel, c, w) is OutOfFuel by {
            lemma_started(fuel, c, w);
        }
    }
}

/// A list comes to its outcome and leaves other work alone.
pub proof fn law_list_runs<'a>(
    fuel: nat,
    list: &'a Vec<Vec<AndOr>>,
    code: ExitCode,
    w: World,
    work: Seq<Work<'a>>,
)
    ensures
        crate::simulation::leads_to(
            w,
            code,
            work,
            crate::machine::begin_list(list, crate::simulation::config(w, code, work).state),
            crate::semantics::eval_list(fuel, list@, 0, 0, w),
            fuel,
        ),
{
    crate::simulation::list_simulates(fuel, list, 0, 0, w, work);
}

/// A chain comes to its outcome and leaves other work alone.
pub proof fn law_chain_runs<'a>(
    fuel: nat,
    chain: &'a Vec<AndOr>,
    code: ExitCode,
    w: World,
    work: Seq<Work<'a>>,
)
    ensures
        crate::simulation::leads_to(
            w,
            code,
            work,
            crate::machine::begin_chain(chain, crate::simulation::config(w, code, work).state),
            crate::semantics::eval_chain(fuel, chain@, 0, 0, w),
            fuel,
        ),
{
    crate::simulation::chain_simulates(fuel, chain, 0, 0, w, work);
}

/// A member of a chain comes to its outcome and leaves other work alone.
pub proof fn law_and_or_runs<'a>(
    fuel: nat,
    member: &'a AndOr,
    prev_res: ExitCode,
    code: ExitCode,
    w: World,
    work: Seq<Work<'a>>,
)
    ensures
        crate::simulation::leads_to(
            w,
            code,
            work,
            crate::machine::begin_and_or(
                member,
                crate::simulation::config(w, code, work).state,
                prev_res,
            ),
            crate::semantics::eval_and_or(fuel, member, prev_res, w),
            fuel,
        ),
{
    if crate::machine::and_or_runs(member.separator, prev_res) {
        crate::simulation::pipeline_simulates(fuel, &member.pipeline, 0, 0, w, work);
    } else {
        crate::simulation::lemma_here(w, prev_res, work, fuel);
    }
}

/// A pipeline comes to its outcome and leaves other work alone.
pub proof fn law_pipeline_runs<'a>(
    fuel: nat,
    p: &'a Pipeline,
    code: ExitCode,
    w: World,
    work: Seq<Work<'a>>,
)
    ensures
        crate::simulation::leads_to(
            w,
            code,
            work,
            crate::machine::begin_pipeline(p, crate::simulation::config(w, code, work).state),
            crate::semantics::eval_pipeline(fuel, p, 0, 0, w),
            fuel,
        ),
{
    crate::simulation::pipeline_simulates(fuel, p, 0, 0, w, work);
}

/// A command comes to its outcome and leaves other work alone.
pub proof fn law_command_runs<'a>(
    fuel: nat,
    c: &'a Command,
    code: ExitCode,
    w: World,
    work: Seq<Work<'a>>,
)
    ensures
        crate::simulation::leads_to(
            w,
            code,
            work,
            crate::machine::begin_command(c, crate::simulation::config(w, code, work).state),
            crate::semantics::eval_command(fuel, c, w),
            fuel,
        ),
{
    match &c.inner {
        CommandInner::If(clause) => law_if_runs(fuel, &**clause, code, w, work),
        CommandInner::While(clause) => law_while_runs(fuel, &**clause, code, w, work),
        CommandInner::For(clause) => law_for_runs(fuel, &**clause, code, w, work),
        CommandInner::Case(clause) => law_case_runs(fuel, &**clause, code, w, work),
        CommandInner::FunctionDef(d) => law_function_def_runs(fuel, &**d, code, w, work),
        CommandInner::AndOr(list) => law_list_runs(fuel, list, code, w, work),
        CommandInner::Simple(simple) => law_simple_runs(fuel, simple, code, w, work),
    }
}

/// An `if` comes to its outcome and leaves other work alone.
pub proof fn law_if_runs<'a>(
    fuel: nat,
    c: &'a IfClause,
    code: ExitCode,
    w: World,
    work: Seq<Work<'a>>,
)
    ensures
        crate::simulation::leads_to(
            w,
            code,
            work,
            crate::machine::begin_if(c, crate::simulation::config(w, code, work).state),
            crate::semantics::eval_if(fuel, c, w),
            fuel,
        ),
{
    crate::simulation::if_simulates(fuel, c, code, w, work);
}

/// An `elif` or `else` comes to its outcome and leaves other work alone.
pub proof fn law_else_runs<'a>(
    fuel: nat,
    c: &'a ElseClause,
    code: ExitCode,
    w: World,
    work: Seq<Work<'a>>,
)
    ensures
        crate::simulation::leads_to(
            w,
            code,
            work,
            crate::machine::begin_else(c, crate::simulation::config(w, code, work).state),
            crate::semantics::eval_else(fuel, c, w),
            fuel,
        ),
{
    crate::simulation::else_simulates(fuel, c, code, w, work);
}

/// A loop comes to its outcome and leaves other work alone.
pub proof fn law_while_runs<'a>(
    fuel: nat,
    c: &'a WhileClause,
    code: ExitCode,
    w: World,
    work: Seq<Work<'a>>,
)
    ensures
        crate::simulation::leads_to(
            w,
            code,
            work,
            crate::machine::begin_while(c, crate::simulation::config(w, code, work).state),
            crate::semantics::eval_while(fuel, c, 0, w),
            fuel,
        ),
{
    crate::simulation::while_simulates(fuel, c, 0, w, work);
}

/// A `for` loop comes to its outcome and leaves other work alone.
pub proof fn law_for_runs<'a>(
    fuel: nat,
    c: &'a ForClause,
    code: ExitCode,
    w: World,
    work: Seq<Work<'a>>,
)
    ensures
        crate::simulation::leads_to(
            w,
            code,
            work,
            crate::machine::begin_for(c, crate::simulation::config(w, code, work).state),
            crate::semantics::eval_for_clause(fuel, c, w),
            fuel,
        ),
{
    if let Some(words) = &c.words {
        crate::simulation::for_simulates(fuel, c, words@, 0, 0, w, work);
    }
}

/// A `case` comes to its outcome and leaves other work alone.
pub proof fn law_case_runs<'a>(
    fuel: nat,
    c: &'a CaseClause,
    code: ExitCode,
    w: World,
    work: Seq<Work<'a>>,
)
    ensures
        crate::simulation::leads_to(
            w,
            code,
            work,
            crate::machine::begin_case(c, crate::simulation::config(w, code, work).state),
            crate::semantics::eval_case(fuel, c, w),
            fuel,
        ),
{
    let items = c.case_list.items@;
    crate::machine::law_first_match_is_chosen(items, 0, c.word.text());
    match crate::machine::choose_item(items, 0, c.word.text()) {
        crate::machine::Choice::Item(i) => match &items[i].actions {
            Some(actions) => crate::simulation::command_simulates(fuel, actions, code, w, work),
            None => crate::simulation::lemma_here(w, 0, work, fuel),
        },
        _ => crate::simulation::lemma_here(w, 0, work, fuel),
    }
}

/// A function definition comes to its outcome and leaves other work alone.
pub proof fn law_function_def_runs<'a>(
    fuel: nat,
    d: &'a FunctionDef,
    code: ExitCode,
    w: World,
    work: Seq<Work<'a>>,
)
    ensures
        crate::simulation::leads_to(
            w,
            code,
            work,
            crate::machine::begin_function_def(d, crate::simulation::config(w, code, work).state),
            crate::semantics::eval_function_def(d, w),
            fuel,
        ),
{
    if let Outcome::Done(code, w) = crate::semantics::eval_function_def(d, w) {
        crate::simulation::lemma_here(w, code, work, fuel);
    }
}

/// The body of a function comes to the outcome of its command and leaves other work alone.
pub proof fn law_function_body_runs<'a>(
    fuel: nat,
    b: &'a FunctionBody,
    code: ExitCode,
    w: World,
    work: Seq<Work<'a>>,
)
    ensures
        crate::simulation::leads_to(
            w,
            code,
            work,
            crate::machine::begin_function_body(b, crate::simulation::config(w, code, work).state),
            crate::semantics::eval_command(fuel, &b.command, w),
            fuel,
        ),
{
    crate::simulation::command_simulates(fuel, &b.command, code, w, work);
}

/// A simple command comes to its outcome and leaves other work alone.
pub proof fn law_simple_runs<'a>(
    fuel: nat,
    c: &'a SimpleCommand,
    code: ExitCode,
    w: World,
    work: Seq<Work<'a>>,
)
    ensures
        crate::simulation::leads_to(
            w,
            code,
            work,
            crate::machine::begin_simple(c, crate::simulation::config(w, code, work).state),
            crate::semantics::eval_simple(c, w),
            fuel,
        ),
{
    if let Outcome::Done(code, w) = crate::semantics::eval_simple(c, w) {
        crate::simulation::lemma_here(w, code, work, fuel);
    }
}

/// To tell the machine that a child process has ended is to set the status and go on.
pub proof fn law_exit_sets_status<'a>(s: State<'a>, code: ExitCode)
    ensures
        crate::machine::step(s, Event::Exited(code)) == crate::machine::step(
            s.with_code(code),
            Event::Proceed,
        ),
{
}

/// A child process is given exactly the variables of the shell, and asking for it changes neither
/// variables nor functions.
pub proof fn law_child_sees_variables<'a>(s: State<'a>, event: Event)
    ensures
        crate::machine::step(s, event).1 matches Response::Spawn(request) ==> {
            &&& request.vars == s.scope.vars
            &&& crate::machine::step(s, event).0.scope == s.scope
        },
{
}

/// A step changes a variable only to start a round of a `for` loop, and a function only to define
/// one.
pub proof fn law_scope_changes<'a>(s: State<'a>, event: Event)
    requires
        s.work.len() > 0,
    ensures
        crate::machine::step(s, event).0.scope == match s.work.last() {
            Work::For(c, i) if c.words is Some && i < c.words->0@.len()
                && c.words->0@[i as int].literal() => Scope {
                vars: s.scope.vars.insert(c.name@, c.words->0@[i as int].text()),
                ..s.scope
            },
            Work::Command(c) => match c.inner {
                CommandInner::FunctionDef(d) => Scope {
                    funcs: s.scope.funcs.insert(d.name@, d.body),
                    ..s.scope
                },
                _ => s.scope,
            },
            _ => s.scope,
        },
{
}

/// What has happened to replies and child processes from one world to a later one.
pub open spec fn answered(before: World, after: World, waiting: bool) -> bool {
    let asked = after.spawned.len() - before.spawned.len();
    let taken = if waiting {
        asked - 1
    } else {
        asked
    };
    &&& 0 <= taken <= before.replies.len()
    &&& after.replies == before.replies.skip(taken)
    &&& after.spawned.take(before.spawned.len() as int) == before.spawned
    &&& waiting ==> after.replies.len() == 0
}

/// Every child process is answered by one reply, in order; a machine waits only when the replies
/// are used up, for the last child process that it asked for.
pub proof fn law_each_reply_answers_one_child<'a>(n: nat, c: Config<'a>)
    ensures
        match crate::simulation::run(n, c) {
            Run::Running(d) => answered(c.world(), d.world(), false),
            Run::Finished(_, w) => answered(c.world(), w, false),
            Run::Waiting(w) => answered(c.world(), w, true),
            Run::Unsupported(w) => answered(c.world(), w, false),
        },
    decreases n,
{
    let before = c.world();
    assert(before.replies.skip(0) =~= before.replies);
    assert(before.spawned.take(before.spawned.len() as int) =~= before.spawned);
    if n > 0 {
        match crate::simulation::advance(c) {
            Run::Running(d) => {
                law_each_reply_answers_one_child((n - 1) as nat, d);
                let middle = d.world();
                assert(answered(before, middle, false)) by {
                    if middle.spawned.len() > before.spawned.len() {
                        assert(middle.spawned.take(before.spawned.len() as int)
                            =~= before.spawned);
                        assert(middle.replies =~= before.replies.skip(1));
                    }
                }
                let (after, waiting) = match crate::simulation::run((n - 1) as nat, d) {
                    Run::Running(e) => (e.world(), false),
                    Run::Finished(_, w) => (w, false),
                    Run::Waiting(w) => (w, true),
                    Run::Unsupported(w) => (w, false),
                };
                let first = middle.spawned.len() - before.spawned.len();
                let asked = after.spawned.len() - middle.spawned.len();
                let taken = if waiting {
                    asked - 1
                } else {
                    asked
                };
                assert(before.replies.skip(first).skip(taken) =~= before.replies.skip(
                    first + taken,
                ));
                assert(after.spawned.take(middle.spawned.len() as int).take(
                    before.spawned.len() as int,
                ) =~= after.spawned.take(before.spawned.len() as int));
            },
            Run::Waiting(w) => {
                assert(w.spawned.take(before.spawned.len() as int) =~= before.spawned);
            },
            _ => {},
        }
    }
}

/// A command that has come to an outcome comes to the same one with more fuel.
pub proof fn law_more_fuel(less: nat, more: nat, c: &CompleteCommand, w: World)
    requires
        less <= more,
        crate::semantics::eval_complete(less, c, w) !is OutOfFuel,
    ensures
        crate::semantics::eval_complete(more, c, w) == crate::semantics::eval_complete(less, c, w),
{
    more_fuel_lists(less, more, c.lists@, 0, 0, w);
}

proof fn more_fuel_lists(
    less: nat,
    more: nat,
    lists: Seq<Vec<Vec<AndOr>>>,
    i: nat,
    code: ExitCode,
    w: World,
)
    requires
        less <= more,
        crate::semantics::eval_lists(less, lists, i, code, w) !is OutOfFuel,
    ensures
        crate::semantics::eval_lists(more, lists, i, code, w) == crate::semantics::eval_lists(
            less,
            lists,
            i,
            code,
            w,
        ),
    decreases less, lists, lists.len() - i,
{
    if i < lists.len() {
        more_fuel_list(less, more, lists[i as int]@, 0, 0, w);
        if let Outcome::Done(code, w) = crate::semantics::eval_list(
            less,
            lists[i as int]@,
            0,
            0,
            w,
        ) {
            more_fuel_lists(less, more, lists, i + 1, code, w);
        }
    }
}

proof fn more_fuel_list(
    less: nat,
    more: nat,
    list: Seq<Vec<AndOr>>,
    i: nat,
    code: ExitCode,
    w: World,
)
    requires
        less <= more,
        crate::semantics::eval_list(less, list, i, code, w) !is OutOfFuel,
    ensures
        crate::semantics::eval_list(more, list, i, code, w) == crate::semantics::eval_list(
            less,
            list,
            i,
            code,
            w,
        ),
    decreases less, list, list.len() - i,
{
    if i < list.len() {
        more_fuel_chain(less, more, list[i as int]@, 0, 0, w);
        if let Outcome::Done(code, w) = crate::semantics::eval_chain(
            less,
            list[i as int]@,
            0,
            0,
            w,
        ) {
            more_fuel_list(less, more, list, i + 1, code, w);
        }
    }
}

proof fn more_fuel_chain(
    less: nat,
    more: nat,
    chain: Seq<AndOr>,
    i: nat,
    code: ExitCode,
    w: World,
)
    requires
        less <= more,
        crate::semantics::eval_chain(less, chain, i, code, w) !is OutOfFuel,
    ensures
        crate::semantics::eval_chain(more, chain, i, code, w) == crate::semantics::eval_chain(
            less,
            chain,
            i,
            code,
            w,
        ),
    decreases less, chain, chain.len() - i,
{
    if i < chain.len() {
        if crate::machine::and_or_runs(chain[i as int].separator, code) {
            let p = &chain[i as int].pipeline;
            more_fuel_pipeline(less, more, p, 0, 0, w);
            if let Outcome::Done(code, w) = crate::semantics::eval_pipeline(less, p, 0, 0, w) {
                more_fuel_chain(less, more, chain, i + 1, code, w);
            }
        } else {
            more_fuel_chain(less, more, chain, i + 1, code, w);
        }
    }
}

proof fn more_fuel_pipeline(
    less: nat,
    more: nat,
    p: &Pipeline,
    i: nat,
    code: ExitCode,
    w: World,
)
    requires
        less <= more,
        crate::semantics::eval_pipeline(less, p, i, code, w) !is OutOfFuel,
    ensures
        crate::semantics::eval_pipeline(more, p, i, code, w) == crate::semantics::eval_pipeline(
            less,
            p,
            i,
            code,
            w,
        ),
    decreases less, p, p.commands@.len() - i,
{
    if i < p.commands@.len() {
        more_fuel_command(less, more, &p.commands@[i as int], w);
        if let Outcome::Done(code, w) = crate::semantics::eval_command(
            less,
            &p.commands@[i as int],
            w,
        ) {
            more_fuel_pipeline(less, more, p, i + 1, code, w);
        }
    }
}

proof fn more_fuel_command(less: nat, more: nat, c: &Command, w: World)
    requires
        less <= more,
        crate::semantics::eval_command(less, c, w) !is OutOfFuel,
    ensures
        crate::semantics::eval_command(more, c, w) == crate::semantics::eval_command(less, c, w),
    decreases less, c, 0int,
{
    match &c.inner {
        CommandInner::If(c) => more_fuel_if(less, more, &**c, w),
        CommandInner::While(c) => more_fuel_while(less, more, &**c, 0, w),
        CommandInner::For(c) => {
            if let Some(words) = &c.words {
                more_fuel_for(less, more, &**c, words@, 0, 0, w);
            }
        },
        CommandInner::Case(c) => more_fuel_case(less, more, &**c, w),
        CommandInner::AndOr(list) => more_fuel_list(less, more, list@, 0, 0, w),
        _ => {},
    }
}

proof fn more_fuel_if(less: nat, more: nat, c: &IfClause, w: World)
    requires
        less <= more,
        crate::semantics::eval_if(less, c, w) !is OutOfFuel,
    ensures
        crate::semantics::eval_if(more, c, w) == crate::semantics::eval_if(less, c, w),
    decreases less, c, 0int,
{
    more_fuel_command(less, more, &c.cond, w);
    if let Outcome::Done(code, w) = crate::semantics::eval_command(less, &c.cond, w) {
        if code == 0 {
            more_fuel_command(less, more, &c.body, w);
        } else if let Some(clause) = &c.else_stmt {
            more_fuel_else(less, more, clause, w);
        }
    }
}

proof fn more_fuel_else(less: nat, more: nat, c: &ElseClause, w: World)
    requires
        less <= more,
        crate::semantics::eval_else(less, c, w) !is OutOfFuel,
    ensures
        crate::semantics::eval_else(more, c, w) == crate::semantics::eval_else(less, c, w),
    decreases less, c, 0int,
{
    match &c.cond {
        Some(cond) => {
            more_fuel_command(less, more, cond, w);
            if let Outcome::Done(code, w) = crate::semantics::eval_command(less, cond, w) {
                if code == 0 {
                    more_fuel_command(less, more, &c.body, w);
                } else if let Some(clause) = &c.else_stmt {
                    more_fuel_else(less, more, &**clause, w);
                }
            }
        },
        None => more_fuel_command(less, more, &c.body, w),
    }
}

proof fn more_fuel_while(less: nat, more: nat, c: &WhileClause, last: ExitCode, w: World)
    requires
        less <= more,
        crate::semantics::eval_while(less, c, last, w) !is OutOfFuel,
    ensures
        crate::semantics::eval_while(more, c, last, w) == crate::semantics::eval_while(
            less,
            c,
            last,
            w,
        ),
    decreases less, c, 0int,
{
    more_fuel_command(less, more, &c.cond, w);
    if let Outcome::Done(code, w) = crate::semantics::eval_command(less, &c.cond, w) {
        if (code == 0) == c.desired {
            more_fuel_command(less, more, &c.body, w);
            if let Outcome::Done(code, w) = crate::semantics::eval_command(less, &c.body, w) {
                more_fuel_while((less - 1) as nat, (more - 1) as nat, c, code, w);
            }
        }
    }
}

proof fn more_fuel_for(
    less: nat,
    more: nat,
    c: &ForClause,
    words: Seq<Word>,
    i: nat,
    code: ExitCode,
    w: World,
)
    requires
        less <= more,
        crate::semantics::eval_for(less, c, words, i, code, w) !is OutOfFuel,
    ensures
        crate::semantics::eval_for(more, c, words, i, code, w) == crate::semantics::eval_for(
            less,
            c,
            words,
            i,
            code,
            w,
        ),
    decreases less, c, words.len() - i,
{
    if i < words.len() && words[i as int].literal() {
        let w = w.with_var(c.name@, words[i as int].text());
        more_fuel_command(less, more, &c.body, w);
        if let Outcome::Done(code, w) = crate::semantics::eval_command(less, &c.body, w) {
            more_fuel_for(less, more, c, words, i + 1, code, w);
        }
    }
}

proof fn more_fuel_case(less: nat, more: nat, c: &CaseClause, w: World)
    requires
        less <= more,
        crate::semantics::eval_case(less, c, w) !is OutOfFuel,
    ensures
        crate::semantics::eval_case(more, c, w) == crate::semantics::eval_case(less, c, w),
    decreases less, c, 0int,
{
    crate::machine::law_first_match_is_chosen(c.case_list.items@, 0, c.word.text());
    if let crate::machine::Choice::Item(i) = crate::machine::choose_item(
        c.case_list.items@,
        0,
        c.word.text(),
    ) {
        if c.word.literal() {
            if let Some(cmd) = &c.case_list.items@[i].actions {
                more_fuel_command(less, more, cmd, w);
            }
        }
    }
}

/// A bang turns the status of a pipeline around, and changes nothing else.
pub proof fn law_bang_negates(
    fuel: nat,
    plain: &Pipeline,
    negated: &Pipeline,
    i: nat,
    code: ExitCode,
    w: World,
)
    requires
        plain.commands == negated.commands,
        !plain.bang,
        negated.bang,
    ensures
        crate::semantics::eval_pipeline(fuel, negated, i, code, w)
            == match crate::semantics::eval_pipeline(fuel, plain, i, code, w) {
            Outcome::Done(code, w) => Outcome::Done(
                if code == 0 {
                    1
                } else {
                    0
                },
                w,
            ),
            other => other,
        },
    decreases plain.commands@.len() - i,
{
    if i < plain.commands@.len() {
        if let Outcome::Done(code, w) = crate::semantics::eval_command(
            fuel,
            &plain.commands@[i as int],
            w,
        ) {
            law_bang_negates(fuel, plain, negated, i + 1, code, w);
        }
    }
}

/// An `elif` with what follows it runs as an `if` with the same condition, body and rest.
pub proof fn law_elif_is_if(fuel: nat, elif: &ElseClause, clause: &IfClause, w: World)
    requires
        elif.cond == Some(clause.cond),
        elif.body == clause.body,
        match (elif.else_stmt, clause.else_stmt) {
            (Some(a), Some(b)) => *a == b,
            (None, None) => true,
            _ => false,
        },
    ensures
        crate::semantics::eval_else(fuel, elif, w) == crate::semantics::eval_if(fuel, clause, w),
{
}

/// Whether the command is the other one with a bang in front.
pub open spec fn is_negation(c: Command, of: Command) -> bool {
    c.inner matches CommandInner::AndOr(list) && {
        &&& list@.len() == 1
        &&& list@[0]@.len() == 1
        &&& list@[0]@[0].separator is First
        &&& list@[0]@[0].pipeline.bang
        &&& list@[0]@[0].pipeline.commands@ == seq![of]
    }
}

/// A negated command ends as the command does, with the status turned around.
proof fn lemma_negation(fuel: nat, c: &Command, of: &Command, w: World)
    requires
        is_negation(*c, *of),
    ensures
        crate::semantics::eval_command(fuel, c, w) == match crate::semantics::eval_command(
            fuel,
            of,
            w,
        ) {
            Outcome::Done(code, w) => Outcome::Done(
                if code == 0 {
                    1
                } else {
                    0
                },
                w,
            ),
            other => other,
        },
{
    let list = c.inner->AndOr_0@;
    let chain = list[0]@;
    let p = &chain[0].pipeline;
    let first = crate::semantics::eval_command(fuel, of, w);
    let whole = match first {
        Outcome::Done(code, w) => Outcome::Done(crate::machine::pipeline_status(true, code), w),
        other => other,
    };
    if let Outcome::Done(code, w) = first {
        assert(crate::semantics::eval_pipeline(fuel, p, 1, code, w) == whole);
    }
    assert(crate::semantics::eval_pipeline(fuel, p, 0, 0, w) == whole);
    if let Outcome::Done(code, w) = whole {
        assert(crate::semantics::eval_chain(fuel, chain, 1, code, w) == whole);
        assert(crate::semantics::eval_list(fuel, list, 1, code, w) == whole);
    }
    assert(crate::semantics::eval_chain(fuel, chain, 0, 0, w) == whole);
    assert(crate::semantics::eval_list(fuel, list, 0, 0, w) == whole);
}

/// An `until` loop runs as the `while` loop with the negated condition.
pub proof fn law_until_is_while_not(
    fuel: nat,
    until: &WhileClause,
    negated: &WhileClause,
    last: ExitCode,
    w: World,
)
    requires
        !until.desired,
        negated.desired,
        is_negation(negated.cond, until.cond),
        until.body == negated.body,
    ensures
        crate::semantics::eval_while(fuel, until, last, w) == crate::semantics::eval_while(
            fuel,
            negated,
            last,
            w,
        ),
    decreases fuel,
{
    if fuel > 0 {
        lemma_negation(fuel, &negated.cond, &until.cond, w);
        if let Outcome::Done(_, w) = crate::semantics::eval_command(fuel, &until.cond, w) {
            if let Outcome::Done(code, w) = crate::semantics::eval_command(fuel, &until.body, w) {
                law_until_is_while_not((fuel - 1) as nat, until, negated, code, w);
            }
        }
    }
}

/// After a failure the rest of a chain of `&&` does not run, nor after a success that of a chain of
/// `||`; the status stays.
pub proof fn law_chain_short_circuits(
    fuel: nat,
    chain: Seq<AndOr>,
    i: nat,
    code: ExitCode,
    w: World,
)
    requires
        forall|j: int|
            i <= j < chain.len() ==> (#[trigger] chain[j]).separator == if code == 0 {
                SepKind::Or
            } else {
                SepKind::And
            },
    ensures
        crate::semantics::eval_chain(fuel, chain, i, code, w) == Outcome::Done(code, w),
    decreases chain.len() - i,
{
    if i < chain.len() {
        assert(chain[i as int].separator == if code == 0 {
            SepKind::Or
        } else {
            SepKind::And
        });
        law_chain_short_circuits(fuel, chain, i + 1, code, w);
    }
}

/// A chain with one more member is that member, run on what the chain came to.
pub proof fn law_chain_extends(
    fuel: nat,
    chain: Seq<AndOr>,
    member: AndOr,
    i: nat,
    code: ExitCode,
    w: World,
)
    requires
        i <= chain.len(),
    ensures
        crate::semantics::eval_chain(fuel, chain.push(member), i, code, w)
            == match crate::semantics::eval_chain(fuel, chain, i, code, w) {
            Outcome::Done(code, w) => crate::semantics::eval_and_or(fuel, &member, code, w),
            other => other,
        },
    decreases chain.len() - i,
{
    let longer = chain.push(member);
    if i < chain.len() {
        assert(longer[i as int] == chain[i as int]);
        if crate::machine::and_or_runs(chain[i as int].separator, code) {
            if let Outcome::Done(code, w) = crate::semantics::eval_pipeline(
                fuel,
                &chain[i as int].pipeline,
                0,
                0,
                w,
            ) {
                law_chain_extends(fuel, chain, member, i + 1, code, w);
            }
        } else {
            law_chain_extends(fuel, chain, member, i + 1, code, w);
        }
    } else {
        match crate::semantics::eval_and_or(fuel, &member, code, w) {
            Outcome::Done(code, w) => {
                assert(crate::semantics::eval_chain(fuel, longer, i + 1, code, w)
                    == Outcome::Done(code, w));
            },
            _ => {},
        }
    }
}

/// Where every action behind the name is a word, their texts are the arguments, one for one and in
/// order, and nothing is written to the program.
pub proof fn law_words_are_the_arguments(c: SimpleCommand, vars: Map<Seq<u8>, Seq<u8>>)
    requires
        c.post_actions matches Some(actions) && forall|i: int|
            0 <= i < actions@.len() ==> (#[trigger] actions@[i]) is Word,
    ensures
        c.request_in(vars).args.len() == c.post_actions->0@.len(),
        forall|i: int|
            0 <= i < c.post_actions->0@.len() ==> (#[trigger] c.request_in(vars).args[i])
                == c.post_actions->0@[i]->Word_0.text(),
        c.request_in(vars).stdin is None,
{
    lemma_words_are_the_arguments(c.post_actions->0@);
}

proof fn lemma_words_are_the_arguments(actions: Seq<PostAction>)
    requires
        forall|i: int| 0 <= i < actions.len() ==> (#[trigger] actions[i]) is Word,
    ensures
        crate::child::args_of(actions).len() == actions.len(),
        forall|i: int|
            0 <= i < actions.len() ==> (#[trigger] crate::child::args_of(actions)[i])
                == actions[i]->Word_0.text(),
        crate::child::documents_of(actions).len() == 0,
    decreases actions.len(),
{
    if actions.len() > 0 {
        let n = actions.len() - 1;
        assert(actions.take(n) =~= actions.drop_last());
        assert(actions.take(n + 1) =~= actions);
        lemma_words_are_the_arguments(actions.drop_last());
        crate::child::lemma_actions_next(actions, n);
        assert(actions[n] is Word);
        assert(crate::child::args_of(actions) =~= crate::child::args_of(actions.drop_last()).push(
            actions[n]->Word_0.text(),
        ));
    }
}

/// The child process that a simple command asks for is made of its parts: the text of its name is
/// the program, and the variables of the shell are its environment. Without actions behind the name
/// there are no arguments, and nothing is written to the program.
pub proof fn law_request_of_a_name(c: SimpleCommand, name: Word, vars: Map<Seq<u8>, Seq<u8>>)
    requires
        c.name == Some(name),
    ensures
        c.request_in(vars).program == name.text(),
        c.request_in(vars).vars == vars,
        (c.post_actions is None || c.post_actions->0@.len() == 0) ==> {
            &&& c.request_in(vars).args.len() == 0
            &&& c.request_in(vars).stdin is None
        },
{
}

/// One more word behind the name is one more argument, one more here-document is so much more
/// written to the program, and one more redirection to or from a file is nothing.
pub proof fn law_one_more_action(
    c: SimpleCommand,
    longer: SimpleCommand,
    act: PostAction,
    vars: Map<Seq<u8>, Seq<u8>>,
)
    requires
        c.name == longer.name,
        c.post_actions is Some,
        longer.post_actions is Some,
        longer.post_actions->0@ == c.post_actions->0@.push(act),
    ensures
        longer.request_in(vars).program == c.request_in(vars).program,
        match act {
            PostAction::Word(word) => {
                &&& longer.request_in(vars).args == c.request_in(vars).args.push(word.text())
                &&& longer.request_in(vars).stdin == c.request_in(vars).stdin
                &&& longer.supported() == (c.supported() && word.literal())
            },
            PostAction::Redirect(IoRedirect::Heredoc(_, doc)) => {
                &&& longer.request_in(vars).args == c.request_in(vars).args
                &&& longer.request_in(vars).stdin == Some(
                    match c.request_in(vars).stdin {
                        Some(text) => text + doc.data@,
                        None => doc.data@,
                    },
                )
                &&& longer.supported() == c.supported()
            },
            PostAction::Redirect(IoRedirect::File(_, _)) => {
                &&& longer.request_in(vars).args == c.request_in(vars).args
                &&& longer.request_in(vars).stdin == c.request_in(vars).stdin
                &&& longer.supported() == c.supported()
            },
        },
{
    let fewer = c.post_actions->0@;
    let actions = longer.post_actions->0@;
    let n = fewer.len() as int;
    assert(actions.take(n) =~= fewer);
    assert(actions.take(n + 1) =~= actions);
    crate::child::lemma_actions_next(actions, n);
    let documents = crate::child::documents_of(fewer);
    match act {
        PostAction::Word(word) => {
            assert(crate::child::args_of(actions) =~= crate::child::args_of(fewer).push(
                word.text(),
            ));
            assert(crate::child::documents_of(actions) =~= documents);
        },
        PostAction::Redirect(IoRedirect::Heredoc(_, doc)) => {
            assert(crate::child::args_of(actions) =~= crate::child::args_of(fewer));
            assert(crate::child::documents_of(actions) =~= documents.push(doc.data@));
            documents.lemma_flatten_push(doc.data@);
            if documents.len() == 0 {
                assert(documents =~= Seq::empty());
                assert(documents.flatten() =~= Seq::empty());
                assert(documents.flatten() + doc.data@ =~= doc.data@);
            }
        },
        PostAction::Redirect(IoRedirect::File(_, _)) => {
            assert(crate::child::args_of(actions) =~= crate::child::args_of(fewer));
            assert(crate::child::documents_of(actions) =~= documents);
        },
    }
    if longer.supported() {
        assert forall|i: int| 0 <= i < fewer.len() implies (
        #[trigger] c.actions()[i]).supported() by {
            assert(longer.actions()[i].supported());
        }
        assert(longer.actions()[n].supported());
    }
    if c.supported() && act.supported() {
        assert forall|i: int| 0 <= i < actions.len() implies (
        #[trigger] longer.actions()[i]).supported() by {
            if i < n {
                assert(c.actions()[i].supported());
            }
        }
    }
}

/// A simple command can be carried out exactly if its name, where it has one, and every word behind
/// it are text alone.
pub proof fn law_supported_commands(c: SimpleCommand)
    ensures
        c.supported() == {
            &&& c.name is Some ==> c.name->0.literal()
            &&& c.post_actions is Some ==> forall|i: int|
                0 <= i < c.post_actions->0@.len() && (#[trigger] c.post_actions->0@[i]) is Word
                    ==> c.post_actions->0@[i]->Word_0.literal()
        },
{
    if c.post_actions is Some {
        let actions = c.post_actions->0@;
        if c.supported() {
            assert forall|i: int|
                0 <= i < actions.len() && (
                #[trigger] actions[i]) is Word implies actions[i]->Word_0.literal() by {
                assert(c.actions()[i].supported());
            }
        }
    }
}

/// A request says of each part of a child process what it is.
pub proof fn law_request_is_what_it_holds(child: ChildRequest)
    ensures
        child@.program == child.program@,
        child@.args.len() == child.args@.len(),
        forall|i: int|
            0 <= i < child.args@.len() ==> (#[trigger] child@.args[i]) == child.args@[i]@,
        child@.vars == crate::env::values_of(child.env@),
        child@.stdin is Some == child.stdin is Some,
        child.stdin is Some ==> child@.stdin->0 == child.stdin->0@,
{
}

/// An action asks for what it holds.
pub proof fn law_response_is_what_it_holds(action: Action)
    ensures
        match action {
            Action::Continue => action@ is Continue,
            Action::Spawn(child) => action@ is Spawn && action@->Spawn_0 == child@,
            Action::Finished(code) => action@ is Finished && action@->Finished_0 == code,
            Action::Unsupported => action@ is Unsupported,
        },
{
}

/// In a list of names with values the last value of a name counts, and a list without pairs gives
/// none.
pub proof fn law_last_value_counts(
    pairs: Seq<(Vec<u8>, Vec<u8>)>,
    name: Vec<u8>,
    value: Vec<u8>,
    other: Seq<u8>,
)
    ensures
        crate::env::values_of(pairs.push((name, value))).contains_key(name@),
        crate::env::values_of(pairs.push((name, value)))[name@] == value@,
        other != name@ ==> {
            &&& crate::env::values_of(pairs.push((name, value))).contains_key(other)
                == crate::env::values_of(pairs).contains_key(other)
            &&& crate::env::values_of(pairs).contains_key(other) ==> crate::env::values_of(
                pairs.push((name, value)),
            )[other] == crate::env::values_of(pairs)[other]
        },
        !crate::env::values_of(Seq::empty()).contains_key(other),
{
    assert(pairs.push((name, value)).drop_last() =~= pairs);
}

/// In a list of names with bodies the last body of a name counts, and a list without pairs gives
/// none.
pub proof fn law_last_body_counts(
    pairs: Seq<(Vec<u8>, &FunctionBody)>,
    name: Vec<u8>,
    body: &FunctionBody,
    other: Seq<u8>,
)
    ensures
        crate::env::bodies_of(pairs.push((name, body))).contains_key(name@),
        crate::env::bodies_of(pairs.push((name, body)))[name@] == *body,
        other != name@ ==> {
            &&& crate::env::bodies_of(pairs.push((name, body))).contains_key(other)
                == crate::env::bodies_of(pairs).contains_key(other)
            &&& crate::env::bodies_of(pairs).contains_key(other) ==> crate::env::bodies_of(
                pairs.push((name, body)),
            )[other] == crate::env::bodies_of(pairs)[other]
        },
        !crate::env::bodies_of(Seq::empty()).contains_key(other),
{
    assert(pairs.push((name, body)).drop_last() =~= pairs);
}

/// Redirections to or from files, and what stands before the name, have no effect on a simple
/// command.
pub proof fn law_files_have_no_effect(c: &SimpleCommand, bare: &SimpleCommand, w: World)
    requires
        c.name == bare.name,
        bare.actions() == crate::child::without_files(c.actions()),
    ensures
        crate::semantics::eval_simple(c, w) == crate::semantics::eval_simple(bare, w),
{
    crate::child::lemma_without_files(c.actions());
    assert(c.supported() == bare.supported());
}

/// The redirections of a whole command have no effect on it.
pub proof fn law_redirect_list_has_no_effect(fuel: nat, c: &Command, bare: &Command, w: World)
    requires
        c.inner == bare.inner,
    ensures
        crate::semantics::eval_command(fuel, c, w) == crate::semantics::eval_command(fuel, bare, w),
{
}

/// Alternatives are tried one after the other: the second ones only if none of the first matches.
/// No alternatives match nothing, and a single one matches as the word does.
pub proof fn law_alternatives_join(first: Seq<Word>, second: Seq<Word>, value: Seq<u8>)
    ensures
        crate::machine::match_words(first + second, value) == match crate::machine::match_words(
            first,
            value,
        ) {
            Some(false) => crate::machine::match_words(second, value),
            other => other,
        },
        first.len() == 0 ==> crate::machine::match_words(first, value) == Some(false),
        first.len() == 1 && first[0].matchable() ==> crate::machine::match_words(first, value)
            == Some(
            crate::glob::glob_builds(crate::glob::pattern_of(first[0].text()), true)
                && crate::glob::glob_matches(
                crate::glob::pattern_of(first[0].text()),
                true,
                value,
            ),
        ),
        first.len() == 1 && !first[0].matchable() ==> crate::machine::match_words(first, value)
            is None,
    decreases first.len(),
{
    if first.len() == 0 {
        assert(first + second =~= second);
    } else {
        assert((first + second).drop_first() =~= first.drop_first() + second);
        law_alternatives_join(first.drop_first(), second, value);
    }
}

/// How many braces of the pattern open.
pub open spec fn opening_braces(pattern: Seq<char>) -> nat {
    pattern.filter(|c: char| c == '{').len()
}

/// Groups nest no deeper than there are braces that open.
proof fn lemma_depth_is_bounded(pattern: Seq<char>)
    ensures
        crate::glob::depth(pattern).closed <= opening_braces(pattern),
        crate::glob::depth(pattern).open.len() <= opening_braces(pattern),
        forall|j: int|
            0 <= j < crate::glob::depth(pattern).open.len() ==> (
            #[trigger] crate::glob::depth(pattern).open[j]) + 1 + j <= opening_braces(pattern),
    decreases pattern.len(),
{
    reveal(Seq::filter);
    if pattern.len() > 0 {
        lemma_depth_is_bounded(pattern.drop_last());
    }
}

/// A word is matched as a pattern where it is text alone and its pattern is small: up to 32768
/// characters and 80 braces. A word that is not text alone is not.
pub proof fn law_small_words_can_be_matched(word: Word)
    ensures
        word.literal() && crate::glob::pattern_of(word.text()).len() <= 32768 && opening_braces(
            crate::glob::pattern_of(word.text()),
        ) <= 80 ==> word.matchable(),
        !word.literal() ==> !word.matchable(),
{
    lemma_depth_is_bounded(crate::glob::pattern_of(word.text()));
}

/// A word of text alone is matched, however long, where no character of it is special and it has up
/// to 327600 bytes.
pub proof fn law_plain_words_can_be_matched(word: Word)
    requires
        word.literal(),
        vstd::utf8::valid_utf8(word.text()),
        word.text().len() <= 327600,
        forall|i: int|
            0 <= i < word.text().len() ==> !(seq![0x3fu8, 0x2a, 0x5b, 0x7b, 0x7d, 0x5c].contains(
                #[trigger] word.text()[i],
            )),
    ensures
        word.matchable(),
        crate::glob::plain(crate::glob::pattern_of(word.text())),
{
    let text = word.text();
    let pattern = crate::glob::pattern_of(text);
    law_valid_text_is_its_pattern(text);
    assert forall|i: int| 0 <= i < pattern.len() implies !crate::glob::special(
        #[trigger] pattern[i],
    ) by {
        if crate::glob::special(pattern[i]) {
            lemma_ascii_stays(pattern, i);
            let j = choose|j: int|
                0 <= j < text.len() && #[trigger] text[j] as int == pattern[i] as int;
            let specials = seq![0x3fu8, 0x2a, 0x5b, 0x7b, 0x7d, 0x5c];
            assert(specials[0] == 0x3f && specials[1] == 0x2a && specials[2] == 0x5b && specials[3]
                == 0x7b && specials[4] == 0x7d && specials[5] == 0x5c);
            assert(specials.contains(text[j]));
        }
    }
}

/// An ASCII character of a string is a byte of its encoding.
proof fn lemma_ascii_stays(chars: Seq<char>, i: int)
    requires
        0 <= i < chars.len(),
        '\0' <= chars[i] <= '\u{7f}',
    ensures
        exists|j: int|
            0 <= j < vstd::utf8::encode_utf8(chars).len() && #[trigger] vstd::utf8::encode_utf8(
                chars,
            )[j] as int == chars[i] as int,
    decreases chars.len(),
{
    let all = vstd::utf8::encode_utf8(chars);
    let first = vstd::utf8::encode_scalar(chars[0] as u32);
    let rest = vstd::utf8::encode_utf8(chars.drop_first());
    assert(all == first + rest);
    if i == 0 {
        let one = seq![chars[0]];
        vstd::utf8::is_ascii_chars_encode_utf8(one);
        assert(one.drop_first() =~= Seq::empty());
        reveal_with_fuel(vstd::utf8::encode_utf8, 2);
        assert(vstd::utf8::encode_utf8(one) =~= first);
        assert(one[0] as u8 == vstd::utf8::encode_utf8(one)[0]);
        assert(all[0] as int == chars[0] as int);
    } else {
        lemma_ascii_stays(chars.drop_first(), i - 1);
        let j = choose|j: int|
            0 <= j < rest.len() && #[trigger] rest[j] as int == chars.drop_first()[i - 1] as int;
        assert(all[first.len() + j] == rest[j]);
    }
}

/// A word of text alone that is no pattern is matched, however long, and so is one whose pattern
/// with an empty group behind it the outside crate compiles. Only where braces nest beyond the
/// stack, or the pattern does not compile, a word of text alone is not matched.
pub proof fn law_words_that_compile_can_be_matched(word: Word)
    requires
        word.literal(),
        opening_braces(crate::glob::pattern_of(word.text())) < 1000,
    ensures
        ({
            let p = crate::glob::pattern_of(word.text());
            let n = p.len() as int;
            &&& !crate::glob::glob_builds(p, true) ==> word.matchable()
            &&& !(n >= 3 && p[n - 3] == '/' && p[n - 2] == '*' && p[n - 1] == '*')
                && crate::glob::glob_builds(p + seq!['{', '}'], true)
                && crate::glob::glob_set_builds(p + seq!['{', '}'], true) ==> word.matchable()
            &&& n >= 3 && p[n - 3] == '/' && p[n - 2] == '*' && p[n - 1] == '*' && !(p[0] == '*'
                && p[1] == '*') && crate::glob::glob_builds(seq!['{', '}'] + p, true)
                && crate::glob::glob_set_builds(seq!['{', '}'] + p, true) ==> word.matchable()
            &&& n >= 3 && p[n - 3] == '/' && p[n - 2] == '*' && p[n - 1] == '*' && p[0] == '*'
                && p[1] == '*' && crate::glob::glob_set_builds(p, true) ==> word.matchable()
        }),
{
    let p = crate::glob::pattern_of(word.text());
    let group = seq!['{', '}'];
    let brace = |c: char| c == '{';
    lemma_depth_is_bounded(p);
    lemma_depth_is_bounded(p + group);
    lemma_depth_is_bounded(group + p);
    Seq::filter_distributes_over_add(p, group, brace);
    Seq::filter_distributes_over_add(group, p, brace);
    assert(opening_braces(group) <= 1) by {
        reveal(Seq::filter);
        assert(group.drop_last() =~= seq!['{']);
        assert(seq!['{'].drop_last() =~= Seq::empty());
        reveal_with_fuel(Seq::filter, 3);
    }
}

/// Patterns in which every group is closed do not nest in one another when they stand side by side.
pub proof fn law_groups_side_by_side(first: Seq<char>, second: Seq<char>)
    requires
        crate::glob::depth(first).open.len() == 0,
        crate::glob::depth(first).place is Text,
    ensures
        crate::glob::depth(first + second).place == crate::glob::depth(second).place,
        crate::glob::depth(first + second).open == crate::glob::depth(second).open,
        crate::glob::depth(first + second).closed == if crate::glob::depth(first).closed
            < crate::glob::depth(second).closed {
            crate::glob::depth(second).closed
        } else {
            crate::glob::depth(first).closed
        },
    decreases second.len(),
{
    if second.len() == 0 {
        assert(first + second =~= first);
    } else {
        assert((first + second).drop_last() =~= first + second.drop_last());
        law_groups_side_by_side(first, second.drop_last());
    }
}

/// A word that is a text is that text, a word without parts is empty, and a word of one text is
/// that text. Such words, and those made of such parts, can be evaluated; an expansion cannot.
pub proof fn law_word_of_one_part(word: Word)
    ensures
        word matches Word::Text(s) ==> word.text() == s@ && word.literal(),
        word matches Word::Complex(parts) ==> {
            &&& parts@.len() == 0 ==> word.text() == Seq::<u8>::empty() && word.literal()
            &&& parts@.len() == 1 ==> word.literal() == (parts@[0] is Text)
            &&& parts@.len() == 1 && parts@[0] is Text ==> word.text() == parts@[0]->Text_0@
        },
{
    if let Word::Complex(parts) = word {
        let text = |part: WordPart| part.text();
        if parts@.len() == 1 {
            parts@.map_values(text).lemma_flatten_one_element();
        }
        if parts@.len() == 0 {
            assert(parts@.map_values(text) =~= Seq::empty());
        }
    }
}

/// Quotes around one text hold that text, and quotes around nothing hold nothing.
pub proof fn law_quote_of_one_piece(quote: DoubleQuote)
    ensures
        quote.items@.len() == 0 ==> quote.text() == Seq::<u8>::empty() && quote.literal(),
        quote.items@.len() == 1 ==> {
            &&& quote.literal() == (quote.items@[0] is Text)
            &&& quote.items@[0] is Text ==> quote.text() == quote.items@[0]->Text_0@
        },
{
    let text = |item: Quotable| item.text();
    if quote.items@.len() == 1 {
        quote.items@.map_values(text).lemma_flatten_one_element();
    }
    if quote.items@.len() == 0 {
        assert(quote.items@.map_values(text) =~= Seq::empty());
    }
}

/// An evaluated word gives the one text, or each of the paths in order.
pub proof fn law_evaluated_word_gives_its_arguments(eval: WordEval)
    ensures
        match eval {
            WordEval::Text(text) => eval.args().len() == 1 && eval.args()[0] == text@,
            WordEval::Globbed(paths) => eval.args().len() == paths@.len() && forall|i: int|
                0 <= i < paths@.len() ==> (#[trigger] eval.args()[i]) == paths@[i]@,
        },
{
}

/// The text of a word is that of its first parts and that of the others, one after the other, and
/// a word of one text is that text.
pub proof fn law_word_text_is_joined(word: Word, first: Word, second: Word)
    requires
        word matches Word::Complex(parts) && first matches Word::Complex(some)
            && second matches Word::Complex(others) && parts@ == some@ + others@,
    ensures
        word.text() == first.text() + second.text(),
        word.literal() == (first.literal() && second.literal()),
        word->Complex_0@.len() == 1 ==> word.text() == word->Complex_0@[0].text(),
{
    let some = first->Complex_0@;
    let others = second->Complex_0@;
    let parts = word->Complex_0@;
    let text = |part: WordPart| part.text();
    assert(parts.map_values(text) =~= some.map_values(text) + others.map_values(text));
    vstd::seq_lib::lemma_flatten_concat(some.map_values(text), others.map_values(text));
    parts.map_values(text).lemma_flatten_one_element();
    assert(first.literal() && second.literal() ==> word.literal());
    if word.literal() {
        assert forall|i: int| 0 <= i < some.len() implies (#[trigger] some[i]) is Text by {
            assert(parts[i] is Text);
        }
        assert forall|i: int| 0 <= i < others.len() implies (#[trigger] others[i]) is Text by {
            assert(parts[some.len() + i] is Text);
        }
    }
}

/// The text between double quotes is that of the first pieces and that of the others, one after
/// the other.
pub proof fn law_quoted_text_is_joined(
    quote: DoubleQuote,
    first: DoubleQuote,
    second: DoubleQuote,
)
    requires
        quote.items@ == first.items@ + second.items@,
    ensures
        quote.text() == first.text() + second.text(),
        quote.literal() == (first.literal() && second.literal()),
{
    let text = |item: Quotable| item.text();
    assert(quote.items@.map_values(text) =~= first.items@.map_values(text)
        + second.items@.map_values(text));
    vstd::seq_lib::lemma_flatten_concat(
        first.items@.map_values(text),
        second.items@.map_values(text),
    );
    if quote.literal() {
        assert forall|i: int| 0 <= i < first.items@.len() implies (
        #[trigger] first.items@[i]) is Text by {
            assert(quote.items@[i] is Text);
        }
        assert forall|i: int| 0 <= i < second.items@.len() implies (
        #[trigger] second.items@[i]) is Text by {
            assert(quote.items@[first.items@.len() + i] is Text);
        }
    }
}

/// The pattern for a text that is UTF-8 encodes that very text.
pub proof fn law_valid_text_is_its_pattern(text: Seq<u8>)
    requires
        vstd::utf8::valid_utf8(text),
    ensures
        vstd::utf8::encode_utf8(crate::glob::pattern_of(text)) == text,
{
    vstd::utf8::decode_utf8_encode_utf8(text);
}

/// What a hexadecimal digit in lower case stands for.
pub open spec fn digit_value(c: char) -> int {
    if '0' <= c <= '9' {
        c as int - '0' as int
    } else if 'a' <= c <= 'f' {
        c as int - 'a' as int + 10
    } else {
        -1
    }
}

/// An ASCII byte is written as the character that it is; any other byte as an escape whose two
/// digits, in lower case, give the byte.
pub proof fn law_escape_gives_the_byte(byte: u8)
    ensures
        byte < 0x80 ==> {
            &&& crate::glob::escaped_byte(byte).len() == 1
            &&& crate::glob::escaped_byte(byte)[0] as int == byte as int
        },
        byte >= 0x80 ==> {
            let escape = crate::glob::escaped_byte(byte);
            &&& escape.len() == 6
            &&& escape[0] == '\\'
            &&& escape[1] == 'u'
            &&& escape[2] == '{'
            &&& 0 <= digit_value(escape[3])
            &&& 0 <= digit_value(escape[4])
            &&& digit_value(escape[3]) * 16 + digit_value(escape[4]) == byte as int
            &&& escape[5] == '}'
        },
{
}

/// Texts that are not UTF-8 are written byte for byte: the pattern of two of them, one after the
/// other, is the pattern of the one and that of the other, and one more byte is written behind.
pub proof fn law_escaped_texts_join(first: Seq<u8>, second: Seq<u8>)
    requires
        !vstd::utf8::valid_utf8(first),
        !vstd::utf8::valid_utf8(first + second),
    ensures
        !vstd::utf8::valid_utf8(second) ==> crate::glob::pattern_of(first + second)
            == crate::glob::pattern_of(first) + crate::glob::pattern_of(second),
        second.len() == 1 ==> crate::glob::pattern_of(first + second) == crate::glob::pattern_of(
            first,
        ) + crate::glob::escaped_byte(second[0]),
{
    let escape = |byte: u8| crate::glob::escaped_byte(byte);
    assert((first + second).map_values(escape) =~= first.map_values(escape) + second.map_values(
        escape,
    ));
    vstd::seq_lib::lemma_flatten_concat(first.map_values(escape), second.map_values(escape));
    if second.len() == 1 {
        second.map_values(escape).lemma_flatten_one_element();
    }
}

/// The pattern of a text that is not UTF-8 holds, in order, each byte of the text as it is written.
pub proof fn law_escaped_text_holds_each_byte(text: Seq<u8>, i: int)
    requires
        !vstd::utf8::valid_utf8(text),
        0 <= i < text.len(),
    ensures
        exists|front: Seq<char>, back: Seq<char>| #[trigger]
            (front + crate::glob::escaped_byte(text[i]) + back) == crate::glob::pattern_of(text)
                && front.len() >= i && back.len() >= text.len() - i - 1,
        crate::glob::pattern_of(text).len() == text.len() + 5 * text.filter(
            |byte: u8| byte >= 0x80,
        ).len(),
{
    let escape = |byte: u8| crate::glob::escaped_byte(byte);
    let pieces = text.map_values(escape);
    let front = pieces.take(i);
    let back = pieces.skip(i + 1);
    assert(pieces =~= front.push(pieces[i]) + back);
    vstd::seq_lib::lemma_flatten_concat(front.push(pieces[i]), back);
    front.lemma_flatten_push(pieces[i]);
    assert(front =~= text.take(i).map_values(escape));
    assert(back =~= text.skip(i + 1).map_values(escape));
    lemma_escaped_len(text.take(i));
    lemma_escaped_len(text.skip(i + 1));
    lemma_escaped_len(text);
    assert(front.flatten() + crate::glob::escaped_byte(text[i]) + back.flatten()
        == crate::glob::pattern_of(text));
}

proof fn lemma_escaped_len(text: Seq<u8>)
    ensures
        text.map_values(|byte: u8| crate::glob::escaped_byte(byte)).flatten().len() == text.len()
            + 5 * text.filter(|byte: u8| byte >= 0x80).len(),
    decreases text.len(),
{
    let escape = |byte: u8| crate::glob::escaped_byte(byte);
    reveal(Seq::filter);
    if text.len() > 0 {
        let before = text.drop_last();
        lemma_escaped_len(before);
        assert(text.map_values(escape) =~= before.map_values(escape).push(escape(text.last())));
        before.map_values(escape).lemma_flatten_push(escape(text.last()));
    } else {
        assert(text.map_values(escape) =~= Seq::empty());
    }
}

/// The pattern for a text that is not UTF-8 is all ASCII.
pub proof fn law_escaped_text_is_ascii(text: Seq<u8>)
    requires
        !vstd::utf8::valid_utf8(text),
    ensures
        vstd::utf8::is_ascii_chars(crate::glob::pattern_of(text)),
{
    lemma_escaped_is_ascii(text);
}

proof fn lemma_escaped_is_ascii(text: Seq<u8>)
    ensures
        vstd::utf8::is_ascii_chars(
            text.map_values(|byte: u8| crate::glob::escaped_byte(byte)).flatten(),
        ),
    decreases text.len(),
{
    let escape = |byte: u8| crate::glob::escaped_byte(byte);
    let pieces = text.map_values(escape);
    if text.len() > 0 {
        lemma_escaped_is_ascii(text.drop_first());
        assert(pieces.drop_first() =~= text.drop_first().map_values(escape));
        assert(pieces.flatten() == pieces.first() + pieces.drop_first().flatten());
        assert(pieces.first() == crate::glob::escaped_byte(text[0]));
        assert(vstd::utf8::is_ascii_chars(crate::glob::escaped_byte(text[0])));
    }
}

} // verus!
