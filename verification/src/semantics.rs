//! What a script means, independently of how the machine gets there.
//!
//! The status with which each child process ends is given in advance, one reply after the other.
//! A script then comes to an outcome, unless one of its loops never ends: `fuel` bounds the rounds
//! of a loop.

use vstd::prelude::*;

use crate::ast::{
    AndOr, CaseClause, Command, CommandInner, CompleteCommand, ElseClause, ExitCode, ForClause,
    FunctionDef, IfClause, Pipeline, SimpleCommand, WhileClause,
};
use crate::child::Request;
use crate::env::Scope;
use crate::machine::Choice;
use crate::word::Word;

verus! {

/// What a script has done so far and has still to be told.
pub struct World {
    /// The variables and functions that it has defined.
    pub scope: Scope,
    /// The statuses of the child processes that are yet to be run.
    pub replies: Seq<ExitCode>,
    /// The child processes that it has asked for.
    pub spawned: Seq<Request>,
}

/// What running a command comes to.
pub enum Outcome {
    /// It ends with the status.
    Done(ExitCode, World),
    /// It waits for a child process for which there is no reply.
    Waiting(World),
    /// It comes to a construct that is not supported.
    Unsupported(World),
    /// A loop takes more rounds than allowed.
    OutOfFuel,
}

impl World {
    pub open spec fn with_var(self, name: Seq<u8>, value: Seq<u8>) -> World {
        World { scope: Scope { vars: self.scope.vars.insert(name, value), ..self.scope }, ..self }
    }
}

/// Running a child process takes the next reply.
pub open spec fn spawn(request: Request, w: World) -> Outcome {
    let asked = World { spawned: w.spawned.push(request), ..w };
    if w.replies.len() == 0 {
        Outcome::Waiting(asked)
    } else {
        Outcome::Done(w.replies[0], World { replies: w.replies.drop_first(), ..asked })
    }
}

/// The lists of a complete command run in order; the last one gives the status.
pub open spec fn eval_complete(fuel: nat, c: &CompleteCommand, w: World) -> Outcome {
    eval_lists(fuel, c.lists@, 0, 0, w)
}

pub open spec fn eval_lists(
    fuel: nat,
    lists: Seq<Vec<Vec<AndOr>>>,
    i: nat,
    code: ExitCode,
    w: World,
) -> Outcome
    decreases fuel, lists, lists.len() - i,
{
    if i >= lists.len() {
        Outcome::Done(code, w)
    } else {
        match eval_list(fuel, lists[i as int]@, 0, 0, w) {
            Outcome::Done(code, w) => eval_lists(fuel, lists, i + 1, code, w),
            other => other,
        }
    }
}

/// The chains of a list run in order; the last one gives the status.
pub open spec fn eval_list(
    fuel: nat,
    list: Seq<Vec<AndOr>>,
    i: nat,
    code: ExitCode,
    w: World,
) -> Outcome
    decreases fuel, list, list.len() - i,
{
    if i >= list.len() {
        Outcome::Done(code, w)
    } else {
        match eval_chain(fuel, list[i as int]@, 0, 0, w) {
            Outcome::Done(code, w) => eval_list(fuel, list, i + 1, code, w),
            other => other,
        }
    }
}

/// The members of a chain run in order, each if the status so far lets it; one that does not run
/// leaves the status as it is.
pub open spec fn eval_chain(
    fuel: nat,
    chain: Seq<AndOr>,
    i: nat,
    code: ExitCode,
    w: World,
) -> Outcome
    decreases fuel, chain, chain.len() - i,
{
    if i >= chain.len() {
        Outcome::Done(code, w)
    } else if crate::machine::and_or_runs(chain[i as int].separator, code) {
        match eval_pipeline(fuel, &chain[i as int].pipeline, 0, 0, w) {
            Outcome::Done(code, w) => eval_chain(fuel, chain, i + 1, code, w),
            other => other,
        }
    } else {
        eval_chain(fuel, chain, i + 1, code, w)
    }
}

/// A member of a chain runs if the status so far lets it; if not, it leaves the status as it is.
pub open spec fn eval_and_or(fuel: nat, member: &AndOr, code: ExitCode, w: World) -> Outcome {
    if crate::machine::and_or_runs(member.separator, code) {
        eval_pipeline(fuel, &member.pipeline, 0, 0, w)
    } else {
        Outcome::Done(code, w)
    }
}

/// The commands of a pipeline run in order; the last one gives the status, which a bang negates.
pub open spec fn eval_pipeline(
    fuel: nat,
    p: &Pipeline,
    i: nat,
    code: ExitCode,
    w: World,
) -> Outcome
    decreases fuel, p, p.commands@.len() - i,
{
    if i >= p.commands@.len() {
        Outcome::Done(crate::machine::pipeline_status(p.bang, code), w)
    } else {
        match eval_command(fuel, &p.commands@[i as int], w) {
            Outcome::Done(code, w) => eval_pipeline(fuel, p, i + 1, code, w),
            other => other,
        }
    }
}

pub open spec fn eval_command(fuel: nat, c: &Command, w: World) -> Outcome
    decreases fuel, c, 0int,
{
    match &c.inner {
        CommandInner::If(c) => eval_if(fuel, &**c, w),
        CommandInner::While(c) => eval_while(fuel, &**c, 0, w),
        CommandInner::For(c) => match &c.words {
            Some(words) => eval_for(fuel, &**c, words@, 0, 0, w),
            None => Outcome::Unsupported(w),
        },
        CommandInner::Case(c) => eval_case(fuel, &**c, w),
        CommandInner::FunctionDef(d) => eval_function_def(&**d, w),
        CommandInner::AndOr(list) => eval_list(fuel, list@, 0, 0, w),
        CommandInner::Simple(c) => eval_simple(c, w),
    }
}

/// If the condition succeeds the body runs, else what follows it; with nothing to run an `if`
/// succeeds.
pub open spec fn eval_if(fuel: nat, c: &IfClause, w: World) -> Outcome
    decreases fuel, c, 0int,
{
    match eval_command(fuel, &c.cond, w) {
        Outcome::Done(code, w) => if code == 0 {
            eval_command(fuel, &c.body, w)
        } else {
            match &c.else_stmt {
                Some(clause) => eval_else(fuel, clause, w),
                None => Outcome::Done(0, w),
            }
        },
        other => other,
    }
}

/// An `else` runs its body; an `elif` is an `if`.
pub open spec fn eval_else(fuel: nat, c: &ElseClause, w: World) -> Outcome
    decreases fuel, c, 0int,
{
    match &c.cond {
        Some(cond) => match eval_command(fuel, cond, w) {
            Outcome::Done(code, w) => if code == 0 {
                eval_command(fuel, &c.body, w)
            } else {
                match &c.else_stmt {
                    Some(clause) => eval_else(fuel, &**clause, w),
                    None => Outcome::Done(0, w),
                }
            },
            other => other,
        },
        None => eval_command(fuel, &c.body, w),
    }
}

/// The body of a loop runs as long as the condition comes out as desired. The status is that of the
/// last run of the body, at first `last`.
pub open spec fn eval_while(fuel: nat, c: &WhileClause, last: ExitCode, w: World) -> Outcome
    decreases fuel, c, 0int,
{
    if fuel == 0 {
        Outcome::OutOfFuel
    } else {
        match eval_command(fuel, &c.cond, w) {
            Outcome::Done(code, w) => if (code == 0) == c.desired {
                match eval_command(fuel, &c.body, w) {
                    Outcome::Done(code, w) => eval_while((fuel - 1) as nat, c, code, w),
                    other => other,
                }
            } else {
                Outcome::Done(last, w)
            },
            other => other,
        }
    }
}

/// The body of a `for` loop runs once for each word, the variable holding the text of the word.
/// The last run gives the status.
pub open spec fn eval_for(
    fuel: nat,
    c: &ForClause,
    words: Seq<Word>,
    i: nat,
    code: ExitCode,
    w: World,
) -> Outcome
    decreases fuel, c, words.len() - i,
{
    if i >= words.len() {
        Outcome::Done(code, w)
    } else if !words[i as int].literal() {
        Outcome::Unsupported(w)
    } else {
        match eval_command(fuel, &c.body, w.with_var(c.name@, words[i as int].text())) {
            Outcome::Done(code, w) => eval_for(fuel, c, words, i + 1, code, w),
            other => other,
        }
    }
}

/// A `for` loop runs over its words; without words it is not supported.
pub open spec fn eval_for_clause(fuel: nat, c: &ForClause, w: World) -> Outcome {
    match &c.words {
        Some(words) => eval_for(fuel, c, words@, 0, 0, w),
        None => Outcome::Unsupported(w),
    }
}

/// The actions of the first item whose pattern matches the word run; with nothing to run a `case`
/// succeeds.
pub open spec fn eval_case(fuel: nat, c: &CaseClause, w: World) -> Outcome
    decreases fuel, c, 0int,
{
    if !c.word.literal() {
        Outcome::Unsupported(w)
    } else {
        proof {
            crate::machine::law_first_match_is_chosen(c.case_list.items@, 0, c.word.text());
        }
        match crate::machine::choose_item(c.case_list.items@, 0, c.word.text()) {
            Choice::Item(i) => match &c.case_list.items@[i].actions {
                Some(cmd) => eval_command(fuel, cmd, w),
                None => Outcome::Done(0, w),
            },
            Choice::Nothing => Outcome::Done(0, w),
            Choice::Unsupported => Outcome::Unsupported(w),
        }
    }
}

/// A function definition succeeds and gives the function its body.
pub open spec fn eval_function_def(d: &FunctionDef, w: World) -> Outcome {
    Outcome::Done(
        0,
        World {
            scope: Scope { funcs: w.scope.funcs.insert(d.name@, d.body), ..w.scope },
            ..w
        },
    )
}

/// A simple command runs its program in the variables of the shell and ends with its status; one
/// without a program succeeds.
pub open spec fn eval_simple(c: &SimpleCommand, w: World) -> Outcome {
    if c.name is None {
        Outcome::Done(0, w)
    } else if !c.supported() {
        Outcome::Unsupported(w)
    } else {
        spawn(c.request_in(w.scope.vars), w)
    }
}

} // verus!
