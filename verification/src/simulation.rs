//! The machine does what the semantics says: each piece of work takes it, in some number of steps,
//! to the outcome that the semantics gives.

use vstd::prelude::*;

use crate::ast::{
    AndOr, CaseClause, Command, CommandInner, ElseClause, ExitCode, ForClause, IfClause, Pipeline,
    WhileClause,
};
use crate::child::Request;
use crate::machine::{Event, Response, State, Transition, Work};
use crate::semantics::{Outcome, World};

verus! {

/// A machine together with the replies that it will be given and the child processes that it has
/// asked for.
pub struct Config<'a> {
    pub state: State<'a>,
    pub replies: Seq<ExitCode>,
    pub spawned: Seq<Request>,
}

/// How far a machine has come.
pub enum Run<'a> {
    /// It has more steps to take.
    Running(Config<'a>),
    /// It has finished with the status.
    Finished(ExitCode, World),
    /// It waits for a child process for which there is no reply.
    Waiting(World),
    /// It has come to a construct that is not supported.
    Unsupported(World),
}

impl<'a> Config<'a> {
    pub open spec fn world(self) -> World {
        World { scope: self.state.scope, replies: self.replies, spawned: self.spawned }
    }
}

/// What a transition comes to when a child process is answered with the next reply.
pub open spec fn settle<'a>(c: Config<'a>, transition: Transition<'a>) -> Run<'a> {
    let (state, response) = transition;
    let stepped = Config { state, ..c };
    match response {
        Response::Continue => Run::Running(stepped),
        Response::Spawn(request) => {
            let asked = Config { spawned: c.spawned.push(request), ..stepped };
            if c.replies.len() == 0 {
                Run::Waiting(asked.world())
            } else {
                Run::Running(
                    Config {
                        state: crate::machine::after_event(state, Event::Exited(c.replies[0])),
                        replies: c.replies.drop_first(),
                        ..asked
                    },
                )
            }
        },
        Response::Finished(code) => Run::Finished(code, stepped.world()),
        Response::Unsupported => Run::Unsupported(stepped.world()),
    }
}

/// One step of a machine whose child processes are answered with the replies in turn.
pub open spec fn advance<'a>(c: Config<'a>) -> Run<'a> {
    settle(c, crate::machine::step(c.state, Event::Proceed))
}

/// The given number of steps, or fewer if the machine stops before.
pub open spec fn run<'a>(n: nat, c: Config<'a>) -> Run<'a>
    decreases n,
{
    if n == 0 {
        Run::Running(c)
    } else {
        match advance(c) {
            Run::Running(c) => run((n - 1) as nat, c),
            stopped => stopped,
        }
    }
}

/// The machine in a world, with a status and work to do.
pub open spec fn config<'a>(w: World, code: ExitCode, work: Seq<Work<'a>>) -> Config<'a> {
    Config {
        state: State { scope: w.scope, code, work },
        replies: w.replies,
        spawned: w.spawned,
    }
}

/// Whether the machine comes to the outcome, with the given work then left to do. Where there is no
/// outcome it takes at least as many steps as there is fuel.
pub open spec fn reaches<'a>(
    c: Config<'a>,
    outcome: Outcome,
    work: Seq<Work<'a>>,
    fuel: nat,
) -> bool {
    match outcome {
        Outcome::Done(code, w) => exists|n: nat|
            #[trigger] run(n, c) == Run::Running(config(w, code, work)),
        Outcome::Waiting(w) => exists|n: nat| #[trigger] run(n, c) == Run::<'a>::Waiting(w),
        Outcome::Unsupported(w) => exists|n: nat| #[trigger] run(n, c) == Run::<'a>::Unsupported(w),
        Outcome::OutOfFuel => exists|n: nat| n >= fuel && #[trigger] run(n, c) is Running,
    }
}

/// Whether starting on something in a world, with other work left to do, comes to the outcome.
pub open spec fn leads_to<'a>(
    w: World,
    code: ExitCode,
    work: Seq<Work<'a>>,
    transition: Transition<'a>,
    outcome: Outcome,
    fuel: nat,
) -> bool {
    match settle(config(w, code, work), transition) {
        Run::Running(d) => reaches(d, outcome, work, fuel),
        Run::Finished(_, _) => false,
        Run::Waiting(w) => outcome == Outcome::Waiting(w),
        Run::Unsupported(w) => outcome == Outcome::Unsupported(w),
    }
}

/// Steps add up.
pub(crate) proof fn lemma_run_add<'a>(n: nat, k: nat, c: Config<'a>)
    ensures
        match run(n, c) {
            Run::Running(d) => run(n + k, c) == run(k, d),
            stopped => run(n + k, c) == stopped,
        },
    decreases n,
{
    if n > 0 {
        if let Run::Running(d) = advance(c) {
            lemma_run_add((n - 1) as nat, k, d);
        }
    }
}

/// What a machine reaches after some steps it reaches from before them.
proof fn lemma_reaches_back<'a>(
    n: nat,
    c: Config<'a>,
    d: Config<'a>,
    outcome: Outcome,
    work: Seq<Work<'a>>,
    before: nat,
    after: nat,
)
    requires
        run(n, c) == Run::Running(d),
        reaches(d, outcome, work, after),
        before <= after + n,
    ensures
        reaches(c, outcome, work, before),
{
    let k = match outcome {
        Outcome::Done(code, w) => choose|k: nat| #[trigger]
            run(k, d) == Run::Running(config(w, code, work)),
        Outcome::Waiting(w) => choose|k: nat| #[trigger] run(k, d) == Run::<'a>::Waiting(w),
        Outcome::Unsupported(w) => choose|k: nat| #[trigger] run(k, d) == Run::<'a>::Unsupported(w),
        Outcome::OutOfFuel => choose|k: nat| k >= after && #[trigger] run(k, d) is Running,
    };
    lemma_run_add(n, k, c);
    assert(run(n + k, c) == run(k, d));
}

/// One step of a running machine.
pub(crate) proof fn lemma_one_step<'a>(c: Config<'a>)
    ensures
        run(1, c) == advance(c),
{
    reveal_with_fuel(run, 2);
}

/// If a machine comes to a first outcome, and going on from there to a second one, then it comes to
/// the second one.
proof fn lemma_chain<'a>(
    c: Config<'a>,
    first: Outcome,
    middle: Seq<Work<'a>>,
    outcome: Outcome,
    work: Seq<Work<'a>>,
    before: nat,
    after: nat,
)
    requires
        reaches(c, first, middle, before),
        match first {
            Outcome::Done(code, w) => reaches(config(w, code, middle), outcome, work, after),
            other => outcome == other,
        },
        before <= after,
    ensures
        reaches(c, outcome, work, before),
{
    if let Outcome::Done(code, w) = first {
        let n = choose|n: nat| #[trigger] run(n, c) == Run::Running(config(w, code, middle));
        lemma_reaches_back(n, c, config(w, code, middle), outcome, work, before, after);
    }
}

/// What comes of doing one piece of work.
spec fn performed<'a>(x: Work<'a>, w: World, code: ExitCode, work: Seq<Work<'a>>) -> Run<'a> {
    let c = config(w, code, work);
    settle(c, crate::machine::perform(x, c.state))
}

/// A machine with work to do does the last piece of it.
proof fn lemma_performs<'a>(x: Work<'a>, w: World, code: ExitCode, work: Seq<Work<'a>>)
    ensures
        run(1, config(w, code, work.push(x))) == performed(x, w, code, work),
{
    lemma_one_step(config(w, code, work.push(x)));
    assert(work.push(x).drop_last() =~= work);
}

/// A machine that goes on after one piece of work comes to what it comes to from there.
proof fn lemma_step<'a>(
    x: Work<'a>,
    w: World,
    code: ExitCode,
    work: Seq<Work<'a>>,
    d: Config<'a>,
    outcome: Outcome,
    left: Seq<Work<'a>>,
    fuel: nat,
)
    requires
        performed(x, w, code, work) == Run::Running(d),
        reaches(d, outcome, left, fuel),
    ensures
        reaches(config(w, code, work.push(x)), outcome, left, fuel),
        reaches(config(w, code, work.push(x)), outcome, left, fuel + 1),
{
    lemma_performs(x, w, code, work);
    lemma_reaches_back(1, config(w, code, work.push(x)), d, outcome, left, fuel, fuel);
    lemma_reaches_back(1, config(w, code, work.push(x)), d, outcome, left, fuel + 1, fuel);
}

/// A machine is where it is.
pub(crate) proof fn lemma_here<'a>(w: World, code: ExitCode, work: Seq<Work<'a>>, fuel: nat)
    ensures
        reaches(config(w, code, work), Outcome::Done(code, w), work, fuel),
{
    assert(run(0, config(w, code, work)) == Run::Running(config(w, code, work)));
}

pub(crate) proof fn lists_simulate<'a>(
    fuel: nat,
    lists: &'a Vec<Vec<Vec<AndOr>>>,
    i: usize,
    code: ExitCode,
    w: World,
    work: Seq<Work<'a>>,
)
    ensures
        reaches(
            config(w, code, work.push(Work::Lists(lists, i))),
            crate::semantics::eval_lists(fuel, lists@, i as nat, code, w),
            work,
            fuel,
        ),
    decreases fuel, lists@, lists@.len() - i,
{
    let outcome = crate::semantics::eval_lists(fuel, lists@, i as nat, code, w);
    let x = Work::Lists(lists, i);
    if i < lists@.len() {
        assert(lists.len() == lists@.len());
        let next = (i + 1) as usize;
        let rest = work.push(Work::Lists(lists, next));
        let list = &lists@[i as int];
        let first = crate::semantics::eval_list(fuel, list@, 0, 0, w);
        let d = config(w, 0, rest.push(Work::List(list, 0)));
        list_simulates(fuel, list, 0, 0, w, rest);
        if let Outcome::Done(code1, w1) = first {
            lists_simulate(fuel, lists, next, code1, w1, work);
        }
        lemma_chain(d, first, rest, outcome, work, fuel, fuel);
        lemma_step(x, w, code, work, d, outcome, work, fuel);
    } else {
        lemma_here(w, code, work, fuel);
        lemma_step(x, w, code, work, config(w, code, work), outcome, work, fuel);
    }
}

pub(crate) proof fn list_simulates<'a>(
    fuel: nat,
    list: &'a Vec<Vec<AndOr>>,
    i: usize,
    code: ExitCode,
    w: World,
    work: Seq<Work<'a>>,
)
    ensures
        reaches(
            config(w, code, work.push(Work::List(list, i))),
            crate::semantics::eval_list(fuel, list@, i as nat, code, w),
            work,
            fuel,
        ),
    decreases fuel, list@, list@.len() - i,
{
    let outcome = crate::semantics::eval_list(fuel, list@, i as nat, code, w);
    let x = Work::List(list, i);
    if i < list@.len() {
        assert(list.len() == list@.len());
        let next = (i + 1) as usize;
        let rest = work.push(Work::List(list, next));
        let chain = &list@[i as int];
        let first = crate::semantics::eval_chain(fuel, chain@, 0, 0, w);
        let d = config(w, 0, rest.push(Work::Chain(chain, 0)));
        chain_simulates(fuel, chain, 0, 0, w, rest);
        if let Outcome::Done(code1, w1) = first {
            list_simulates(fuel, list, next, code1, w1, work);
        }
        lemma_chain(d, first, rest, outcome, work, fuel, fuel);
        lemma_step(x, w, code, work, d, outcome, work, fuel);
    } else {
        lemma_here(w, code, work, fuel);
        lemma_step(x, w, code, work, config(w, code, work), outcome, work, fuel);
    }
}

pub(crate) proof fn chain_simulates<'a>(
    fuel: nat,
    chain: &'a Vec<AndOr>,
    i: usize,
    code: ExitCode,
    w: World,
    work: Seq<Work<'a>>,
)
    ensures
        reaches(
            config(w, code, work.push(Work::Chain(chain, i))),
            crate::semantics::eval_chain(fuel, chain@, i as nat, code, w),
            work,
            fuel,
        ),
    decreases fuel, chain@, chain@.len() - i,
{
    let outcome = crate::semantics::eval_chain(fuel, chain@, i as nat, code, w);
    let x = Work::Chain(chain, i);
    if i < chain@.len() {
        assert(chain.len() == chain@.len());
        let next = (i + 1) as usize;
        let rest = work.push(Work::Chain(chain, next));
        let member = &chain@[i as int];
        if crate::machine::and_or_runs(member.separator, code) {
            let p = &member.pipeline;
            let first = crate::semantics::eval_pipeline(fuel, p, 0, 0, w);
            let d = config(w, 0, rest.push(Work::Pipeline(p, 0)));
            pipeline_simulates(fuel, p, 0, 0, w, rest);
            if let Outcome::Done(code1, w1) = first {
                chain_simulates(fuel, chain, next, code1, w1, work);
            }
            lemma_chain(d, first, rest, outcome, work, fuel, fuel);
            lemma_step(x, w, code, work, d, outcome, work, fuel);
        } else {
            chain_simulates(fuel, chain, next, code, w, work);
            lemma_step(x, w, code, work, config(w, code, rest), outcome, work, fuel);
        }
    } else {
        lemma_here(w, code, work, fuel);
        lemma_step(x, w, code, work, config(w, code, work), outcome, work, fuel);
    }
}

pub(crate) proof fn pipeline_simulates<'a>(
    fuel: nat,
    p: &'a Pipeline,
    i: usize,
    code: ExitCode,
    w: World,
    work: Seq<Work<'a>>,
)
    ensures
        reaches(
            config(w, code, work.push(Work::Pipeline(p, i))),
            crate::semantics::eval_pipeline(fuel, p, i as nat, code, w),
            work,
            fuel,
        ),
    decreases fuel, p, p.commands@.len() - i,
{
    let outcome = crate::semantics::eval_pipeline(fuel, p, i as nat, code, w);
    let x = Work::Pipeline(p, i);
    if i < p.commands@.len() {
        assert(p.commands.len() == p.commands@.len());
        let next = (i + 1) as usize;
        let rest = work.push(Work::Pipeline(p, next));
        let cmd = &p.commands@[i as int];
        let first = crate::semantics::eval_command(fuel, cmd, w);
        let d = config(w, code, rest.push(Work::Command(cmd)));
        command_simulates(fuel, cmd, code, w, rest);
        if let Outcome::Done(code1, w1) = first {
            pipeline_simulates(fuel, p, next, code1, w1, work);
        }
        lemma_chain(d, first, rest, outcome, work, fuel, fuel);
        lemma_step(x, w, code, work, d, outcome, work, fuel);
    } else {
        let status = crate::machine::pipeline_status(p.bang, code);
        lemma_here(w, status, work, fuel);
        lemma_step(x, w, code, work, config(w, status, work), outcome, work, fuel);
    }
}

pub(crate) proof fn command_simulates<'a>(
    fuel: nat,
    c: &'a Command,
    code: ExitCode,
    w: World,
    work: Seq<Work<'a>>,
)
    ensures
        reaches(
            config(w, code, work.push(Work::Command(c))),
            crate::semantics::eval_command(fuel, c, w),
            work,
            fuel,
        ),
    decreases fuel, c, 0int,
{
    let outcome = crate::semantics::eval_command(fuel, c, w);
    let x = Work::Command(c);
    match &c.inner {
        CommandInner::If(clause) => {
            if_simulates(fuel, &**clause, code, w, work);
            let d = config(
                w,
                code,
                work.push(Work::IfDecision(&**clause)).push(Work::Command(&clause.cond)),
            );
            lemma_step(x, w, code, work, d, outcome, work, fuel);
        },
        CommandInner::While(clause) => {
            while_simulates(fuel, &**clause, 0, w, work);
            let d = config(w, 0, work.push(Work::WhileLoop(&**clause)));
            lemma_step(x, w, code, work, d, outcome, work, fuel);
        },
        CommandInner::For(clause) => {
            match &clause.words {
                Some(words) => {
                    for_simulates(fuel, &**clause, words@, 0, 0, w, work);
                    let d = config(w, 0, work.push(Work::For(&**clause, 0)));
                    lemma_step(x, w, code, work, d, outcome, work, fuel);
                },
                None => {
                    lemma_performs(x, w, code, work);
                },
            }
        },
        CommandInner::Case(clause) => {
            case_simulates(fuel, c, &**clause, code, w, work);
        },
        CommandInner::FunctionDef(d) => {
            if let Outcome::Done(code1, w1) = outcome {
                lemma_here(w1, code1, work, fuel);
                lemma_step(x, w, code, work, config(w1, code1, work), outcome, work, fuel);
            }
        },
        CommandInner::AndOr(list) => {
            list_simulates(fuel, list, 0, 0, w, work);
            let d = config(w, 0, work.push(Work::List(list, 0)));
            lemma_step(x, w, code, work, d, outcome, work, fuel);
        },
        CommandInner::Simple(simple) => {
            if let Outcome::Done(code1, w1) = outcome {
                lemma_here(w1, code1, work, fuel);
                lemma_step(x, w, code, work, config(w1, code1, work), outcome, work, fuel);
            } else {
                lemma_performs(x, w, code, work);
            }
        },
    }
}

pub(crate) proof fn if_simulates<'a>(
    fuel: nat,
    c: &'a IfClause,
    code: ExitCode,
    w: World,
    work: Seq<Work<'a>>,
)
    ensures
        reaches(
            config(w, code, work.push(Work::IfDecision(c)).push(Work::Command(&c.cond))),
            crate::semantics::eval_if(fuel, c, w),
            work,
            fuel,
        ),
    decreases fuel, c, 0int,
{
    let outcome = crate::semantics::eval_if(fuel, c, w);
    let x = Work::IfDecision(c);
    let rest = work.push(x);
    let first = crate::semantics::eval_command(fuel, &c.cond, w);
    command_simulates(fuel, &c.cond, code, w, rest);
    if let Outcome::Done(code1, w1) = first {
        if code1 == 0 {
            command_simulates(fuel, &c.body, code1, w1, work);
            let d = config(w1, code1, work.push(Work::Command(&c.body)));
            lemma_step(x, w1, code1, work, d, outcome, work, fuel);
        } else {
            match &c.else_stmt {
                Some(clause) => {
                    else_simulates(fuel, clause, code1, w1, work);
                    let (state, _) = crate::machine::begin_else(
                        clause,
                        config(w1, code1, work).state,
                    );
                    let d = Config { state, ..config(w1, code1, work) };
                    lemma_step(x, w1, code1, work, d, outcome, work, fuel);
                },
                None => {
                    lemma_here(w1, 0, work, fuel);
                    lemma_step(x, w1, code1, work, config(w1, 0, work), outcome, work, fuel);
                },
            }
        }
    }
    lemma_chain(
        config(w, code, rest.push(Work::Command(&c.cond))),
        first,
        rest,
        outcome,
        work,
        fuel,
        fuel,
    );
}

pub(crate) proof fn else_simulates<'a>(
    fuel: nat,
    c: &'a ElseClause,
    code: ExitCode,
    w: World,
    work: Seq<Work<'a>>,
)
    ensures
        reaches(
            Config {
                state: crate::machine::begin_else(c, config(w, code, work).state).0,
                ..config(w, code, work)
            },
            crate::semantics::eval_else(fuel, c, w),
            work,
            fuel,
        ),
    decreases fuel, c, 0int,
{
    let outcome = crate::semantics::eval_else(fuel, c, w);
    match &c.cond {
        Some(cond) => {
            let x = Work::ElseDecision(c);
            let rest = work.push(x);
            let first = crate::semantics::eval_command(fuel, cond, w);
            command_simulates(fuel, cond, code, w, rest);
            if let Outcome::Done(code1, w1) = first {
                if code1 == 0 {
                    command_simulates(fuel, &c.body, code1, w1, work);
                    let d = config(w1, code1, work.push(Work::Command(&c.body)));
                    lemma_step(x, w1, code1, work, d, outcome, work, fuel);
                } else {
                    match &c.else_stmt {
                        Some(clause) => {
                            else_simulates(fuel, &**clause, code1, w1, work);
                            let (state, _) = crate::machine::begin_else(
                                &**clause,
                                config(w1, code1, work).state,
                            );
                            let d = Config { state, ..config(w1, code1, work) };
                            lemma_step(x, w1, code1, work, d, outcome, work, fuel);
                        },
                        None => {
                            lemma_here(w1, 0, work, fuel);
                            lemma_step(
                                x,
                                w1,
                                code1,
                                work,
                                config(w1, 0, work),
                                outcome,
                                work,
                                fuel,
                            );
                        },
                    }
                }
            }
            lemma_chain(
                config(w, code, rest.push(Work::Command(cond))),
                first,
                rest,
                outcome,
                work,
                fuel,
                fuel,
            );
        },
        None => {
            command_simulates(fuel, &c.body, code, w, work);
        },
    }
}

pub(crate) proof fn while_simulates<'a>(
    fuel: nat,
    c: &'a WhileClause,
    last: ExitCode,
    w: World,
    work: Seq<Work<'a>>,
)
    ensures
        reaches(
            config(w, last, work.push(Work::WhileLoop(c))),
            crate::semantics::eval_while(fuel, c, last, w),
            work,
            fuel,
        ),
    decreases fuel, c, 0int,
{
    let outcome = crate::semantics::eval_while(fuel, c, last, w);
    let x = Work::WhileLoop(c);
    if fuel == 0 {
        assert(run(0, config(w, last, work.push(x))) is Running);
    } else {
        let less = (fuel - 1) as nat;
        let decision = Work::WhileDecision(c, last);
        let rest = work.push(decision);
        let d = config(w, last, rest.push(Work::Command(&c.cond)));
        let first = crate::semantics::eval_command(fuel, &c.cond, w);
        command_simulates(fuel, &c.cond, last, w, rest);
        if let Outcome::Done(code1, w1) = first {
            if (code1 == 0) == c.desired {
                let again = work.push(x);
                let second = crate::semantics::eval_command(fuel, &c.body, w1);
                command_simulates(fuel, &c.body, code1, w1, again);
                if let Outcome::Done(code2, w2) = second {
                    while_simulates(less, c, code2, w2, work);
                    let e = config(w1, code1, again.push(Work::Command(&c.body)));
                    lemma_weaken(e, second, again, less, fuel);
                    lemma_chain(e, second, again, outcome, work, less, less);
                    lemma_step(decision, w1, code1, work, e, outcome, work, less);
                } else {
                    let e = config(w1, code1, again.push(Work::Command(&c.body)));
                    lemma_chain(e, second, again, outcome, work, fuel, fuel);
                    lemma_step(decision, w1, code1, work, e, outcome, work, fuel);
                }
            } else {
                lemma_here(w1, last, work, fuel);
                lemma_step(decision, w1, code1, work, config(w1, last, work), outcome, work, fuel);
            }
        }
        lemma_chain(d, first, rest, outcome, work, fuel, fuel);
        lemma_step(x, w, last, work, d, outcome, work, fuel);
    }
}

/// What a machine reaches it reaches with less fuel to account for.
proof fn lemma_weaken<'a>(
    c: Config<'a>,
    outcome: Outcome,
    work: Seq<Work<'a>>,
    less: nat,
    fuel: nat,
)
    requires
        reaches(c, outcome, work, fuel),
        less <= fuel,
    ensures
        reaches(c, outcome, work, less),
{
    assert(run(0, c) == Run::Running(c));
    lemma_reaches_back(0, c, c, outcome, work, less, fuel);
}

pub(crate) proof fn for_simulates<'a>(
    fuel: nat,
    c: &'a ForClause,
    words: Seq<crate::word::Word>,
    i: usize,
    code: ExitCode,
    w: World,
    work: Seq<Work<'a>>,
)
    requires
        c.words matches Some(list) && list@ == words,
    ensures
        reaches(
            config(w, code, work.push(Work::For(c, i))),
            crate::semantics::eval_for(fuel, c, words, i as nat, code, w),
            work,
            fuel,
        ),
    decreases fuel, c, words.len() - i,
{
    let outcome = crate::semantics::eval_for(fuel, c, words, i as nat, code, w);
    let x = Work::For(c, i);
    let list = c.words->0;
    assert(list.len() == words.len());
    if i >= words.len() {
        lemma_here(w, code, work, fuel);
        lemma_step(x, w, code, work, config(w, code, work), outcome, work, fuel);
    } else if !words[i as int].literal() {
        lemma_performs(x, w, code, work);
    } else {
        let next = (i + 1) as usize;
        let rest = work.push(Work::For(c, next));
        let w0 = w.with_var(c.name@, words[i as int].text());
        let first = crate::semantics::eval_command(fuel, &c.body, w0);
        let d = config(w0, code, rest.push(Work::Command(&c.body)));
        command_simulates(fuel, &c.body, code, w0, rest);
        if let Outcome::Done(code1, w1) = first {
            for_simulates(fuel, c, words, next, code1, w1, work);
        }
        lemma_chain(d, first, rest, outcome, work, fuel, fuel);
        lemma_step(x, w, code, work, d, outcome, work, fuel);
    }
}

proof fn case_simulates<'a>(
    fuel: nat,
    cmd: &'a Command,
    c: &'a CaseClause,
    code: ExitCode,
    w: World,
    work: Seq<Work<'a>>,
)
    requires
        cmd.inner matches CommandInner::Case(inner) && *inner == *c,
    ensures
        reaches(
            config(w, code, work.push(Work::Command(cmd))),
            crate::semantics::eval_case(fuel, c, w),
            work,
            fuel,
        ),
    decreases fuel, c, 0int,
{
    let outcome = crate::semantics::eval_case(fuel, c, w);
    let x = Work::Command(cmd);
    let choice = crate::machine::choose_item(c.case_list.items@, 0, c.word.text());
    crate::machine::law_first_match_is_chosen(c.case_list.items@, 0, c.word.text());
    match choice {
        crate::machine::Choice::Item(i) if c.word.literal() => {
            match &c.case_list.items@[i].actions {
                Some(actions) => {
                    command_simulates(fuel, actions, code, w, work);
                    let d = config(w, code, work.push(Work::Command(actions)));
                    lemma_step(x, w, code, work, d, outcome, work, fuel);
                },
                None => {
                    lemma_here(w, 0, work, fuel);
                    lemma_step(x, w, code, work, config(w, 0, work), outcome, work, fuel);
                },
            }
        },
        crate::machine::Choice::Nothing if c.word.literal() => {
            lemma_here(w, 0, work, fuel);
            lemma_step(x, w, code, work, config(w, 0, work), outcome, work, fuel);
        },
        _ => {
            lemma_performs(x, w, code, work);
        },
    }
}

} // verus!
