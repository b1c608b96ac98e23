//! The interpreter: a machine that runs a script one step at a time.
//!
//! A script alternates decisions and child processes. The machine takes the decisions; whenever a
//! program has to run it says so and waits to be told the status with which the program ended.

use vstd::prelude::*;

use crate::ast::{
    AndOr, CaseClause, CaseItem, CaseList, Command, CommandInner, CompleteCommand, ElseClause,
    ExitCode, ForClause, FunctionBody, FunctionDef, IfClause, Pattern, Pipeline, SepKind,
    SimpleCommand, WhileClause,
};
use crate::child::{ChildRequest, Request};
use crate::env::{Environment, Scope};
use crate::word::Word;

verus! {

/// Something that the machine has yet to do.
#[derive(Clone, Copy, Debug)]
pub enum Work<'a> {
    /// Run the command.
    Command(&'a Command),
    /// Run the lists from the given one on.
    Lists(&'a Vec<Vec<Vec<AndOr>>>, usize),
    /// Run the chains of the list from the given one on.
    List(&'a Vec<Vec<AndOr>>, usize),
    /// Go on with the chain at the given member.
    Chain(&'a Vec<AndOr>, usize),
    /// Go on with the pipeline at the given command.
    Pipeline(&'a Pipeline, usize),
    /// The condition of the `if` has ended: choose a branch.
    IfDecision(&'a IfClause),
    /// The condition of the `elif` has ended: choose a branch.
    ElseDecision(&'a ElseClause),
    /// Run the condition of the loop, whose body has last ended with the current status.
    WhileLoop(&'a WhileClause),
    /// The condition of the loop has ended: run the body, or end with the given status.
    WhileDecision(&'a WhileClause, ExitCode),
    /// Run the body of the loop for the words from the given one on.
    For(&'a ForClause, usize),
}

/// What has happened since the machine last stopped.
#[derive(Clone, Copy, Debug)]
pub enum Event {
    /// Nothing: the machine is to go on.
    Proceed,
    /// The child process that the machine asked for has ended with the status.
    Exited(ExitCode),
}

/// What the machine asks for.
#[derive(Debug)]
pub enum Action {
    /// To be stepped again.
    Continue,
    /// To have the child process run, and to be told the status with which it ends.
    Spawn(ChildRequest),
    /// Nothing more: all work is done, with the status.
    Finished(ExitCode),
    /// Nothing that can be done: the script has come to a construct that is not supported.
    Unsupported,
}

/// What an action asks for.
pub enum Response {
    Continue,
    Spawn(Request),
    Finished(ExitCode),
    Unsupported,
}

impl View for Action {
    type V = Response;

    open spec fn view(&self) -> Response {
        match self {
            Action::Continue => Response::Continue,
            Action::Spawn(child) => Response::Spawn(child@),
            Action::Finished(code) => Response::Finished(*code),
            Action::Unsupported => Response::Unsupported,
        }
    }
}

/// The state of a machine: what the script has defined, the status of the last command, and the
/// work that is left, the next of it last.
pub struct State<'a> {
    pub scope: Scope,
    pub code: ExitCode,
    pub work: Seq<Work<'a>>,
}

impl<'a> State<'a> {
    /// With one more piece of work to be done first.
    pub open spec fn push(self, work: Work<'a>) -> State<'a> {
        State { work: self.work.push(work), ..self }
    }

    /// With another status.
    pub open spec fn with_code(self, code: ExitCode) -> State<'a> {
        State { code, ..self }
    }

    /// With a value for a variable.
    pub open spec fn with_var(self, name: Seq<u8>, value: Seq<u8>) -> State<'a> {
        State { scope: Scope { vars: self.scope.vars.insert(name, value), ..self.scope }, ..self }
    }

    /// With a body for a function.
    pub open spec fn with_func(self, name: Seq<u8>, body: FunctionBody) -> State<'a> {
        State { scope: Scope { funcs: self.scope.funcs.insert(name, body), ..self.scope }, ..self }
    }
}

/// The interpreter of scripts that live at least as long as `'a`.
#[derive(Debug)]
pub struct Machine<'a> {
    env: Environment<'a>,
    code: ExitCode,
    work: Vec<Work<'a>>,
}

impl<'a> View for Machine<'a> {
    type V = State<'a>;

    closed spec fn view(&self) -> State<'a> {
        State { scope: self.env@, code: self.code, work: self.work@ }
    }
}

/// Where a state leads, and what is asked for.
pub type Transition<'a> = (State<'a>, Response);

/// Starting on a complete command: its lists in order, with success if there is none.
pub open spec fn begin_complete<'a>(c: &'a CompleteCommand, s: State<'a>) -> Transition<'a> {
    (s.with_code(0).push(Work::Lists(&c.lists, 0)), Response::Continue)
}

/// Starting on a list: its chains in order, with success if there is none.
pub open spec fn begin_list<'a>(list: &'a Vec<Vec<AndOr>>, s: State<'a>) -> Transition<'a> {
    (s.with_code(0).push(Work::List(list, 0)), Response::Continue)
}

/// Starting on a chain, as if a command had just succeeded.
pub open spec fn begin_chain<'a>(chain: &'a Vec<AndOr>, s: State<'a>) -> Transition<'a> {
    (s.with_code(0).push(Work::Chain(chain, 0)), Response::Continue)
}

/// Whether the member of a chain runs when what stands before it has ended with the status.
pub open spec fn and_or_runs(separator: SepKind, prev_res: ExitCode) -> bool {
    match separator {
        SepKind::First => true,
        SepKind::And => prev_res == 0,
        SepKind::Or => prev_res != 0,
    }
}

/// Starting on a member of a chain: its pipeline, or nothing, which keeps the status.
pub open spec fn begin_and_or<'a>(a: &'a AndOr, s: State<'a>, prev_res: ExitCode) -> Transition<
    'a,
> {
    if and_or_runs(a.separator, prev_res) {
        begin_pipeline(&a.pipeline, s)
    } else {
        (s.with_code(prev_res), Response::Continue)
    }
}

/// Starting on a pipeline: its commands in order, with success if there is none.
pub open spec fn begin_pipeline<'a>(p: &'a Pipeline, s: State<'a>) -> Transition<'a> {
    (s.with_code(0).push(Work::Pipeline(p, 0)), Response::Continue)
}

/// The status of a pipeline whose last command has ended with the status.
pub open spec fn pipeline_status(bang: bool, code: ExitCode) -> ExitCode {
    if bang {
        if code == 0 {
            1
        } else {
            0
        }
    } else {
        code
    }
}

/// Starting on a command.
pub open spec fn begin_command<'a>(c: &'a Command, s: State<'a>) -> Transition<'a> {
    begin_inner(&c.inner, s)
}

pub open spec fn begin_inner<'a>(c: &'a CommandInner, s: State<'a>) -> Transition<'a> {
    match c {
        CommandInner::If(c) => begin_if(&**c, s),
        CommandInner::While(c) => begin_while(&**c, s),
        CommandInner::For(c) => begin_for(&**c, s),
        CommandInner::Case(c) => begin_case(&**c, s),
        CommandInner::FunctionDef(d) => begin_function_def(&**d, s),
        CommandInner::AndOr(list) => begin_list(list, s),
        CommandInner::Simple(c) => begin_simple(c, s),
    }
}

/// Starting on an `if`: its condition, then a choice.
pub open spec fn begin_if<'a>(c: &'a IfClause, s: State<'a>) -> Transition<'a> {
    (s.push(Work::IfDecision(c)).push(Work::Command(&c.cond)), Response::Continue)
}

/// The choice of an `if` whose condition has ended: the body on success, else what follows, which
/// succeeds if there is nothing.
pub open spec fn decide_if<'a>(c: &'a IfClause, s: State<'a>) -> Transition<'a> {
    if s.code == 0 {
        (s.push(Work::Command(&c.body)), Response::Continue)
    } else {
        match &c.else_stmt {
            Some(clause) => begin_else(clause, s),
            None => (s.with_code(0), Response::Continue),
        }
    }
}

/// Starting on an `elif` or `else`: its condition and then a choice, or its body if it has no
/// condition.
pub open spec fn begin_else<'a>(c: &'a ElseClause, s: State<'a>) -> Transition<'a> {
    match &c.cond {
        Some(cond) => (
            s.push(Work::ElseDecision(c)).push(Work::Command(cond)),
            Response::Continue,
        ),
        None => (s.push(Work::Command(&c.body)), Response::Continue),
    }
}

/// The choice of an `elif` whose condition has ended.
pub open spec fn decide_else<'a>(c: &'a ElseClause, s: State<'a>) -> Transition<'a> {
    if s.code == 0 {
        (s.push(Work::Command(&c.body)), Response::Continue)
    } else {
        match &c.else_stmt {
            Some(clause) => begin_else(&**clause, s),
            None => (s.with_code(0), Response::Continue),
        }
    }
}

/// Starting on a loop, which succeeds if its body never runs.
pub open spec fn begin_while<'a>(c: &'a WhileClause, s: State<'a>) -> Transition<'a> {
    (s.with_code(0).push(Work::WhileLoop(c)), Response::Continue)
}

/// The condition of a loop, before a choice that remembers the status of the body.
pub open spec fn test_while<'a>(c: &'a WhileClause, s: State<'a>) -> Transition<'a> {
    (s.push(Work::WhileDecision(c, s.code)).push(Work::Command(&c.cond)), Response::Continue)
}

/// The choice of a loop whose condition has ended: the body once more if the condition came out as
/// desired, else the end, with the status of the body.
pub open spec fn decide_while<'a>(c: &'a WhileClause, last: ExitCode, s: State<'a>) -> Transition<
    'a,
> {
    if (s.code == 0) == c.desired {
        (s.push(Work::WhileLoop(c)).push(Work::Command(&c.body)), Response::Continue)
    } else {
        (s.with_code(last), Response::Continue)
    }
}

/// Starting on a `for` loop, which succeeds if there is no word. A loop over the positional
/// parameters is not supported.
pub open spec fn begin_for<'a>(c: &'a ForClause, s: State<'a>) -> Transition<'a> {
    match &c.words {
        Some(_) => (s.with_code(0).push(Work::For(c, 0)), Response::Continue),
        None => (s, Response::Unsupported),
    }
}

/// The next round of a `for` loop: the variable gets the text of the word and the body runs.
pub open spec fn next_for<'a>(c: &'a ForClause, i: usize, s: State<'a>) -> Transition<'a> {
    match &c.words {
        Some(words) => if i >= words@.len() {
            (s, Response::Continue)
        } else if !words@[i as int].literal() {
            (s, Response::Unsupported)
        } else {
            (
                s.with_var(c.name@, words@[i as int].text()).push(
                    Work::For(c, (i + 1) as usize),
                ).push(Work::Command(&c.body)),
                Response::Continue,
            )
        },
        None => (s, Response::Unsupported),
    }
}

/// What comes of matching a value against the alternatives of a pattern, one after the other:
/// whether one matches, or nothing if one that cannot be matched is met first.
pub open spec fn match_words(words: Seq<Word>, value: Seq<u8>) -> Option<bool>
    decreases words.len(),
{
    if words.len() == 0 {
        Some(false)
    } else if !words[0].matchable() {
        None
    } else if crate::glob::text_matches(words[0].text(), value) {
        Some(true)
    } else {
        match_words(words.drop_first(), value)
    }
}

/// Alternatives that can all be matched are tried to the end.
proof fn lemma_all_matchable(words: Seq<Word>, value: Seq<u8>)
    requires
        forall|i: int| 0 <= i < words.len() ==> (#[trigger] words[i]).matchable(),
    ensures
        match_words(words, value) is Some,
    decreases words.len(),
{
    if words.len() > 0 {
        lemma_all_matchable(words.drop_first(), value);
    }
}

/// Which item of a case list a value selects.
pub enum Choice {
    /// The item at the index: the first one whose pattern matches.
    Item(int),
    /// No pattern matches.
    Nothing,
    /// A pattern that cannot be matched stands before any that matches.
    Unsupported,
}

/// The choice among the items from the given one on.
pub open spec fn choose_item(items: Seq<CaseItem>, i: int, value: Seq<u8>) -> Choice
    decreases items.len() - i,
{
    if i < 0 || i >= items.len() {
        Choice::Nothing
    } else {
        match match_words(items[i].pattern.items@, value) {
            Some(true) => Choice::Item(i),
            Some(false) => choose_item(items, i + 1, value),
            None => Choice::Unsupported,
        }
    }
}

/// A value selects the first item whose pattern matches it: no pattern before that one matches. If
/// it selects nothing, no pattern matches.
pub proof fn law_first_match_is_chosen(items: Seq<CaseItem>, i: int, value: Seq<u8>)
    requires
        0 <= i,
    ensures
        choose_item(items, i, value) matches Choice::Item(j) ==> {
            &&& i <= j < items.len()
            &&& match_words(items[j].pattern.items@, value) == Some(true)
            &&& forall|k: int|
                i <= k < j ==> match_words((#[trigger] items[k]).pattern.items@, value) == Some(
                    false,
                )
        },
        choose_item(items, i, value) is Nothing ==> forall|k: int|
            i <= k < items.len() ==> match_words((#[trigger] items[k]).pattern.items@, value)
                == Some(false),
    decreases items.len() - i,
{
    if i < items.len() {
        law_first_match_is_chosen(items, i + 1, value);
    }
}

/// Starting on a `case`.
pub open spec fn begin_case<'a>(c: &'a CaseClause, s: State<'a>) -> Transition<'a> {
    begin_case_list(&c.case_list, &c.word, s)
}

/// Starting on a case list: the actions of the item that the word selects. It succeeds if there is
/// none.
pub open spec fn begin_case_list<'a>(
    list: &'a CaseList,
    word: &Word,
    s: State<'a>,
) -> Transition<'a> {
    if !word.literal() {
        (s, Response::Unsupported)
    } else {
        match choose_item(list.items@, 0, word.text()) {
            Choice::Item(i) => enter_item(&list.items@[i], s),
            Choice::Nothing => (s.with_code(0), Response::Continue),
            Choice::Unsupported => (s, Response::Unsupported),
        }
    }
}

/// The actions of the selected item, which succeeds if it has none.
pub open spec fn enter_item<'a>(item: &'a CaseItem, s: State<'a>) -> Transition<'a> {
    match &item.actions {
        Some(cmd) => (s.push(Work::Command(cmd)), Response::Continue),
        None => (s.with_code(0), Response::Continue),
    }
}

/// A function definition: it always succeeds.
pub open spec fn begin_function_def<'a>(d: &'a FunctionDef, s: State<'a>) -> Transition<'a> {
    (s.with_func(d.name@, d.body).with_code(0), Response::Continue)
}

/// The body of a function.
pub open spec fn begin_function_body<'a>(b: &'a FunctionBody, s: State<'a>) -> Transition<'a> {
    (s.push(Work::Command(&b.command)), Response::Continue)
}

/// A simple command: a child process, or success if it names no program.
pub open spec fn begin_simple<'a>(c: &'a SimpleCommand, s: State<'a>) -> Transition<'a> {
    if c.name is None {
        (s.with_code(0), Response::Continue)
    } else if !c.supported() {
        (s, Response::Unsupported)
    } else {
        (s, Response::Spawn(c.request_in(s.scope.vars)))
    }
}

/// Doing one piece of work.
pub open spec fn perform<'a>(work: Work<'a>, s: State<'a>) -> Transition<'a> {
    match work {
        Work::Command(c) => begin_command(c, s),
        Work::Lists(lists, i) => if i < lists@.len() {
            begin_list(&lists@[i as int], s.push(Work::Lists(lists, (i + 1) as usize)))
        } else {
            (s, Response::Continue)
        },
        Work::List(list, i) => if i < list@.len() {
            begin_chain(&list@[i as int], s.push(Work::List(list, (i + 1) as usize)))
        } else {
            (s, Response::Continue)
        },
        Work::Chain(chain, i) => if i < chain@.len() {
            begin_and_or(
                &chain@[i as int],
                s.push(Work::Chain(chain, (i + 1) as usize)),
                s.code,
            )
        } else {
            (s, Response::Continue)
        },
        Work::Pipeline(p, i) => if i < p.commands@.len() {
            (
                s.push(Work::Pipeline(p, (i + 1) as usize)).push(
                    Work::Command(&p.commands@[i as int]),
                ),
                Response::Continue,
            )
        } else {
            (s.with_code(pipeline_status(p.bang, s.code)), Response::Continue)
        },
        Work::IfDecision(c) => decide_if(c, s),
        Work::ElseDecision(c) => decide_else(c, s),
        Work::WhileLoop(c) => test_while(c, s),
        Work::WhileDecision(c, last) => decide_while(c, last, s),
        Work::For(c, i) => next_for(c, i, s),
    }
}

/// The state once the event is known.
pub open spec fn after_event<'a>(s: State<'a>, event: Event) -> State<'a> {
    match event {
        Event::Proceed => s,
        Event::Exited(code) => s.with_code(code),
    }
}

/// One step: the last piece of work is taken off and done; without work the machine has finished.
pub open spec fn step<'a>(s: State<'a>, event: Event) -> Transition<'a> {
    let s = after_event(s, event);
    if s.work.len() == 0 {
        (s, Response::Finished(s.code))
    } else {
        perform(s.work.last(), State { work: s.work.drop_last(), ..s })
    }
}

impl<'a> Machine<'a> {
    /// A machine with nothing to do.
    pub fn new(env: Environment<'a>) -> (m: Self)
        ensures
            m@ == (State { scope: env@, code: 0, work: Seq::<Work<'a>>::empty() }),
    {
        Machine { env, code: 0, work: Vec::new() }
    }

    /// The variables and functions that the script has defined so far.
    pub fn environment(&self) -> (env: &Environment<'a>)
        ensures
            env@ == self@.scope,
    {
        &self.env
    }

    /// Takes one step.
    pub fn step(&mut self, event: Event) -> (action: Action)
        ensures
            (final(self)@, action@) == step(old(self)@, event),
    {
        if let Event::Exited(code) = event {
            self.code = code;
        }
        match self.work.pop() {
            None => {
                assert(self.work@ =~= old(self)@.work);
                Action::Finished(self.code)
            },
            Some(work) => work.perform(self),
        }
    }
}

impl<'a> Work<'a> {
    /// Does the piece of work.
    fn perform(self, m: &mut Machine<'a>) -> (action: Action)
        ensures
            (final(m)@, action@) == perform(self, old(m)@),
    {
        match self {
            Work::Command(c) => c.execute(m),
            Work::Lists(lists, i) => {
                if i < lists.len() {
                    m.work.push(Work::Lists(lists, i + 1));
                    exec_list(m, &lists[i])
                } else {
                    Action::Continue
                }
            },
            Work::List(list, i) => {
                if i < list.len() {
                    m.work.push(Work::List(list, i + 1));
                    exec_andor_chain(m, &list[i])
                } else {
                    Action::Continue
                }
            },
            Work::Chain(chain, i) => {
                if i < chain.len() {
                    m.work.push(Work::Chain(chain, i + 1));
                    let code = m.code;
                    chain[i].execute(m, code)
                } else {
                    Action::Continue
                }
            },
            Work::Pipeline(p, i) => {
                if i < p.commands.len() {
                    m.work.push(Work::Pipeline(p, i + 1));
                    m.work.push(Work::Command(&p.commands[i]));
                } else if p.bang {
                    m.code = if m.code == 0 {
                        1
                    } else {
                        0
                    };
                }
                Action::Continue
            },
            Work::IfDecision(c) => c.decide(m),
            Work::ElseDecision(c) => c.decide(m),
            Work::WhileLoop(c) => c.test(m),
            Work::WhileDecision(c, last) => c.decide(m, last),
            Work::For(c, i) => c.next(m, i),
        }
    }
}

/// Starts on a list of chains.
pub fn exec_list<'a>(m: &mut Machine<'a>, list: &'a Vec<Vec<AndOr>>) -> (action: Action)
    ensures
        (final(m)@, action@) == begin_list(list, old(m)@),
{
    m.code = 0;
    m.work.push(Work::List(list, 0));
    Action::Continue
}

/// Starts on a chain.
pub fn exec_andor_chain<'a>(m: &mut Machine<'a>, chain: &'a Vec<AndOr>) -> (action: Action)
    ensures
        (final(m)@, action@) == begin_chain(chain, old(m)@),
{
    m.code = 0;
    m.work.push(Work::Chain(chain, 0));
    Action::Continue
}

impl CompleteCommand {
    /// Starts on the command.
    pub fn execute<'a>(&'a self, m: &mut Machine<'a>) -> (action: Action)
        ensures
            (final(m)@, action@) == begin_complete(self, old(m)@),
    {
        m.code = 0;
        m.work.push(Work::Lists(&self.lists, 0));
        Action::Continue
    }
}

impl AndOr {
    /// Starts on the member of a chain, what stands before it having ended with the status.
    pub fn execute<'a>(&'a self, m: &mut Machine<'a>, prev_res: ExitCode) -> (action: Action)
        ensures
            (final(m)@, action@) == begin_and_or(self, old(m)@, prev_res),
    {
        let runs = match self.separator {
            SepKind::First => true,
            SepKind::And => prev_res == 0,
            SepKind::Or => prev_res != 0,
        };
        if runs {
            self.pipeline.execute(m)
        } else {
            m.code = prev_res;
            Action::Continue
        }
    }
}

impl Pipeline {
    /// Starts on the pipeline.
    pub fn execute<'a>(&'a self, m: &mut Machine<'a>) -> (action: Action)
        ensures
            (final(m)@, action@) == begin_pipeline(self, old(m)@),
    {
        m.code = 0;
        m.work.push(Work::Pipeline(self, 0));
        Action::Continue
    }
}

impl Command {
    /// Starts on the command.
    pub fn execute<'a>(&'a self, m: &mut Machine<'a>) -> (action: Action)
        ensures
            (final(m)@, action@) == begin_command(self, old(m)@),
    {
        self.inner.execute(m)
    }
}

impl CommandInner {
    /// Starts on the command.
    pub fn execute<'a>(&'a self, m: &mut Machine<'a>) -> (action: Action)
        ensures
            (final(m)@, action@) == begin_inner(self, old(m)@),
    {
        match self {
            CommandInner::If(clause) => clause.execute(m),
            CommandInner::While(clause) => clause.execute(m),
            CommandInner::For(clause) => clause.execute(m),
            CommandInner::Case(clause) => clause.execute(m),
            CommandInner::FunctionDef(def) => def.execute(m),
            CommandInner::AndOr(and_ors) => exec_list(m, and_ors),
            CommandInner::Simple(cmd) => cmd.execute(m),
        }
    }
}

impl IfClause {
    /// Starts on the clause.
    pub fn execute<'a>(&'a self, m: &mut Machine<'a>) -> (action: Action)
        ensures
            (final(m)@, action@) == begin_if(self, old(m)@),
    {
        m.work.push(Work::IfDecision(self));
        m.work.push(Work::Command(&self.cond));
        Action::Continue
    }

    /// Goes on once the condition has ended.
    fn decide<'a>(&'a self, m: &mut Machine<'a>) -> (action: Action)
        ensures
            (final(m)@, action@) == decide_if(self, old(m)@),
    {
        if m.code == 0 {
            m.work.push(Work::Command(&self.body));
            Action::Continue
        } else if let Some(clause) = &self.else_stmt {
            clause.execute(m)
        } else {
            m.code = 0;
            Action::Continue
        }
    }
}

impl ElseClause {
    /// Starts on the clause.
    pub fn execute<'a>(&'a self, m: &mut Machine<'a>) -> (action: Action)
        ensures
            (final(m)@, action@) == begin_else(self, old(m)@),
    {
        match &self.cond {
            Some(cond) => {
                m.work.push(Work::ElseDecision(self));
                m.work.push(Work::Command(cond));
            },
            None => {
                m.work.push(Work::Command(&self.body));
            },
        }
        Action::Continue
    }

    /// Goes on once the condition has ended.
    fn decide<'a>(&'a self, m: &mut Machine<'a>) -> (action: Action)
        ensures
            (final(m)@, action@) == decide_else(self, old(m)@),
    {
        if m.code == 0 {
            m.work.push(Work::Command(&self.body));
            return Action::Continue;
        }
        match &self.else_stmt {
            Some(clause) => clause.execute(m),
            None => {
                m.code = 0;
                Action::Continue
            },
        }
    }
}

impl WhileClause {
    /// Starts on the loop.
    pub fn execute<'a>(&'a self, m: &mut Machine<'a>) -> (action: Action)
        ensures
            (final(m)@, action@) == begin_while(self, old(m)@),
    {
        m.code = 0;
        m.work.push(Work::WhileLoop(self));
        Action::Continue
    }

    /// Runs the condition.
    fn test<'a>(&'a self, m: &mut Machine<'a>) -> (action: Action)
        ensures
            (final(m)@, action@) == test_while(self, old(m)@),
    {
        let last = m.code;
        m.work.push(Work::WhileDecision(self, last));
        m.work.push(Work::Command(&self.cond));
        Action::Continue
    }

    /// Goes on once the condition has ended.
    fn decide<'a>(&'a self, m: &mut Machine<'a>, last: ExitCode) -> (action: Action)
        ensures
            (final(m)@, action@) == decide_while(self, last, old(m)@),
    {
        if (m.code == 0) == self.desired {
            m.work.push(Work::WhileLoop(self));
            m.work.push(Work::Command(&self.body));
        } else {
            m.code = last;
        }
        Action::Continue
    }
}

impl ForClause {
    /// Starts on the loop.
    pub fn execute<'a>(&'a self, m: &mut Machine<'a>) -> (action: Action)
        ensures
            (final(m)@, action@) == begin_for(self, old(m)@),
    {
        match &self.words {
            Some(_) => {
                m.code = 0;
                m.work.push(Work::For(self, 0));
                Action::Continue
            },
            None => Action::Unsupported,
        }
    }

    /// Goes on with the word at the index.
    fn next<'a>(&'a self, m: &mut Machine<'a>, i: usize) -> (action: Action)
        ensures
            (final(m)@, action@) == next_for(self, i, old(m)@),
    {
        match &self.words {
            Some(words) => {
                if i >= words.len() {
                    return Action::Continue;
                }
                if !words[i].is_literal() {
                    return Action::Unsupported;
                }
                let value = words[i].eval();
                m.env.set_var(&self.name, value);
                m.work.push(Work::For(self, i + 1));
                m.work.push(Work::Command(&self.body));
                Action::Continue
            },
            None => Action::Unsupported,
        }
    }
}

impl CaseClause {
    /// Starts on the clause.
    pub fn execute<'a>(&'a self, m: &mut Machine<'a>) -> (action: Action)
        ensures
            (final(m)@, action@) == begin_case(self, old(m)@),
    {
        self.case_list.execute(m, &self.word)
    }
}

impl CaseList {
    /// Starts on the first item that the word matches.
    pub fn execute<'a>(&'a self, m: &mut Machine<'a>, word: &Word) -> (action: Action)
        ensures
            (final(m)@, action@) == begin_case_list(self, word, old(m)@),
    {
        if !word.is_literal() {
            return Action::Unsupported;
        }
        let word_str = word.eval();
        for i in 0..self.items.len()
            invariant
                word.literal(),
                word_str@ == word.text(),
                m@ == old(m)@,
                choose_item(self.items@, 0, word.text()) == choose_item(
                    self.items@,
                    i as int,
                    word.text(),
                ),
        {
            if let Some(action) = self.items[i].execute(m, word_str.as_slice()) {
                return action;
            }
        }
        m.code = 0;
        Action::Continue
    }
}

impl CaseItem {
    /// Starts on the item if its pattern matches the word.
    pub fn execute<'a>(&'a self, m: &mut Machine<'a>, word: &[u8]) -> (action: Option<Action>)
        ensures
            match match_words(self.pattern.items@, word@) {
                Some(true) => action matches Some(action) && (final(m)@, action@) == enter_item(
                    self,
                    old(m)@,
                ),
                Some(false) => action is None && final(m)@ == old(m)@,
                None => action matches Some(action) && action@ == Response::Unsupported
                    && final(m)@ == old(m)@,
            },
    {
        match self.pattern.try_matches(word) {
            Some(true) => Some(self.enter(m)),
            Some(false) => None,
            None => Some(Action::Unsupported),
        }
    }

    /// Starts on the actions of the item.
    pub fn enter<'a>(&'a self, m: &mut Machine<'a>) -> (action: Action)
        ensures
            (final(m)@, action@) == enter_item(self, old(m)@),
    {
        match &self.actions {
            Some(cmd) => {
                m.work.push(Work::Command(cmd));
            },
            None => {
                m.code = 0;
            },
        }
        Action::Continue
    }
}

impl Pattern {
    /// Whether the word matches one of the alternatives. The alternatives are tried in order, up to
    /// the first that matches, and each that is tried must be one that can be matched.
    pub fn matches(&self, word: &[u8]) -> (matched: bool)
        requires
            match_words(self.items@, word@) is Some,
        ensures
            match_words(self.items@, word@) == Some(matched),
    {
        assert(self.items@.skip(0) =~= self.items@);
        for i in 0..self.items.len()
            invariant
                match_words(self.items@, word@) is Some,
                match_words(self.items@, word@) == match_words(self.items@.skip(i as int), word@),
        {
            assert(self.items@.skip(i as int).drop_first() =~= self.items@.skip(i + 1));
            if self.items[i].matches_glob(word) {
                return true;
            }
        }
        false
    }

    /// Tells whether the alternatives can be tried up to the first that matches.
    fn can_match(&self, word: &[u8]) -> (b: bool)
        ensures
            b == (match_words(self.items@, word@) is Some),
    {
        let mut n: usize = 0;
        while n < self.items.len() && self.items[n].is_matchable()
            invariant
                n <= self.items@.len(),
                forall|j: int| 0 <= j < n ==> (#[trigger] self.items@[j]).matchable(),
            decreases self.items@.len() - n,
        {
            n = n + 1;
        }
        assert(self.items@.skip(0) =~= self.items@);
        if n == self.items.len() {
            proof {
                lemma_all_matchable(self.items@, word@);
            }
            return true;
        }
        for i in 0..n
            invariant
                n < self.items@.len(),
                forall|j: int| 0 <= j < n ==> (#[trigger] self.items@[j]).matchable(),
                match_words(self.items@, word@) == match_words(self.items@.skip(i as int), word@),
        {
            assert(self.items@.skip(i as int).drop_first() =~= self.items@.skip(i + 1));
            if self.items[i].matches_glob(word) {
                return true;
            }
        }
        false
    }

    /// Whether the word matches one of the alternatives, or nothing if one that cannot be matched
    /// is met first.
    pub fn try_matches(&self, word: &[u8]) -> (matched: Option<bool>)
        ensures
            matched == match_words(self.items@, word@),
    {
        if self.can_match(word) {
            Some(self.matches(word))
        } else {
            None
        }
    }
}

impl FunctionDef {
    /// Defines the function.
    pub fn execute<'a>(&'a self, m: &mut Machine<'a>) -> (action: Action)
        ensures
            (final(m)@, action@) == begin_function_def(self, old(m)@),
    {
        m.env.set_func(&self.name, &self.body);
        m.code = 0;
        Action::Continue
    }
}

impl FunctionBody {
    /// Starts on the body.
    pub fn execute<'a>(&'a self, m: &mut Machine<'a>) -> (action: Action)
        ensures
            (final(m)@, action@) == begin_function_body(self, old(m)@),
    {
        m.work.push(Work::Command(&self.command));
        Action::Continue
    }
}

impl SimpleCommand {
    /// Asks for the child process of the command.
    pub fn execute<'a>(&'a self, m: &mut Machine<'a>) -> (action: Action)
        ensures
            (final(m)@, action@) == begin_simple(self, old(m)@),
    {
        if self.name.is_none() {
            m.code = 0;
            return Action::Continue;
        }
        if !self.is_supported() {
            return Action::Unsupported;
        }
        Action::Spawn(self.request(&m.env))
    }
}

} // verus!
