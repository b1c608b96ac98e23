//! The syntax tree of a shell script.
//!
//! Names, words and documents are byte strings: a shell does not ask its input to be valid
//! UTF-8.

use vstd::prelude::*;

use crate::word::Word;

verus! {

/// The status with which a command ends: zero is success.
pub type ExitCode = libc::c_int;

/// A file descriptor.
pub type RawFd = libc::c_int;

/// The name of a variable.
pub type VarName = Vec<u8>;

/// The name of a function or of the variable of a `for` loop.
pub type Name = Vec<u8>;

/// The word that names the program of a simple command.
pub type CommandName = Word;

/// A whole script: its complete commands in order.
#[derive(Debug)]
pub struct Script {
    pub commands: Vec<CompleteCommand>,
}

impl Script {
    pub fn new(commands: Vec<CompleteCommand>) -> (script: Self)
        ensures
            script.commands == commands,
    {
        Self { commands }
    }
}

/// One complete command: a sequence of lists, each a sequence of and-or chains.
#[derive(Debug)]
pub struct CompleteCommand {
    pub lists: Vec<Vec<Vec<AndOr>>>,
}

impl CompleteCommand {
    pub fn new(lists: Vec<Vec<Vec<AndOr>>>) -> (command: Self)
        ensures
            command.lists == lists,
    {
        Self { lists }
    }
}

/// One member of a chain of pipelines joined by `&&` and `||`.
#[derive(Debug)]
pub struct AndOr {
    pub pipeline: Pipeline,
    pub separator: SepKind,
}

impl AndOr {
    pub fn new(pipeline: Pipeline, sep: SepKind) -> (and_or: Self)
        ensures
            and_or.pipeline == pipeline,
            and_or.separator == sep,
    {
        Self { pipeline, separator: sep }
    }
}

/// What stands in front of a pipeline in a chain: nothing, `&&` or `||`.
#[derive(Clone, Copy, Debug)]
pub enum SepKind {
    First,
    And,
    Or,
}

/// A variable assignment.
#[derive(Debug)]
pub struct VarAssign {
    pub varname: VarName,
    pub value: (),
}

/// A pipeline, perhaps negated by a leading `!`.
#[derive(Debug)]
pub struct Pipeline {
    pub commands: Vec<Command>,
    pub bang: bool,
}

impl Pipeline {
    /// The pipeline of the given commands, not negated.
    pub fn from_iter(commands: Vec<Command>) -> (pipeline: Self)
        ensures
            pipeline.commands == commands,
            !pipeline.bang,
    {
        Pipeline { commands, bang: false }
    }
}

/// A command with the redirections that apply to all of it.
#[derive(Debug)]
pub struct Command {
    pub inner: CommandInner,
    pub redirect_list: Option<Vec<IoRedirect>>,
}

impl Command {
    pub fn with_inner(inner: CommandInner) -> (command: Self)
        ensures
            command.inner == inner,
            command.redirect_list is None,
    {
        Self { inner, redirect_list: None }
    }
}

#[derive(Debug)]
pub enum CommandInner {
    If(Box<IfClause>),
    While(Box<WhileClause>),
    For(Box<ForClause>),
    Case(Box<CaseClause>),
    FunctionDef(Box<FunctionDef>),
    AndOr(Vec<Vec<AndOr>>),
    Simple(SimpleCommand),
}

impl From<IfClause> for Command {
    fn from(value: IfClause) -> (command: Self)
        ensures
            command.inner == CommandInner::If(Box::new(value)),
            command.redirect_list is None,
    {
        Command::with_inner(CommandInner::If(Box::new(value)))
    }
}

impl vstd::std_specs::convert::FromSpecImpl<IfClause> for Command {
    open spec fn obeys_from_spec() -> bool {
        true
    }

    open spec fn from_spec(value: IfClause) -> Self {
        Command { inner: CommandInner::If(Box::new(value)), redirect_list: None }
    }
}

impl From<WhileClause> for Command {
    fn from(value: WhileClause) -> (command: Self)
        ensures
            command.inner == CommandInner::While(Box::new(value)),
            command.redirect_list is None,
    {
        Command::with_inner(CommandInner::While(Box::new(value)))
    }
}

impl vstd::std_specs::convert::FromSpecImpl<WhileClause> for Command {
    open spec fn obeys_from_spec() -> bool {
        true
    }

    open spec fn from_spec(value: WhileClause) -> Self {
        Command { inner: CommandInner::While(Box::new(value)), redirect_list: None }
    }
}

impl From<ForClause> for Command {
    fn from(value: ForClause) -> (command: Self)
        ensures
            command.inner == CommandInner::For(Box::new(value)),
            command.redirect_list is None,
    {
        Command::with_inner(CommandInner::For(Box::new(value)))
    }
}

impl vstd::std_specs::convert::FromSpecImpl<ForClause> for Command {
    open spec fn obeys_from_spec() -> bool {
        true
    }

    open spec fn from_spec(value: ForClause) -> Self {
        Command { inner: CommandInner::For(Box::new(value)), redirect_list: None }
    }
}

impl From<CaseClause> for Command {
    fn from(value: CaseClause) -> (command: Self)
        ensures
            command.inner == CommandInner::Case(Box::new(value)),
            command.redirect_list is None,
    {
        Command::with_inner(CommandInner::Case(Box::new(value)))
    }
}

impl vstd::std_specs::convert::FromSpecImpl<CaseClause> for Command {
    open spec fn obeys_from_spec() -> bool {
        true
    }

    open spec fn from_spec(value: CaseClause) -> Self {
        Command { inner: CommandInner::Case(Box::new(value)), redirect_list: None }
    }
}

impl From<FunctionDef> for Command {
    fn from(value: FunctionDef) -> (command: Self)
        ensures
            command.inner == CommandInner::FunctionDef(Box::new(value)),
            command.redirect_list is None,
    {
        Command::with_inner(CommandInner::FunctionDef(Box::new(value)))
    }
}

impl vstd::std_specs::convert::FromSpecImpl<FunctionDef> for Command {
    open spec fn obeys_from_spec() -> bool {
        true
    }

    open spec fn from_spec(value: FunctionDef) -> Self {
        Command { inner: CommandInner::FunctionDef(Box::new(value)), redirect_list: None }
    }
}

impl From<SimpleCommand> for Command {
    fn from(value: SimpleCommand) -> (command: Self)
        ensures
            command.inner == CommandInner::Simple(value),
            command.redirect_list is None,
    {
        Command::with_inner(CommandInner::Simple(value))
    }
}

impl vstd::std_specs::convert::FromSpecImpl<SimpleCommand> for Command {
    open spec fn obeys_from_spec() -> bool {
        true
    }

    open spec fn from_spec(value: SimpleCommand) -> Self {
        Command { inner: CommandInner::Simple(value), redirect_list: None }
    }
}

/// `if cond; then body; else_stmt fi`
#[derive(Debug)]
pub struct IfClause {
    pub cond: Command,
    pub body: Command,
    pub else_stmt: Option<ElseClause>,
}

impl IfClause {
    pub fn new(cond: Command, body: Command, else_stmt: Option<ElseClause>) -> (clause: Self)
        ensures
            clause.cond == cond,
            clause.body == body,
            clause.else_stmt == else_stmt,
    {
        Self { cond, body, else_stmt }
    }
}

/// An `elif` with its condition, or an `else` without one.
#[derive(Debug)]
pub struct ElseClause {
    pub cond: Option<Command>,
    pub body: Command,
    pub else_stmt: Option<Box<ElseClause>>,
}

impl ElseClause {
    pub fn new(
        cond: Option<Command>,
        body: Command,
        else_stmt: Option<Box<ElseClause>>,
    ) -> (clause: Self)
        ensures
            clause.cond == cond,
            clause.body == body,
            clause.else_stmt == else_stmt,
    {
        Self { cond, body, else_stmt }
    }
}

/// A `while` loop (`desired` is true) or an `until` loop (`desired` is false).
#[derive(Debug)]
pub struct WhileClause {
    pub cond: Command,
    pub desired: bool,
    pub body: Command,
}

impl WhileClause {
    pub fn new(cond: Command, desired: bool, body: Command) -> (clause: Self)
        ensures
            clause.cond == cond,
            clause.desired == desired,
            clause.body == body,
    {
        Self { cond, desired, body }
    }
}

/// `for name in words; do body; done`
#[derive(Debug)]
pub struct ForClause {
    pub name: Name,
    pub words: Option<Vec<Word>>,
    pub body: Command,
}

impl ForClause {
    pub fn new(name: Name, words: Option<Vec<Word>>, body: Command) -> (clause: Self)
        ensures
            clause.name == name,
            clause.words == words,
            clause.body == body,
    {
        Self { name, words, body }
    }
}

/// `case word in case_list esac`
#[derive(Debug)]
pub struct CaseClause {
    pub word: Word,
    pub case_list: CaseList,
}

impl CaseClause {
    pub fn new(word: Word, case_list: CaseList) -> (clause: Self)
        ensures
            clause.word == word,
            clause.case_list == case_list,
    {
        Self { word, case_list }
    }
}

#[derive(Debug)]
pub struct CaseList {
    pub items: Vec<CaseItem>,
}

impl CaseList {
    pub fn new(items: Vec<CaseItem>) -> (list: Self)
        ensures
            list.items == items,
    {
        Self { items }
    }
}

/// `pattern) actions ;;`
#[derive(Debug)]
pub struct CaseItem {
    pub pattern: Pattern,
    pub actions: Option<Command>,
}

impl CaseItem {
    pub fn new(pattern: Pattern, actions: Option<Command>) -> (item: Self)
        ensures
            item.pattern == pattern,
            item.actions == actions,
    {
        Self { pattern, actions }
    }
}

/// The alternatives of a case item, written with `|` between them.
#[derive(Debug)]
pub struct Pattern {
    pub items: Vec<Word>,
}

impl Pattern {
    pub fn new(items: Vec<Word>) -> (pattern: Self)
        ensures
            pattern.items == items,
    {
        Self { items }
    }
}

#[derive(Debug)]
pub struct FunctionDef {
    pub name: Name,
    pub body: FunctionBody,
}

impl FunctionDef {
    pub fn new(name: Name, body: FunctionBody) -> (def: Self)
        ensures
            def.name == name,
            def.body == body,
    {
        Self { name, body }
    }
}

#[derive(Debug)]
pub struct FunctionBody {
    pub command: Command,
    pub redirect_list: Option<Vec<IoRedirect>>,
}

impl FunctionBody {
    pub fn new(command: Command, redirect_list: Option<Vec<IoRedirect>>) -> (body: Self)
        ensures
            body.command == command,
            body.redirect_list == redirect_list,
    {
        Self { command, redirect_list }
    }
}

/// A program with its arguments and redirections.
#[derive(Debug)]
pub struct SimpleCommand {
    pub pre_actions: Option<Vec<PreAction>>,
    pub post_actions: Option<Vec<PostAction>>,
    pub name: Option<Word>,
}

impl SimpleCommand {
    pub fn new(
        name: Option<Word>,
        pre_actions: Option<Vec<PreAction>>,
        post_actions: Option<Vec<PostAction>>,
    ) -> (command: Self)
        ensures
            command.name == name,
            command.pre_actions == pre_actions,
            command.post_actions == post_actions,
    {
        Self { pre_actions, post_actions, name }
    }
}

/// What may stand before the name of a simple command.
#[derive(Debug)]
pub enum PreAction {
    Redirect(IoRedirect),
    Assign(VarAssign),
}

/// What may stand after the name of a simple command.
#[derive(Debug)]
pub enum PostAction {
    Redirect(IoRedirect),
    Word(Word),
}

#[derive(Debug)]
pub enum IoRedirect {
    File(Option<RawFd>, IoRedirectFile),
    Heredoc(Option<RawFd>, HereDoc),
}

#[derive(Debug)]
pub struct IoRedirectFile {
    pub filename: Word,
    pub kind: IoRedirectKind,
}

impl IoRedirectFile {
    pub fn new(kind: IoRedirectKind, filename: Word) -> (file: Self)
        ensures
            file.kind == kind,
            file.filename == filename,
    {
        Self { filename, kind }
    }
}

#[derive(Debug)]
pub enum IoRedirectKind {
    Input,
    DupInput,
    Output,
    DupOutput,
    ReadWrite,
    Append,
    Clobber,
}

/// The text of a here-document.
#[derive(Debug)]
pub struct HereDoc {
    pub data: Vec<u8>,
}

impl HereDoc {
    pub fn new(data: Vec<u8>) -> (doc: Self)
        ensures
            doc.data == data,
    {
        Self { data }
    }
}

impl Default for HereDoc {
    /// The empty document.
    fn default() -> (doc: Self)
        ensures
            doc.data@ == Seq::<u8>::empty(),
    {
        Self::new(vec![])
    }
}

/// A command whose output stands for the substitution.
#[derive(Debug)]
pub struct CommandSubst {
    pub command: Command,
}

impl CommandSubst {
    pub fn new(cmd: Command) -> (subst: Self)
        ensures
            subst.command == cmd,
    {
        Self { command: cmd }
    }
}

} // verus!
