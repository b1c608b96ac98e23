//! Scripts run on the machine, with the statuses of their programs given in advance.

use shell_ast::ast::{
    AndOr, CaseClause, CaseItem, CaseList, Command, CommandInner, CompleteCommand, ElseClause,
    ForClause, FunctionBody, FunctionDef, HereDoc, IfClause, IoRedirect, IoRedirectFile,
    IoRedirectKind, Pattern, Pipeline, PostAction, PreAction, SepKind, SimpleCommand, VarAssign,
    WhileClause,
};
use shell_ast::child::ChildRequest;
use shell_ast::env::Environment;
use shell_ast::machine::{exec_andor_chain, exec_list, Action, Event, Machine};
use shell_ast::word::{Word, WordPart};

/// How a machine has stopped.
#[derive(Debug, PartialEq)]
enum End {
    Finished(i32),
    Waiting,
    Unsupported,
    /// It has not stopped within the steps that it was given.
    Running,
}

/// Drives the machine from the action on, answering its programs with the replies.
fn drive(m: &mut Machine, action: Action, replies: &[i32]) -> (End, Vec<ChildRequest>) {
    let mut replies = replies.iter();
    let mut spawned = Vec::new();
    let mut action = action;
    for _ in 0..10_000 {
        let event = match action {
            Action::Continue => Event::Proceed,
            Action::Finished(code) => return (End::Finished(code), spawned),
            Action::Unsupported => return (End::Unsupported, spawned),
            Action::Spawn(child) => {
                spawned.push(child);
                match replies.next() {
                    Some(code) => Event::Exited(*code),
                    None => return (End::Waiting, spawned),
                }
            }
        };
        action = m.step(event);
    }
    (End::Running, spawned)
}

fn names(spawned: &[ChildRequest]) -> Vec<String> {
    spawned.iter().map(|child| String::from_utf8(child.program.clone()).unwrap()).collect()
}

fn run_command(command: &Command, replies: &[i32]) -> (End, Vec<String>) {
    let mut m = Machine::new(Environment::new());
    let action = command.execute(&mut m);
    let (end, spawned) = drive(&mut m, action, replies);
    (end, names(&spawned))
}

fn run_complete(command: &CompleteCommand, replies: &[i32]) -> (End, Vec<String>) {
    let mut m = Machine::new(Environment::new());
    let action = command.execute(&mut m);
    let (end, spawned) = drive(&mut m, action, replies);
    (end, names(&spawned))
}

fn expect(end: i32, programs: &[&str]) -> (End, Vec<String>) {
    (End::Finished(end), programs.iter().map(|name| name.to_string()).collect())
}

fn word(text: &str) -> Word {
    Word::Text(text.as_bytes().to_vec())
}

fn expansion() -> Word {
    Word::Complex(vec![WordPart::Text(b"a".to_vec()), WordPart::ParamExpand])
}

fn cmd(name: &str) -> Command {
    SimpleCommand::new(Some(word(name)), None, None).into()
}

fn pipe(commands: &[&str], bang: bool) -> Pipeline {
    let mut pipeline = Pipeline::from_iter(commands.iter().map(|name| cmd(name)).collect());
    pipeline.bang = bang;
    pipeline
}

fn member(sep: SepKind, name: &str) -> AndOr {
    AndOr::new(pipe(&[name], false), sep)
}

fn chain_command(chain: Vec<AndOr>) -> Command {
    Command::with_inner(CommandInner::AndOr(vec![chain]))
}

#[test]
fn a_machine_without_work_has_finished() {
    let mut m = Machine::new(Environment::new());
    assert!(matches!(m.step(Event::Proceed), Action::Finished(0)));
    assert!(matches!(m.step(Event::Exited(7)), Action::Finished(7)));
    assert!(matches!(m.step(Event::Proceed), Action::Finished(7)));
}

#[test]
fn what_is_empty_succeeds() {
    assert_eq!(run_complete(&CompleteCommand::new(vec![]), &[]), expect(0, &[]));
    assert_eq!(run_complete(&CompleteCommand::new(vec![vec![]]), &[]), expect(0, &[]));
    assert_eq!(run_complete(&CompleteCommand::new(vec![vec![vec![]]]), &[]), expect(0, &[]));
    let nothing = SimpleCommand::new(None, None, Some(vec![PostAction::Word(expansion())]));
    assert_eq!(run_command(&nothing.into(), &[]), expect(0, &[]));
    let empty = chain_command(vec![AndOr::new(pipe(&[], false), SepKind::First)]);
    assert_eq!(run_command(&empty, &[]), expect(0, &[]));
    let empty = chain_command(vec![AndOr::new(pipe(&[], true), SepKind::First)]);
    assert_eq!(run_command(&empty, &[]), expect(1, &[]));
}

#[test]
fn the_last_list_gives_the_status() {
    let command = CompleteCommand::new(vec![
        vec![vec![member(SepKind::First, "a")], vec![member(SepKind::First, "b")]],
        vec![vec![member(SepKind::First, "c")]],
    ]);
    assert_eq!(run_complete(&command, &[1, 2, 3]), expect(3, &["a", "b", "c"]));
    let command =
        CompleteCommand::new(vec![vec![vec![member(SepKind::First, "a")]], vec![]]);
    assert_eq!(run_complete(&command, &[5]), expect(0, &["a"]));
}

#[test]
fn a_chain_runs_on_success_or_failure() {
    let chain = chain_command(vec![
        member(SepKind::First, "a"),
        member(SepKind::And, "b"),
        member(SepKind::Or, "c"),
    ]);
    assert_eq!(run_command(&chain, &[0, 0]), expect(0, &["a", "b"]));
    assert_eq!(run_command(&chain, &[0, 4, 5]), expect(5, &["a", "b", "c"]));
    assert_eq!(run_command(&chain, &[3, 0]), expect(0, &["a", "c"]));
    let negative = chain_command(vec![member(SepKind::First, "a"), member(SepKind::Or, "b")]);
    assert_eq!(run_command(&negative, &[-1, 2]), expect(2, &["a", "b"]));
}

#[test]
fn a_chain_short_circuits() {
    let ands = chain_command(vec![
        member(SepKind::First, "a"),
        member(SepKind::And, "b"),
        member(SepKind::And, "c"),
    ]);
    assert_eq!(run_command(&ands, &[9]), expect(9, &["a"]));
    let ors = chain_command(vec![
        member(SepKind::First, "a"),
        member(SepKind::Or, "b"),
        member(SepKind::Or, "c"),
    ]);
    assert_eq!(run_command(&ors, &[0]), expect(0, &["a"]));
}

#[test]
fn a_member_sees_the_status_it_is_given() {
    let or = member(SepKind::Or, "b");
    let mut m = Machine::new(Environment::new());
    let action = or.execute(&mut m, 0);
    let (end, spawned) = drive(&mut m, action, &[]);
    assert_eq!((end, names(&spawned)), expect(0, &[]));
    let action = or.execute(&mut m, 6);
    let (end, spawned) = drive(&mut m, action, &[2]);
    assert_eq!((end, names(&spawned)), expect(2, &["b"]));
    let and = member(SepKind::And, "b");
    let action = and.execute(&mut m, 6);
    let (end, spawned) = drive(&mut m, action, &[]);
    assert_eq!((end, names(&spawned)), expect(6, &[]));
}

#[test]
fn lists_and_chains_start_on_their_own() {
    let list = vec![
        vec![member(SepKind::First, "a"), member(SepKind::And, "b")],
        vec![member(SepKind::First, "c")],
    ];
    let mut m = Machine::new(Environment::new());
    let action = exec_list(&mut m, &list);
    let (end, spawned) = drive(&mut m, action, &[1, 0]);
    assert_eq!((end, names(&spawned)), expect(0, &["a", "c"]));
    let action = exec_andor_chain(&mut m, &list[0]);
    let (end, spawned) = drive(&mut m, action, &[0, 8]);
    assert_eq!((end, names(&spawned)), expect(8, &["a", "b"]));
    // A chain starts as if after a success.
    let chain = vec![member(SepKind::And, "x")];
    let action = exec_andor_chain(&mut m, &chain);
    let (end, spawned) = drive(&mut m, action, &[0]);
    assert_eq!((end, names(&spawned)), expect(0, &["x"]));
}

#[test]
fn a_pipeline_runs_all_its_commands() {
    let plain = chain_command(vec![AndOr::new(pipe(&["a", "b", "c"], false), SepKind::First)]);
    assert_eq!(run_command(&plain, &[1, 2, 3]), expect(3, &["a", "b", "c"]));
}

#[test]
fn a_bang_negates() {
    let negated = chain_command(vec![AndOr::new(pipe(&["a", "b"], true), SepKind::First)]);
    assert_eq!(run_command(&negated, &[1, 0]), expect(1, &["a", "b"]));
    assert_eq!(run_command(&negated, &[0, 42]), expect(0, &["a", "b"]));
    assert_eq!(run_command(&negated, &[0, -1]), expect(0, &["a", "b"]));
    assert_eq!(run_command(&negated, &[0]).0, End::Waiting);
}

#[test]
fn an_if_chooses_a_branch() {
    let rest = ElseClause::new(None, cmd("e"), None);
    let elif = ElseClause::new(Some(cmd("c2")), cmd("b2"), Some(Box::new(rest)));
    let command = Command::from(IfClause::new(cmd("c1"), cmd("b1"), Some(elif)));
    assert_eq!(run_command(&command, &[0, 3]), expect(3, &["c1", "b1"]));
    assert_eq!(run_command(&command, &[1, 0, 4]), expect(4, &["c1", "c2", "b2"]));
    assert_eq!(run_command(&command, &[1, 2, 5]), expect(5, &["c1", "c2", "e"]));

    let command = Command::from(IfClause::new(cmd("c"), cmd("b"), None));
    assert_eq!(run_command(&command, &[7]), expect(0, &["c"]));
    let elif = ElseClause::new(Some(cmd("c2")), cmd("b2"), None);
    let command = Command::from(IfClause::new(cmd("c1"), cmd("b1"), Some(elif)));
    assert_eq!(run_command(&command, &[7, 8]), expect(0, &["c1", "c2"]));
}

#[test]
fn an_elif_is_an_if() {
    let elif = || ElseClause::new(Some(cmd("c")), cmd("b"), None);
    let nested = Command::from(IfClause::new(cmd("c"), cmd("b"), None));
    let chained = Command::from(IfClause::new(cmd("first"), cmd("x"), Some(elif())));
    let rest = ElseClause::new(None, nested, None);
    let wrapped = Command::from(IfClause::new(cmd("first"), cmd("x"), Some(rest)));
    for replies in [[1, 0, 5], [1, 1, 5]] {
        assert_eq!(run_command(&chained, &replies), run_command(&wrapped, &replies));
    }
}

#[test]
fn a_while_loop_runs_while_its_condition_succeeds() {
    let command = Command::from(WhileClause::new(cmd("c"), true, cmd("b")));
    assert_eq!(run_command(&command, &[1]), expect(0, &["c"]));
    assert_eq!(
        run_command(&command, &[0, 5, 0, 6, 9]),
        expect(6, &["c", "b", "c", "b", "c"]),
    );
}

#[test]
fn an_until_loop_runs_while_its_condition_fails() {
    let command = Command::from(WhileClause::new(cmd("c"), false, cmd("b")));
    assert_eq!(run_command(&command, &[0]), expect(0, &["c"]));
    assert_eq!(run_command(&command, &[2, 5, 0]), expect(5, &["c", "b", "c"]));

    let negated = chain_command(vec![AndOr::new(pipe(&["c"], true), SepKind::First)]);
    let same = Command::from(WhileClause::new(negated, true, cmd("b")));
    for replies in [vec![0], vec![2, 5, 0], vec![1, 0, 1, 3, 0], vec![1, 1]] {
        assert_eq!(run_command(&command, &replies), run_command(&same, &replies));
    }
}

#[test]
fn a_loop_may_run_for_ever() {
    let empty = Command::with_inner(CommandInner::AndOr(vec![]));
    let nothing = Command::with_inner(CommandInner::AndOr(vec![]));
    let command = Command::from(WhileClause::new(empty, true, nothing));
    assert_eq!(run_command(&command, &[]).0, End::Running);
}

#[test]
fn a_for_loop_sets_its_variable_for_each_word() {
    let words = vec![word("one"), Word::Complex(vec![]), word("two")];
    let command = Command::from(ForClause::new(b"v".to_vec(), Some(words), cmd("b")));
    let mut m = Machine::new(Environment::new());
    let action = command.execute(&mut m);
    let (end, spawned) = drive(&mut m, action, &[4, 5, 6]);
    assert_eq!(end, End::Finished(6));
    let seen: Vec<_> = spawned.iter().map(|child| child.env.clone()).collect();
    assert_eq!(
        seen,
        vec![
            vec![(b"v".to_vec(), b"one".to_vec())],
            vec![(b"v".to_vec(), b"".to_vec())],
            vec![(b"v".to_vec(), b"two".to_vec())],
        ],
    );
    // The variable keeps its last value.
    assert_eq!(m.environment().iter(), vec![(b"v".to_vec(), b"two".to_vec())]);
}

#[test]
fn a_for_loop_needs_words_of_text() {
    let command = Command::from(ForClause::new(b"v".to_vec(), Some(vec![]), cmd("b")));
    assert_eq!(run_command(&command, &[]), expect(0, &[]));
    let command = Command::from(ForClause::new(b"v".to_vec(), None, cmd("b")));
    assert_eq!(run_command(&command, &[]).0, End::Unsupported);
    let words = vec![word("a"), expansion(), word("b")];
    let command = Command::from(ForClause::new(b"v".to_vec(), Some(words), cmd("b")));
    let (end, programs) = run_command(&command, &[0, 0]);
    assert_eq!(end, End::Unsupported);
    assert_eq!(programs, vec!["b"]);
}

fn item(patterns: &[&str], action: Option<&str>) -> CaseItem {
    CaseItem::new(Pattern::new(patterns.iter().map(|p| word(p)).collect()), action.map(cmd))
}

#[test]
fn a_case_runs_the_first_item_that_matches() {
    let list = || {
        CaseList::new(vec![
            item(&["["], Some("invalid")),
            item(&["a", "b*"], Some("one")),
            item(&["bc"], Some("two")),
            item(&["none"], None),
            item(&["*"], Some("rest")),
        ])
    };
    let run = |text: &str| {
        run_command(&Command::from(CaseClause::new(word(text), list())), &[3])
    };
    assert_eq!(run("a"), expect(3, &["one"]));
    assert_eq!(run("bc"), expect(3, &["one"]));
    assert_eq!(run("none"), expect(0, &[]));
    assert_eq!(run("other"), expect(3, &["rest"]));
    assert_eq!(run("["), expect(3, &["rest"]));
    // No wildcard matches a slash.
    assert_eq!(run("x/y"), expect(0, &[]));
}

#[test]
fn a_case_needs_words_of_text() {
    let list = CaseList::new(vec![item(&["*"], Some("x"))]);
    let command = Command::from(CaseClause::new(expansion(), list));
    assert_eq!(run_command(&command, &[0]).0, End::Unsupported);

    let with = |bad: Word, text: &str| {
        let items = vec![
            item(&["a"], Some("x")),
            CaseItem::new(Pattern::new(vec![bad]), Some(cmd("y"))),
            item(&["*"], Some("z")),
        ];
        run_command(&Command::from(CaseClause::new(word(text), CaseList::new(items))), &[2])
    };
    assert_eq!(with(expansion(), "a"), expect(2, &["x"]));
    assert_eq!(with(expansion(), "b").0, End::Unsupported);
    // So much text does not compile.
    let large = "a".repeat(400_000);
    assert_eq!(with(word(&large), "a"), expect(2, &["x"]));
    assert_eq!(with(word(&large), "b").0, End::Unsupported);
    for pattern in ["a".repeat(40_000), "\\{".repeat(65), "{".repeat(65)] {
        assert_eq!(with(word(&pattern), "a"), expect(2, &["x"]));
        assert_eq!(with(word(&pattern), "b"), expect(2, &["z"]));
    }
}

#[test]
fn a_pattern_that_matches_nothing_selects_nothing() {
    for pattern in ["\\{".repeat(65), "{".repeat(65), "a".repeat(32_769)] {
        let one = item(&[pattern.as_str()], Some("x"));
        let mut m = Machine::new(Environment::new());
        assert!(one.execute(&mut m, b"b").is_none());
        let list = CaseList::new(vec![one]);
        let command = Command::from(CaseClause::new(word("b"), list));
        assert_eq!(run_command(&command, &[2]), expect(0, &[]));
    }
}

#[test]
fn an_item_that_does_not_match_leaves_the_machine_alone() {
    let mut m = Machine::new(Environment::new());
    assert!(matches!(m.step(Event::Exited(5)), Action::Finished(5)));
    let one = item(&["a"], None);
    assert!(one.execute(&mut m, b"b").is_none());
    assert!(matches!(m.step(Event::Proceed), Action::Finished(5)));
    assert!(matches!(one.execute(&mut m, b"a"), Some(Action::Continue)));
    assert!(matches!(m.step(Event::Proceed), Action::Finished(0)));
    assert!(matches!(item(&[], Some("x")).enter(&mut m), Action::Continue));
}

#[test]
fn a_definition_gives_a_function_its_body() {
    let body = FunctionBody::new(cmd("inner"), None);
    let command = Command::from(FunctionDef::new(b"f".to_vec(), body));
    let mut m = Machine::new(Environment::new());
    m.step(Event::Exited(3));
    let action = command.execute(&mut m);
    let (end, spawned) = drive(&mut m, action, &[]);
    assert_eq!((end, names(&spawned)), expect(0, &[]));
    let body = m.environment().get_func(&b"f".to_vec()).unwrap();
    let action = body.execute(&mut m);
    let (end, spawned) = drive(&mut m, action, &[9]);
    assert_eq!((end, names(&spawned)), expect(9, &["inner"]));
}

#[test]
fn a_simple_command_asks_for_its_program() {
    let file = IoRedirectFile::new(IoRedirectKind::Output, word("out"));
    let command = SimpleCommand::new(
        Some(Word::Complex(vec![
            WordPart::Text(b"pro".to_vec()),
            WordPart::Text(b"gram".to_vec()),
        ])),
        Some(vec![PreAction::Assign(VarAssign { varname: b"v".to_vec(), value: () })]),
        Some(vec![
            PostAction::Word(word("-x")),
            PostAction::Redirect(IoRedirect::Heredoc(None, HereDoc::new(b"one\n".to_vec()))),
            PostAction::Redirect(IoRedirect::File(Some(1), file)),
            PostAction::Word(word("*")),
            PostAction::Redirect(IoRedirect::Heredoc(Some(3), HereDoc::new(b"two\n".to_vec()))),
            PostAction::Word(Word::Text(vec![0xff])),
        ]),
    );
    let mut env = Environment::new();
    env.set_var(&b"PATH".to_vec(), b"/bin".to_vec());
    assert!(command.is_supported());
    let child = command.request(&env);
    assert_eq!(child.program, b"program");
    assert_eq!(child.args, vec![b"-x".to_vec(), b"*".to_vec(), vec![0xff]]);
    assert_eq!(child.env, vec![(b"PATH".to_vec(), b"/bin".to_vec())]);
    assert_eq!(child.stdin, Some(b"one\ntwo\n".to_vec()));

    let mut m = Machine::new(env);
    match command.execute(&mut m) {
        Action::Spawn(child) => assert_eq!(child.program, b"program"),
        _ => panic!("no program is asked for"),
    }
    assert!(matches!(m.step(Event::Exited(11)), Action::Finished(11)));
}

#[test]
fn file_redirections_have_no_effect() {
    let file = || {
        let file = IoRedirectFile::new(IoRedirectKind::Input, expansion());
        PostAction::Redirect(IoRedirect::File(None, file))
    };
    let args = vec![file(), PostAction::Word(word("a")), file(), PostAction::Word(word("b"))];
    let command = SimpleCommand::new(Some(word("p")), Some(vec![]), Some(args));
    assert!(command.is_supported());
    let child = command.request(&Environment::new());
    assert_eq!(child.args, vec![b"a".to_vec(), b"b".to_vec()]);
    assert_eq!(child.stdin, None);
    let mut redirected = cmd("q");
    let file = IoRedirectFile::new(IoRedirectKind::Output, word("out"));
    redirected.redirect_list = Some(vec![IoRedirect::File(None, file)]);
    assert_eq!(run_command(&redirected, &[4]), run_command(&cmd("q"), &[4]));
}

#[test]
fn without_a_document_the_input_is_inherited() {
    let command = SimpleCommand::new(Some(word("p")), None, None);
    let child = command.request(&Environment::new());
    assert_eq!(child.stdin, None);
    assert!(child.args.is_empty());
    assert!(child.env.is_empty());
    let empty = PostAction::Redirect(IoRedirect::Heredoc(None, HereDoc::default()));
    let command = SimpleCommand::new(Some(word("p")), None, Some(vec![empty]));
    assert_eq!(command.request(&Environment::new()).stdin, Some(vec![]));
}

#[test]
fn a_simple_command_needs_words_of_text() {
    let command = SimpleCommand::new(Some(expansion()), None, None);
    assert!(!command.is_supported());
    assert_eq!(run_command(&command.into(), &[0]).0, End::Unsupported);
    let args = Some(vec![PostAction::Word(word("a")), PostAction::Word(expansion())]);
    let command = SimpleCommand::new(Some(word("p")), None, args);
    assert!(!command.is_supported());
    assert_eq!(run_command(&command.into(), &[0]).0, End::Unsupported);
}

#[test]
fn each_reply_answers_one_program_in_order() {
    let chain = chain_command(vec![
        member(SepKind::First, "a"),
        member(SepKind::And, "b"),
        member(SepKind::And, "c"),
    ]);
    let (end, programs) = run_command(&chain, &[0, 0]);
    assert_eq!(end, End::Waiting);
    assert_eq!(programs, vec!["a", "b", "c"]);
    // A reply that no program asks for is not taken.
    assert_eq!(run_command(&chain, &[1, 2, 3]), expect(1, &["a"]));
}

#[test]
fn a_command_leaves_other_work_to_be_done() {
    let inner = Command::from(IfClause::new(cmd("c"), cmd("b"), None));
    let pipeline = Pipeline::from_iter(vec![cmd("before"), inner, cmd("after")]);
    let outer = chain_command(vec![AndOr::new(pipeline, SepKind::First)]);
    assert_eq!(
        run_command(&outer, &[1, 0, 2, 3]),
        expect(3, &["before", "c", "b", "after"]),
    );
}

#[test]
fn constructs_nest() {
    let test = Command::from(CaseClause::new(
        word("yes"),
        CaseList::new(vec![item(&["y*"], Some("check"))]),
    ));
    let until = Command::from(WhileClause::new(test, false, cmd("wait")));
    let words = Some(vec![word("1"), word("2")]);
    let outer = Command::from(ForClause::new(b"i".to_vec(), words, until));
    assert_eq!(
        run_command(&outer, &[1, 7, 0, 0]),
        expect(0, &["check", "wait", "check", "check"]),
    );
}
