//! How the nodes of the syntax tree are built.

use shell_ast::ast::{
    AndOr, CaseClause, CaseItem, CaseList, Command, CommandInner, CommandSubst, CompleteCommand,
    ElseClause, ForClause, FunctionBody, FunctionDef, HereDoc, IfClause, IoRedirect,
    IoRedirectFile, IoRedirectKind, Pattern, Pipeline, PostAction, PreAction, Script, SepKind,
    SimpleCommand, VarAssign, WhileClause,
};
use shell_ast::word::Word;

fn word(text: &str) -> Word {
    Word::Text(text.as_bytes().to_vec())
}

fn simple(name: &str) -> SimpleCommand {
    SimpleCommand::new(Some(word(name)), None, None)
}

fn name_of(command: &Command) -> Vec<u8> {
    match &command.inner {
        CommandInner::Simple(cmd) => cmd.name.as_ref().unwrap().eval(),
        _ => panic!("not a simple command"),
    }
}

#[test]
fn a_clause_becomes_the_command_of_its_kind_without_redirections() {
    let command = Command::from(IfClause::new(simple("c").into(), simple("b").into(), None));
    assert!(matches!(command.inner, CommandInner::If(_)));
    assert!(command.redirect_list.is_none());

    let command = Command::from(WhileClause::new(simple("c").into(), true, simple("b").into()));
    assert!(matches!(command.inner, CommandInner::While(_)));
    assert!(command.redirect_list.is_none());

    let command = Command::from(ForClause::new(b"x".to_vec(), None, simple("b").into()));
    assert!(matches!(command.inner, CommandInner::For(_)));
    assert!(command.redirect_list.is_none());

    let command = Command::from(CaseClause::new(word("w"), CaseList::new(vec![])));
    assert!(matches!(command.inner, CommandInner::Case(_)));
    assert!(command.redirect_list.is_none());

    let body = FunctionBody::new(simple("b").into(), None);
    let command = Command::from(FunctionDef::new(b"f".to_vec(), body));
    assert!(matches!(command.inner, CommandInner::FunctionDef(_)));
    assert!(command.redirect_list.is_none());

    let command = Command::from(simple("s"));
    assert_eq!(name_of(&command), b"s");
    assert!(command.redirect_list.is_none());
}

#[test]
fn constructors_keep_their_parts_apart() {
    let rest = ElseClause::new(None, simple("last").into(), None);
    let elif = ElseClause::new(
        Some(simple("second").into()),
        simple("then").into(),
        Some(Box::new(rest)),
    );
    assert_eq!(name_of(elif.cond.as_ref().unwrap()), b"second");
    assert_eq!(name_of(&elif.body), b"then");
    assert_eq!(name_of(&elif.else_stmt.as_ref().unwrap().body), b"last");

    let clause = IfClause::new(simple("first").into(), simple("body").into(), Some(elif));
    assert_eq!(name_of(&clause.cond), b"first");
    assert_eq!(name_of(&clause.body), b"body");
    assert!(clause.else_stmt.is_some());

    let until = WhileClause::new(simple("cond").into(), false, simple("body").into());
    assert_eq!(name_of(&until.cond), b"cond");
    assert_eq!(name_of(&until.body), b"body");
    assert!(!until.desired);

    let file = IoRedirectFile::new(IoRedirectKind::Append, word("log"));
    assert_eq!(file.filename.eval(), b"log");
    assert!(matches!(file.kind, IoRedirectKind::Append));

    let body = FunctionBody::new(simple("b").into(), Some(vec![IoRedirect::File(Some(2), file)]));
    assert_eq!(body.redirect_list.as_ref().unwrap().len(), 1);
    let def = FunctionDef::new(b"f".to_vec(), body);
    assert_eq!(def.name, b"f");
    assert_eq!(name_of(&def.body.command), b"b");

    let assign = VarAssign { varname: b"v".to_vec(), value: () };
    let command = SimpleCommand::new(
        Some(word("prog")),
        Some(vec![PreAction::Assign(assign)]),
        Some(vec![PostAction::Word(word("a")), PostAction::Word(word("b"))]),
    );
    assert_eq!(command.name.as_ref().unwrap().eval(), b"prog");
    assert_eq!(command.pre_actions.as_ref().unwrap().len(), 1);
    assert_eq!(command.post_actions.as_ref().unwrap().len(), 2);

    let item = CaseItem::new(Pattern::new(vec![word("p"), word("q")]), Some(simple("a").into()));
    assert_eq!(item.pattern.items.len(), 2);
    assert_eq!(name_of(item.actions.as_ref().unwrap()), b"a");

    let subst = CommandSubst::new(simple("inner").into());
    assert_eq!(name_of(&subst.command), b"inner");
}

#[test]
fn a_pipeline_of_commands_is_not_negated() {
    let pipeline = Pipeline::from_iter(vec![simple("a").into(), simple("b").into()]);
    assert!(!pipeline.bang);
    assert_eq!(pipeline.commands.len(), 2);
    assert_eq!(name_of(&pipeline.commands[0]), b"a");
    assert_eq!(name_of(&pipeline.commands[1]), b"b");

    let member = AndOr::new(pipeline, SepKind::Or);
    assert!(matches!(member.separator, SepKind::Or));
    assert_eq!(member.pipeline.commands.len(), 2);

    let script = Script::new(vec![CompleteCommand::new(vec![vec![vec![member]]])]);
    assert_eq!(script.commands.len(), 1);
    assert_eq!(script.commands[0].lists.len(), 1);
    assert_eq!(script.commands[0].lists[0][0].len(), 1);
}

#[test]
fn a_default_document_is_empty() {
    assert!(HereDoc::default().data.is_empty());
    assert_eq!(HereDoc::new(b"text".to_vec()).data, b"text");
}
