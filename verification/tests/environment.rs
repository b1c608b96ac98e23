//! Variables and functions.

use shell_ast::ast::{
    Command, CommandInner, FunctionBody, HereDoc, IoRedirect, IoRedirectFile, IoRedirectKind,
};
use shell_ast::child::ChildRequest;
use shell_ast::env::Environment;
use shell_ast::word::Word;

fn body() -> FunctionBody {
    FunctionBody::new(Command::with_inner(CommandInner::AndOr(vec![])), None)
}

#[test]
fn a_new_environment_defines_nothing() {
    let env = Environment::new();
    assert!(env.iter().is_empty());
    assert!(env.get_func(&b"f".to_vec()).is_none());
}

#[test]
fn the_last_value_of_a_variable_counts() {
    let mut env = Environment::new();
    env.set_var(&b"x".to_vec(), b"1".to_vec());
    env.set_var(&b"y".to_vec(), b"2".to_vec());
    env.set_var(&b"x".to_vec(), b"3".to_vec());
    let pairs = env.iter();
    assert_eq!(pairs, vec![(b"x".to_vec(), b"3".to_vec()), (b"y".to_vec(), b"2".to_vec())]);
}

#[test]
fn the_last_body_of_a_function_is_found() {
    let first = body();
    let second = FunctionBody::new(Command::with_inner(CommandInner::AndOr(vec![])), Some(vec![]));
    let mut env = Environment::new();
    env.set_func(&b"f".to_vec(), &first);
    env.set_func(&b"g".to_vec(), &first);
    env.set_func(&b"f".to_vec(), &second);
    assert!(env.get_func(&b"f".to_vec()).unwrap().redirect_list.is_some());
    assert!(env.get_func(&b"g".to_vec()).unwrap().redirect_list.is_none());
    assert!(env.get_func(&b"h".to_vec()).is_none());
    assert!(env.iter().is_empty());
}

#[test]
fn a_document_is_piped_and_then_written() {
    let mut child =
        ChildRequest { program: b"cat".to_vec(), args: vec![], env: vec![], stdin: None };
    let file = IoRedirectFile::new(IoRedirectKind::Input, Word::Text(b"f".to_vec()));
    let file = IoRedirect::File(None, file);
    file.setup(&mut child);
    file.handle_child(&mut child);
    assert_eq!(child.stdin, None);

    let first = IoRedirect::Heredoc(None, HereDoc::new(b"one\n".to_vec()));
    let second = IoRedirect::Heredoc(Some(0), HereDoc::new(b"two\n".to_vec()));
    first.setup(&mut child);
    assert_eq!(child.stdin, Some(vec![]));
    first.handle_child(&mut child);
    second.setup(&mut child);
    assert_eq!(child.stdin, Some(b"one\n".to_vec()));
    second.handle_child(&mut child);
    file.handle_child(&mut child);
    assert_eq!(child.stdin, Some(b"one\ntwo\n".to_vec()));
    assert_eq!(child.program, b"cat");
}
