//! The programs that a script asks to be run.

use vstd::prelude::*;

use crate::ast::{IoRedirect, PostAction, SimpleCommand};
use crate::env::Environment;

verus! {

/// What a child process is to be given.
pub struct Request {
    pub program: Seq<u8>,
    pub args: Seq<Seq<u8>>,
    /// The whole environment of the child: it inherits no other variable.
    pub vars: Map<Seq<u8>, Seq<u8>>,
    /// The text to write to its standard input; without one it inherits that of the shell.
    pub stdin: Option<Seq<u8>>,
}

/// A child process to be run: its program and arguments, its whole environment, and the text to
/// write to its standard input. Without a text the child inherits the standard input.
#[derive(Debug)]
pub struct ChildRequest {
    pub program: Vec<u8>,
    pub args: Vec<Vec<u8>>,
    pub env: Vec<(Vec<u8>, Vec<u8>)>,
    pub stdin: Option<Vec<u8>>,
}

impl View for ChildRequest {
    type V = Request;

    open spec fn view(&self) -> Request {
        Request {
            program: self.program@,
            args: self.args@.map_values(|arg: Vec<u8>| arg@),
            vars: crate::env::values_of(self.env@),
            stdin: match self.stdin {
                Some(text) => Some(text@),
                None => None,
            },
        }
    }
}

impl IoRedirect {
    /// Prepares the child for the redirection before it is started: a here-document needs the
    /// standard input of the child to be written. Other redirections do nothing.
    pub fn setup(&self, child: &mut ChildRequest)
        ensures
            final(child)@ == (Request {
                stdin: match (*self, old(child)@.stdin) {
                    (IoRedirect::Heredoc(_, _), None) => Some(Seq::<u8>::empty()),
                    (_, stdin) => stdin,
                },
                ..old(child)@
            }),
    {
        match self {
            IoRedirect::Heredoc(_, _) => {
                if child.stdin.is_none() {
                    let text: Vec<u8> = Vec::new();
                    child.stdin = Some(text);
                }
            },
            IoRedirect::File(_, _) => {},
        }
    }

    /// Hands the child what the redirection gives it once it is started: the text of a
    /// here-document. Other redirections do nothing.
    pub fn handle_child(&self, child: &mut ChildRequest)
        requires
            self is Heredoc ==> old(child).stdin is Some,
        ensures
            final(child)@ == (Request {
                stdin: match *self {
                    IoRedirect::Heredoc(_, doc) => Some(old(child)@.stdin->0 + doc.data@),
                    IoRedirect::File(_, _) => old(child)@.stdin,
                },
                ..old(child)@
            }),
    {
        match self {
            IoRedirect::Heredoc(_, doc) => {
                let mut text = match child.stdin.take() {
                    Some(text) => text,
                    None => Vec::new(),
                };
                text.extend_from_slice(doc.data.as_slice());
                assert(text@ =~= old(child)@.stdin->0 + doc.data@);
                child.stdin = Some(text);
            },
            IoRedirect::File(_, _) => {},
        }
    }
}

impl PostAction {
    /// Whether the action can be carried out: a word must be made of text alone.
    pub open spec fn supported(self) -> bool {
        self matches PostAction::Word(word) ==> word.literal()
    }

    /// The arguments that the action gives the program.
    pub open spec fn args(self) -> Seq<Seq<u8>> {
        match self {
            PostAction::Word(word) => seq![word.text()],
            PostAction::Redirect(_) => Seq::empty(),
        }
    }

    /// The texts that the action writes to the standard input of the program.
    pub open spec fn documents(self) -> Seq<Seq<u8>> {
        match self {
            PostAction::Redirect(IoRedirect::Heredoc(_, doc)) => seq![doc.data@],
            _ => Seq::empty(),
        }
    }
}

/// The arguments that actions give, in order.
pub open spec fn args_of(actions: Seq<PostAction>) -> Seq<Seq<u8>> {
    actions.map_values(|act: PostAction| act.args()).flatten()
}

/// The here-documents among actions, in order.
pub open spec fn documents_of(actions: Seq<PostAction>) -> Seq<Seq<u8>> {
    actions.map_values(|act: PostAction| act.documents()).flatten()
}

pub(crate) proof fn lemma_actions_next(actions: Seq<PostAction>, i: int)
    requires
        0 <= i < actions.len(),
    ensures
        args_of(actions.take(i + 1)) == args_of(actions.take(i)) + actions[i].args(),
        documents_of(actions.take(i + 1)) == documents_of(actions.take(i))
            + actions[i].documents(),
{
    let args = actions.map_values(|act: PostAction| act.args());
    let documents = actions.map_values(|act: PostAction| act.documents());
    assert(actions.take(i).map_values(|act: PostAction| act.args()) =~= args.take(i));
    assert(actions.take(i + 1).map_values(|act: PostAction| act.args()) =~= args.take(i).push(
        args[i],
    ));
    args.take(i).lemma_flatten_push(args[i]);
    assert(actions.take(i).map_values(|act: PostAction| act.documents()) =~= documents.take(i));
    assert(actions.take(i + 1).map_values(|act: PostAction| act.documents())
        =~= documents.take(i).push(documents[i]));
    documents.take(i).lemma_flatten_push(documents[i]);
}

proof fn lemma_documents_prefix(actions: Seq<PostAction>, i: int)
    requires
        0 <= i <= actions.len(),
    ensures
        documents_of(actions.take(i)).len() <= documents_of(actions).len(),
    decreases actions.len() - i,
{
    if i < actions.len() {
        lemma_actions_next(actions, i);
        lemma_documents_prefix(actions, i + 1);
    } else {
        assert(actions.take(i) =~= actions);
    }
}

/// Whether the action redirects to or from a file.
pub open spec fn is_file_redirection(act: PostAction) -> bool {
    act matches PostAction::Redirect(IoRedirect::File(_, _))
}

/// The actions without redirections to or from files.
pub open spec fn without_files(actions: Seq<PostAction>) -> Seq<PostAction> {
    actions.filter(|act: PostAction| !is_file_redirection(act))
}

/// Redirections to or from files give no arguments and no documents, and can always be carried out.
pub(crate) proof fn lemma_without_files(actions: Seq<PostAction>)
    ensures
        args_of(without_files(actions)) == args_of(actions),
        documents_of(without_files(actions)) == documents_of(actions),
        (forall|i: int|
            0 <= i < without_files(actions).len() ==> (#[trigger] without_files(
                actions,
            )[i]).supported()) == (forall|i: int|
            0 <= i < actions.len() ==> (#[trigger] actions[i]).supported()),
    decreases actions.len(),
{
    reveal(Seq::filter);
    let rest = without_files(actions);
    if actions.len() > 0 {
        let n = actions.len() - 1;
        let before = actions.drop_last();
        let last = actions.last();
        lemma_without_files(before);
        assert(actions.take(n) =~= before);
        assert(actions.take(n + 1) =~= actions);
        lemma_actions_next(actions, n);
        if is_file_redirection(last) {
            assert(rest == without_files(before));
            assert(args_of(actions) =~= args_of(before));
            assert(documents_of(actions) =~= documents_of(before));
            assert forall|i: int|
                0 <= i < actions.len() && (forall|j: int|
                    0 <= j < before.len() ==> (#[trigger] before[j]).supported()) implies (
            #[trigger] actions[i]).supported() by {
                if i < n {
                    assert(before[i].supported());
                }
            }
            if forall|i: int| 0 <= i < actions.len() ==> (#[trigger] actions[i]).supported() {
                assert forall|j: int| 0 <= j < before.len() implies (
                #[trigger] before[j]).supported() by {
                    assert(actions[j].supported());
                }
            }
        } else {
            let fewer = without_files(before);
            assert(rest == fewer.push(last));
            assert(rest.take(fewer.len() as int) =~= fewer);
            assert(rest.take(fewer.len() as int + 1) =~= rest);
            lemma_actions_next(rest, fewer.len() as int);
            if forall|i: int| 0 <= i < actions.len() ==> (#[trigger] actions[i]).supported() {
                assert forall|j: int| 0 <= j < before.len() implies (
                #[trigger] before[j]).supported() by {
                    assert(actions[j].supported());
                }
                assert(actions[n].supported());
            }
            if forall|i: int| 0 <= i < rest.len() ==> (#[trigger] rest[i]).supported() {
                assert forall|j: int| 0 <= j < fewer.len() implies (
                #[trigger] fewer[j]).supported() by {
                    assert(rest[j].supported());
                }
                assert(rest[fewer.len() as int].supported());
                assert forall|i: int| 0 <= i < actions.len() implies (
                #[trigger] actions[i]).supported() by {
                    if i < n {
                        assert(before[i].supported());
                    }
                }
            }
        }
    } else {
        assert(rest =~= actions);
    }
}

impl SimpleCommand {
    /// What follows the name.
    pub open spec fn actions(self) -> Seq<PostAction> {
        match self.post_actions {
            Some(actions) => actions@,
            None => Seq::empty(),
        }
    }

    /// Whether every word that is needed to run the command is made of text alone.
    pub open spec fn supported(self) -> bool {
        &&& self.name matches Some(name) ==> name.literal()
        &&& forall|i: int|
            0 <= i < self.actions().len() ==> (#[trigger] self.actions()[i]).supported()
    }

    /// The child process that the command asks for. A here-document is written to its standard
    /// input, several of them one after the other.
    pub open spec fn request_in(self, vars: Map<Seq<u8>, Seq<u8>>) -> Request {
        let documents = documents_of(self.actions());
        Request {
            program: self.name->0.text(),
            args: args_of(self.actions()),
            vars,
            stdin: if documents.len() == 0 {
                None
            } else {
                Some(documents.flatten())
            },
        }
    }

    /// Tells whether every word that is needed to run the command is made of text alone.
    pub fn is_supported(&self) -> (b: bool)
        ensures
            b == self.supported(),
    {
        if let Some(name) = &self.name {
            if !name.is_literal() {
                return false;
            }
        }
        if let Some(actions) = &self.post_actions {
            for i in 0..actions.len()
                invariant
                    self.actions() == actions@,
                    forall|j: int| 0 <= j < i ==> (#[trigger] actions@[j]).supported(),
            {
                if let PostAction::Word(word) = &actions[i] {
                    if !word.is_literal() {
                        assert(!self.actions()[i as int].supported());
                        return false;
                    }
                }
            }
        }
        true
    }

    /// The child process that the command asks for, given the variables of the shell.
    pub fn request<'a>(&self, env: &Environment<'a>) -> (child: ChildRequest)
        requires
            self.name is Some,
            self.supported(),
        ensures
            child@ == self.request_in(env@.vars),
            child.program@ == self.name->0.text(),
            crate::env::values_of(child.env@) == env@.vars,
            self.post_actions is None ==> child.args@.len() == 0 && child.stdin is None,
            self.post_actions matches Some(actions) ==> {
                (forall|i: int| 0 <= i < actions@.len() ==> (#[trigger] actions@[i]) is Word) ==> {
                    &&& child.stdin is None
                    &&& child.args@.len() == actions@.len()
                    &&& forall|i: int|
                        0 <= i < actions@.len() ==> (#[trigger] child.args@[i])@
                            == actions@[i]->Word_0.text()
                }
            },
    {
        let program = match &self.name {
            Some(name) => name.eval(),
            None => Vec::new(),
        };
        let mut child = ChildRequest { program, args: Vec::new(), env: env.iter(), stdin: None };
        let ghost documents = documents_of(self.actions());
        assert(self.actions().take(0) =~= Seq::empty());
        assert(args_of(self.actions().take(0)) =~= Seq::empty());
        assert(documents_of(self.actions().take(0)) =~= Seq::empty());
        assert(child@.args =~= Seq::empty());
        if let Some(actions) = &self.post_actions {
            for i in 0..actions.len()
                invariant
                    self.supported(),
                    self.actions() == actions@,
                    child@.program == self.name->0.text(),
                    child@.vars == env@.vars,
                    child@.args == args_of(actions@.take(i as int)),
                    child@.stdin == if documents_of(actions@.take(i as int)).len() == 0 {
                        None
                    } else {
                        Some(Seq::<u8>::empty())
                    },
            {
                proof {
                    lemma_actions_next(actions@, i as int);
                    assert(self.actions()[i as int].supported());
                }
                match &actions[i] {
                    PostAction::Redirect(redirect) => {
                        redirect.setup(&mut child);
                    },
                    PostAction::Word(word) => {
                        word.eval_glob_fs().push_args(&mut child.args);
                    },
                }
            }
            assert(actions@.take(actions@.len() as int) =~= actions@);
            assert(actions@.take(0) =~= Seq::empty());
            for i in 0..actions.len()
                invariant
                    self.actions() == actions@,
                    documents == documents_of(actions@),
                    child@.program == self.name->0.text(),
                    child@.vars == env@.vars,
                    child@.args == args_of(actions@),
                    child@.stdin == if documents.len() == 0 {
                        None
                    } else {
                        Some(documents_of(actions@.take(i as int)).flatten())
                    },
            {
                proof {
                    lemma_actions_next(actions@, i as int);
                    lemma_documents_prefix(actions@, i + 1);
                }
                match &actions[i] {
                    PostAction::Redirect(redirect) => {
                        proof {
                            if let IoRedirect::Heredoc(_, doc) = redirect {
                                documents_of(actions@.take(i as int)).lemma_flatten_push(doc.data@);
                                assert(documents_of(actions@.take(i as int)).push(doc.data@)
                                    =~= documents_of(actions@.take(i + 1)));
                            }
                        }
                        redirect.handle_child(&mut child);
                    },
                    PostAction::Word(_) => {},
                }
            }
            assert(actions@.take(actions@.len() as int) =~= actions@);
            proof {
                if forall|i: int| 0 <= i < actions@.len() ==> (#[trigger] actions@[i]) is Word {
                    crate::laws::law_words_are_the_arguments(*self, env@.vars);
                    assert forall|i: int| 0 <= i < actions@.len() implies (
                    #[trigger] child.args@[i])@ == actions@[i]->Word_0.text() by {
                        assert(child@.args[i] == child.args@[i]@);
                    }
                }
            }
        }
        child
    }
}

} // verus!
