//! What each construct of a script comes to, in terms of the commands that it is made of.

use vstd::prelude::*;

use crate::ast::{
    AndOr, CaseClause, CaseItem, Command, CommandInner, CompleteCommand, ElseClause, ExitCode,
    ForClause, FunctionDef, IfClause, Pipeline, SimpleCommand, WhileClause,
};
use crate::env::Scope;
use crate::machine::{Choice, Event, Response, State, Work};
use crate::semantics::{Outcome, World};
use crate::simulation::{Config, Run};
use crate::word::Word;

verus! {

/// A command is what it is made of: running it is running the clause, list or simple command that
/// it holds, whatever its redirections.
pub proof fn law_command_is_what_it_holds(fuel: nat, c: &Command, w: World)
    ensures
        match c.inner {
            CommandInner::If(clause) => crate::semantics::eval_command(fuel, c, w)
                == crate::semantics::eval_if(fuel, &*clause, w),
            CommandInner::While(clause) => crate::semantics::eval_command(fuel, c, w)
                == crate::semantics::eval_while(fuel, &*clause, 0, w),
            CommandInner::For(clause) => crate::semantics::eval_command(fuel, c, w)
                == crate::semantics::eval_for_clause(fuel, &*clause, w),
            CommandInner::Case(clause) => crate::semantics::eval_command(fuel, c, w)
                == crate::semantics::eval_case(fuel, &*clause, w),
            CommandInner::FunctionDef(def) => crate::semantics::eval_command(fuel, c, w)
                == crate::semantics::eval_function_def(&*def, w),
            CommandInner::AndOr(list) => crate::semantics::eval_command(fuel, c, w)
                == crate::semantics::eval_list(fuel, list@, 0, 0, w),
            CommandInner::Simple(simple) => crate::semantics::eval_command(fuel, c, w)
                == crate::semantics::eval_simple(&simple, w),
        },
{
}

/// A complete command without lists succeeds at once. With one more list it runs that list after
/// the others, whatever they ended with, and ends with its status.
pub proof fn law_last_list_gives_the_status(
    fuel: nat,
    c: &CompleteCommand,
    longer: &CompleteCommand,
    list: Vec<Vec<AndOr>>,
    w: World,
)
    requires
        longer.lists@ == c.lists@.push(list),
    ensures
        c.lists@.len() == 0 ==> crate::semantics::eval_complete(fuel, c, w) == Outcome::Done(0, w),
        match crate::semantics::eval_complete(fuel, c, w) {
            Outcome::Done(_, after) => crate::semantics::eval_complete(fuel, longer, w)
                == crate::semantics::eval_list(fuel, list@, 0, 0, after),
            other => crate::semantics::eval_complete(fuel, longer, w) == other,
        },
{
    lemma_lists_extend(fuel, c.lists@, list, 0, 0, w);
}

proof fn lemma_lists_extend(
    fuel: nat,
    lists: Seq<Vec<Vec<AndOr>>>,
    list: Vec<Vec<AndOr>>,
    i: nat,
    code: ExitCode,
    w: World,
)
    requires
        i <= lists.len(),
    ensures
        match crate::semantics::eval_lists(fuel, lists, i, code, w) {
            Outcome::Done(_, after) => crate::semantics::eval_lists(
                fuel,
                lists.push(list),
                i,
                code,
                w,
            ) == crate::semantics::eval_list(fuel, list@, 0, 0, after),
            other => crate::semantics::eval_lists(fuel, lists.push(list), i, code, w) == other,
        },
    decreases lists.len() - i,
{
    let longer = lists.push(list);
    if i < lists.len() {
        assert(longer[i as int] == lists[i as int]);
        if let Outcome::Done(code, w) = crate::semantics::eval_list(
            fuel,
            lists[i as int]@,
            0,
            0,
            w,
        ) {
            lemma_lists_extend(fuel, lists, list, i + 1, code, w);
        }
    } else if let Outcome::Done(code, w) = crate::semantics::eval_list(fuel, list@, 0, 0, w) {
        assert(crate::semantics::eval_lists(fuel, longer, i + 1, code, w) == Outcome::Done(
            code,
            w,
        ));
    }
}

/// A list without chains succeeds at once. With one more chain it runs that chain after the others,
/// whatever they ended with, and ends with its status.
pub proof fn law_last_chain_gives_the_status(
    fuel: nat,
    list: Seq<Vec<AndOr>>,
    chain: Vec<AndOr>,
    w: World,
)
    ensures
        list.len() == 0 ==> crate::semantics::eval_list(fuel, list, 0, 0, w) == Outcome::Done(0, w),
        match crate::semantics::eval_list(fuel, list, 0, 0, w) {
            Outcome::Done(_, after) => crate::semantics::eval_list(fuel, list.push(chain), 0, 0, w)
                == crate::semantics::eval_chain(fuel, chain@, 0, 0, after),
            other => crate::semantics::eval_list(fuel, list.push(chain), 0, 0, w) == other,
        },
{
    lemma_list_extends(fuel, list, chain, 0, 0, w);
}

proof fn lemma_list_extends(
    fuel: nat,
    list: Seq<Vec<AndOr>>,
    chain: Vec<AndOr>,
    i: nat,
    code: ExitCode,
    w: World,
)
    requires
        i <= list.len(),
    ensures
        match crate::semantics::eval_list(fuel, list, i, code, w) {
            Outcome::Done(_, after) => crate::semantics::eval_list(
                fuel,
                list.push(chain),
                i,
                code,
                w,
            ) == crate::semantics::eval_chain(fuel, chain@, 0, 0, after),
            other => crate::semantics::eval_list(fuel, list.push(chain), i, code, w) == other,
        },
    decreases list.len() - i,
{
    let longer = list.push(chain);
    if i < list.len() {
        assert(longer[i as int] == list[i as int]);
        if let Outcome::Done(code, w) = crate::semantics::eval_chain(
            fuel,
            list[i as int]@,
            0,
            0,
            w,
        ) {
            lemma_list_extends(fuel, list, chain, i + 1, code, w);
        }
    } else if let Outcome::Done(code, w) = crate::semantics::eval_chain(fuel, chain@, 0, 0, w) {
        assert(crate::semantics::eval_list(fuel, longer, i + 1, code, w) == Outcome::Done(code, w));
    }
}

/// The first member of a chain always runs, one behind `&&` exactly after a success, and one behind
/// `||` exactly after a failure, whatever its status. One that does not run leaves all as it is.
pub proof fn law_member_runs_on_its_condition(fuel: nat, member: &AndOr, code: ExitCode, w: World)
    ensures
        (member.separator is First || (member.separator is And && code == 0) || (
        member.separator is Or && code != 0)) ==> crate::semantics::eval_and_or(
            fuel,
            member,
            code,
            w,
        ) == crate::semantics::eval_pipeline(fuel, &member.pipeline, 0, 0, w),
        ((member.separator is And && code != 0) || (member.separator is Or && code == 0))
            ==> crate::semantics::eval_and_or(fuel, member, code, w) == Outcome::Done(code, w),
{
}

/// A chain of one member runs that member as after a success, and a chain of none succeeds at once.
pub proof fn law_chain_of_one(fuel: nat, chain: Seq<AndOr>, w: World)
    ensures
        chain.len() == 0 ==> crate::semantics::eval_chain(fuel, chain, 0, 0, w) == Outcome::Done(
            0,
            w,
        ),
        chain.len() == 1 ==> crate::semantics::eval_chain(fuel, chain, 0, 0, w)
            == crate::semantics::eval_and_or(fuel, &chain[0], 0, w),
{
    if chain.len() == 1 {
        let none = Seq::<AndOr>::empty();
        assert(none.push(chain[0]) =~= chain);
        crate::laws::law_chain_extends(fuel, none, chain[0], 0, 0, w);
    }
}

/// Of two members the second sees the status that the first ended with: behind `||` it runs exactly
/// if the first failed, and behind `&&` exactly if the first succeeded.
pub proof fn law_chain_of_two(fuel: nat, chain: Seq<AndOr>, w: World)
    requires
        chain.len() == 2,
        chain[0].separator is First,
        chain[1].separator !is First,
    ensures
        match crate::semantics::eval_pipeline(fuel, &chain[0].pipeline, 0, 0, w) {
            Outcome::Done(code, after) => crate::semantics::eval_chain(fuel, chain, 0, 0, w) == if (
            code == 0) == (chain[1].separator is And) {
                crate::semantics::eval_pipeline(fuel, &chain[1].pipeline, 0, 0, after)
            } else {
                Outcome::Done(code, after)
            },
            other => crate::semantics::eval_chain(fuel, chain, 0, 0, w) == other,
        },
{
    let first = Seq::<AndOr>::empty().push(chain[0]);
    assert(first.push(chain[1]) =~= chain);
    crate::laws::law_chain_extends(fuel, first, chain[1], 0, 0, w);
    law_chain_of_one(fuel, first, w);
    law_member_runs_on_its_condition(fuel, &chain[0], 0, w);
}

/// Without a bang a pipeline of one command is that command, and one of none succeeds at once. With
/// one more command it runs that command after the others, whatever they ended with, and ends with
/// exactly its status.
pub proof fn law_last_command_gives_the_status(
    fuel: nat,
    p: &Pipeline,
    longer: &Pipeline,
    c: Command,
    w: World,
)
    requires
        !p.bang,
        !longer.bang,
        longer.commands@ == p.commands@.push(c),
    ensures
        p.commands@.len() == 0 ==> {
            &&& crate::semantics::eval_pipeline(fuel, p, 0, 0, w) == Outcome::Done(0, w)
            &&& crate::semantics::eval_pipeline(fuel, longer, 0, 0, w)
                == crate::semantics::eval_command(fuel, &c, w)
        },
        match crate::semantics::eval_pipeline(fuel, p, 0, 0, w) {
            Outcome::Done(_, after) => crate::semantics::eval_pipeline(fuel, longer, 0, 0, w)
                == crate::semantics::eval_command(fuel, &c, after),
            other => crate::semantics::eval_pipeline(fuel, longer, 0, 0, w) == other,
        },
{
    lemma_pipeline_extends(fuel, p, longer, c, 0, 0, w);
}

proof fn lemma_pipeline_extends(
    fuel: nat,
    p: &Pipeline,
    longer: &Pipeline,
    c: Command,
    i: nat,
    code: ExitCode,
    w: World,
)
    requires
        !p.bang,
        !longer.bang,
        longer.commands@ == p.commands@.push(c),
        i <= p.commands@.len(),
    ensures
        match crate::semantics::eval_pipeline(fuel, p, i, code, w) {
            Outcome::Done(_, after) => crate::semantics::eval_pipeline(fuel, longer, i, code, w)
                == crate::semantics::eval_command(fuel, &c, after),
            other => crate::semantics::eval_pipeline(fuel, longer, i, code, w) == other,
        },
    decreases p.commands@.len() - i,
{
    if i < p.commands@.len() {
        assert(longer.commands@[i as int] == p.commands@[i as int]);
        if let Outcome::Done(code, w) = crate::semantics::eval_command(
            fuel,
            &p.commands@[i as int],
            w,
        ) {
            lemma_pipeline_extends(fuel, p, longer, c, i + 1, code, w);
        }
    } else {
        assert(longer.commands@[i as int] == c);
        if let Outcome::Done(code, w) = crate::semantics::eval_command(fuel, &c, w) {
            assert(crate::semantics::eval_pipeline(fuel, longer, i + 1, code, w) == Outcome::Done(
                code,
                w,
            ));
        }
    }
}

/// A pipeline of one command ends with exactly the status of the command, or with a bang with one
/// where the command succeeds and zero where it fails.
pub proof fn law_pipeline_of_one(fuel: nat, p: &Pipeline, w: World)
    requires
        p.commands@.len() == 1,
    ensures
        !p.bang ==> crate::semantics::eval_pipeline(fuel, p, 0, 0, w)
            == crate::semantics::eval_command(fuel, &p.commands@[0], w),
        p.bang ==> match crate::semantics::eval_command(fuel, &p.commands@[0], w) {
            Outcome::Done(code, after) => crate::semantics::eval_pipeline(fuel, p, 0, 0, w)
                == Outcome::Done(
                if code == 0 {
                    1
                } else {
                    0
                },
                after,
            ),
            other => crate::semantics::eval_pipeline(fuel, p, 0, 0, w) == other,
        },
{
    if let Outcome::Done(code, w) = crate::semantics::eval_command(fuel, &p.commands@[0], w) {
        assert(crate::semantics::eval_pipeline(fuel, p, 1, code, w) is Done);
    }
}

/// An `if` runs its condition once. After a success it is its body; after any failure it is what
/// stands behind `else`, and succeeds where nothing does.
pub proof fn law_if_follows_its_condition(fuel: nat, c: &IfClause, w: World)
    ensures
        match crate::semantics::eval_command(fuel, &c.cond, w) {
            Outcome::Done(code, after) => {
                &&& code == 0 ==> crate::semantics::eval_if(fuel, c, w)
                    == crate::semantics::eval_command(fuel, &c.body, after)
                &&& code != 0 && c.else_stmt is None ==> crate::semantics::eval_if(fuel, c, w)
                    == Outcome::Done(0, after)
                &&& code != 0 && c.else_stmt is Some ==> crate::semantics::eval_if(fuel, c, w)
                    == crate::semantics::eval_else(fuel, &c.else_stmt->0, after)
            },
            other => crate::semantics::eval_if(fuel, c, w) == other,
        },
{
}

/// An `else` is its body. An `elif` runs its condition once; after a success it is its body, after
/// any failure what stands behind it, and it succeeds where nothing does.
pub proof fn law_else_follows_its_condition(fuel: nat, c: &ElseClause, w: World)
    ensures
        c.cond is None ==> crate::semantics::eval_else(fuel, c, w)
            == crate::semantics::eval_command(fuel, &c.body, w),
        c.cond is Some ==> match crate::semantics::eval_command(fuel, &c.cond->0, w) {
            Outcome::Done(code, after) => {
                &&& code == 0 ==> crate::semantics::eval_else(fuel, c, w)
                    == crate::semantics::eval_command(fuel, &c.body, after)
                &&& code != 0 && c.else_stmt is None ==> crate::semantics::eval_else(fuel, c, w)
                    == Outcome::Done(0, after)
                &&& code != 0 && c.else_stmt is Some ==> crate::semantics::eval_else(fuel, c, w)
                    == crate::semantics::eval_else(fuel, &*c.else_stmt->0, after)
            },
            other => crate::semantics::eval_else(fuel, c, w) == other,
        },
{
}

/// A loop whose condition does not come out as desired ends with the status of its last round, and
/// one whose condition does is its body and then the loop again. A `while` loop desires success and
/// an `until` loop any failure.
pub proof fn law_loop_unrolls(fuel: nat, c: &WhileClause, last: ExitCode, w: World)
    ensures
        crate::semantics::eval_while(0, c, last, w) is OutOfFuel,
        match crate::semantics::eval_command(fuel + 1, &c.cond, w) {
            Outcome::Done(code, after) => {
                &&& (code == 0) != c.desired ==> crate::semantics::eval_while(fuel + 1, c, last, w)
                    == Outcome::Done(last, after)
                &&& (code == 0) == c.desired ==> match crate::semantics::eval_command(
                    fuel + 1,
                    &c.body,
                    after,
                ) {
                    Outcome::Done(round, end) => crate::semantics::eval_while(
                        fuel + 1,
                        c,
                        last,
                        w,
                    ) == crate::semantics::eval_while(fuel, c, round, end),
                    other => crate::semantics::eval_while(fuel + 1, c, last, w) == other,
                }
            },
            other => crate::semantics::eval_while(fuel + 1, c, last, w) == other,
        },
{
    assert((fuel + 1 - 1) as nat == fuel);
}

/// A `for` loop over no words succeeds at once. One more word is one more round after the
/// others, whatever they ended with: the body runs with the variable holding the text of the word,
/// and its status is that of the loop. A word that is not text alone is not supported.
pub proof fn law_one_more_round(
    fuel: nat,
    c: &ForClause,
    longer: &ForClause,
    word: Word,
    w: World,
)
    requires
        c.words is Some,
        longer.words is Some,
        longer.words->0@ == c.words->0@.push(word),
        longer.name@ == c.name@,
        longer.body == c.body,
    ensures
        c.words->0@.len() == 0 ==> crate::semantics::eval_for_clause(fuel, c, w) == Outcome::Done(
            0,
            w,
        ),
        match crate::semantics::eval_for_clause(fuel, c, w) {
            Outcome::Done(_, after) => crate::semantics::eval_for_clause(fuel, longer, w)
                == if word.literal() {
                crate::semantics::eval_command(
                    fuel,
                    &c.body,
                    World {
                        scope: Scope {
                            vars: after.scope.vars.insert(c.name@, word.text()),
                            funcs: after.scope.funcs,
                        },
                        replies: after.replies,
                        spawned: after.spawned,
                    },
                )
            } else {
                Outcome::Unsupported(after)
            },
            other => crate::semantics::eval_for_clause(fuel, longer, w) == other,
        },
{
    lemma_for_extends(fuel, c, longer, word, 0, 0, w);
}

proof fn lemma_for_extends(
    fuel: nat,
    c: &ForClause,
    longer: &ForClause,
    word: Word,
    i: nat,
    code: ExitCode,
    w: World,
)
    requires
        c.words is Some,
        longer.words is Some,
        longer.words->0@ == c.words->0@.push(word),
        longer.name@ == c.name@,
        longer.body == c.body,
        i <= c.words->0@.len(),
    ensures
        match crate::semantics::eval_for(fuel, c, c.words->0@, i, code, w) {
            Outcome::Done(_, after) => crate::semantics::eval_for(
                fuel,
                longer,
                longer.words->0@,
                i,
                code,
                w,
            ) == if word.literal() {
                crate::semantics::eval_command(
                    fuel,
                    &c.body,
                    World {
                        scope: Scope {
                            vars: after.scope.vars.insert(c.name@, word.text()),
                            funcs: after.scope.funcs,
                        },
                        replies: after.replies,
                        spawned: after.spawned,
                    },
                )
            } else {
                Outcome::Unsupported(after)
            },
            other => crate::semantics::eval_for(fuel, longer, longer.words->0@, i, code, w)
                == other,
        },
    decreases c.words->0@.len() - i,
{
    let words = c.words->0@;
    let more = longer.words->0@;
    if i < words.len() {
        assert(more[i as int] == words[i as int]);
        if words[i as int].literal() {
            let set = w.with_var(c.name@, words[i as int].text());
            if let Outcome::Done(code, w) = crate::semantics::eval_command(fuel, &c.body, set) {
                lemma_for_extends(fuel, c, longer, word, i + 1, code, w);
            }
        }
    } else {
        assert(more[i as int] == word);
        let set = w.with_var(c.name@, word.text());
        if let Outcome::Done(code, w) = crate::semantics::eval_command(fuel, &c.body, set) {
            assert(crate::semantics::eval_for(fuel, longer, more, i + 1, code, w) == Outcome::Done(
                code,
                w,
            ));
        }
    }
}

/// A `for` loop without a list of words is not supported.
pub proof fn law_for_needs_words(fuel: nat, c: &ForClause, w: World)
    requires
        c.words is None,
    ensures
        crate::semantics::eval_for_clause(fuel, c, w) == Outcome::Unsupported(w),
{
}

/// The item whose pattern matches is the choice where no pattern before it does, however many items
/// there are. Nothing is the choice where no pattern matches, and the choice is not supported only
/// where a pattern that cannot be matched stands before any that matches.
pub proof fn law_matching_item_is_the_choice(items: Seq<CaseItem>, value: Seq<u8>, j: int)
    requires
        0 <= j <= items.len(),
        forall|k: int|
            0 <= k < j ==> crate::machine::match_words((#[trigger] items[k]).pattern.items@, value)
                == Some(false),
    ensures
        j < items.len() && crate::machine::match_words(items[j].pattern.items@, value) == Some(true)
            ==> crate::machine::choose_item(items, 0, value) == Choice::Item(j),
        j < items.len() && crate::machine::match_words(items[j].pattern.items@, value) is None
            ==> crate::machine::choose_item(items, 0, value) is Unsupported,
        j == items.len() ==> crate::machine::choose_item(items, 0, value) is Nothing,
{
    lemma_choice_skips(items, value, 0, j);
}

proof fn lemma_choice_skips(items: Seq<CaseItem>, value: Seq<u8>, i: int, j: int)
    requires
        0 <= i <= j <= items.len(),
        forall|k: int|
            0 <= k < j ==> crate::machine::match_words((#[trigger] items[k]).pattern.items@, value)
                == Some(false),
    ensures
        crate::machine::choose_item(items, i, value) == crate::machine::choose_item(
            items,
            j,
            value,
        ),
    decreases j - i,
{
    if i < j {
        assert(crate::machine::match_words(items[i].pattern.items@, value) == Some(false));
        lemma_choice_skips(items, value, i + 1, j);
    }
}

/// Whether the item at the index has a pattern that cannot be matched, and no item before it, from
/// the other index on, has one that matches.
pub open spec fn blocks(items: Seq<CaseItem>, i: int, k: int, value: Seq<u8>) -> bool {
    &&& i <= k < items.len()
    &&& crate::machine::match_words(items[k].pattern.items@, value) is None
    &&& forall|l: int|
        i <= l < k ==> crate::machine::match_words((#[trigger] items[l]).pattern.items@, value)
            == Some(false)
}

/// Where a choice is not supported, there is a pattern that cannot be matched, and no pattern
/// before it matches.
pub proof fn law_unsupported_choice_has_a_cause(items: Seq<CaseItem>, i: int, value: Seq<u8>) -> (k:
    int)
    requires
        0 <= i,
        crate::machine::choose_item(items, i, value) is Unsupported,
    ensures
        blocks(items, i, k, value),
    decreases items.len() - i,
{
    if crate::machine::match_words(items[i].pattern.items@, value) is Some {
        let k = law_unsupported_choice_has_a_cause(items, i + 1, value);
        assert(crate::machine::match_words(items[i].pattern.items@, value) == Some(false));
        k
    } else {
        i
    }
}

/// A `case` runs the actions of the item whose pattern matches the word where no pattern before it
/// does, and succeeds where that item has none or no pattern matches. It is not supported where the
/// word is not text alone, or where a pattern that cannot be matched stands before any that
/// matches.
pub proof fn law_case_runs_the_matching_item(fuel: nat, c: &CaseClause, w: World, j: int)
    requires
        0 <= j <= c.case_list.items@.len(),
        forall|k: int|
            0 <= k < j ==> crate::machine::match_words(
                (#[trigger] c.case_list.items@[k]).pattern.items@,
                c.word.text(),
            ) == Some(false),
    ensures
        !c.word.literal() ==> crate::semantics::eval_case(fuel, c, w) == Outcome::Unsupported(w),
        c.word.literal() && j == c.case_list.items@.len() ==> crate::semantics::eval_case(
            fuel,
            c,
            w,
        ) == Outcome::Done(0, w),
        c.word.literal() && j < c.case_list.items@.len() ==> match crate::machine::match_words(
            c.case_list.items@[j].pattern.items@,
            c.word.text(),
        ) {
            Some(true) => match c.case_list.items@[j].actions {
                Some(actions) => crate::semantics::eval_case(fuel, c, w)
                    == crate::semantics::eval_command(fuel, &actions, w),
                None => crate::semantics::eval_case(fuel, c, w) == Outcome::Done(0, w),
            },
            Some(false) => true,
            None => crate::semantics::eval_case(fuel, c, w) == Outcome::Unsupported(w),
        },
{
    law_matching_item_is_the_choice(c.case_list.items@, c.word.text(), j);
}

/// A function definition gives the name that body, leaves all other names, the variables and the
/// programs alone, and succeeds.
pub proof fn law_definition_defines(d: &FunctionDef, w: World, other: Seq<u8>)
    ensures
        crate::semantics::eval_function_def(d, w) is Done,
        crate::semantics::eval_function_def(d, w)->Done_0 == 0,
        ({
            let after = crate::semantics::eval_function_def(d, w)->Done_1;
            &&& after.scope.funcs.contains_key(d.name@)
            &&& after.scope.funcs[d.name@] == d.body
            &&& other != d.name@ ==> after.scope.funcs.contains_key(other)
                == w.scope.funcs.contains_key(other)
            &&& other != d.name@ && w.scope.funcs.contains_key(other) ==> after.scope.funcs[other]
                == w.scope.funcs[other]
            &&& after.scope.vars == w.scope.vars
            &&& after.replies == w.replies
            &&& after.spawned == w.spawned
        }),
{
}

/// A simple command without a name succeeds and does nothing. One with words that are not text
/// alone is not supported. Any other asks for one child process, and ends with exactly the status with
/// which that ends, or waits for it.
pub proof fn law_simple_command_asks_once(c: &SimpleCommand, w: World)
    ensures
        c.name is None ==> crate::semantics::eval_simple(c, w) == Outcome::Done(0, w),
        c.name is Some && !c.supported() ==> crate::semantics::eval_simple(c, w)
            == Outcome::Unsupported(w),
        c.name is Some && c.supported() && w.replies.len() == 0 ==> crate::semantics::eval_simple(
            c,
            w,
        ) == Outcome::Waiting(
            World {
                scope: w.scope,
                replies: w.replies,
                spawned: w.spawned.push(c.request_in(w.scope.vars)),
            },
        ),
        c.name is Some && c.supported() && w.replies.len() > 0 ==> crate::semantics::eval_simple(
            c,
            w,
        ) == Outcome::Done(
            w.replies[0],
            World {
                scope: w.scope,
                replies: w.replies.skip(1),
                spawned: w.spawned.push(c.request_in(w.scope.vars)),
            },
        ),
{
    if w.replies.len() > 0 {
        assert(w.replies.skip(1) =~= w.replies.drop_first());
    }
}

/// A machine without work has finished with the status that it was last told, and stays as it is.
pub proof fn law_idle_machine_has_finished<'a>(s: State<'a>, code: ExitCode)
    requires
        s.work.len() == 0,
    ensures
        crate::machine::step(s, Event::Proceed) == (s, Response::Finished(s.code)),
        crate::machine::step(s, Event::Exited(code)).1 == Response::Finished(code),
        crate::machine::step(s, Event::Exited(code)).0.scope == s.scope,
        crate::machine::step(s, Event::Exited(code)).0.code == code,
        crate::machine::step(s, Event::Exited(code)).0.work == s.work,
{
}

/// Running a machine is stepping it: it goes on from the state that a step leads to, and where the
/// step asks for a child process, with the next reply as the status. Where there is no reply it
/// waits, and else it stops as the step says.
pub proof fn law_running_is_stepping<'a>(n: nat, c: Config<'a>)
    ensures
        crate::simulation::run(0, c) == Run::Running(c),
        ({
            let (s, response) = crate::machine::step(c.state, Event::Proceed);
            let after = World { scope: s.scope, replies: c.replies, spawned: c.spawned };
            match response {
                Response::Continue => crate::simulation::run(n + 1, c) == crate::simulation::run(
                    n,
                    Config { state: s, replies: c.replies, spawned: c.spawned },
                ),
                Response::Spawn(request) => if c.replies.len() == 0 {
                    crate::simulation::run(n + 1, c) == Run::<'a>::Waiting(
                        World { spawned: c.spawned.push(request), ..after },
                    )
                } else {
                    crate::simulation::run(n + 1, c) == crate::simulation::run(
                        n,
                        Config {
                            state: State { scope: s.scope, code: c.replies[0], work: s.work },
                            replies: c.replies.skip(1),
                            spawned: c.spawned.push(request),
                        },
                    )
                },
                Response::Finished(code) => crate::simulation::run(n + 1, c)
                    == Run::<'a>::Finished(code, after),
                Response::Unsupported => crate::simulation::run(n + 1, c)
                    == Run::<'a>::Unsupported(after),
            }
        }),
{
    if c.replies.len() > 0 {
        assert(c.replies.skip(1) =~= c.replies.drop_first());
    }
    assert((n + 1 - 1) as nat == n);
}

/// To start on something that comes to an outcome is to get there: after some steps the machine has
/// the status of the outcome, in its world, with the other work left; or it waits or stops as the
/// outcome says.
pub proof fn law_what_is_started_gets_there<'a>(
    w: World,
    code: ExitCode,
    work: Seq<Work<'a>>,
    s: State<'a>,
    outcome: Outcome,
    fuel: nat,
)
    requires
        crate::simulation::leads_to(w, code, work, (s, Response::Continue), outcome, fuel),
    ensures
        ({
            let from = Config { state: s, replies: w.replies, spawned: w.spawned };
            match outcome {
                Outcome::Done(status, after) => exists|n: nat| #[trigger]
                    crate::simulation::run(n, from) == Run::Running(
                        Config {
                            state: State { scope: after.scope, code: status, work },
                            replies: after.replies,
                            spawned: after.spawned,
                        },
                    ),
                Outcome::Waiting(after) => exists|n: nat| #[trigger]
                    crate::simulation::run(n, from) == Run::<'a>::Waiting(after),
                Outcome::Unsupported(after) => exists|n: nat| #[trigger]
                    crate::simulation::run(n, from) == Run::<'a>::Unsupported(after),
                Outcome::OutOfFuel => exists|n: nat|
                    n >= fuel && #[trigger] crate::simulation::run(n, from) is Running,
            }
        }),
{
}

/// To start on something that is answered at once comes to the outcome that the answer gives: a
/// child process for which there is no reply is waited for, and what is not supported stops there.
pub proof fn law_what_is_answered_at_once<'a>(
    w: World,
    code: ExitCode,
    work: Seq<Work<'a>>,
    s: State<'a>,
    response: Response,
    outcome: Outcome,
    fuel: nat,
)
    requires
        crate::simulation::leads_to(w, code, work, (s, response), outcome, fuel),
    ensures
        response !is Finished,
        response is Unsupported ==> outcome == Outcome::Unsupported(
            World { scope: s.scope, replies: w.replies, spawned: w.spawned },
        ),
        response matches Response::Spawn(request) ==> {
            &&& w.replies.len() == 0 ==> outcome == Outcome::Waiting(
                World {
                    scope: s.scope,
                    replies: w.replies,
                    spawned: w.spawned.push(request),
                },
            )
            &&& w.replies.len() > 0 ==> crate::simulation::leads_to(
                World {
                    scope: s.scope,
                    replies: w.replies.skip(1),
                    spawned: w.spawned.push(request),
                },
                code,
                work,
                (State { code: w.replies[0], ..s }, Response::Continue),
                outcome,
                fuel,
            )
        },
{
    if w.replies.len() > 0 {
        assert(w.replies.skip(1) =~= w.replies.drop_first());
    }
}

} // verus!
