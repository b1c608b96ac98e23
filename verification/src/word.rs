//! Words: what they evaluate to, and how they match as patterns.

use std::borrow::Cow;

use vstd::prelude::*;

use crate::ast::CommandSubst;
use crate::glob::InvalidGlob;

verus! {

/// One word of a command.
#[derive(Debug)]
pub enum Word {
    Text(Vec<u8>),
    Complex(Vec<WordPart>),
}

/// A piece of a word. Only text can be evaluated: the expansions are not supported.
#[derive(Debug)]
pub enum WordPart {
    Text(Vec<u8>),
    ParamExpand,
    CommandSubst,
}

/// What a word of a simple command stands for: one text, or the paths that it matched.
#[derive(Debug)]
pub enum WordEval {
    Text(Vec<u8>),
    Globbed(Vec<Vec<u8>>),
}

/// A text in double quotes.
#[derive(Debug)]
pub struct DoubleQuote {
    pub items: Vec<Quotable>,
}

/// A piece of a text in double quotes. Only text can be evaluated.
#[derive(Debug)]
pub enum Quotable {
    CommandSubst(CommandSubst),
    ArithExpr,
    ParamExpand,
    Text(Vec<u8>),
}

/// A copy of the bytes.
pub(crate) fn copy_bytes(bytes: &[u8]) -> (copy: Vec<u8>)
    ensures
        copy@ == bytes@,
{
    let mut copy: Vec<u8> = Vec::new();
    copy.extend_from_slice(bytes);
    assert(copy@ =~= bytes@);
    copy
}

impl WordPart {
    /// The text of the part; no text for an expansion.
    pub open spec fn text(self) -> Seq<u8> {
        match self {
            WordPart::Text(s) => s@,
            _ => Seq::empty(),
        }
    }

    /// The text of the part. An expansion has none.
    pub fn eval(&self) -> (text: Vec<u8>)
        requires
            self is Text,
        ensures
            text@ == self.text(),
            text@ == self->Text_0@,
    {
        match self {
            WordPart::Text(s) => copy_bytes(s.as_slice()),
            _ => Vec::new(),
        }
    }

    pub fn is_text(&self) -> (b: bool)
        ensures
            b == (self is Text),
    {
        match self {
            WordPart::Text(_) => true,
            _ => false,
        }
    }
}

impl Word {
    /// Whether the word is made of text alone, so that it can be evaluated.
    pub open spec fn literal(self) -> bool {
        match self {
            Word::Text(_) => true,
            Word::Complex(parts) => forall|i: int|
                0 <= i < parts@.len() ==> (#[trigger] parts@[i]) is Text,
        }
    }

    /// The text of the word: that of its parts, one after the other.
    pub open spec fn text(self) -> Seq<u8> {
        match self {
            Word::Text(s) => s@,
            Word::Complex(parts) => parts@.map_values(|part: WordPart| part.text()).flatten(),
        }
    }

    /// Tells whether the word is made of text alone.
    pub fn is_literal(&self) -> (b: bool)
        ensures
            b == self.literal(),
    {
        match self {
            Word::Text(_) => true,
            Word::Complex(parts) => {
                for i in 0..parts.len()
                    invariant
                        *self == Word::Complex(*parts),
                        forall|j: int| 0 <= j < i ==> (#[trigger] parts@[j]) is Text,
                {
                    if !parts[i].is_text() {
                        return false;
                    }
                }
                true
            },
        }
    }

    /// The text of the word.
    pub fn eval(&self) -> (text: Vec<u8>)
        requires
            self.literal(),
        ensures
            text@ == self.text(),
    {
        match self {
            Word::Text(s) => copy_bytes(s.as_slice()),
            Word::Complex(parts) => {
                let mut acc: Vec<u8> = Vec::new();
                let ghost texts = parts@.map_values(|part: WordPart| part.text());
                for i in 0..parts.len()
                    invariant
                        self.literal(),
                        *self == Word::Complex(*parts),
                        texts == parts@.map_values(|part: WordPart| part.text()),
                        acc@ == texts.take(i as int).flatten(),
                {
                    let mut item = parts[i].eval();
                    proof {
                        texts.take(i as int).lemma_flatten_push(texts[i as int]);
                        assert(texts.take(i as int).push(texts[i as int]) =~= texts.take(i + 1));
                    }
                    acc.append(&mut item);
                }
                assert(texts.take(parts@.len() as int) =~= texts);
                acc
            },
        }
    }
}

/// The pattern for a star is a star.
proof fn lemma_star()
    ensures
        crate::glob::star(crate::glob::pattern_of(seq![0x2au8])),
{
    let star = seq!['*'];
    vstd::utf8::is_ascii_chars_encode_utf8(star);
    assert(star[0] as u8 == 0x2a);
    assert(vstd::utf8::encode_utf8(star) =~= seq![0x2au8]);
    vstd::utf8::encode_utf8_decode_utf8(star);
    vstd::utf8::encode_utf8_valid_utf8(star);
}

impl Word {
    /// The pattern for a text: the text itself, not copied, where it is UTF-8; else its ASCII bytes
    /// as they are and the others escaped.
    pub fn escape_glob<'a>(&self, text: &'a [u8]) -> (pattern: Cow<'a, str>)
        ensures
            pattern@ == crate::glob::pattern_of(text@),
            pattern is Borrowed == vstd::utf8::valid_utf8(text@),
    {
        crate::glob::escape(text)
    }

    /// Whether the word can be matched as a pattern: it is made of text alone, and the pattern
    /// does not grow too large when it is compiled.
    pub open spec fn matchable(self) -> bool {
        self.literal() && crate::glob::answerable(
            crate::glob::pattern_of(self.text()),
            crate::glob::LITERAL_SEPARATOR,
        )
    }

    /// Tells whether the word can be matched as a pattern.
    pub fn is_matchable(&self) -> (b: bool)
        ensures
            b == self.matchable(),
    {
        if !self.is_literal() {
            return false;
        }
        let text = self.eval();
        let pattern = self.escape_glob(text.as_slice());
        crate::glob::is_answerable(crate::glob::characters(&pattern))
    }

    /// Whether the value matches the word as a pattern. A word that is no pattern matches
    /// nothing, a word in which no character is special matches itself alone, and a star matches
    /// whatever holds no slash, alone or among characters that are not special.
    pub fn matches_glob(&self, value: &[u8]) -> (matched: bool)
        requires
            self.matchable(),
        ensures
            matched == crate::glob::text_matches(self.text(), value@),
            matched == (crate::glob::glob_builds(crate::glob::pattern_of(self.text()), true)
                && crate::glob::glob_matches(
                crate::glob::pattern_of(self.text()),
                true,
                value@,
            )),
            forall|i: int| #[trigger]
                crate::glob::one_star(crate::glob::pattern_of(self.text()), i) ==> matched
                    == crate::glob::fits_between(
                    value@,
                    vstd::utf8::encode_utf8(crate::glob::pattern_of(self.text()).take(i)),
                    vstd::utf8::encode_utf8(crate::glob::pattern_of(self.text()).skip(i + 1)),
                ),
            vstd::utf8::valid_utf8(self.text()) && crate::glob::plain(
                crate::glob::pattern_of(self.text()),
            ) ==> matched == (value@ == self.text()),
            self.text() == seq![0x2au8] ==> matched == !value@.contains(0x2f),
    {
        let text = self.eval();
        let pattern = self.escape_glob(text.as_slice());
        proof {
            if vstd::utf8::valid_utf8(self.text()) {
                vstd::utf8::decode_utf8_encode_utf8(self.text());
            }
            if self.text() == seq![0x2au8] {
                lemma_star();
            }
        }
        crate::glob::verdict(crate::glob::match_pattern(crate::glob::characters(&pattern), value))
    }

    /// Whether the value matches the word as a pattern, or nothing if the word cannot be matched.
    pub fn try_matches_glob(&self, value: &[u8]) -> (matched: Option<bool>)
        ensures
            matched == if self.matchable() {
                Some(crate::glob::text_matches(self.text(), value@))
            } else {
                None
            },
            matched matches Some(b) ==> b == (crate::glob::glob_builds(
                crate::glob::pattern_of(self.text()),
                true,
            ) && crate::glob::glob_matches(crate::glob::pattern_of(self.text()), true, value@)),
    {
        if self.is_matchable() {
            Some(self.matches_glob(value))
        } else {
            None
        }
    }

    /// What the word stands for among the arguments of a program. Directories are not walked, so
    /// that no path is ever found and the word stands for its own text.
    pub fn eval_glob_fs(&self) -> (eval: WordEval)
        requires
            self.literal(),
        ensures
            eval matches WordEval::Text(text) && text@ == self.text(),
            eval.args() == seq![self.text()],
    {
        let text = self.eval();
        let pattern = self.escape_glob(text.as_slice());
        let found: Vec<Vec<u8>> = Vec::new();
        match crate::glob::compile_pattern(crate::glob::characters(&pattern)) {
            Ok(()) => WordEval::expand(text, Ok(found)),
            Err(InvalidGlob) => WordEval::expand(text, Err(InvalidGlob)),
        }
    }
}

impl WordEval {
    /// The arguments that the evaluated word gives.
    pub open spec fn args(self) -> Seq<Seq<u8>> {
        match self {
            WordEval::Text(text) => seq![text@],
            WordEval::Globbed(paths) => paths@.map_values(|path: Vec<u8>| path@),
        }
    }

    /// Puts the arguments behind those that are there.
    pub(crate) fn push_args(self, args: &mut Vec<Vec<u8>>)
        ensures
            final(args)@.map_values(|arg: Vec<u8>| arg@) == old(args)@.map_values(
                |arg: Vec<u8>| arg@,
            ) + self.args(),
    {
        match self {
            WordEval::Text(text) => {
                args.push(text);
            },
            WordEval::Globbed(paths) => {
                let mut paths = paths;
                args.append(&mut paths);
            },
        }
        assert(args@.map_values(|arg: Vec<u8>| arg@) =~= old(args)@.map_values(
            |arg: Vec<u8>| arg@,
        ) + self.args());
    }

    /// What a word with the given text stands for, given the paths that it matched as a pattern:
    /// those paths, or the text where it matched none or is no pattern.
    pub fn expand(text: Vec<u8>, found: Result<Vec<Vec<u8>>, InvalidGlob>) -> (eval: Self)
        ensures
            eval == match found {
                Ok(paths) if paths@.len() > 0 => WordEval::Globbed(paths),
                _ => WordEval::Text(text),
            },
    {
        match found {
            Ok(paths) => if paths.is_empty() {
                WordEval::Text(text)
            } else {
                WordEval::Globbed(paths)
            },
            Err(InvalidGlob) => WordEval::Text(text),
        }
    }
}

impl Quotable {
    /// The text of the piece; no text for what is not text.
    pub open spec fn text(self) -> Seq<u8> {
        match self {
            Quotable::Text(s) => s@,
            _ => Seq::empty(),
        }
    }

    /// The text of the piece. Only text has one.
    pub fn eval(&self) -> (text: Vec<u8>)
        requires
            self is Text,
        ensures
            text@ == self.text(),
            text@ == self->Text_0@,
    {
        match self {
            Quotable::Text(s) => copy_bytes(s.as_slice()),
            _ => Vec::new(),
        }
    }
}

impl DoubleQuote {
    /// Whether every piece is text.
    pub open spec fn literal(self) -> bool {
        forall|i: int| 0 <= i < self.items@.len() ==> (#[trigger] self.items@[i]) is Text
    }

    /// Tells whether every piece is text.
    pub fn is_literal(&self) -> (b: bool)
        ensures
            b == self.literal(),
    {
        for i in 0..self.items.len()
            invariant
                forall|j: int| 0 <= j < i ==> (#[trigger] self.items@[j]) is Text,
        {
            match &self.items[i] {
                Quotable::Text(_) => {},
                _ => {
                    return false;
                },
            }
        }
        true
    }

    /// The text between the quotes.
    pub open spec fn text(self) -> Seq<u8> {
        self.items@.map_values(|item: Quotable| item.text()).flatten()
    }

    /// The text between the quotes: that of its pieces, one after the other.
    pub fn eval(&self) -> (text: Vec<u8>)
        requires
            self.literal(),
        ensures
            text@ == self.text(),
    {
        let mut acc: Vec<u8> = Vec::new();
        let ghost texts = self.items@.map_values(|item: Quotable| item.text());
        for i in 0..self.items.len()
            invariant
                self.literal(),
                texts == self.items@.map_values(|item: Quotable| item.text()),
                acc@ == texts.take(i as int).flatten(),
        {
            let mut item = self.items[i].eval();
            proof {
                texts.take(i as int).lemma_flatten_push(texts[i as int]);
                assert(texts.take(i as int).push(texts[i as int]) =~= texts.take(i + 1));
            }
            acc.append(&mut item);
        }
        assert(texts.take(self.items@.len() as int) =~= texts);
        acc
    }
}

} // verus!
