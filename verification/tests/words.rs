//! What words evaluate to and how they match as patterns.

use std::borrow::Cow;

use shell_ast::ast::{Command, CommandInner, CommandSubst, Pattern};
use shell_ast::glob::{
    verdict, InvalidGlob, MAX_PATTERN_NESTING, MODEST_CHARS, MODEST_NESTING, MODEST_PLAIN_BYTES,
};
use shell_ast::word::{DoubleQuote, Quotable, Word, WordEval, WordPart};

fn word(text: &str) -> Word {
    Word::Text(text.as_bytes().to_vec())
}

fn part(text: &str) -> WordPart {
    WordPart::Text(text.as_bytes().to_vec())
}

fn matches(pattern: &str, value: &[u8]) -> bool {
    let pattern = word(pattern);
    assert!(pattern.is_matchable());
    pattern.matches_glob(value)
}

#[test]
fn a_word_is_the_text_of_its_parts_in_order() {
    assert_eq!(word("plain").eval(), b"plain");
    assert_eq!(Word::Complex(vec![]).eval(), b"");
    assert_eq!(Word::Complex(vec![part("one")]).eval(), b"one");
    assert_eq!(Word::Complex(vec![part("ab"), part(""), part("cd")]).eval(), b"abcd");
    assert_eq!(Word::Complex(vec![part("cd"), part("ab")]).eval(), b"cdab");
    assert_eq!(part("piece").eval(), b"piece");
}

#[test]
fn only_text_can_be_evaluated() {
    assert!(part("x").is_text());
    assert!(!WordPart::ParamExpand.is_text());
    assert!(!WordPart::CommandSubst.is_text());
    assert!(word("x").is_literal());
    assert!(Word::Complex(vec![]).is_literal());
    assert!(Word::Complex(vec![part("a"), part("b")]).is_literal());
    assert!(!Word::Complex(vec![part("a"), WordPart::ParamExpand]).is_literal());
    assert!(!Word::Complex(vec![WordPart::CommandSubst, part("a")]).is_literal());
    assert!(!Word::Complex(vec![WordPart::CommandSubst]).is_matchable());
}

#[test]
fn double_quotes_join_their_pieces() {
    let items = vec![Quotable::Text(b"left ".to_vec()), Quotable::Text(b"right".to_vec())];
    assert_eq!(DoubleQuote { items }.eval(), b"left right");
    assert_eq!(DoubleQuote { items: vec![] }.eval(), b"");
    assert!(DoubleQuote { items: vec![] }.is_literal());
    assert!(DoubleQuote { items: vec![Quotable::Text(b"x".to_vec())] }.is_literal());
    let items = vec![Quotable::Text(b"x".to_vec()), Quotable::ArithExpr];
    assert!(!DoubleQuote { items }.is_literal());
    assert!(!DoubleQuote { items: vec![Quotable::ParamExpand] }.is_literal());
    assert_eq!(Quotable::Text(b"q".to_vec()).eval(), b"q");
    let command = Command::with_inner(CommandInner::AndOr(vec![]));
    let subst = Quotable::CommandSubst(CommandSubst::new(command));
    assert!(matches!(subst, Quotable::CommandSubst(_)));
}

#[test]
fn valid_text_is_its_own_pattern() {
    let w = word("");
    assert!(matches!(w.escape_glob(b"borrowed"), Cow::Borrowed("borrowed")));
    assert!(matches!(w.escape_glob(&[0x80]), Cow::Owned(_)));
    for text in ["", "abc", "*.rs", "caf\u{e9}", "\u{1f980}/?", "\\u{e9}"] {
        assert_eq!(w.escape_glob(text.as_bytes()), text);
    }
}

#[test]
fn bytes_that_are_not_text_are_escaped_like_characters() {
    let w = word("");
    for byte in 0x80..=0xffu8 {
        let mut expected = String::from("a*");
        expected.extend((byte as char).escape_default());
        expected.push('z');
        let text = [b'a', b'*', byte, b'z'];
        let pattern = w.escape_glob(&text);
        assert_eq!(pattern, expected);
        assert!(pattern.is_ascii());
    }
    assert_eq!(w.escape_glob(&[0xff]), "\\u{ff}");
    assert_eq!(w.escape_glob(&[0x00, 0x0a, 0x80, 0x7f]), "\u{0}\n\\u{80}\u{7f}");
    // Where one byte is wrong every byte that is not ASCII is escaped.
    assert_eq!(w.escape_glob(&[0xc3, 0xa9, 0xff]), "\\u{c3}\\u{a9}\\u{ff}");
}

#[test]
fn a_plain_word_matches_itself_alone() {
    assert!(matches("abc", b"abc"));
    assert!(!matches("abc", b"ab"));
    assert!(!matches("abc", b"abcd"));
    assert!(!matches("abc", b"xabc"));
    assert!(!matches("abc", b"ABC"));
    assert!(!matches("abc", b"abc\n"));
    assert!(matches("", b""));
    assert!(!matches("", b"a"));
    assert!(matches("a/b", b"a/b"));
    assert!(matches("a.b+(c)|$^#&-~ \n", b"a.b+(c)|$^#&-~ \n"));
    assert!(!matches("a.b", b"axb"));
    assert!(matches("caf\u{e9}", "caf\u{e9}".as_bytes()));
    assert!(!matches("caf\u{e9}", b"caf\xe9"));
    assert!(matches("]", b"]"));
    assert!(matches("a,b", b"a,b"));
    assert!(!matches("a,b", b"a"));
    assert!(matches("!", b"!"));
}

#[test]
fn a_star_matches_whatever_holds_no_slash() {
    assert!(matches("*", b""));
    assert!(matches("*", b"anything at all"));
    assert!(matches("*", b"two\nlines"));
    assert!(matches("*", b".hidden"));
    assert!(matches("*", b"\xff\x00\x80"));
    assert!(!matches("*", b"a/b"));
    assert!(!matches("*", b"/"));
}

#[test]
fn wildcards_match_as_in_paths() {
    assert!(matches("a*", b"abc"));
    assert!(!matches("a*", b"bac"));
    assert!(!matches("a*", b"a/c"));
    assert!(matches("?", b"x"));
    assert!(!matches("?", b"/"));
    assert!(!matches("?", b"xy"));
    assert!(matches("[a-c]x", b"bx"));
    assert!(!matches("[!a-c]x", b"bx"));
    assert!(matches("{foo,bar}", b"bar"));
    assert!(!matches("{foo,bar}", b"baz"));
    assert!(matches("\\*", b"*"));
    assert!(!matches("\\*", b"x"));
    assert!(matches("a\\?", b"a?"));
}

#[test]
fn a_word_that_is_no_pattern_matches_nothing() {
    for pattern in ["[", "[a", "{a", "}", "\\", "[z-a]"] {
        assert!(!matches(pattern, pattern.as_bytes()));
        assert!(!matches(pattern, b""));
    }
}

#[test]
fn an_escaped_byte_is_read_back_as_a_pattern() {
    let pattern = Word::Text(vec![0xe9]);
    assert!(pattern.is_matchable());
    // The escape reads as the letter `u` and the one alternative in braces.
    assert!(pattern.matches_glob(b"ue9"));
    assert!(!pattern.matches_glob(&[0xe9]));
}

#[test]
fn the_verdict_on_an_invalid_pattern_is_no() {
    assert!(verdict(Ok(true)));
    assert!(!verdict(Ok(false)));
    assert!(!verdict(Err(InvalidGlob)));
}

#[test]
fn an_argument_stands_for_its_own_text() {
    let long = nested(MAX_PATTERN_NESTING + 1, "x");
    for text in ["", "plain", "*", "*.rs", "[", "a b", "{x,y}", long.as_str()] {
        match word(text).eval_glob_fs() {
            WordEval::Text(eval) => assert_eq!(eval, text.as_bytes()),
            WordEval::Globbed(_) => panic!("no directory is walked"),
        }
    }
    match Word::Complex(vec![part("*"), WordPart::Text(vec![0xff])]).eval_glob_fs() {
        WordEval::Text(eval) => assert_eq!(eval, [b'*', 0xff]),
        WordEval::Globbed(_) => panic!("no directory is walked"),
    }
}

#[test]
fn paths_take_the_place_of_the_text_if_there_are_any() {
    let paths = vec![b"a.rs".to_vec(), b"b.rs".to_vec()];
    match WordEval::expand(b"*.rs".to_vec(), Ok(paths)) {
        WordEval::Globbed(found) => assert_eq!(found, vec![b"a.rs".to_vec(), b"b.rs".to_vec()]),
        WordEval::Text(_) => panic!("the paths are lost"),
    }
    match WordEval::expand(b"*.rs".to_vec(), Ok(vec![])) {
        WordEval::Text(text) => assert_eq!(text, b"*.rs"),
        WordEval::Globbed(_) => panic!("there are no paths"),
    }
    match WordEval::expand(b"[".to_vec(), Err(InvalidGlob)) {
        WordEval::Text(text) => assert_eq!(text, b"["),
        WordEval::Globbed(_) => panic!("there is no pattern"),
    }
}

/// The text within that many braces.
fn nested(braces: usize, text: &str) -> String {
    let mut pattern = "{".repeat(braces);
    pattern.push_str(text);
    pattern.push_str(&"}".repeat(braces));
    pattern
}

#[test]
fn the_largest_modest_patterns_can_be_matched() {
    let n = MODEST_CHARS;
    let mut deep = "{a/**/[a-c]*?,".repeat(MODEST_NESTING);
    deep.push_str(&"}".repeat(MODEST_NESTING));
    let mut wide = String::from("{");
    wide.push_str(&"a,".repeat((n - 2) / 2));
    wide.push('}');
    let mut crabs = String::from("{");
    for i in 0..(n - 2) / 3 {
        crabs.push(char::from_u32(0x10000 + i as u32).unwrap());
        crabs.push(char::from_u32(0x20000 + i as u32).unwrap());
        crabs.push(',');
    }
    crabs.push('}');
    let patterns = [
        "a".repeat(n),
        "?".repeat(n),
        "*".repeat(n),
        "a*".repeat(n / 2),
        "**/a/".repeat(n / 5),
        "a/**/".repeat(n / 5),
        "[!a]".repeat(n / 4),
        "[a-z]".repeat(n / 5),
        "[\u{80}-\u{10ffff}]".repeat(n / 5),
        "\u{1f980}".repeat(n),
        "{a,b}".repeat(n / 5),
        "{a*,?b}".repeat(n / 7),
        nested(MODEST_NESTING, "a,b"),
        wide,
        crabs,
        deep,
    ];
    for pattern in patterns {
        assert!(pattern.chars().count() <= n);
        assert!(!matches(&pattern, b"no/such value"));
    }
    assert!(matches(&"a".repeat(n), "a".repeat(n).as_bytes()));
    let plain = "a".repeat(MODEST_PLAIN_BYTES);
    assert!(matches(&plain, plain.as_bytes()));
    let plain = "\u{1f980}".repeat(MODEST_PLAIN_BYTES / 4);
    assert!(matches(&plain, plain.as_bytes()));
    assert!(!matches(&plain, b"other"));
}

#[test]
fn larger_patterns_are_matched_if_they_compile() {
    let n = MODEST_CHARS + 1;
    assert!(matches(&"a".repeat(n), "a".repeat(n).as_bytes()));
    assert!(!matches(&"a".repeat(n), b"a"));
    assert!(matches(&"?".repeat(n), "x".repeat(n).as_bytes()));
    assert!(!matches(&"a*".repeat(n), b"ab"));
    assert!(matches(&["[", &"a".repeat(1_000_000), "]"].concat(), b"a"));
    let letters = "a".repeat(n);
    let below = ["x/", &letters].concat();
    assert!(matches(&["**/", &letters].concat(), below.as_bytes()));
    let above = ["b", &letters, "/x"].concat();
    assert!(matches(&["?", &letters, "/**"].concat(), above.as_bytes()));
    // A group of one alternative adds one level, of the 250 that there are.
    for braces in [MODEST_NESTING + 1, 200, 248] {
        assert!(matches(&nested(braces, "a"), b"a"));
        assert!(!matches(&nested(braces, "a"), b"b"));
    }
    // The ends of a pattern keep their meaning.
    let path = ["b/", &letters, "/x"].concat();
    for pattern in ["b/**", "**/x", "*/**", "*/*/*"] {
        let long = ["{", pattern, ",", &letters, "}"].concat();
        assert!(matches(&long, path.as_bytes()));
    }
    assert!(matches(&["**/", &letters, "/**"].concat(), path.as_bytes()));
    assert!(matches(&["b/", &letters, "/**"].concat(), path.as_bytes()));
    assert!(!matches(&["b/", &letters, "**"].concat(), path.as_bytes()));
    // An empty group adds none.
    assert!(matches(&nested(900, ""), b""));
}

#[test]
fn whatever_can_be_matched_at_the_edge_compiles() {
    let mut answered = 0;
    for n in [327_660, 327_674, 327_690] {
        let letters = "a".repeat(n - 14);
        for pattern in ["a".repeat(n), ["**/", &letters].concat(), [&letters, "/**"].concat()] {
            if let Some(matched) = word(&pattern).try_matches_glob(b"no/such value") {
                assert!(!matched);
                answered += 1;
            }
        }
    }
    assert!(0 < answered && answered < 9);
}

#[test]
fn patterns_that_do_not_compile_cannot_be_matched() {
    let large = ["a".repeat(400_000), "*".repeat(100_000), "a?".repeat(100_000)];
    for pattern in &large {
        assert!(!word(pattern).is_matchable());
        assert_eq!(word(pattern).try_matches_glob(b"a"), None);
        // One that is no pattern needs not be compiled.
        let broken = [pattern, "["].concat();
        assert_eq!(word(&broken).try_matches_glob(b"a"), Some(false));
    }
    let mut deep = "{a,bc".repeat(100);
    deep.push_str(&"}".repeat(100));
    assert!(!word(&deep).is_matchable());
    assert!(!word(&nested(260, "a")).is_matchable());
    assert!(!word(&nested(MAX_PATTERN_NESTING + 1, "")).is_matchable());
    assert!(word(&nested(MAX_PATTERN_NESTING - 1, "")).is_matchable());
    assert_eq!(
        word(&[&nested(MAX_PATTERN_NESTING - 1, "a"), "["].concat()).try_matches_glob(b"a"),
        Some(false),
    );
    assert_eq!(Word::Complex(vec![WordPart::ParamExpand]).try_matches_glob(b""), None);
}

#[test]
fn braces_count_only_where_they_nest() {
    assert!(matches(&"{a,b}".repeat(200), "ab".repeat(100).as_bytes()));
    // An escaped brace is a letter like any other.
    assert!(matches(&"\\{".repeat(65), "{".repeat(65).as_bytes()));
    assert!(!matches(&"\\{".repeat(65), b"other"));
    assert!(matches(&"\\{".repeat(5000), "{".repeat(5000).as_bytes()));
    // So is one in a class, where a first bracket closes nothing.
    assert!(matches(&"[{]".repeat(500), "{".repeat(500).as_bytes()));
    assert!(matches(&"[]{]".repeat(500), "{]".repeat(250).as_bytes()));
    assert!(matches(&"[!]{]".repeat(500), "x".repeat(500).as_bytes()));
    assert!(matches(&"{[}]}".repeat(500), "}".repeat(500).as_bytes()));
    assert!(matches(&"{\\}}".repeat(500), "}".repeat(500).as_bytes()));
    assert!(matches(&"[\\]".repeat(500), "\\".repeat(500).as_bytes()));
    // Braces that are never closed make no pattern.
    for braces in [65, 100, 5000] {
        assert!(!matches(&"{".repeat(braces), "{".repeat(braces).as_bytes()));
        assert!(!matches(&"{[}]".repeat(braces), b"}"));
    }
    assert!(Word::Text(vec![0xff; 5000]).is_matchable());
    assert!(Word::Text(vec![0xff; 200]).matches_glob("uff".repeat(200).as_bytes()));
}

#[test]
fn alternatives_are_tried_up_to_the_first_match() {
    let pattern = Pattern::new(vec![word("a"), word("b*"), word("c")]);
    assert!(pattern.matches(b"a"));
    assert!(pattern.matches(b"bcd"));
    assert!(pattern.matches(b"c"));
    assert!(!pattern.matches(b"d"));
    assert_eq!(pattern.try_matches(b"bcd"), Some(true));
    assert_eq!(pattern.try_matches(b"d"), Some(false));
    assert!(!Pattern::new(vec![]).matches(b""));
    let tail = Pattern::new(vec![word("b*"), word("c")]);
    for text in ["a", "bcd", "c", "d"] {
        let value = text.as_bytes();
        assert_eq!(pattern.matches(value), word("a").matches_glob(value) || tail.matches(value));
    }

    let expansion = Word::Complex(vec![WordPart::ParamExpand]);
    let pattern = Pattern::new(vec![word("["), word("a"), expansion, word("b")]);
    assert!(pattern.matches(b"a"));
    assert_eq!(pattern.try_matches(b"a"), Some(true));
    assert_eq!(pattern.try_matches(b"b"), None);
    assert_eq!(pattern.try_matches(b"x"), None);
}
