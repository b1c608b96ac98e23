//! Shell patterns, compiled and matched by the `globset` crate.

use std::borrow::Cow;

use vstd::prelude::*;

verus! {

/// The most groups in braces, one inside the other, of a pattern that is built. They are walked
/// recursively: twice as many can overflow the two mebibytes of stack that a thread has.
pub const MAX_PATTERN_NESTING: usize = 1000;

/// The most characters of a pattern for paths.
pub const MAX_PATH_PATTERN_CHARS: usize = 0x1000_0000;

/// The most characters of a pattern that is compiled without a trial.
pub const MODEST_CHARS: usize = 32768;

/// The most groups in braces, one inside the other, of a pattern that is compiled without a trial.
pub const MODEST_NESTING: usize = 80;

/// The most bytes of a plain pattern that is compiled without a trial.
pub const MODEST_PLAIN_BYTES: usize = 327600;

/// No wildcard of a pattern matches a path separator.
pub const LITERAL_SEPARATOR: bool = true;

/// The error for a text that is not a pattern.
#[derive(Debug, Clone, Copy, PartialEq, Eq, Structural)]
pub struct InvalidGlob;

/// The error of the outside crate for a text that is not a pattern, or whose compiled form
/// grows too large.
#[verifier::external_type_specification]
#[verifier::external_body]
pub struct ExGlobError(globset::Error);

/// The error of the standard library for bytes that are not UTF-8.
#[verifier::external_type_specification]
#[verifier::external_body]
pub struct ExUtf8Error(core::str::Utf8Error);

/// `core::str::from_utf8` accepts exactly the valid encodings, and hands back the string that
/// the bytes encode.
pub assume_specification[ core::str::from_utf8 ](v: &[u8]) -> (s: Result<
    &str,
    core::str::Utf8Error,
>)
    ensures
        s is Ok == vstd::utf8::valid_utf8(v@),
        s matches Ok(s) ==> vstd::utf8::encode_utf8(s@) == v@,
;

/// `String::push` appends one character.
pub assume_specification[ String::push ](s: &mut String, c: char)
    ensures
        final(s)@ == old(s)@.push(c),
;

/// Whether `GlobBuilder::build`, with the given `literal_separator`, accepts the pattern on a
/// given Unix target.
pub uninterp spec fn glob_builds(pattern: Seq<char>, literal_separator: bool) -> bool;

/// Whether the matcher that `Glob::compile_matcher` makes of an accepted pattern matches the
/// value on a given Unix target.
pub uninterp spec fn glob_matches(
    pattern: Seq<char>,
    literal_separator: bool,
    value: Seq<u8>,
) -> bool;

/// Whether `GlobSetBuilder::build` accepts the set of the one glob made of an accepted pattern on
/// a given Unix target.
pub uninterp spec fn glob_set_builds(pattern: Seq<char>, literal_separator: bool) -> bool;

/// What the next character of a pattern stands in.
#[derive(Clone, Copy, Debug, PartialEq, Eq, Structural)]
pub enum Place {
    /// Text, in which braces, brackets and backslashes have their meaning.
    Text,
    /// Behind a backslash, which takes the character as it is.
    Escape,
    /// Behind the bracket that opens a class.
    ClassStart,
    /// Behind the mark that negates a class: a bracket does not close the class yet.
    ClassNegated,
    /// In a class, up to the next closing bracket.
    Class,
}

/// How groups in braces nest in a pattern.
pub struct Depth {
    pub place: Place,
    /// For each group that is open, the outermost first, how deeply the groups nest that were
    /// closed inside it.
    pub open: Seq<nat>,
    /// How deeply the groups nest that were closed.
    pub closed: nat,
}

/// The groups once a closing brace of the text has been read. One that closes nothing is an error
/// in the pattern.
pub open spec fn close_group(d: Depth) -> Depth {
    if d.open.len() == 0 {
        d
    } else {
        let height = d.open.last() + 1;
        let outer = d.open.drop_last();
        Depth {
            open: if outer.len() > 0 && outer.last() < height {
                outer.drop_last().push(height)
            } else {
                outer
            },
            closed: if d.closed < height {
                height
            } else {
                d.closed
            },
            ..d
        }
    }
}

/// How groups nest once one more character has been read.
pub open spec fn read_char(d: Depth, c: char) -> Depth {
    match d.place {
        Place::Text => match c {
            '\\' => Depth { place: Place::Escape, ..d },
            '[' => Depth { place: Place::ClassStart, ..d },
            '{' => Depth { open: d.open.push(0), ..d },
            '}' => close_group(d),
            _ => d,
        },
        Place::Escape => Depth { place: Place::Text, ..d },
        Place::ClassStart if c == '!' || c == '^' => Depth { place: Place::ClassNegated, ..d },
        Place::Class if c == ']' => Depth { place: Place::Text, ..d },
        _ => Depth { place: Place::Class, ..d },
    }
}

/// How groups nest in the pattern.
pub open spec fn depth(pattern: Seq<char>) -> Depth
    decreases pattern.len(),
{
    if pattern.len() == 0 {
        Depth { place: Place::Text, open: Seq::empty(), closed: 0 }
    } else {
        read_char(depth(pattern.drop_last()), pattern.last())
    }
}

/// Whether the pattern nests little enough to be built.
pub open spec fn buildable(pattern: Seq<char>) -> bool {
    depth(pattern).closed <= MAX_PATTERN_NESTING
}

/// Whether no character of the pattern has a meaning of its own.
pub open spec fn plain(pattern: Seq<char>) -> bool {
    forall|i: int| 0 <= i < pattern.len() ==> !special(#[trigger] pattern[i])
}

/// Whether the character has a meaning of its own in a pattern.
pub open spec fn special(c: char) -> bool {
    c == '?' || c == '*' || c == '[' || c == '{' || c == '}' || c == '\\'
}

/// Whether the pattern is a lone star.
pub open spec fn star(pattern: Seq<char>) -> bool {
    pattern == seq!['*']
}

/// Whether the character at the index is a star and all others of the pattern are plain.
pub open spec fn one_star(pattern: Seq<char>, i: int) -> bool {
    &&& 0 <= i < pattern.len()
    &&& pattern[i] == '*'
    &&& plain(pattern.take(i))
    &&& plain(pattern.skip(i + 1))
}

/// Whether the value is the one text and the other with something between them that holds no
/// slash.
pub open spec fn fits_between(value: Seq<u8>, front: Seq<u8>, back: Seq<u8>) -> bool {
    let end = value.len() - back.len();
    &&& front.len() <= end
    &&& value.take(front.len() as int) == front
    &&& value.skip(end) == back
    &&& !value.subrange(front.len() as int, end).contains(0x2f)
}

/// Whether the pattern is so small that it surely compiles.
pub open spec fn modest(pattern: Seq<char>) -> bool {
    ||| pattern.len() <= MODEST_CHARS && depth(pattern).closed <= MODEST_NESTING
    ||| plain(pattern) && vstd::utf8::encode_utf8(pattern).len() <= MODEST_PLAIN_BYTES
}

/// Whether the pattern starts with two stars.
pub open spec fn starts_with_stars(pattern: Seq<char>) -> bool {
    pattern.len() >= 2 && pattern[0] == '*' && pattern[1] == '*'
}

/// Whether the pattern ends in a slash and two stars.
pub open spec fn ends_in_stars(pattern: Seq<char>) -> bool {
    let n = pattern.len() as int;
    n >= 3 && pattern[n - 3] == '/' && pattern[n - 2] == '*' && pattern[n - 1] == '*'
}

/// The form of a pattern in which a set compiles its whole regular expression: with an empty group
/// behind it, or in front where the end of the pattern has a meaning of its own. With such an end
/// and such a start it needs none.
pub open spec fn trial(pattern: Seq<char>) -> Seq<char> {
    if !ends_in_stars(pattern) {
        pattern + seq!['{', '}']
    } else if !starts_with_stars(pattern) {
        seq!['{', '}'] + pattern
    } else {
        pattern
    }
}

/// Whether the pattern is such a form.
pub open spec fn is_trial(form: Seq<char>) -> bool {
    exists|pattern: Seq<char>| form == #[trigger] trial(pattern)
}

/// Whether a set of the one glob that is the pattern in that form can be built.
pub open spec fn trial_builds(pattern: Seq<char>, literal_separator: bool) -> bool {
    &&& buildable(trial(pattern))
    &&& glob_builds(trial(pattern), literal_separator)
    &&& glob_set_builds(trial(pattern), literal_separator)
}

/// Whether the pattern can be matched: it is refused at once, which is the answer, or it surely
/// compiles.
pub open spec fn answerable(pattern: Seq<char>, literal_separator: bool) -> bool {
    ||| modest(pattern)
    ||| buildable(pattern) && (glob_builds(pattern, literal_separator) ==> trial_builds(
        pattern,
        literal_separator,
    ))
}

/// `GlobBuilder::new(pattern).literal_separator(..).build()`. The result is an error where the
/// pattern is not accepted.
///
/// `GlobBuilder::build` walks nested groups recursively, and overflows the stack where they are too
/// deep, so their depth is bounded.
#[verifier::external_body]
fn glob_build(pattern: &str, literal_separator: bool) -> (r: Result<(), globset::Error>)
    requires
        buildable(pattern@),
    ensures
        r is Ok == glob_builds(pattern@, literal_separator),
{
    let _glob = globset::GlobBuilder::new(pattern).literal_separator(literal_separator).build()?;
    Ok(())
}

/// `GlobBuilder::new(pattern).literal_separator(..).build()`, then
/// `Glob::compile_matcher` and `GlobMatcher::is_match_candidate` on
/// `Candidate::from_bytes(value)`. The result is an error where the pattern is not accepted, and
/// else tells whether the value matches; neither depends on anything but the arguments.
///
/// A plain pattern is accepted and matches the bytes that encode it and no others. A lone star is
/// accepted and, with a literal separator, matches what holds no slash. So is a star among plain
/// characters, which matches what starts and ends with them and holds no slash between.
///
/// `compile_matcher` panics where the regular expression of the pattern compiles to more than ten
/// mebibytes, or nests deeper than the 250 levels of its parser.
/// - In a modest pattern a group adds three levels at most and a character 272 bytes, those of a
///   four-byte character in an alternation of literals; a byte of a plain pattern adds 32 bytes.
/// - Of any other pattern `GlobSetBuilder::build` has compiled the regular expression under the
///   same two limits. The empty group of its trial form adds nothing to the regular expression,
///   but keeps the set from matching by literals, extensions or base names instead. Behind the
///   pattern it would change the meaning of a slash and two stars that end it, and in front that of
///   two stars that start it. A pattern with both the set compiles whole in any case.
#[verifier::external_body]
fn glob_is_match(pattern: &str, literal_separator: bool, value: &[u8]) -> (r: Result<
    bool,
    globset::Error,
>)
    requires
        answerable(pattern@, literal_separator),
    ensures
        r is Ok == glob_builds(pattern@, literal_separator),
        r matches Ok(b) ==> b == glob_matches(pattern@, literal_separator, value@),
        (plain(pattern@) || star(pattern@)) ==> r is Ok,
        r matches Ok(b) ==> (plain(pattern@) ==> b == (value@ == vstd::utf8::encode_utf8(
            pattern@,
        ))),
        r matches Ok(b) ==> (star(pattern@) && literal_separator ==> b == !value@.contains(0x2f)),
        (exists|i: int| one_star(pattern@, i)) ==> r is Ok,
        r matches Ok(b) ==> (literal_separator ==> forall|i: int| #[trigger]
            one_star(pattern@, i) ==> b == fits_between(
                value@,
                vstd::utf8::encode_utf8(pattern@.take(i)),
                vstd::utf8::encode_utf8(pattern@.skip(i + 1)),
            )),
{
    let glob = globset::GlobBuilder::new(pattern).literal_separator(literal_separator).build()?;
    Ok(glob.compile_matcher().is_match_candidate(&globset::Candidate::from_bytes(value)))
}

/// `GlobBuilder::new(pattern).literal_separator(..).build()`, then
/// `GlobSetBuilder::new().add(glob).build()`. The result is an error where either step refuses
/// the pattern.
///
/// `GlobBuilder::build` walks nested groups recursively, so their depth is bounded. The set panics
/// on a literal prefix or suffix of two gibibytes, so the length is bounded too, except in the
/// trial form of a pattern, of which the set keeps no literal.
#[verifier::external_body]
fn glob_set_build(pattern: &str, literal_separator: bool) -> (r: Result<(), globset::Error>)
    requires
        buildable(pattern@),
        pattern@.len() <= MAX_PATH_PATTERN_CHARS || is_trial(pattern@),
    ensures
        r is Ok == (glob_builds(pattern@, literal_separator) && glob_set_builds(
            pattern@,
            literal_separator,
        )),
{
    let glob = globset::GlobBuilder::new(pattern).literal_separator(literal_separator).build()?;
    let _set = globset::GlobSetBuilder::new().add(glob).build()?;
    Ok(())
}

/// The lower-case hexadecimal digit for a number below sixteen.
pub open spec fn hex_digit_spec(n: u8) -> char {
    if n < 10 {
        (48 + n) as char
    } else {
        (87 + n) as char
    }
}

/// How one byte of a text that is not UTF-8 is written in a pattern: an ASCII character as it is,
/// any other byte as a Unicode escape.
pub open spec fn escaped_byte(byte: u8) -> Seq<char> {
    if byte < 0x80 {
        seq![byte as char]
    } else {
        seq!['\\', 'u', '{', hex_digit_spec(byte / 16), hex_digit_spec(byte % 16), '}']
    }
}

/// The pattern for a text: the text itself where it is UTF-8, and else its bytes escaped one by
/// one.
pub open spec fn pattern_of(text: Seq<u8>) -> Seq<char> {
    if vstd::utf8::valid_utf8(text) {
        vstd::utf8::decode_utf8(text)
    } else {
        text.map_values(|byte: u8| escaped_byte(byte)).flatten()
    }
}

fn hex_digit(n: u8) -> (c: char)
    requires
        n < 16,
    ensures
        c == hex_digit_spec(n),
{
    if n < 10 {
        (48 + n) as char
    } else {
        (87 + n) as char
    }
}

fn push_escaped(acc: &mut String, byte: u8)
    ensures
        final(acc)@ == old(acc)@ + escaped_byte(byte),
{
    if byte < 0x80 {
        acc.push(byte as char);
    } else {
        acc.push('\\');
        acc.push('u');
        acc.push('{');
        acc.push(hex_digit(byte / 16));
        acc.push(hex_digit(byte % 16));
        acc.push('}');
    }
    assert(acc@ =~= old(acc)@ + escaped_byte(byte));
}

/// The pattern for a text. A text that is UTF-8 is not copied.
pub(crate) fn escape<'a>(text: &'a [u8]) -> (pattern: Cow<'a, str>)
    ensures
        pattern@ == pattern_of(text@),
        pattern is Borrowed == vstd::utf8::valid_utf8(text@),
{
    match core::str::from_utf8(text) {
        Ok(s) => {
            proof {
                vstd::utf8::encode_utf8_decode_utf8(s@);
            }
            Cow::Borrowed(s)
        },
        Err(_) => {
            let mut acc = String::new();
            let ghost pieces = text@.map_values(|byte: u8| escaped_byte(byte));
            for i in 0..text.len()
                invariant
                    pieces == text@.map_values(|byte: u8| escaped_byte(byte)),
                    acc@ == pieces.take(i as int).flatten(),
            {
                proof {
                    pieces.take(i as int).lemma_flatten_push(pieces[i as int]);
                    assert(pieces.take(i as int).push(pieces[i as int]) =~= pieces.take(i + 1));
                }
                push_escaped(&mut acc, text[i]);
            }
            assert(pieces.take(text@.len() as int) =~= pieces);
            Cow::Owned(acc)
        },
    }
}

/// The characters of a pattern.
pub(crate) fn characters<'a>(pattern: &'a Cow<'a, str>) -> (s: &'a str)
    ensures
        s@ == pattern@,
{
    match pattern {
        Cow::Borrowed(s) => s,
        Cow::Owned(s) => s.as_str(),
    }
}

/// No group closed in a prefix of a pattern is deeper than all of those in the whole pattern, and
/// none inside an open group is deeper than all that were closed.
proof fn lemma_depth(pattern: Seq<char>, i: int)
    requires
        0 <= i <= pattern.len(),
    ensures
        depth(pattern.take(i)).closed <= depth(pattern).closed,
        forall|j: int|
            0 <= j < depth(pattern).open.len() ==> (#[trigger] depth(pattern).open[j])
                <= depth(pattern).closed,
    decreases pattern.len(),
{
    if pattern.len() > 0 {
        if i < pattern.len() {
            lemma_depth(pattern.drop_last(), i);
            assert(pattern.drop_last().take(i) =~= pattern.take(i));
        } else {
            lemma_depth(pattern.drop_last(), 0);
            assert(pattern.take(i) =~= pattern);
        }
    }
}

/// The numbers of a list.
spec fn numbers(list: Seq<usize>) -> Seq<nat> {
    list.map_values(|n: usize| n as nat)
}

/// Tells whether groups in braces nest at most that deeply in the pattern.
fn nests_within(pattern: &str, limit: usize) -> (b: bool)
    requires
        limit < usize::MAX,
    ensures
        b == (depth(pattern@).closed <= limit),
{
    let mut place = Place::Text;
    let mut open: Vec<usize> = Vec::new();
    assert(pattern@.take(0) =~= Seq::empty());
    assert(numbers(open@) =~= Seq::empty());
    for c in it: pattern.chars()
        invariant
            limit < usize::MAX,
            it.seq() == pattern@,
            place == depth(pattern@.take(it.index() as int)).place,
            numbers(open@) == depth(pattern@.take(it.index() as int)).open,
            depth(pattern@.take(it.index() as int)).closed <= limit,
    {
        let ghost before = depth(pattern@.take(it.index() as int));
        let ghost stack = open@;
        proof {
            let i = it.index() as int;
            assert(pattern@.take(i + 1).drop_last() =~= pattern@.take(i));
            assert(pattern@.take(i + 1).last() == c);
            lemma_depth(pattern@, i + 1);
            lemma_depth(pattern@.take(i), 0);
        }
        match place {
            Place::Text => {
                if c == '\\' {
                    place = Place::Escape;
                } else if c == '[' {
                    place = Place::ClassStart;
                } else if c == '{' {
                    open.push(0);
                    assert(numbers(open@) =~= numbers(stack).push(0));
                } else if c == '}' {
                    if let Some(inner) = open.pop() {
                        assert(inner as nat == before.open.last());
                        assert(numbers(open@) =~= before.open.drop_last());
                        if inner >= limit {
                            return false;
                        }
                        let height: usize = inner + 1;
                        let n: usize = open.len();
                        if n > 0 {
                            assert(open@[n - 1] as nat == before.open.drop_last().last());
                            if open[n - 1] < height {
                                open.set(n - 1, height);
                                assert(numbers(open@)
                                    =~= before.open.drop_last().drop_last().push(height as nat));
                            }
                        }
                    }
                }
            },
            Place::Escape => {
                place = Place::Text;
            },
            Place::ClassStart => {
                place = if c == '!' || c == '^' {
                    Place::ClassNegated
                } else {
                    Place::Class
                };
            },
            Place::ClassNegated => {
                place = Place::Class;
            },
            Place::Class => {
                if c == ']' {
                    place = Place::Text;
                }
            },
        }
    }
    assert(pattern@.take(pattern@.len() as int) =~= pattern@);
    true
}

/// Tells whether no character of the pattern has a meaning of its own.
fn is_plain(pattern: &str) -> (b: bool)
    ensures
        b == plain(pattern@),
{
    for c in it: pattern.chars()
        invariant
            it.seq() == pattern@,
            forall|j: int| 0 <= j < it.index() ==> !special(#[trigger] pattern@[j]),
    {
        if c == '?' || c == '*' || c == '[' || c == '{' || c == '}' || c == '\\' {
            assert(special(pattern@[it.index() as int]));
            return false;
        }
    }
    true
}

/// Tells whether the pattern is so small that it surely compiles.
fn is_modest(pattern: &str) -> (b: bool)
    ensures
        b == modest(pattern@),
{
    pattern.unicode_len() <= MODEST_CHARS && nests_within(pattern, MODEST_NESTING)
        || pattern.as_bytes().len() <= MODEST_PLAIN_BYTES && is_plain(pattern)
}

/// The trial form of a pattern.
fn trial_form(pattern: &str) -> (form: String)
    ensures
        form@ == trial(pattern@),
{
    let n: usize = pattern.unicode_len();
    let ends_in_stars: bool = n >= 3 && pattern.get_char(n - 3) == '/' && pattern.get_char(n - 2)
        == '*' && pattern.get_char(n - 1) == '*';
    let starts_with_stars: bool = n >= 2 && pattern.get_char(0) == '*' && pattern.get_char(1)
        == '*';
    let mut form = String::new();
    if ends_in_stars && !starts_with_stars {
        form.push('{');
        form.push('}');
    }
    form.append(pattern);
    if !ends_in_stars {
        form.push('{');
        form.push('}');
    }
    assert(form@ =~= trial(pattern@));
    form
}

/// Tells whether the pattern can be matched.
pub(crate) fn is_answerable(pattern: &str) -> (b: bool)
    ensures
        b == answerable(pattern@, LITERAL_SEPARATOR),
{
    if is_modest(pattern) {
        return true;
    }
    if !nests_within(pattern, MAX_PATTERN_NESTING) {
        return false;
    }
    if glob_build(pattern, LITERAL_SEPARATOR).is_err() {
        return true;
    }
    let form = trial_form(pattern);
    nests_within(form.as_str(), MAX_PATTERN_NESTING) && glob_set_build(
        form.as_str(),
        LITERAL_SEPARATOR,
    ).is_ok()
}

/// Whether the text, read as a pattern, matches the value. A text that is no pattern matches
/// nothing.
pub open spec fn text_matches(text: Seq<u8>, value: Seq<u8>) -> bool {
    &&& glob_builds(pattern_of(text), LITERAL_SEPARATOR)
    &&& glob_matches(pattern_of(text), LITERAL_SEPARATOR, value)
}

/// What a match comes to: a text that is no pattern matches nothing.
pub fn verdict(outcome: Result<bool, InvalidGlob>) -> (matched: bool)
    ensures
        matched == (outcome == Ok::<bool, InvalidGlob>(true)),
{
    match outcome {
        Ok(matched) => matched,
        Err(InvalidGlob) => false,
    }
}

/// Tells whether the value matches the pattern.
pub(crate) fn match_pattern(pattern: &str, value: &[u8]) -> (outcome: Result<bool, InvalidGlob>)
    requires
        answerable(pattern@, LITERAL_SEPARATOR),
    ensures
        outcome == if glob_builds(pattern@, LITERAL_SEPARATOR) {
            Ok::<bool, InvalidGlob>(glob_matches(pattern@, LITERAL_SEPARATOR, value@))
        } else {
            Err(InvalidGlob)
        },
        plain(pattern@) ==> outcome == Ok::<bool, InvalidGlob>(
            value@ == vstd::utf8::encode_utf8(pattern@),
        ),
        star(pattern@) ==> outcome == Ok::<bool, InvalidGlob>(!value@.contains(0x2f)),
        forall|i: int| #[trigger]
            one_star(pattern@, i) ==> outcome == Ok::<bool, InvalidGlob>(
                fits_between(
                    value@,
                    vstd::utf8::encode_utf8(pattern@.take(i)),
                    vstd::utf8::encode_utf8(pattern@.skip(i + 1)),
                ),
            ),
{
    match glob_is_match(pattern, LITERAL_SEPARATOR, value) {
        Ok(matched) => Ok(matched),
        Err(_) => Err(InvalidGlob),
    }
}

/// Tells whether the text can be read as a pattern for paths. One past the limits is not.
pub(crate) fn compile_pattern(pattern: &str) -> (outcome: Result<(), InvalidGlob>)
    ensures
        outcome is Ok == (pattern@.len() <= MAX_PATH_PATTERN_CHARS && buildable(pattern@)
            && glob_builds(pattern@, LITERAL_SEPARATOR) && glob_set_builds(
            pattern@,
            LITERAL_SEPARATOR,
        )),
{
    if pattern.unicode_len() > MAX_PATH_PATTERN_CHARS || !nests_within(
        pattern,
        MAX_PATTERN_NESTING,
    ) {
        return Err(InvalidGlob);
    }
    match glob_set_build(pattern, LITERAL_SEPARATOR) {
        Ok(()) => Ok(()),
        Err(_) => Err(InvalidGlob),
    }
}

} // verus!
