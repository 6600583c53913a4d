//! What the lexer reads off a source text, stated on the text as a sequence
//! of characters.
//!
//! A place in the text is an index into that sequence. [`scan`] says which
//! token starts at or behind a place and where reading goes on after it; the
//! functions before it say the same of each form of token.

use crate::compiler::chars::{digit, letter, operator, whitespace, CharClass};
use crate::compiler::token::{TokenKind, TokenView};
use crate::compiler::Location;
use vstd::prelude::*;

verus! {

/// Why a text cannot be cut into tokens.
#[derive(Copy, Clone, Debug, PartialEq)]
pub enum LexError {
    /// The text ends inside the string that starts at `location`.
    UnterminatedString { location: Location },
    /// No token starts with `character`, which stands at `location`.
    UnrecognizedCharacter { character: char, location: Location },
}

/// How many line feeds stand before the place `at`.
pub open spec fn newlines_before(source: Seq<char>, at: int) -> int
    decreases at,
{
    if at <= 0 {
        0
    } else if source[at - 1] == '\n' {
        newlines_before(source, at - 1) + 1
    } else {
        newlines_before(source, at - 1)
    }
}

/// The place where the line of the place `at` starts: behind the last line
/// feed before `at`.
pub open spec fn line_start(source: Seq<char>, at: int) -> int
    decreases at,
{
    if at <= 0 {
        0
    } else if source[at - 1] == '\n' {
        at
    } else {
        line_start(source, at - 1)
    }
}

/// Line and column of the place `at`.
pub open spec fn location_at(source: Seq<char>, at: int) -> Location {
    Location {
        line: (newlines_before(source, at) + 1) as usize,
        column: (at - line_start(source, at)) as usize,
    }
}

/// The first place at or behind `from` whose character is not of `class`;
/// the end of the text if there is none.
pub open spec fn run_end(source: Seq<char>, from: int, class: CharClass) -> int
    decreases source.len() - from,
{
    if 0 <= from < source.len() && class.contains(source[from]) {
        run_end(source, from + 1, class)
    } else {
        from
    }
}

/// The place behind the first double quote at or behind `from`; the end of
/// the text if there is none.
pub open spec fn comment_end(source: Seq<char>, from: int) -> int
    decreases source.len() - from,
{
    if 0 <= from < source.len() {
        if source[from] == '"' {
            from + 1
        } else {
            comment_end(source, from + 1)
        }
    } else {
        from
    }
}

/// The first place at or behind `from` that is neither white space nor part
/// of a comment. A comment goes from a double quote to the next one; one
/// that is not closed goes to the end of the text.
pub open spec fn skip_blank(source: Seq<char>, from: int) -> int
    decreases source.len() - from,
{
    if 0 <= from < source.len() {
        if source[from] == '"' {
            proof {
                lemma_comment_end_bounds(source, from + 1);
            }
            skip_blank(source, comment_end(source, from + 1))
        } else if whitespace(source[from]) {
            skip_blank(source, from + 1)
        } else {
            from
        }
    } else {
        from
    }
}

/// The character that a backslash and `c` stand for inside a string, if
/// they stand for one.
pub open spec fn escaped(c: char) -> Option<char> {
    if c == '\'' {
        Some('\'')
    } else if c == '\\' {
        Some('\\')
    } else if c == 'b' {
        Some('\u{8}')
    } else if c == 'f' {
        Some('\u{c}')
    } else if c == 'n' {
        Some('\n')
    } else if c == 'r' {
        Some('\r')
    } else if c == 't' {
        Some('\t')
    } else {
        None
    }
}

/// The characters of a string whose inside starts at `from`, and the place
/// behind its closing quote; `None` if the text ends before the string does.
/// A backslash takes the character behind it with it: the two stand for the
/// character that [`escaped`] gives, or for nothing.
pub open spec fn string_body(source: Seq<char>, from: int) -> Option<(Seq<char>, int)>
    decreases source.len() - from,
{
    if 0 <= from < source.len() {
        let c = source[from];
        if c == '\'' {
            Some((Seq::<char>::empty(), from + 1))
        } else if c == '\\' {
            if from + 1 < source.len() {
                match string_body(source, from + 2) {
                    Some((rest, end)) => match escaped(source[from + 1]) {
                        Some(e) => Some((seq![e] + rest, end)),
                        None => Some((rest, end)),
                    },
                    None => None,
                }
            } else {
                None
            }
        } else {
            match string_body(source, from + 1) {
                Some((rest, end)) => Some((seq![c] + rest, end)),
                None => None,
            }
        }
    } else {
        None
    }
}

/// The kind of the token that a bracket or a punctuation mark is by itself.
pub open spec fn symbol_kind(c: char) -> Option<TokenKind> {
    if c == '[' {
        Some(TokenKind::NewBlock)
    } else if c == ']' {
        Some(TokenKind::EndBlock)
    } else if c == '(' {
        Some(TokenKind::NewTerm)
    } else if c == ')' {
        Some(TokenKind::EndTerm)
    } else if c == '#' {
        Some(TokenKind::Pound)
    } else if c == '^' {
        Some(TokenKind::Exit)
    } else if c == '.' {
        Some(TokenKind::Period)
    } else {
        None
    }
}

/// The kind of the token that an operator character is by itself.
pub open spec fn operator_kind(c: char) -> TokenKind {
    if c == '~' {
        TokenKind::Not
    } else if c == '&' {
        TokenKind::And
    } else if c == '|' {
        TokenKind::Or
    } else if c == '*' {
        TokenKind::Star
    } else if c == '/' {
        TokenKind::Divide
    } else if c == '\\' {
        TokenKind::Modulus
    } else if c == '+' {
        TokenKind::Plus
    } else if c == '=' {
        TokenKind::Equal
    } else if c == '>' {
        TokenKind::More
    } else if c == '<' {
        TokenKind::Less
    } else if c == ',' {
        TokenKind::Comma
    } else if c == '@' {
        TokenKind::At
    } else if c == '%' {
        TokenKind::Percent
    } else {
        TokenKind::Minus
    }
}

/// Every character of `text` is a dash.
pub open spec fn all_dashes(text: Seq<char>) -> bool {
    forall|i: int| 0 <= i < text.len() ==> text[i] == '-'
}

/// What reading at one place of a text gives.
pub enum Outcome {
    /// The text has ended.
    End,
    /// The next token.
    Token(TokenView),
    /// No token can be read here.
    Failure(LexError),
}

/// What reading at one place gives, and the place where reading goes on.
pub struct Scan {
    pub outcome: Outcome,
    pub next: int,
}

/// A token of `kind` that starts at `start` and ends before `next`.
pub open spec fn token(
    source: Seq<char>,
    start: int,
    kind: TokenKind,
    text: Option<Seq<char>>,
    next: int,
) -> Scan {
    Scan {
        outcome: Outcome::Token(TokenView { kind, text, location: location_at(source, start) }),
        next,
    }
}

/// A colon at `start`: an assignment if an equals sign follows it at once.
pub open spec fn scan_colon(source: Seq<char>, start: int) -> Scan {
    if start + 1 < source.len() && source[start + 1] == '=' {
        token(source, start, TokenKind::Assign, None, start + 2)
    } else {
        token(source, start, TokenKind::Colon, None, start + 1)
    }
}

/// A number that starts at `start`: digits, and if a period and a digit
/// follow them at once, the period and all digits behind it too. A period
/// that no digit follows is left for the next token.
pub open spec fn scan_number(source: Seq<char>, start: int) -> Scan {
    let whole = run_end(source, start, CharClass::Digit);
    if whole + 1 < source.len() && source[whole] == '.' && digit(source[whole + 1]) {
        let end = run_end(source, whole + 1, CharClass::Digit);
        token(source, start, TokenKind::Double, Some(source.subrange(start, end)), end)
    } else {
        token(source, start, TokenKind::Integer, Some(source.subrange(start, whole)), whole)
    }
}

/// A name that starts at `start`. With a colon at once behind it, it is a
/// keyword, and if a letter follows the colon at once, a sequence of
/// keywords that takes all letters and colons that follow. The name
/// `primitive` without a colon is a token of its own, without text.
pub open spec fn scan_word(source: Seq<char>, start: int) -> Scan {
    let name_end = run_end(source, start, CharClass::Word);
    if name_end < source.len() && source[name_end] == ':' {
        if name_end + 1 < source.len() && letter(source[name_end + 1]) {
            let end = run_end(source, name_end + 1, CharClass::KeywordPart);
            token(source, start, TokenKind::KeywordSequence, Some(source.subrange(start, end)), end)
        } else {
            token(
                source,
                start,
                TokenKind::Keyword,
                Some(source.subrange(start, name_end + 1)),
                name_end + 1,
            )
        }
    } else if source.subrange(start, name_end) == "primitive"@ {
        token(source, start, TokenKind::Primitive, None, name_end)
    } else {
        token(source, start, TokenKind::Identifier, Some(source.subrange(start, name_end)), name_end)
    }
}

/// The operator characters that start at `start`, taken together: one
/// alone is the operator of its kind; four or more that are all dashes are a
/// separator; any others are an operator sequence.
pub open spec fn scan_operator(source: Seq<char>, start: int) -> Scan {
    let end = run_end(source, start, CharClass::Operator);
    let text = source.subrange(start, end);
    if end - start > 1 {
        if end - start >= 4 && all_dashes(text) {
            token(source, start, TokenKind::Separator, None, end)
        } else {
            token(source, start, TokenKind::OperatorSequence, Some(text), end)
        }
    } else {
        token(source, start, operator_kind(source[start]), Some(seq![source[start]]), end)
    }
}

/// The string whose opening quote stands at `start`. If the text ends
/// inside it, reading fails and has reached the end of the text.
pub open spec fn scan_string(source: Seq<char>, start: int) -> Scan {
    match string_body(source, start + 1) {
        Some((text, end)) => token(source, start, TokenKind::String, Some(text), end),
        None => Scan {
            outcome: Outcome::Failure(
                LexError::UnterminatedString { location: location_at(source, start) },
            ),
            next: source.len() as int,
        },
    }
}

/// Reads the text `source` at the place `from`: skips white space and
/// comments, then takes the longest token of the form that the first
/// character calls for. Where that character starts no token, reading fails
/// and stays at it.
pub open spec fn scan(source: Seq<char>, from: int) -> Scan {
    let start = skip_blank(source, from);
    if 0 <= start < source.len() {
        let c = source[start];
        if symbol_kind(c) is Some {
            token(source, start, symbol_kind(c)->0, None, start + 1)
        } else if c == ':' {
            scan_colon(source, start)
        } else if c == '\'' {
            scan_string(source, start)
        } else if digit(c) {
            scan_number(source, start)
        } else if letter(c) {
            scan_word(source, start)
        } else if operator(c) {
            scan_operator(source, start)
        } else {
            Scan {
                outcome: Outcome::Failure(
                    LexError::UnrecognizedCharacter {
                        character: c,
                        location: location_at(source, start),
                    },
                ),
                next: start,
            }
        }
    } else {
        Scan { outcome: Outcome::End, next: start }
    }
}

/// A run ends at or behind its start and within the text; all characters
/// of the run are of the class, and the one that ends it is not.
pub proof fn lemma_run_end_bounds(source: Seq<char>, from: int, class: CharClass)
    requires
        0 <= from <= source.len(),
    ensures
        from <= run_end(source, from, class) <= source.len(),
        forall|i: int|
            from <= i < run_end(source, from, class) ==> class.contains(#[trigger] source[i]),
        run_end(source, from, class) < source.len() ==> !class.contains(
            source[run_end(source, from, class)],
        ),
    decreases source.len() - from,
{
    if from < source.len() && class.contains(source[from]) {
        lemma_run_end_bounds(source, from + 1, class);
    }
}

/// A comment ends at or behind the place where its inside starts, and
/// within the text.
pub proof fn lemma_comment_end_bounds(source: Seq<char>, from: int)
    requires
        0 <= from <= source.len(),
    ensures
        from <= comment_end(source, from) <= source.len(),
    decreases source.len() - from,
{
    if from < source.len() && source[from] != '"' {
        lemma_comment_end_bounds(source, from + 1);
    }
}

/// Skipping goes forward, stays within the text, and stops at its end or at
/// a character that is neither white space nor a double quote.
pub proof fn lemma_skip_blank_bounds(source: Seq<char>, from: int)
    requires
        0 <= from <= source.len(),
    ensures
        from <= skip_blank(source, from) <= source.len(),
        skip_blank(source, from) < source.len() ==> !whitespace(
            source[skip_blank(source, from)],
        ) && source[skip_blank(source, from)] != '"',
    decreases source.len() - from,
{
    if from < source.len() {
        if source[from] == '"' {
            lemma_comment_end_bounds(source, from + 1);
            lemma_skip_blank_bounds(source, comment_end(source, from + 1));
        } else if whitespace(source[from]) {
            lemma_skip_blank_bounds(source, from + 1);
        }
    }
}

/// A string ends behind the place where its inside starts, and within the
/// text.
pub proof fn lemma_string_body_bounds(source: Seq<char>, from: int)
    requires
        0 <= from <= source.len(),
    ensures
        string_body(source, from) matches Some((_, end)) ==> from < end <= source.len(),
    decreases source.len() - from,
{
    if from < source.len() {
        if source[from] == '\\' {
            if from + 1 < source.len() {
                lemma_string_body_bounds(source, from + 2);
            }
        } else if source[from] != '\'' {
            lemma_string_body_bounds(source, from + 1);
        }
    }
}

/// Every token takes at least one character and ends within the text, and
/// it carries text exactly if its kind is one that does. At the end of the
/// text and at a failure, reading does not go back.
pub proof fn lemma_scan_bounds(source: Seq<char>, from: int)
    requires
        0 <= from <= source.len(),
    ensures
        from <= scan(source, from).next <= source.len(),
        scan(source, from).outcome matches Outcome::Token(t) ==> from < scan(source, from).next
            && (t.text is Some <==> t.kind.has_text()),
        scan(source, from).outcome is End ==> scan(source, from).next == source.len(),
{
    lemma_skip_blank_bounds(source, from);
    let start = skip_blank(source, from);
    if start < source.len() {
        lemma_run_end_bounds(source, start, CharClass::Digit);
        lemma_run_end_bounds(source, start, CharClass::Word);
        lemma_run_end_bounds(source, start, CharClass::Operator);
        lemma_string_body_bounds(source, start + 1);
        let whole = run_end(source, start, CharClass::Digit);
        if whole + 1 < source.len() {
            lemma_run_end_bounds(source, whole + 1, CharClass::Digit);
        }
        let name_end = run_end(source, start, CharClass::Word);
        if name_end + 1 < source.len() {
            lemma_run_end_bounds(source, name_end + 1, CharClass::KeywordPart);
        }
    }
}

/// All tokens of a text from one place on, and the failure that ended
/// reading, if one did.
pub struct Lexed {
    pub tokens: Seq<TokenView>,
    pub failure: Option<LexError>,
}

/// Reads the text `source` from the place `from` to its end or to the
/// first failure.
pub open spec fn lex(source: Seq<char>, from: int) -> Lexed
    decreases source.len() - from,
{
    let scanned = scan(source, from);
    match scanned.outcome {
        Outcome::End => Lexed { tokens: Seq::<TokenView>::empty(), failure: None },
        Outcome::Failure(error) => Lexed {
            tokens: Seq::<TokenView>::empty(),
            failure: Some(error),
        },
        Outcome::Token(token) => {
            proof {
                lemma_scan_token(source, from);
            }
            let rest = lex(source, scanned.next);
            Lexed { tokens: seq![token] + rest.tokens, failure: rest.failure }
        },
    }
}

/// A token is read only within the text, and reading goes on behind it.
pub proof fn lemma_scan_token(source: Seq<char>, from: int)
    ensures
        scan(source, from).outcome is Token ==> 0 <= from < scan(source, from).next
            <= source.len(),
{
    if 0 <= from <= source.len() {
        lemma_scan_bounds(source, from);
    }
}

/// Once the text has ended, it stays ended; and where reading has failed
/// at a character, it fails there again.
pub proof fn lemma_scan_stays(source: Seq<char>, from: int)
    requires
        0 <= from <= source.len(),
    ensures
        scan(source, from).outcome is End ==> scan(source, scan(source, from).next).outcome is End,
        scan(source, from).outcome matches Outcome::Failure(
            LexError::UnrecognizedCharacter { .. },
        ) ==> scan(source, scan(source, from).next) == scan(source, from),
        scan(source, from).outcome matches Outcome::Failure(
            LexError::UnterminatedString { .. },
        ) ==> scan(source, scan(source, from).next).outcome is End,
{
    lemma_skip_blank_bounds(source, from);
}

/// A run takes all characters up to the end of the text if all of them are
/// of its class.
pub proof fn lemma_run_to_end(source: Seq<char>, from: int, class: CharClass)
    requires
        0 <= from <= source.len(),
        forall|i: int| from <= i < source.len() ==> class.contains(#[trigger] source[i]),
    ensures
        run_end(source, from, class) == source.len(),
    decreases source.len() - from,
{
    if from < source.len() {
        lemma_run_to_end(source, from + 1, class);
    }
}

/// A text that is one operator character is one token: the operator of
/// that character, with the character as its text, at the start of the first
/// line.
pub proof fn lemma_single_operator(c: char)
    requires
        operator(c),
    ensures
        lex(seq![c], 0) == (Lexed {
            tokens: seq![
                TokenView {
                    kind: operator_kind(c),
                    text: Some(seq![c]),
                    location: Location { line: 1, column: 0 },
                },
            ],
            failure: None,
        }),
{
    let source = seq![c];
    lemma_run_to_end(source, 1, CharClass::Operator);
    assert(run_end(source, 0, CharClass::Operator) == 1);
    assert(skip_blank(source, 0) == 0);
    let first = scan(source, 0);
    assert(first == token(source, 0, operator_kind(c), Some(seq![c]), 1));
    assert(scan(source, 1).outcome is End);
    assert(lex(source, 1) == Lexed { tokens: Seq::<TokenView>::empty(), failure: None });
    assert(seq![first.outcome->Token_0] + Seq::<TokenView>::empty() =~= seq![
        first.outcome->Token_0,
    ]);
}

/// A text that is one bracket or punctuation mark is one token of the kind
/// of that character, without text, at the start of the first line.
pub proof fn lemma_single_symbol(c: char)
    requires
        symbol_kind(c) is Some,
    ensures
        lex(seq![c], 0) == (Lexed {
            tokens: seq![
                TokenView {
                    kind: symbol_kind(c)->0,
                    text: None,
                    location: Location { line: 1, column: 0 },
                },
            ],
            failure: None,
        }),
{
    let source = seq![c];
    assert(skip_blank(source, 0) == 0);
    let first = scan(source, 0);
    assert(first == token(source, 0, symbol_kind(c)->0, None, 1));
    assert(scan(source, 1).outcome is End);
    assert(lex(source, 1) == Lexed { tokens: Seq::<TokenView>::empty(), failure: None });
    assert(seq![first.outcome->Token_0] + Seq::<TokenView>::empty() =~= seq![
        first.outcome->Token_0,
    ]);
}

/// The text of `count` dashes.
pub open spec fn dashes(count: nat) -> Seq<char> {
    Seq::new(count, |i: int| '-')
}

/// A text of nothing but dashes is one token, whatever its length: one
/// dash is a minus, two or three are an operator sequence, and four or more
/// are a separator.
pub proof fn lemma_dashes(count: nat)
    requires
        count >= 1,
    ensures
        lex(dashes(count), 0) == (Lexed {
            tokens: seq![
                TokenView {
                    kind: if count == 1 {
                        TokenKind::Minus
                    } else if count < 4 {
                        TokenKind::OperatorSequence
                    } else {
                        TokenKind::Separator
                    },
                    text: if count == 1 {
                        Some(seq!['-'])
                    } else if count < 4 {
                        Some(dashes(count))
                    } else {
                        None
                    },
                    location: Location { line: 1, column: 0 },
                },
            ],
            failure: None,
        }),
{
    let source = dashes(count);
    lemma_run_to_end(source, 0, CharClass::Operator);
    assert(skip_blank(source, 0) == 0);
    assert(source.subrange(0, count as int) =~= source);
    assert(all_dashes(source));
    let first = scan(source, 0);
    assert(first == scan_operator(source, 0));
    assert(first.next == count);
    assert(first.outcome is Token);
    assert(scan(source, count as int).outcome is End);
    assert(lex(source, count as int) == Lexed {
        tokens: Seq::<TokenView>::empty(),
        failure: None,
    });
    assert(seq![first.outcome->Token_0] + Seq::<TokenView>::empty() =~= seq![
        first.outcome->Token_0,
    ]);
}

/// Digits with a period behind them, at the end of a text, are two
/// tokens: the integer of the digits, and a period.
pub proof fn lemma_integer_and_period(digits: Seq<char>)
    requires
        digits.len() >= 1,
        forall|i: int| 0 <= i < digits.len() ==> digit(#[trigger] digits[i]),
    ensures
        lex(digits.push('.'), 0) == (Lexed {
            tokens: seq![
                TokenView {
                    kind: TokenKind::Integer,
                    text: Some(digits),
                    location: location_at(digits.push('.'), 0),
                },
                TokenView {
                    kind: TokenKind::Period,
                    text: None,
                    location: location_at(digits.push('.'), digits.len() as int),
                },
            ],
            failure: None,
        }),
{
    let source = digits.push('.');
    let length = digits.len() as int;
    lemma_run_end_bounds(source, 0, CharClass::Digit);
    let whole = run_end(source, 0, CharClass::Digit);
    assert(whole == length) by {
        if whole < length {
            assert(digit(digits[whole]));
            assert(source[whole] == digits[whole]);
        }
        if whole > length {
            assert(CharClass::Digit.contains(source[length]));
        }
    }
    assert(skip_blank(source, 0) == 0);
    assert(source.subrange(0, length) =~= digits);
    let first = scan(source, 0);
    assert(first == scan_number(source, 0));
    assert(first == token(source, 0, TokenKind::Integer, Some(digits), length));
    assert(skip_blank(source, length) == length);
    let second = scan(source, length);
    assert(second == token(source, length, TokenKind::Period, None, length + 1));
    assert(scan(source, length + 1).outcome is End);
    assert(lex(source, length + 1) == Lexed {
        tokens: Seq::<TokenView>::empty(),
        failure: None,
    });
    assert(lex(source, length).tokens =~= seq![second.outcome->Token_0]);
    assert(lex(source, 0).tokens =~= seq![first.outcome->Token_0, second.outcome->Token_0]);
}

/// Digits, a period and digits again are one token: the decimal number
/// that they write.
pub proof fn lemma_double(whole: Seq<char>, fraction: Seq<char>)
    requires
        whole.len() >= 1,
        fraction.len() >= 1,
        forall|i: int| 0 <= i < whole.len() ==> digit(#[trigger] whole[i]),
        forall|i: int| 0 <= i < fraction.len() ==> digit(#[trigger] fraction[i]),
    ensures
        lex(whole.push('.') + fraction, 0) == (Lexed {
            tokens: seq![
                TokenView {
                    kind: TokenKind::Double,
                    text: Some(whole.push('.') + fraction),
                    location: location_at(whole.push('.') + fraction, 0),
                },
            ],
            failure: None,
        }),
{
    let source = whole.push('.') + fraction;
    let length = whole.len() as int;
    lemma_run_end_bounds(source, 0, CharClass::Digit);
    let end = run_end(source, 0, CharClass::Digit);
    assert(end == length) by {
        if end < length {
            assert(digit(whole[end]));
            assert(source[end] == whole[end]);
        }
        if end > length {
            assert(CharClass::Digit.contains(source[length]));
        }
    }
    assert(source[length + 1] == fraction[0]);
    assert forall|i: int| length + 1 <= i < source.len() implies CharClass::Digit.contains(
        #[trigger] source[i],
    ) by {
        assert(source[i] == fraction[i - length - 1]);
    }
    lemma_run_to_end(source, length + 1, CharClass::Digit);
    assert(skip_blank(source, 0) == 0);
    assert(source.subrange(0, source.len() as int) =~= source);
    let first = scan(source, 0);
    assert(first == scan_number(source, 0));
    assert(first == token(source, 0, TokenKind::Double, Some(source), source.len() as int));
    assert(scan(source, source.len() as int).outcome is End);
    assert(lex(source, source.len() as int) == Lexed {
        tokens: Seq::<TokenView>::empty(),
        failure: None,
    });
    assert(lex(source, 0).tokens =~= seq![first.outcome->Token_0]);
}

/// Which tokens come of operator characters, and of nothing else: a
/// separator of four or more characters that are all dashes, an operator
/// sequence of any other two or more, and the operator of its kind of one
/// alone.
pub proof fn lemma_operator_tokens(source: Seq<char>, from: int)
    requires
        0 <= from <= source.len(),
    ensures
        scan(source, from).outcome matches Outcome::Token(t) ==> {
            let start = skip_blank(source, from);
            let end = scan(source, from).next;
            let run = source.subrange(start, end);
            if operator(source[start]) {
                &&& end == run_end(source, start, CharClass::Operator)
                &&& start < end
                &&& if end - start >= 4 && all_dashes(run) {
                    t.kind == TokenKind::Separator && t.text is None
                } else if end - start >= 2 {
                    t.kind == TokenKind::OperatorSequence && t.text == Some(run)
                } else {
                    t.kind == operator_kind(source[start]) && t.kind.binary_operator() && t.text
                        == Some(run)
                }
            } else {
                t.kind != TokenKind::Separator && t.kind != TokenKind::OperatorSequence
                    && !t.kind.binary_operator()
            }
        },
{
    lemma_skip_blank_bounds(source, from);
    let start = skip_blank(source, from);
    if start < source.len() {
        let c = source[start];
        if operator(c) {
            lemma_run_end_bounds(source, start + 1, CharClass::Operator);
            let end = run_end(source, start, CharClass::Operator);
            if end - start == 1 {
                assert(source.subrange(start, end) =~= seq![c]);
            }
        }
    }
}

} // verus!
