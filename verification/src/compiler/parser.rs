//! The parser: reads the tokens of a source text, with one token of
//! lookahead, and builds the syntax tree of a class.

use crate::compiler::ast::{Class, Expression, ExpressionView, Method, Methods, MethodsView};
use crate::compiler::chars::{digit, is_digit};
use crate::compiler::grammar;
use crate::compiler::grammar::{advances, ErrorView, Input, Parse, Progress};
use crate::compiler::lexer::{produced, Lexer};
use crate::compiler::lexical::{lemma_scan_bounds, scan, LexError};
use crate::compiler::token::{Token, TokenKind};
use crate::compiler::Location;
use vstd::prelude::*;
use vstd::string::*;

verus! {

/// Why a text was not parsed.
#[derive(Debug)]
pub enum Error {
    /// The tokens are not what the grammar calls for at `location`.
    ParseError { description: String, filename: String, location: Location },
    /// The text cannot be cut into tokens.
    LexError(LexError),
}

impl View for Error {
    type V = ErrorView;

    open spec fn view(&self) -> ErrorView {
        match self {
            Error::ParseError { description, filename, location } => ErrorView::ParseError {
                description: description@,
                filename: filename@,
                location: *location,
            },
            Error::LexError(error) => ErrorView::LexError(*error),
        }
    }
}

pub type Result<T> = std::result::Result<T, Error>;

/// `result`, with parsing come as far as `after`, is what the grammar
/// gives.
pub open spec fn agrees<T: DeepView>(result: Result<T>, after: Progress, expected: Parse<T::V>) -> bool {
    match expected {
        Ok((value, progress)) => result matches Ok(read) && read.deep_view() == value && after
            == progress,
        Err(error) => result matches Err(e) && e@ == error,
    }
}

/// The name of a token kind.
pub fn kind_name(kind: TokenKind) -> (name: &'static str)
    ensures
        name@ == grammar::kind_name(kind),
{
    match kind {
        TokenKind::And => "And",
        TokenKind::Assign => "Assign",
        TokenKind::At => "At",
        TokenKind::Colon => "Colon",
        TokenKind::Comma => "Comma",
        TokenKind::Divide => "Divide",
        TokenKind::Double => "Double",
        TokenKind::EndBlock => "EndBlock",
        TokenKind::EndTerm => "EndTerm",
        TokenKind::Equal => "Equal",
        TokenKind::Exit => "Exit",
        TokenKind::Identifier => "Identifier",
        TokenKind::Integer => "Integer",
        TokenKind::Keyword => "Keyword",
        TokenKind::KeywordSequence => "KeywordSequence",
        TokenKind::Less => "Less",
        TokenKind::Minus => "Minus",
        TokenKind::Modulus => "Modulus",
        TokenKind::More => "More",
        TokenKind::NewBlock => "NewBlock",
        TokenKind::NewTerm => "NewTerm",
        TokenKind::Not => "Not",
        TokenKind::OperatorSequence => "OperatorSequence",
        TokenKind::Or => "Or",
        TokenKind::Percent => "Percent",
        TokenKind::Period => "Period",
        TokenKind::Plus => "Plus",
        TokenKind::Pound => "Pound",
        TokenKind::Primitive => "Primitive",
        TokenKind::Separator => "Separator",
        TokenKind::Star => "Star",
        TokenKind::String => "String",
    }
}

/// The message for a token of the kind `found` where one of `expected` was
/// called for.
pub fn describe_mismatch(expected: &[TokenKind], found: TokenKind) -> (description: String)
    ensures
        description@ == grammar::mismatch_description(expected@, found),
{
    let mut description = "Expected [".to_owned();
    let ghost opening = description@;
    let mut i: usize = 0;
    while i < expected.len()
        invariant
            i <= expected.len(),
            opening == "Expected ["@,
            description@ == opening + grammar::kind_list(expected@.take(i as int)),
        decreases expected.len() - i,
    {
        proof {
            let shorter = expected@.take(i as int);
            let longer = expected@.take(i + 1);
            assert(longer.drop_last() =~= shorter);
            assert(longer.last() == expected@[i as int]);
            if i == 0 {
                assert(opening + grammar::kind_list(shorter) + grammar::kind_name(expected@[0])
                    =~= opening + grammar::kind_list(longer));
            } else {
                assert(opening + grammar::kind_list(shorter) + ", "@ + grammar::kind_name(
                    expected@[i as int],
                ) =~= opening + grammar::kind_list(longer));
            }
        }
        if i > 0 {
            description.append(", ");
        }
        description.append(kind_name(expected[i]));
        i = i + 1;
    }
    proof {
        assert(expected@.take(expected@.len() as int) =~= expected@);
    }
    description.append("], found ");
    description.append(kind_name(found));
    description
}

/// Is `kind` among `expected`?
pub fn contains_kind(expected: &[TokenKind], kind: TokenKind) -> (found: bool)
    ensures
        found == expected@.contains(kind),
{
    let mut i: usize = 0;
    while i < expected.len()
        invariant
            i <= expected.len(),
            forall|j: int| 0 <= j < i ==> expected@[j] != kind,
        decreases expected.len() - i,
    {
        if expected[i] == kind {
            return true;
        }
        i = i + 1;
    }
    false
}

/// Parses the source text of a class.
pub struct Parser {
    lexer: Lexer,
    peeked: Option<std::result::Result<Option<Token>, LexError>>,
    filename: String,
    last_location: Location,
    start: Ghost<int>,
}

/// After a step of the parser: it is well formed, it still reads the same
/// input, it has not gone back, and `result` and the place it has come to
/// are what the grammar gives.
pub open spec fn follows<T: DeepView>(
    before: Parser,
    after: Parser,
    result: Result<T>,
    expected: Parse<T::V>,
) -> bool {
    &&& after.wf()
    &&& after.input() == before.input()
    &&& agrees(result, after.progress(), expected)
    &&& result is Ok ==> before.progress().cursor <= after.progress().cursor
}

/// After a step of the parser that has read something: as [`follows`], and
/// the parser has moved forward.
pub open spec fn follows_on<T: DeepView>(
    before: Parser,
    after: Parser,
    result: Result<T>,
    expected: Parse<T::V>,
) -> bool {
    &&& follows(before, after, result, expected)
    &&& result is Ok ==> advances(before.input(), before.progress(), after.progress())
}

impl Parser {
    /// The text that is parsed and the name of its file.
    pub closed spec fn input(&self) -> Input {
        Input { source: self.lexer.source(), filename: self.filename@ }
    }

    /// How far parsing has come.
    pub closed spec fn progress(&self) -> Progress {
        Progress { cursor: self.start@, last: self.last_location }
    }

    /// The lexer stands at the place that parsing has come to, or, with a
    /// token of lookahead taken, behind that token.
    pub closed spec fn wf(&self) -> bool {
        &&& self.lexer.wf()
        &&& 0 <= self.start@ <= self.lexer.source().len()
        &&& match self.peeked {
            None => self.lexer.cursor() == self.start@,
            Some(item) => produced(item, scan(self.lexer.source(), self.start@).outcome)
                && self.lexer.cursor() == scan(self.lexer.source(), self.start@).next,
        }
    }

    /// A parser at the start of `source`, which is the text of the file
    /// `filename`.
    pub fn new(source: &str, filename: &str) -> (parser: Parser)
        ensures
            parser.wf(),
            parser.input() == (Input { source: source@, filename: filename@ }),
            parser.progress() == (Progress { cursor: 0, last: Location { line: 1, column: 0 } }),
    {
        Parser {
            lexer: Lexer::new(source),
            peeked: None,
            filename: filename.to_owned(),
            last_location: Location::default(),
            start: Ghost(0),
        }
    }

    /// The error for a text that ends too early.
    fn end_of_program(&self) -> (error: Error)
        ensures
            error@ == grammar::end_of_program(self.input(), self.progress()),
    {
        Error::ParseError {
            description: "Unexpected end of program".to_owned(),
            filename: self.filename.clone(),
            location: self.last_location,
        }
    }

    /// The kind of the next token, which stays where it is.
    pub fn peek_token_kind(&mut self) -> (result: Result<TokenKind>)
        requires
            old(self).wf(),
        ensures
            final(self).wf(),
            final(self).input() == old(self).input(),
            final(self).progress() == old(self).progress(),
            match grammar::peek(old(self).input(), old(self).progress()) {
                Ok(kind) => result matches Ok(k) && k == kind,
                Err(error) => result matches Err(e) && e@ == error,
            },
    {
        if self.peeked.is_none() {
            let item = self.lexer.read_token();
            self.peeked = Some(item);
        }
        match &self.peeked {
            Some(Ok(Some(token))) => Ok(token.kind),
            Some(Err(error)) => Err(Error::LexError(*error)),
            _ => Err(self.end_of_program()),
        }
    }

    /// Takes the next token, which has to be of `kind`.
    pub fn expect_token(&mut self, kind: TokenKind) -> (result: Result<Token>)
        requires
            old(self).wf(),
        ensures
            follows_on(
                *old(self),
                *final(self),
                result,
                grammar::expect(old(self).input(), old(self).progress(), kind),
            ),
    {
        let expected = [kind];
        assert(expected@ =~= seq![kind]);
        self.expect_token_one_of(&expected)
    }

    /// Takes the next token, which has to be of one of the kinds
    /// `expected`.
    pub fn expect_token_one_of(&mut self, expected: &[TokenKind]) -> (result: Result<Token>)
        requires
            old(self).wf(),
        ensures
            follows_on(
                *old(self),
                *final(self),
                result,
                grammar::expect_one_of(old(self).input(), old(self).progress(), expected@),
            ),
    {
        proof {
            lemma_scan_bounds(self.lexer.source(), self.start@);
        }
        let mut slot: Option<std::result::Result<Option<Token>, LexError>> = None;
        std::mem::swap(&mut self.peeked, &mut slot);
        let item = match slot {
            Some(item) => item,
            None => self.lexer.read_token(),
        };
        proof {
            self.lexer.lemma_cursor_bounds();
        }
        self.start = Ghost(self.lexer.cursor());
        match item {
            Ok(Some(token)) => {
                self.last_location = token.location;
                if contains_kind(expected, token.kind) {
                    Ok(token)
                } else {
                    Err(
                        Error::ParseError {
                            description: describe_mismatch(expected, token.kind),
                            filename: self.filename.clone(),
                            location: token.location,
                        },
                    )
                }
            },
            Err(error) => Err(Error::LexError(error)),
            Ok(None) => Err(self.end_of_program()),
        }
    }
}

/// The text of a token that carries one.
fn take_text(token: Token) -> (text: String)
    requires
        token.text is Some,
    ensures
        text@ == grammar::text_of(token@),
{
    token.text.unwrap()
}

/// A list with one more item has the view of the list with the view of the
/// item behind it.
proof fn lemma_pushed<T: DeepView>(before: Vec<T>, after: Vec<T>, item: T)
    requires
        after@ == before@.push(item),
    ensures
        after.deep_view() == before.deep_view().push(item.deep_view()),
{
    assert(after.deep_view() =~= before.deep_view().push(item.deep_view()));
}

/// A list without items has the empty view.
proof fn lemma_empty<T: DeepView>(list: Vec<T>)
    requires
        list@.len() == 0,
    ensures
        list.deep_view() == Seq::<T::V>::empty(),
{
    assert(list.deep_view() =~= Seq::<T::V>::empty());
}

/// The kinds listed as binary operators are those that are.
proof fn lemma_binary_kinds(kind: TokenKind)
    ensures
        grammar::binary_kinds().contains(kind) <==> grammar::is_binary(kind),
        grammar::binary_kinds().contains(kind) ==> kind.has_text(),
{
    let kinds = grammar::binary_kinds();
    if grammar::is_binary(kind) {
        assert(kinds[0] == TokenKind::OperatorSequence);
        assert(kinds[1] == TokenKind::And);
        assert(kinds[2] == TokenKind::At);
        assert(kinds[3] == TokenKind::Comma);
        assert(kinds[4] == TokenKind::Divide);
        assert(kinds[5] == TokenKind::Equal);
        assert(kinds[6] == TokenKind::Less);
        assert(kinds[7] == TokenKind::Minus);
        assert(kinds[8] == TokenKind::Modulus);
        assert(kinds[9] == TokenKind::More);
        assert(kinds[10] == TokenKind::Not);
        assert(kinds[11] == TokenKind::Or);
        assert(kinds[12] == TokenKind::Percent);
        assert(kinds[13] == TokenKind::Plus);
        assert(kinds[14] == TokenKind::Star);
    }
}

/// Every kind whose text can be a symbol carries text.
proof fn lemma_symbol_kinds(kind: TokenKind)
    requires
        grammar::symbol_kinds().contains(kind),
    ensures
        kind.has_text(),
{
}

/// A number is one of the two kinds of number.
proof fn lemma_number_kinds(kind: TokenKind)
    ensures
        grammar::number_kinds().contains(kind) <==> (kind == TokenKind::Integer || kind
            == TokenKind::Double),
{
    let kinds = grammar::number_kinds();
    assert(kinds[0] == TokenKind::Integer);
    assert(kinds[1] == TokenKind::Double);
}

/// The kinds that start no primary expression are not among those that do.
proof fn lemma_primary_kinds(kind: TokenKind)
    requires
        grammar::primary_kinds().contains(kind),
    ensures
        kind == TokenKind::Double || kind == TokenKind::Identifier || kind == TokenKind::Integer
            || kind == TokenKind::Minus || kind == TokenKind::NewBlock || kind
            == TokenKind::NewTerm || kind == TokenKind::Pound || kind == TokenKind::String,
{
}

/// A number grows with every digit that is put behind it.
proof fn lemma_decimal_value_grows(digits: Seq<char>, length: int)
    requires
        0 <= length <= digits.len(),
    ensures
        grammar::decimal_value(digits.take(length)) <= grammar::decimal_value(digits),
    decreases digits.len() - length,
{
    if length < digits.len() {
        lemma_decimal_value_grows(digits, length + 1);
        assert(digits.take(length + 1).drop_last() =~= digits.take(length));
    } else {
        assert(digits.take(length) =~= digits);
    }
}

/// The number that the decimal digits `text` stand for, if it is at most
/// the largest integer of 64 bits with a sign.
pub fn integer_value(text: &str) -> (value: Option<i64>)
    ensures
        match value {
            Some(v) => v == grammar::decimal_value(text@),
            None => grammar::decimal_value(text@) > i64::MAX,
        },
{
    let mut value: i64 = 0;
    for c in it: text.chars()
        invariant
            it.seq() == text@,
            0 <= value,
            value == grammar::decimal_value(text@.take(it.index() as int)),
    {
        let ghost shorter = text@.take(it.index() as int);
        let ghost longer = text@.take(it.index() + 1);
        proof {
            assert(longer.drop_last() =~= shorter);
            assert(longer.last() == c);
            lemma_decimal_value_grows(text@, it.index() + 1);
        }
        let d: i64 = if is_digit(c) {
            (c as u32 - '0' as u32) as i64
        } else {
            0
        };
        if value > (i64::MAX - d) / 10 {
            return None;
        }
        value = value * 10 + d;
    }
    proof {
        assert(text@.take(text@.len() as int) =~= text@);
    }
    Some(value)
}

impl Parser {
    /// Reads the names between two bars, if a bar stands next.
    pub fn parse_locals(&mut self) -> (result: Result<Vec<String>>)
        requires
            old(self).wf(),
        ensures
            follows(
                *old(self),
                *final(self),
                result,
                grammar::locals(old(self).input(), old(self).progress()),
            ),
    {
        let ghost input = self.input();
        let mut locals: Vec<String> = Vec::new();
        proof {
            lemma_empty(locals);
        }
        let bar = match self.peek_token_kind() {
            Ok(kind) => kind == TokenKind::Or,
            Err(_) => false,
        };
        if bar {
            self.expect_token(TokenKind::Or)?;

            loop
                invariant
                    self.wf(),
                    self.input() == input,
                    input == old(self).input(),
                    old(self).progress().cursor <= self.progress().cursor,
                    grammar::locals_rest(input, self.progress(), locals.deep_view())
                        == grammar::locals(input, old(self).progress()),
                ensures
                    !grammar::peek_is(input, self.progress(), TokenKind::Identifier),
                decreases input.source.len() - self.progress().cursor,
            {
                let more = match self.peek_token_kind() {
                    Ok(kind) => kind == TokenKind::Identifier,
                    Err(_) => false,
                };
                if !more {
                    break ;
                }
                let ghost at = self.progress();
                let token = self.expect_token(TokenKind::Identifier)?;
                proof {
                    grammar::lemma_expect_advances(input, at, seq![TokenKind::Identifier]);
                }
                let name = take_text(token);
                let ghost before = locals;
                locals.push(name);
                proof {
                    lemma_pushed(before, locals, name);
                }
            }

            self.expect_token(TokenKind::Or)?;
        }
        Ok(locals)
    }

    /// Reads the parameters of a block.
    pub fn parse_block_parameters(&mut self) -> (result: Result<Vec<String>>)
        requires
            old(self).wf(),
        ensures
            follows(
                *old(self),
                *final(self),
                result,
                grammar::block_parameters(old(self).input(), old(self).progress()),
            ),
    {
        let ghost input = self.input();
        let mut parameters: Vec<String> = Vec::new();
        proof {
            lemma_empty(parameters);
        }
        loop
            invariant
                self.wf(),
                self.input() == input,
                input == old(self).input(),
                old(self).progress().cursor <= self.progress().cursor,
                grammar::block_parameters_rest(input, self.progress(), parameters.deep_view())
                    == grammar::block_parameters(input, old(self).progress()),
            ensures
                self.wf(),
                self.input() == input,
                old(self).progress().cursor <= self.progress().cursor,
                grammar::block_parameters_rest(input, self.progress(), parameters.deep_view())
                    == grammar::block_parameters(input, old(self).progress()),
                grammar::peek(input, self.progress()) is Ok,
                !grammar::peek_is(input, self.progress(), TokenKind::Colon),
            decreases input.source.len() - self.progress().cursor,
        {
            let kind = self.peek_token_kind()?;
            if kind != TokenKind::Colon {
                break ;
            }
            let ghost at = self.progress();
            self.expect_token(TokenKind::Colon)?;
            let ghost behind = self.progress();
            let token = self.expect_token(TokenKind::Identifier)?;
            proof {
                grammar::lemma_expect_advances(input, behind, seq![TokenKind::Identifier]);
            }
            let parameter = take_text(token);
            let ghost before = parameters;
            parameters.push(parameter);
            proof {
                lemma_pushed(before, parameters, parameter);
            }
        }

        if parameters.len() > 0 {
            self.expect_token(TokenKind::Or)?;
        }
        Ok(parameters)
    }

    /// Reads the pattern of a unary method.
    pub fn parse_unary_pattern(&mut self) -> (result: Result<(String, Vec<String>)>)
        requires
            old(self).wf(),
        ensures
            follows_on(
                *old(self),
                *final(self),
                result,
                grammar::unary_pattern(old(self).input(), old(self).progress()),
            ),
    {
        let ghost input = self.input();
        let ghost at = self.progress();
        let token = self.expect_token(TokenKind::Identifier)?;
        proof {
            grammar::lemma_expect_advances(input, at, seq![TokenKind::Identifier]);
        }
        let name = take_text(token);
        let parameters: Vec<String> = Vec::new();
        proof {
            lemma_empty(parameters);
        }
        Ok((name, parameters))
    }

    /// Reads the pattern of a keyword method.
    pub fn parse_keyword_pattern(&mut self) -> (result: Result<(String, Vec<String>)>)
        requires
            old(self).wf(),
        ensures
            follows_on(
                *old(self),
                *final(self),
                result,
                grammar::keyword_pattern(old(self).input(), old(self).progress()),
            ),
    {
        let ghost input = self.input();
        let ghost at = self.progress();
        let token = self.expect_token(TokenKind::Keyword)?;
        proof {
            grammar::lemma_expect_advances(input, at, seq![TokenKind::Keyword]);
        }
        let mut name = take_text(token);
        let ghost behind = self.progress();
        let token = self.expect_token(TokenKind::Identifier)?;
        proof {
            grammar::lemma_expect_advances(input, behind, seq![TokenKind::Identifier]);
        }
        let first = take_text(token);
        let mut parameters: Vec<String> = Vec::new();
        let ghost none = parameters;
        parameters.push(first);
        proof {
            lemma_empty(none);
            lemma_pushed(none, parameters, first);
            assert(parameters.deep_view() =~= seq![first@]);
        }

        loop
            invariant
                self.wf(),
                self.input() == input,
                input == old(self).input(),
                at == old(self).progress(),
                advances(input, at, self.progress()),
                grammar::keyword_pattern_rest(
                    input,
                    self.progress(),
                    name@,
                    parameters.deep_view(),
                ) == grammar::keyword_pattern(input, at),
            ensures
                self.wf(),
                self.input() == input,
                advances(input, at, self.progress()),
                grammar::keyword_pattern(input, at) == Ok::<
                    ((Seq<char>, Seq<Seq<char>>), Progress),
                    ErrorView,
                >(((name@, parameters.deep_view()), self.progress())),
            decreases input.source.len() - self.progress().cursor,
        {
            let kind = self.peek_token_kind()?;
            if kind != TokenKind::Keyword {
                break ;
            }
            let ghost here = self.progress();
            let token = self.expect_token(TokenKind::Keyword)?;
            proof {
                grammar::lemma_expect_advances(input, here, seq![TokenKind::Keyword]);
            }
            let part = take_text(token);
            let ghost behind = self.progress();
            let token = self.expect_token(TokenKind::Identifier)?;
            proof {
                grammar::lemma_expect_advances(input, behind, seq![TokenKind::Identifier]);
            }
            let parameter = take_text(token);

            name.append(part.as_str());
            let ghost before = parameters;
            parameters.push(parameter);
            proof {
                lemma_pushed(before, parameters, parameter);
            }
        }

        Ok((name, parameters))
    }

    /// Reads the pattern of a binary method.
    pub fn parse_binary_pattern(&mut self) -> (result: Result<(String, Vec<String>)>)
        requires
            old(self).wf(),
        ensures
            follows_on(
                *old(self),
                *final(self),
                result,
                grammar::binary_pattern(old(self).input(), old(self).progress()),
            ),
    {
        let ghost input = self.input();
        let ghost at = self.progress();
        let token = self.expect_binary_operator()?;
        let message = take_text(token);
        let ghost behind = self.progress();
        let token = self.expect_token(TokenKind::Identifier)?;
        proof {
            grammar::lemma_expect_advances(input, behind, seq![TokenKind::Identifier]);
        }
        let parameter = take_text(token);
        let mut parameters: Vec<String> = Vec::new();
        let ghost none = parameters;
        parameters.push(parameter);
        proof {
            lemma_empty(none);
            lemma_pushed(none, parameters, parameter);
            assert(parameters.deep_view() =~= seq![parameter@]);
        }
        Ok((message, parameters))
    }

    /// Takes the next token, which has to be a binary operator.
    fn expect_binary_operator(&mut self) -> (result: Result<Token>)
        requires
            old(self).wf(),
        ensures
            follows_on(
                *old(self),
                *final(self),
                result,
                grammar::expect_one_of(
                    old(self).input(),
                    old(self).progress(),
                    grammar::binary_kinds(),
                ),
            ),
            result matches Ok(token) ==> token.text is Some,
    {
        let kinds = [
            TokenKind::OperatorSequence,
            TokenKind::And,
            TokenKind::At,
            TokenKind::Comma,
            TokenKind::Divide,
            TokenKind::Equal,
            TokenKind::Less,
            TokenKind::Minus,
            TokenKind::Modulus,
            TokenKind::More,
            TokenKind::Not,
            TokenKind::Or,
            TokenKind::Percent,
            TokenKind::Plus,
            TokenKind::Star,
        ];
        proof {
            assert(kinds@ =~= grammar::binary_kinds());
            grammar::lemma_expect_advances(self.input(), self.progress(), grammar::binary_kinds());
            if let Ok((token, _)) = grammar::expect_one_of(
                self.input(),
                self.progress(),
                grammar::binary_kinds(),
            ) {
                lemma_binary_kinds(token.kind);
            }
        }
        self.expect_token_one_of(&kinds)
    }

    /// Reads the pattern of a method.
    pub fn parse_pattern(&mut self) -> (result: Result<(String, Vec<String>)>)
        requires
            old(self).wf(),
        ensures
            follows_on(
                *old(self),
                *final(self),
                result,
                grammar::pattern(old(self).input(), old(self).progress()),
            ),
    {
        match self.peek_token_kind()? {
            TokenKind::Identifier => self.parse_unary_pattern(),
            TokenKind::Keyword => self.parse_keyword_pattern(),
            _ => self.parse_binary_pattern(),
        }
    }

    /// Reads a number; with `negative`, as the number below zero.
    pub fn parse_expression_number(&mut self, negative: bool) -> (result: Result<Expression>)
        requires
            old(self).wf(),
        ensures
            follows_on(
                *old(self),
                *final(self),
                result,
                grammar::expression_number(old(self).input(), old(self).progress(), negative),
            ),
    {
        let ghost input = self.input();
        let ghost at = self.progress();
        let kinds = [TokenKind::Integer, TokenKind::Double];
        proof {
            assert(kinds@ =~= grammar::number_kinds());
            grammar::lemma_expect_advances(input, at, grammar::number_kinds());
        }
        let token = self.expect_token_one_of(&kinds)?;
        proof {
            lemma_number_kinds(token.kind);
        }
        let kind = token.kind;
        let location = token.location;
        let text = take_text(token);
        if kind == TokenKind::Integer {
            match integer_value(text.as_str()) {
                Some(value) => {
                    let value = if negative {
                        -value
                    } else {
                        value
                    };
                    Ok(Expression::LiteralInteger(value))
                },
                None => Err(
                    Error::ParseError {
                        description: "Integer literal out of range".to_owned(),
                        filename: self.filename.clone(),
                        location,
                    },
                ),
            }
        } else {
            Ok(Expression::LiteralDouble { negative, text })
        }
    }

    /// Reads a minus and the number behind it.
    pub fn parse_expression_negative_number(&mut self) -> (result: Result<Expression>)
        requires
            old(self).wf(),
        ensures
            follows_on(
                *old(self),
                *final(self),
                result,
                grammar::expression_negative_number(old(self).input(), old(self).progress()),
            ),
    {
        let _ = self.expect_token(TokenKind::Minus)?;
        self.parse_expression_number(true)
    }

    /// Reads a name: a truth value, `nil`, or a variable.
    pub fn parse_expression_identifier(&mut self) -> (result: Result<Expression>)
        requires
            old(self).wf(),
        ensures
            follows_on(
                *old(self),
                *final(self),
                result,
                grammar::expression_identifier(old(self).input(), old(self).progress()),
            ),
    {
        let ghost input = self.input();
        let ghost at = self.progress();
        let token = self.expect_token(TokenKind::Identifier)?;
        proof {
            grammar::lemma_expect_advances(input, at, seq![TokenKind::Identifier]);
        }
        let name = take_text(token);
        let expression = if name == "false".to_owned() {
            Expression::LiteralBoolean(false)
        } else if name == "nil".to_owned() {
            Expression::LiteralNil
        } else if name == "true".to_owned() {
            Expression::LiteralBoolean(true)
        } else {
            Expression::Variable(name)
        };
        Ok(expression)
    }

    /// Reads a string.
    pub fn parse_expression_string(&mut self) -> (result: Result<Expression>)
        requires
            old(self).wf(),
        ensures
            follows_on(
                *old(self),
                *final(self),
                result,
                grammar::expression_string(old(self).input(), old(self).progress()),
            ),
    {
        let ghost input = self.input();
        let ghost at = self.progress();
        let token = self.expect_token(TokenKind::String)?;
        proof {
            grammar::lemma_expect_advances(input, at, seq![TokenKind::String]);
        }
        let value = take_text(token);
        Ok(Expression::LiteralString(value))
    }

    /// Reads the symbol behind a pound sign.
    pub fn parse_expression_symbol(&mut self) -> (result: Result<Expression>)
        requires
            old(self).wf(),
        ensures
            follows_on(
                *old(self),
                *final(self),
                result,
                grammar::expression_symbol(old(self).input(), old(self).progress()),
            ),
    {
        let ghost input = self.input();
        let ghost at = self.progress();
        let kinds = [
            TokenKind::Identifier,
            TokenKind::String,
            TokenKind::Keyword,
            TokenKind::KeywordSequence,
            TokenKind::OperatorSequence,
            TokenKind::And,
            TokenKind::At,
            TokenKind::Comma,
            TokenKind::Divide,
            TokenKind::Equal,
            TokenKind::Less,
            TokenKind::Minus,
            TokenKind::Modulus,
            TokenKind::More,
            TokenKind::Not,
            TokenKind::Or,
            TokenKind::Percent,
            TokenKind::Plus,
            TokenKind::Star,
        ];
        proof {
            assert(kinds@ =~= grammar::symbol_kinds());
            grammar::lemma_expect_advances(input, at, grammar::symbol_kinds());
        }
        let token = self.expect_token_one_of(&kinds)?;
        proof {
            lemma_symbol_kinds(token.kind);
        }
        let value = take_text(token);
        Ok(Expression::LiteralSymbol(value))
    }

    /// Reads a unary message to `value`.
    pub fn parse_expression_unary_message(&mut self, value: Expression) -> (result: Result<
        Expression,
    >)
        requires
            old(self).wf(),
        ensures
            follows_on(
                *old(self),
                *final(self),
                result,
                grammar::expression_unary_message(
                    old(self).input(),
                    old(self).progress(),
                    value.deep_view(),
                ),
            ),
    {
        let ghost input = self.input();
        let ghost at = self.progress();
        let token = self.expect_token(TokenKind::Identifier)?;
        proof {
            grammar::lemma_expect_advances(input, at, seq![TokenKind::Identifier]);
        }
        let name = take_text(token);
        Ok(Expression::UnaryMessage { receiver: Box::new(value), message: name })
    }
}

impl Parser {
    /// Reads an expression: a primary, and the messages and assignments
    /// behind it.
    pub fn parse_expression(&mut self) -> (result: Result<Expression>)
        requires
            old(self).wf(),
        ensures
            follows_on(
                *old(self),
                *final(self),
                result,
                grammar::expression(old(self).input(), old(self).progress()),
            ),
        decreases old(self).input().source.len() - old(self).progress().cursor, 10nat,
    {
        let ghost input = self.input();
        let ghost at = self.progress();
        let mut expression = self.parse_expression_primary()?;
        loop
            invariant
                self.wf(),
                self.input() == input,
                input == old(self).input(),
                at == old(self).progress(),
                advances(input, at, self.progress()),
                grammar::expression_rest(input, self.progress(), expression.deep_view())
                    == grammar::expression(input, at),
            ensures
                self.wf(),
                self.input() == input,
                advances(input, at, self.progress()),
                grammar::expression(input, at) == Ok::<(ExpressionView, Progress), ErrorView>(
                    (expression.deep_view(), self.progress()),
                ),
            decreases input.source.len() - self.progress().cursor,
        {
            let kind = self.peek_token_kind()?;
            if kind == TokenKind::Assign {
                expression = self.parse_expression_assignment(expression)?;
            } else if kind == TokenKind::Identifier || kind == TokenKind::Keyword || kind
                == TokenKind::OperatorSequence || kind.is_binary_operator() {
                expression = self.parse_expression_messages(expression)?;
            } else {
                break ;
            }
        }

        Ok(expression)
    }

    /// Reads an array: expressions in round brackets.
    pub fn parse_expression_array(&mut self) -> (result: Result<Expression>)
        requires
            old(self).wf(),
        ensures
            follows_on(
                *old(self),
                *final(self),
                result,
                grammar::expression_array(old(self).input(), old(self).progress()),
            ),
        decreases old(self).input().source.len() - old(self).progress().cursor, 12nat,
    {
        let ghost input = self.input();
        let ghost at = self.progress();
        let mut values: Vec<Expression> = Vec::new();
        proof {
            lemma_empty(values);
        }

        let _ = self.expect_token(TokenKind::NewTerm)?;
        let ghost inside = self.progress();
        loop
            invariant
                self.wf(),
                self.input() == input,
                input == old(self).input(),
                at == old(self).progress(),
                advances(input, at, self.progress()),
                grammar::expect(input, at, TokenKind::NewTerm) matches Ok((_, behind)) && behind
                    == inside,
                grammar::array_values(input, self.progress(), values.deep_view())
                    == grammar::array_values(input, inside, Seq::<ExpressionView>::empty()),
            ensures
                self.wf(),
                self.input() == input,
                advances(input, at, self.progress()),
                grammar::array_values(input, inside, Seq::<ExpressionView>::empty()) == Ok::<
                    (Seq<ExpressionView>, Progress),
                    ErrorView,
                >((values.deep_view(), self.progress())),
            decreases input.source.len() - self.progress().cursor,
        {
            let kind = self.peek_token_kind()?;
            if kind == TokenKind::EndTerm {
                break ;
            }
            let value = self.parse_expression()?;
            let ghost before = values;
            values.push(value);
            proof {
                lemma_pushed(before, values, value);
            }
        }

        let _ = self.expect_token(TokenKind::EndTerm)?;

        let expression = Expression::LiteralArray(values);
        proof {
            expression.lemma_model_of_list();
        }
        Ok(expression)
    }

    /// Reads an assignment to `left`, which has to be a variable.
    pub fn parse_expression_assignment(&mut self, left: Expression) -> (result: Result<Expression>)
        requires
            old(self).wf(),
        ensures
            follows_on(
                *old(self),
                *final(self),
                result,
                grammar::expression_assignment(
                    old(self).input(),
                    old(self).progress(),
                    left.deep_view(),
                ),
            ),
        decreases old(self).input().source.len() - old(self).progress().cursor, 8nat,
    {
        let token = self.expect_token(TokenKind::Assign)?;

        match left {
            Expression::Variable(name) => {
                let right = self.parse_expression()?;
                Ok(Expression::Assignment { variable: name, value: Box::new(right) })
            },
            _ => Err(
                Error::ParseError {
                    description:
                        "Attempt to assign result of expression to something other than a variable".to_owned(),
                    filename: self.filename.clone(),
                    location: token.location,
                },
            ),
        }
    }

    /// Reads a binary message to `left`.
    pub fn parse_expression_binary_message(&mut self, left: Expression) -> (result: Result<
        Expression,
    >)
        requires
            old(self).wf(),
        ensures
            follows_on(
                *old(self),
                *final(self),
                result,
                grammar::expression_binary_message(
                    old(self).input(),
                    old(self).progress(),
                    left.deep_view(),
                ),
            ),
        decreases old(self).input().source.len() - old(self).progress().cursor, 4nat,
    {
        let token = self.expect_binary_operator()?;
        let message = take_text(token);
        let right = self.parse_expression_binary_operand()?;
        Ok(Expression::BinaryMessage { message, left: Box::new(left), right: Box::new(right) })
    }

    /// Reads the operand of a binary message: a primary and the unary
    /// messages behind it.
    pub fn parse_expression_binary_operand(&mut self) -> (result: Result<Expression>)
        requires
            old(self).wf(),
        ensures
            follows_on(
                *old(self),
                *final(self),
                result,
                grammar::expression_binary_operand(old(self).input(), old(self).progress()),
            ),
        decreases old(self).input().source.len() - old(self).progress().cursor, 3nat,
    {
        let ghost input = self.input();
        let ghost at = self.progress();
        let mut value = self.parse_expression_primary()?;

        loop
            invariant
                self.wf(),
                self.input() == input,
                input == old(self).input(),
                at == old(self).progress(),
                advances(input, at, self.progress()),
                grammar::unary_messages(input, self.progress(), value.deep_view())
                    == grammar::expression_binary_operand(input, at),
            ensures
                self.wf(),
                self.input() == input,
                advances(input, at, self.progress()),
                grammar::expression_binary_operand(input, at) == Ok::<
                    (ExpressionView, Progress),
                    ErrorView,
                >((value.deep_view(), self.progress())),
            decreases input.source.len() - self.progress().cursor,
        {
            let kind = self.peek_token_kind()?;
            if kind != TokenKind::Identifier {
                break ;
            }
            value = self.parse_expression_unary_message(value)?;
        }

        Ok(value)
    }

    /// Reads the argument of a keyword: an operand and the binary messages
    /// behind it.
    pub fn parse_expression_formula(&mut self) -> (result: Result<Expression>)
        requires
            old(self).wf(),
        ensures
            follows_on(
                *old(self),
                *final(self),
                result,
                grammar::expression_formula(old(self).input(), old(self).progress()),
            ),
        decreases old(self).input().source.len() - old(self).progress().cursor, 5nat,
    {
        let ghost input = self.input();
        let ghost at = self.progress();
        let mut value = self.parse_expression_binary_operand()?;

        loop
            invariant
                self.wf(),
                self.input() == input,
                input == old(self).input(),
                at == old(self).progress(),
                advances(input, at, self.progress()),
                grammar::formula_rest(input, self.progress(), value.deep_view())
                    == grammar::expression_formula(input, at),
            ensures
                self.wf(),
                self.input() == input,
                advances(input, at, self.progress()),
                grammar::expression_formula(input, at) == Ok::<
                    (ExpressionView, Progress),
                    ErrorView,
                >((value.deep_view(), self.progress())),
            decreases input.source.len() - self.progress().cursor,
        {
            let kind = self.peek_token_kind()?;
            if kind == TokenKind::OperatorSequence || kind.is_binary_operator() {
                value = self.parse_expression_binary_message(value)?;
            } else {
                break ;
            }
        }

        Ok(value)
    }

    /// Reads a keyword message to `value`: all keywords that stand next,
    /// each with its argument.
    pub fn parse_expression_keyword_message(&mut self, value: Expression) -> (result: Result<
        Expression,
    >)
        requires
            old(self).wf(),
        ensures
            follows(
                *old(self),
                *final(self),
                result,
                grammar::expression_keyword_message(
                    old(self).input(),
                    old(self).progress(),
                    value.deep_view(),
                ),
            ),
            result is Ok && grammar::peek_is(
                old(self).input(),
                old(self).progress(),
                TokenKind::Keyword,
            ) ==> advances(old(self).input(), old(self).progress(), final(self).progress()),
        decreases old(self).input().source.len() - old(self).progress().cursor, 7nat,
    {
        let ghost input = self.input();
        let ghost at = self.progress();
        let mut message = String::new();
        let mut parameters: Vec<Expression> = Vec::new();
        proof {
            lemma_empty(parameters);
        }

        loop
            invariant
                self.wf(),
                self.input() == input,
                input == old(self).input(),
                at == old(self).progress(),
                at.cursor <= self.progress().cursor <= input.source.len(),
                at.cursor == self.progress().cursor ==> at == self.progress(),
                grammar::keyword_parts(input, self.progress(), message@, parameters.deep_view())
                    == grammar::keyword_parts(
                    input,
                    at,
                    Seq::<char>::empty(),
                    Seq::<ExpressionView>::empty(),
                ),
            ensures
                self.wf(),
                self.input() == input,
                at.cursor <= self.progress().cursor,
                grammar::peek_is(input, at, TokenKind::Keyword) ==> advances(
                    input,
                    at,
                    self.progress(),
                ),
                grammar::keyword_parts(
                    input,
                    at,
                    Seq::<char>::empty(),
                    Seq::<ExpressionView>::empty(),
                ) == Ok::<((Seq<char>, Seq<ExpressionView>), Progress), ErrorView>(
                    ((message@, parameters.deep_view()), self.progress()),
                ),
            decreases input.source.len() - self.progress().cursor,
        {
            let kind = self.peek_token_kind()?;
            if kind != TokenKind::Keyword {
                break ;
            }
            let ghost here = self.progress();
            let token = self.expect_token(TokenKind::Keyword)?;
            proof {
                grammar::lemma_expect_advances(input, here, seq![TokenKind::Keyword]);
            }
            let keyword = take_text(token);
            let parameter = self.parse_expression_formula()?;

            message.append(keyword.as_str());
            let ghost before = parameters;
            parameters.push(parameter);
            proof {
                lemma_pushed(before, parameters, parameter);
            }
        }

        let expression = Expression::KeywordMessage {
            receiver: Box::new(value),
            message,
            parameters,
        };
        proof {
            expression.lemma_model_of_list();
        }
        Ok(expression)
    }

    /// Reads one message to `value`, of the form that the next token calls
    /// for.
    pub fn parse_expression_messages(&mut self, value: Expression) -> (result: Result<Expression>)
        requires
            old(self).wf(),
        ensures
            follows_on(
                *old(self),
                *final(self),
                result,
                grammar::expression_messages(
                    old(self).input(),
                    old(self).progress(),
                    value.deep_view(),
                ),
            ),
        decreases old(self).input().source.len() - old(self).progress().cursor, 8nat,
    {
        match self.peek_token_kind()? {
            TokenKind::Identifier => self.parse_expression_unary_message(value),
            TokenKind::Keyword => self.parse_expression_keyword_message(value),
            _ => self.parse_expression_binary_message(value),
        }
    }

    /// Reads a block in square brackets.
    pub fn parse_expression_nested_block(&mut self) -> (result: Result<Expression>)
        requires
            old(self).wf(),
        ensures
            follows_on(
                *old(self),
                *final(self),
                result,
                grammar::expression_nested_block(old(self).input(), old(self).progress()),
            ),
        decreases old(self).input().source.len() - old(self).progress().cursor, 1nat,
    {
        let _ = self.expect_token(TokenKind::NewBlock)?;
        let parameters = self.parse_block_parameters()?;
        let locals = self.parse_locals()?;
        let body = self.parse_body()?;
        let _ = self.expect_token(TokenKind::EndBlock)?;

        let expression = Expression::Block { parameters, locals, body };
        proof {
            expression.lemma_model_of_list();
        }
        Ok(expression)
    }

    /// Reads an expression in round brackets.
    pub fn parse_expression_nested_term(&mut self) -> (result: Result<Expression>)
        requires
            old(self).wf(),
        ensures
            follows_on(
                *old(self),
                *final(self),
                result,
                grammar::expression_nested_term(old(self).input(), old(self).progress()),
            ),
        decreases old(self).input().source.len() - old(self).progress().cursor, 1nat,
    {
        let _ = self.expect_token(TokenKind::NewTerm)?;
        let expression = self.parse_expression()?;
        let _ = self.expect_token(TokenKind::EndTerm)?;

        Ok(expression)
    }

    /// Reads what stands behind a pound sign: an array or a symbol.
    pub fn parse_expression_pound(&mut self) -> (result: Result<Expression>)
        requires
            old(self).wf(),
        ensures
            follows_on(
                *old(self),
                *final(self),
                result,
                grammar::expression_pound(old(self).input(), old(self).progress()),
            ),
        decreases old(self).input().source.len() - old(self).progress().cursor, 1nat,
    {
        let _ = self.expect_token(TokenKind::Pound)?;
        if self.peek_token_kind()? == TokenKind::NewTerm {
            self.parse_expression_array()
        } else {
            self.parse_expression_symbol()
        }
    }

    /// Reads a primary expression.
    pub fn parse_expression_primary(&mut self) -> (result: Result<Expression>)
        requires
            old(self).wf(),
        ensures
            follows_on(
                *old(self),
                *final(self),
                result,
                grammar::expression_primary(old(self).input(), old(self).progress()),
            ),
        decreases old(self).input().source.len() - old(self).progress().cursor, 2nat,
    {
        match self.peek_token_kind()? {
            TokenKind::Double => self.parse_expression_number(false),
            TokenKind::Identifier => self.parse_expression_identifier(),
            TokenKind::Integer => self.parse_expression_number(false),
            TokenKind::Minus => self.parse_expression_negative_number(),
            TokenKind::NewBlock => self.parse_expression_nested_block(),
            TokenKind::NewTerm => self.parse_expression_nested_term(),
            TokenKind::Pound => self.parse_expression_pound(),
            TokenKind::String => self.parse_expression_string(),
            kind => {
                let kinds = [
                    TokenKind::Double,
                    TokenKind::Identifier,
                    TokenKind::Integer,
                    TokenKind::Minus,
                    TokenKind::NewBlock,
                    TokenKind::NewTerm,
                    TokenKind::Pound,
                    TokenKind::String,
                ];
                proof {
                    assert(kinds@ =~= grammar::primary_kinds());
                    if grammar::primary_kinds().contains(kind) {
                        lemma_primary_kinds(kind);
                    }
                }
                match self.expect_token_one_of(&kinds) {
                    Err(error) => Err(error),
                    Ok(_) => vstd::pervasive::unreached(),
                }
            },
        }
    }

    /// Reads a caret and the expression whose value is returned.
    pub fn parse_expression_result(&mut self) -> (result: Result<Expression>)
        requires
            old(self).wf(),
        ensures
            follows_on(
                *old(self),
                *final(self),
                result,
                grammar::expression_result(old(self).input(), old(self).progress()),
            ),
        decreases old(self).input().source.len() - old(self).progress().cursor, 1nat,
    {
        let _ = self.expect_token(TokenKind::Exit)?;
        let statement = Box::new(self.parse_expression()?);
        Ok(Expression::Return(statement))
    }

    /// Reads the statements of a method or a block, up to its closing
    /// bracket.
    pub fn parse_body(&mut self) -> (result: Result<Vec<Expression>>)
        requires
            old(self).wf(),
        ensures
            follows(
                *old(self),
                *final(self),
                result,
                grammar::body(old(self).input(), old(self).progress()),
            ),
        decreases old(self).input().source.len() - old(self).progress().cursor, 12nat,
    {
        let ghost input = self.input();
        let ghost at = self.progress();
        let mut expressions: Vec<Expression> = Vec::new();
        proof {
            lemma_empty(expressions);
        }
        loop
            invariant
                self.wf(),
                self.input() == input,
                input == old(self).input(),
                at == old(self).progress(),
                at.cursor <= self.progress().cursor,
                grammar::body_rest(input, self.progress(), expressions.deep_view())
                    == grammar::body(input, at),
            ensures
                self.wf(),
                self.input() == input,
                at.cursor <= self.progress().cursor,
                grammar::body(input, at) == Ok::<(Seq<ExpressionView>, Progress), ErrorView>(
                    (expressions.deep_view(), self.progress()),
                ),
            decreases input.source.len() - self.progress().cursor,
        {
            let kind = self.peek_token_kind()?;
            if kind == TokenKind::EndTerm || kind == TokenKind::EndBlock {
                break ;
            }
            let statement = if kind == TokenKind::Exit {
                self.parse_expression_result()?
            } else {
                self.parse_expression()?
            };
            let ghost before = expressions;
            expressions.push(statement);
            proof {
                lemma_pushed(before, expressions, statement);
            }

            if self.peek_token_kind()? == TokenKind::Period {
                let _ = self.expect_token(TokenKind::Period)?;
            }
        }

        Ok(expressions)
    }

    /// Reads a method: its pattern and either the word `primitive` or its
    /// body in round brackets.
    pub fn parse_method(&mut self) -> (result: Result<Method>)
        requires
            old(self).wf(),
        ensures
            follows_on(
                *old(self),
                *final(self),
                result,
                grammar::method(old(self).input(), old(self).progress()),
            ),
    {
        let (name, parameters) = self.parse_pattern()?;
        let _ = self.expect_token(TokenKind::Equal)?;

        let method = if self.peek_token_kind()? == TokenKind::Primitive {
            let _ = self.expect_token(TokenKind::Primitive)?;
            Method::Primitive { name, parameters }
        } else {
            let _ = self.expect_token(TokenKind::NewTerm)?;
            let locals = self.parse_locals()?;
            let body = self.parse_body()?;
            let _ = self.expect_token(TokenKind::EndTerm)?;
            Method::Native { name, parameters, locals, body }
        };

        Ok(method)
    }

    /// Reads the methods that stand next and keeps each under its
    /// selector.
    pub fn parse_methods(&mut self) -> (result: Result<Methods>)
        requires
            old(self).wf(),
        ensures
            follows(
                *old(self),
                *final(self),
                result,
                grammar::methods(old(self).input(), old(self).progress()),
            ),
            result matches Ok(methods) ==> methods.wf(),
    {
        let ghost input = self.input();
        let ghost at = self.progress();
        let mut methods = Methods::new();

        loop
            invariant
                self.wf(),
                methods.wf(),
                self.input() == input,
                input == old(self).input(),
                at == old(self).progress(),
                at.cursor <= self.progress().cursor,
                grammar::methods_rest(input, self.progress(), methods.deep_view())
                    == grammar::methods(input, at),
            ensures
                self.wf(),
                methods.wf(),
                self.input() == input,
                at.cursor <= self.progress().cursor,
                grammar::methods(input, at) == Ok::<(MethodsView, Progress), ErrorView>(
                    (methods.deep_view(), self.progress()),
                ),
            decreases input.source.len() - self.progress().cursor,
        {
            let kind = self.peek_token_kind()?;
            if !(kind == TokenKind::Identifier || kind == TokenKind::Keyword || kind
                == TokenKind::OperatorSequence || kind.is_binary_operator()) {
                break ;
            }
            let method = self.parse_method()?;
            methods.insert(method);
        }

        Ok(methods)
    }

    /// Parses a class.
    pub fn parse(&mut self) -> (result: Result<Class>)
        requires
            old(self).wf(),
        ensures
            follows_on(
                *old(self),
                *final(self),
                result,
                grammar::class(old(self).input(), old(self).progress()),
            ),
            result matches Ok(class) ==> class.instance_methods.wf() && class.class_methods.wf(),
    {
        let ghost input = self.input();
        let ghost at = self.progress();
        let token = self.expect_token(TokenKind::Identifier)?;
        proof {
            grammar::lemma_expect_advances(input, at, seq![TokenKind::Identifier]);
        }
        let name = take_text(token);
        let _ = self.expect_token(TokenKind::Equal)?;

        let superclass = if self.peek_token_kind()? == TokenKind::Identifier {
            let ghost here = self.progress();
            let token = self.expect_token(TokenKind::Identifier)?;
            proof {
                grammar::lemma_expect_advances(input, here, seq![TokenKind::Identifier]);
            }
            Some(take_text(token))
        } else {
            None
        };

        let _ = self.expect_token(TokenKind::NewTerm)?;

        let instance_variables = self.parse_locals()?;
        let instance_methods = self.parse_methods()?;

        let separator = match self.peek_token_kind() {
            Ok(kind) => kind == TokenKind::Separator,
            Err(_) => false,
        };
        let class_variables;
        let class_methods;
        if separator {
            let _ = self.expect_token(TokenKind::Separator)?;
            class_variables = self.parse_locals()?;
            class_methods = self.parse_methods()?;
        } else {
            class_variables = Vec::new();
            class_methods = Methods::new();
            proof {
                lemma_empty(class_variables);
            }
        }

        let _ = self.expect_token(TokenKind::EndTerm)?;

        Ok(
            Class {
                name,
                superclass,
                class_methods,
                class_variables,
                instance_methods,
                instance_variables,
            },
        )
    }
}

} // verus!
