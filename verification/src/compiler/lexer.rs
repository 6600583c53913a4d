//! The lexer: cuts a source text into tokens, one per call.

use crate::compiler::chars::{is_digit, is_letter, is_operator, is_whitespace, operator, CharClass};
use crate::compiler::lexical::{
    all_dashes, comment_end, escaped, lemma_run_end_bounds, lemma_scan_bounds, lex, location_at,
    line_start, newlines_before, run_end, scan, scan_colon, scan_number, scan_operator,
    scan_string, scan_word, skip_blank, string_body, token, LexError, Lexed, Outcome,
};
use crate::compiler::token::{Token, TokenKind, TokenView};
use crate::compiler::Location;
use std::collections::VecDeque;
use vstd::prelude::*;

verus! {

/// `String::push` of the standard library: the character is put behind the
/// characters that the string holds.
pub assume_specification[ std::string::String::push ](text: &mut std::string::String, c: char)
    ensures
        final(text)@ == old(text)@.push(c),
;

/// The source text with a cursor in it, and the line and column of the
/// cursor.
pub(crate) struct PeekableBuffer {
    source: Vec<char>,
    position: usize,
    newlines: usize,
    line_start: usize,
}

impl PeekableBuffer {
    /// The text.
    pub closed spec fn source(&self) -> Seq<char> {
        self.source@
    }

    /// The place of the cursor.
    pub closed spec fn position(&self) -> int {
        self.position as int
    }

    /// The cursor lies within the text or at its end, and line and column
    /// are those of the cursor.
    pub closed spec fn wf(&self) -> bool {
        &&& self.position <= self.source.len()
        &&& self.newlines == newlines_before(self.source@, self.position as int)
        &&& self.line_start == line_start(self.source@, self.position as int)
        &&& self.newlines <= self.position
        &&& self.line_start <= self.position
    }

    /// A buffer over the characters of `source`, with the cursor at the
    /// start.
    pub fn new(source: &str) -> (buffer: PeekableBuffer)
        ensures
            buffer.wf(),
            buffer.source() == source@,
            buffer.position() == 0,
    {
        let mut characters: Vec<char> = Vec::new();
        for c in it: source.chars()
            invariant
                characters@ == it.seq().take(it.index()),
        {
            characters.push(c);
        }
        PeekableBuffer { source: characters, position: 0, newlines: 0, line_start: 0 }
    }

    /// The character at the cursor, if the text has not ended.
    pub fn peek(&self) -> (c: Option<char>)
        requires
            self.wf(),
        ensures
            c == if self.position() < self.source().len() {
                Some(self.source()[self.position()])
            } else {
                None
            },
    {
        if self.position < self.source.len() {
            Some(self.source[self.position])
        } else {
            None
        }
    }

    /// Moves the cursor over one character; at the end of the text it stays.
    pub fn consume(&mut self)
        requires
            old(self).wf(),
        ensures
            final(self).wf(),
            final(self).source() == old(self).source(),
            final(self).position() == if old(self).position() < old(self).source().len() {
                old(self).position() + 1
            } else {
                old(self).position()
            },
    {
        if self.position < self.source.len() {
            let c = self.source[self.position];
            self.position = self.position + 1;
            if c == '\n' {
                self.newlines = self.newlines + 1;
                self.line_start = self.position;
            }
        }
    }

    /// Line and column of the cursor.
    pub fn current_location(&self) -> (location: Location)
        requires
            self.wf(),
            self.position() < self.source().len(),
        ensures
            location == location_at(self.source(), self.position()),
    {
        Location { line: self.newlines + 1, column: self.position - self.line_start }
    }

    /// Moves the cursor over the characters of `class` that stand at it, and
    /// appends them to `text`.
    fn read_run(&mut self, class: CharClass, text: &mut String)
        requires
            old(self).wf(),
        ensures
            final(self).wf(),
            final(self).source() == old(self).source(),
            final(self).position() == run_end(old(self).source(), old(self).position(), class),
            old(self).position() <= final(self).position() <= old(self).source().len(),
            final(text)@ == old(text)@ + old(self).source().subrange(
                old(self).position(),
                final(self).position(),
            ),
    {
        let ghost start = self.position();
        let ghost before = text@;
        proof {
            assert(before + self.source().subrange(start, start) =~= before);
        }
        loop
            invariant
                self.wf(),
                self.source() == old(self).source(),
                start == old(self).position(),
                start <= self.position() <= self.source().len(),
                run_end(self.source(), self.position(), class) == run_end(
                    self.source(),
                    start,
                    class,
                ),
                text@ == before + self.source().subrange(start, self.position()),
            ensures
                self.position() == run_end(self.source(), start, class),
            decreases self.source().len() - self.position(),
        {
            match self.peek() {
                Some(c) => {
                    if class.holds(c) {
                        proof {
                            assert(before + self.source().subrange(start, self.position() + 1)
                                =~= (before + self.source().subrange(
                                start,
                                self.position(),
                            )).push(c));
                        }
                        text.push(c);
                        self.consume();
                    } else {
                        break ;
                    }
                },
                None => {
                    break ;
                },
            }
        }
    }
}

/// Cuts a source text into tokens.
pub struct Lexer {
    buffer: PeekableBuffer,
    queue: VecDeque<Token>,
}

/// `result` is what a lexer hands out for `outcome`.
pub open spec fn produced(result: Result<Option<Token>, LexError>, outcome: Outcome) -> bool {
    match outcome {
        Outcome::End => result matches Ok(None),
        Outcome::Token(expected) => result matches Ok(Some(token)) && token@ == expected,
        Outcome::Failure(error) => result matches Err(e) && e == error,
    }
}

impl Lexer {
    /// The text that is read.
    pub closed spec fn source(&self) -> Seq<char> {
        self.buffer.source()
    }

    /// The place up to which the text has been turned into tokens that were
    /// handed out.
    pub closed spec fn cursor(&self) -> int {
        self.buffer.position() - self.queue@.len()
    }

    /// The cursor lies within the text. At most one token waits to be
    /// handed out: the period that was read behind an integer.
    pub closed spec fn wf(&self) -> bool {
        &&& self.buffer.wf()
        &&& self.queue@.len() <= 1
        &&& self.queue@.len() == 1 ==> {
            &&& self.buffer.position() >= 1
            &&& self.buffer.source()[self.buffer.position() - 1] == '.'
            &&& self.queue@[0]@ == TokenView {
                kind: TokenKind::Period,
                text: None,
                location: location_at(self.buffer.source(), self.buffer.position() - 1),
            }
        }
    }

    /// A lexer at the start of `source`.
    pub fn new(source: &str) -> (lexer: Lexer)
        ensures
            lexer.wf(),
            lexer.source() == source@,
            lexer.cursor() == 0,
    {
        Lexer { buffer: PeekableBuffer::new(source), queue: VecDeque::new() }
    }

    /// The cursor of a lexer lies within its text.
    pub proof fn lemma_cursor_bounds(&self)
        requires
            self.wf(),
        ensures
            0 <= self.cursor() <= self.source().len(),
    {
    }

    /// The next item of the token sequence: a token, a failure, or nothing
    /// once the text has ended.
    pub fn next(&mut self) -> (item: Option<Result<Token, LexError>>)
        requires
            old(self).wf(),
        ensures
            final(self).wf(),
            final(self).source() == old(self).source(),
            final(self).cursor() == scan(old(self).source(), old(self).cursor()).next,
            match scan(old(self).source(), old(self).cursor()).outcome {
                Outcome::End => item is None,
                Outcome::Token(expected) => item matches Some(Ok(token)) && token@ == expected,
                Outcome::Failure(error) => item matches Some(Err(e)) && e == error,
            },
    {
        match self.read_token() {
            Ok(Some(t)) => Some(Ok(t)),
            Ok(None) => None,
            Err(e) => Some(Err(e)),
        }
    }

    /// Reads the text to its end: all tokens that are left, or the first
    /// failure.
    pub fn collect(self) -> (result: Result<Vec<Token>, LexError>)
        requires
            self.wf(),
        ensures
            match lex(self.source(), self.cursor()).failure {
                None => result matches Ok(tokens) && tokens.deep_view() == lex(
                    self.source(),
                    self.cursor(),
                ).tokens,
                Some(error) => result == Err::<Vec<Token>, LexError>(error),
            },
    {
        let mut lexer = self;
        let mut tokens: Vec<Token> = Vec::new();
        proof {
            assert(tokens.deep_view() =~= Seq::<TokenView>::empty());
            self.lemma_cursor_bounds();
        }
        loop
            invariant
                lexer.wf(),
                lexer.source() == self.source(),
                0 <= lexer.cursor() <= lexer.source().len(),
                lex(self.source(), self.cursor()) == (Lexed {
                    tokens: tokens.deep_view() + lex(lexer.source(), lexer.cursor()).tokens,
                    failure: lex(lexer.source(), lexer.cursor()).failure,
                }),
            decreases lexer.source().len() - lexer.cursor(),
        {
            let ghost here = lexer.cursor();
            proof {
                lemma_scan_bounds(lexer.source(), here);
            }
            match lexer.next() {
                None => {
                    proof {
                        assert(tokens.deep_view() + Seq::<TokenView>::empty()
                            =~= tokens.deep_view());
                    }
                    return Ok(tokens);
                },
                Some(Err(error)) => {
                    return Err(error);
                },
                Some(Ok(token)) => {
                    let ghost before = tokens;
                    tokens.push(token);
                    proof {
                        let rest = lex(lexer.source(), lexer.cursor());
                        assert(tokens.deep_view() =~= before.deep_view().push(token@));
                        assert(before.deep_view() + (seq![token@] + rest.tokens)
                            =~= tokens.deep_view() + rest.tokens);
                    }
                },
            }
        }
    }

    /// Reads the next token: skips white space and comments, then reads the
    /// token that the character at the cursor starts.
    pub fn read_token(&mut self) -> (result: Result<Option<Token>, LexError>)
        requires
            old(self).wf(),
        ensures
            final(self).wf(),
            final(self).source() == old(self).source(),
            final(self).cursor() == scan(old(self).source(), old(self).cursor()).next,
            produced(result, scan(old(self).source(), old(self).cursor()).outcome),
    {
        if self.queue.len() > 0 {
            let waiting = self.queue.pop_front();
            assert(skip_blank(self.source(), old(self).cursor()) == old(self).cursor());
            return Ok(waiting);
        }
        self.skip_blank();

        let c = match self.buffer.peek() {
            Some(c) => c,
            None => {
                return Ok(None);
            },
        };

        match c {
            '[' => self.read_symbol(TokenKind::NewBlock),
            ']' => self.read_symbol(TokenKind::EndBlock),
            '(' => self.read_symbol(TokenKind::NewTerm),
            ')' => self.read_symbol(TokenKind::EndTerm),
            '#' => self.read_symbol(TokenKind::Pound),
            '^' => self.read_symbol(TokenKind::Exit),
            '.' => self.read_symbol(TokenKind::Period),
            ':' => self.read_colon(),
            '\'' => self.read_string(),
            c => {
                if is_digit(c) {
                    self.read_number()
                } else if is_letter(c) {
                    self.read_identifier()
                } else if is_operator(c) {
                    self.read_operator()
                } else {
                    Err(
                        LexError::UnrecognizedCharacter {
                            character: c,
                            location: self.buffer.current_location(),
                        },
                    )
                }
            },
        }
    }

    /// Moves over white space and comments.
    fn skip_blank(&mut self)
        requires
            old(self).wf(),
            old(self).queue@.len() == 0,
        ensures
            final(self).wf(),
            final(self).queue@.len() == 0,
            final(self).source() == old(self).source(),
            final(self).cursor() == skip_blank(old(self).source(), old(self).cursor()),
            final(self).cursor() <= final(self).source().len(),
    {
        loop
            invariant
                self.wf(),
                self.queue@.len() == 0,
                self.source() == old(self).source(),
                skip_blank(self.source(), self.cursor()) == skip_blank(
                    old(self).source(),
                    old(self).cursor(),
                ),
            ensures
                self.cursor() == skip_blank(old(self).source(), old(self).cursor()),
            decreases self.source().len() - self.cursor(),
        {
            match self.buffer.peek() {
                Some(c) => {
                    if c == '"' {
                        self.skip_comment();
                    } else if is_whitespace(c) {
                        self.buffer.consume();
                    } else {
                        break ;
                    }
                },
                None => {
                    break ;
                },
            }
        }
    }

    /// Moves over the comment that starts at the cursor: to behind the next
    /// double quote, or to the end of the text if there is none.
    fn skip_comment(&mut self)
        requires
            old(self).wf(),
            old(self).queue@.len() == 0,
            old(self).cursor() < old(self).source().len(),
            old(self).source()[old(self).cursor()] == '"',
        ensures
            final(self).wf(),
            final(self).queue@.len() == 0,
            final(self).source() == old(self).source(),
            final(self).cursor() == comment_end(old(self).source(), old(self).cursor() + 1),
            old(self).cursor() < final(self).cursor(),
    {
        self.buffer.consume();
        loop
            invariant_except_break
                comment_end(self.source(), self.cursor()) == comment_end(
                    old(self).source(),
                    old(self).cursor() + 1,
                ),
            invariant
                self.wf(),
                self.queue@.len() == 0,
                self.source() == old(self).source(),
                0 <= old(self).cursor() < self.cursor() <= self.source().len(),
            ensures
                self.cursor() == comment_end(old(self).source(), old(self).cursor() + 1),
            decreases self.source().len() - self.cursor(),
        {
            match self.buffer.peek() {
                Some(c) => {
                    self.buffer.consume();
                    if c == '"' {
                        break ;
                    }
                },
                None => {
                    break ;
                },
            }
        }
    }

    /// Reads a token that is one character long.
    fn read_symbol(&mut self, kind: TokenKind) -> (result: Result<Option<Token>, LexError>)
        requires
            old(self).wf(),
            old(self).queue@.len() == 0,
            old(self).cursor() < old(self).source().len(),
        ensures
            final(self).wf(),
            final(self).source() == old(self).source(),
            final(self).cursor() == old(self).cursor() + 1,
            produced(
                result,
                token(old(self).source(), old(self).cursor(), kind, None, old(self).cursor() + 1).outcome,
            ),
    {
        let location = self.buffer.current_location();
        self.buffer.consume();
        Ok(Some(Token::new(kind, None, location)))
    }

    /// Reads a colon or an assignment.
    fn read_colon(&mut self) -> (result: Result<Option<Token>, LexError>)
        requires
            old(self).wf(),
            old(self).queue@.len() == 0,
            old(self).cursor() < old(self).source().len(),
        ensures
            final(self).wf(),
            final(self).source() == old(self).source(),
            final(self).cursor() == scan_colon(old(self).source(), old(self).cursor()).next,
            produced(result, scan_colon(old(self).source(), old(self).cursor()).outcome),
    {
        let location = self.buffer.current_location();
        self.buffer.consume();

        let kind = match self.buffer.peek() {
            Some('=') => {
                self.buffer.consume();
                TokenKind::Assign
            },
            _ => TokenKind::Colon,
        };

        Ok(Some(Token::new(kind, None, location)))
    }

    /// Reads a name: an identifier, a keyword, a sequence of keywords, or
    /// the word `primitive`.
    fn read_identifier(&mut self) -> (result: Result<Option<Token>, LexError>)
        requires
            old(self).wf(),
            old(self).queue@.len() == 0,
            old(self).cursor() < old(self).source().len(),
        ensures
            final(self).wf(),
            final(self).source() == old(self).source(),
            final(self).cursor() == scan_word(old(self).source(), old(self).cursor()).next,
            produced(result, scan_word(old(self).source(), old(self).cursor()).outcome),
    {
        let ghost source = self.source();
        let ghost start = self.cursor();
        let location = self.buffer.current_location();
        let mut text = String::new();
        self.buffer.read_run(CharClass::Word, &mut text);
        let ghost name_end = self.cursor();
        proof {
            assert(text@ =~= source.subrange(start, name_end));
        }

        let token = match self.buffer.peek() {
            Some(':') => {
                text.push(':');
                self.buffer.consume();
                proof {
                    assert(text@ =~= source.subrange(start, name_end + 1));
                }
                let follows = match self.buffer.peek() {
                    Some(c) => is_letter(c),
                    None => false,
                };
                if follows {
                    self.buffer.read_run(CharClass::KeywordPart, &mut text);
                    proof {
                        lemma_run_end_bounds(source, name_end + 1, CharClass::KeywordPart);
                        assert(text@ =~= source.subrange(start, self.cursor()));
                    }
                    Token::new(TokenKind::KeywordSequence, Some(text), location)
                } else {
                    Token::new(TokenKind::Keyword, Some(text), location)
                }
            },
            _ => {
                if text == "primitive".to_owned() {
                    Token::new(TokenKind::Primitive, None, location)
                } else {
                    Token::new(TokenKind::Identifier, Some(text), location)
                }
            },
        };

        Ok(Some(token))
    }

    /// Reads a number. A period behind the digits belongs to the number only
    /// if a digit follows it; if none does, the period is kept as the next
    /// token.
    fn read_number(&mut self) -> (result: Result<Option<Token>, LexError>)
        requires
            old(self).wf(),
            old(self).queue@.len() == 0,
            old(self).cursor() < old(self).source().len(),
        ensures
            final(self).wf(),
            final(self).source() == old(self).source(),
            final(self).cursor() == scan_number(old(self).source(), old(self).cursor()).next,
            produced(result, scan_number(old(self).source(), old(self).cursor()).outcome),
    {
        let ghost source = self.source();
        let ghost start = self.cursor();
        let location = self.buffer.current_location();
        let mut text = String::new();
        self.buffer.read_run(CharClass::Digit, &mut text);
        let ghost whole = self.cursor();
        proof {
            assert(text@ =~= source.subrange(start, whole));
        }

        match self.buffer.peek() {
            Some('.') => {
                let period_location = self.buffer.current_location();
                self.buffer.consume();

                let follows = match self.buffer.peek() {
                    Some(c) => is_digit(c),
                    None => false,
                };
                if follows {
                    text.push('.');
                    self.buffer.read_run(CharClass::Digit, &mut text);
                    proof {
                        lemma_run_end_bounds(source, whole + 1, CharClass::Digit);
                        assert(text@ =~= source.subrange(start, self.cursor()));
                    }
                    Ok(Some(Token::new(TokenKind::Double, Some(text), location)))
                } else {
                    self.queue.push_back(Token::new(TokenKind::Period, None, period_location));
                    Ok(Some(Token::new(TokenKind::Integer, Some(text), location)))
                }
            },
            _ => Ok(Some(Token::new(TokenKind::Integer, Some(text), location))),
        }
    }

    /// Reads an operator, an operator sequence or a separator.
    fn read_operator(&mut self) -> (result: Result<Option<Token>, LexError>)
        requires
            old(self).wf(),
            old(self).queue@.len() == 0,
            old(self).cursor() < old(self).source().len(),
            operator(old(self).source()[old(self).cursor()]),
        ensures
            final(self).wf(),
            final(self).source() == old(self).source(),
            final(self).cursor() == scan_operator(old(self).source(), old(self).cursor()).next,
            produced(result, scan_operator(old(self).source(), old(self).cursor()).outcome),
    {
        let ghost source = self.source();
        let ghost start = self.cursor();
        let location = self.buffer.current_location();
        let first = self.buffer.source[self.buffer.position];
        let mut sequence = String::new();
        let mut length: usize = 0;
        let mut dashes = true;

        loop
            invariant
                self.wf(),
                self.queue@.len() == 0,
                self.source() == source,
                source == old(self).source(),
                0 <= start <= self.cursor() <= source.len(),
                run_end(source, self.cursor(), CharClass::Operator) == run_end(
                    source,
                    start,
                    CharClass::Operator,
                ),
                sequence@ == source.subrange(start, self.cursor()),
                length == self.cursor() - start,
                dashes == all_dashes(source.subrange(start, self.cursor())),
            ensures
                self.cursor() == run_end(source, start, CharClass::Operator),
            decreases source.len() - self.cursor(),
        {
            match self.buffer.peek() {
                Some(c) => {
                    if is_operator(c) {
                        proof {
                            let shorter = source.subrange(start, self.cursor());
                            let longer = source.subrange(start, self.cursor() + 1);
                            assert(longer =~= shorter.push(c));
                            if all_dashes(longer) {
                                assert forall|i: int| 0 <= i < shorter.len() implies shorter[i]
                                    == '-' by {
                                    assert(longer[i] == '-');
                                }
                                assert(longer[shorter.len() as int] == '-');
                            }
                        }
                        self.buffer.consume();
                        sequence.push(c);
                        length = length + 1;
                        dashes = dashes && c == '-';
                    } else {
                        break ;
                    }
                },
                None => {
                    break ;
                },
            }
        }

        if length > 1 {
            if dashes && length >= 4 {
                Ok(Some(Token::new(TokenKind::Separator, None, location)))
            } else {
                Ok(Some(Token::new(TokenKind::OperatorSequence, Some(sequence), location)))
            }
        } else {
            let kind = match first {
                '~' => TokenKind::Not,
                '&' => TokenKind::And,
                '|' => TokenKind::Or,
                '*' => TokenKind::Star,
                '/' => TokenKind::Divide,
                '\\' => TokenKind::Modulus,
                '+' => TokenKind::Plus,
                '=' => TokenKind::Equal,
                '>' => TokenKind::More,
                '<' => TokenKind::Less,
                ',' => TokenKind::Comma,
                '@' => TokenKind::At,
                '%' => TokenKind::Percent,
                _ => TokenKind::Minus,
            };
            proof {
                lemma_run_end_bounds(source, start + 1, CharClass::Operator);
                assert(sequence@ =~= seq![first]);
            }
            Ok(Some(Token::new(kind, Some(sequence), location)))
        }
    }

    /// Reads a string, with what its escapes stand for put in their place.
    fn read_string(&mut self) -> (result: Result<Option<Token>, LexError>)
        requires
            old(self).wf(),
            old(self).queue@.len() == 0,
            old(self).cursor() < old(self).source().len(),
        ensures
            final(self).wf(),
            final(self).source() == old(self).source(),
            final(self).cursor() == scan_string(old(self).source(), old(self).cursor()).next,
            produced(result, scan_string(old(self).source(), old(self).cursor()).outcome),
    {
        let ghost source = self.source();
        let ghost start = self.cursor();
        let location = self.buffer.current_location();
        let mut text = String::new();

        self.buffer.consume();

        loop
            invariant
                self.wf(),
                self.queue@.len() == 0,
                self.source() == source,
                source == old(self).source(),
                start == old(self).cursor(),
                0 <= start < self.cursor() <= source.len(),
                location == location_at(source, start),
                string_body(source, start + 1) == with_prefix(
                    text@,
                    string_body(source, self.cursor()),
                ),
            decreases source.len() - self.cursor(),
        {
            let c = match self.buffer.peek() {
                Some(c) => c,
                None => {
                    return Err(LexError::UnterminatedString { location });
                },
            };
            self.buffer.consume();
            if c == '\\' {
                let e = match self.buffer.peek() {
                    Some(e) => e,
                    None => {
                        return Err(LexError::UnterminatedString { location });
                    },
                };
                self.buffer.consume();
                proof {
                    lemma_with_prefix(text@, escaped(e), string_body(source, self.cursor()));
                }
                match e {
                    '\'' => text.push('\''),
                    '\\' => text.push('\\'),
                    'b' => text.push('\u{8}'),
                    'f' => text.push('\u{c}'),
                    'n' => text.push('\n'),
                    'r' => text.push('\r'),
                    't' => text.push('\t'),
                    _ => {},
                }
            } else if c != '\'' {
                proof {
                    lemma_with_prefix(text@, Some(c), string_body(source, self.cursor()));
                }
                text.push(c);
            } else {
                proof {
                    assert(text@ + Seq::<char>::empty() =~= text@);
                }
                return Ok(Some(Token::new(TokenKind::String, Some(text), location)));
            }
        }
    }
}

/// The rest of a string with the characters `prefix` put before it.
pub open spec fn with_prefix(prefix: Seq<char>, rest: Option<(Seq<char>, int)>) -> Option<
    (Seq<char>, int),
> {
    match rest {
        Some((text, end)) => Some((prefix + text, end)),
        None => None,
    }
}

/// Putting a character behind the prefix is the same as putting it before
/// the rest.
proof fn lemma_with_prefix(prefix: Seq<char>, c: Option<char>, rest: Option<(Seq<char>, int)>)
    ensures
        with_prefix(
            prefix,
            match rest {
                Some((text, end)) => match c {
                    Some(c) => Some((seq![c] + text, end)),
                    None => Some((text, end)),
                },
                None => None,
            },
        ) == with_prefix(
            match c {
                Some(c) => prefix.push(c),
                None => prefix,
            },
            rest,
        ),
{
    if let Some((text, end)) = rest {
        if let Some(c) = c {
            assert(prefix + (seq![c] + text) =~= prefix.push(c) + text);
        }
    }
}

} // verus!
