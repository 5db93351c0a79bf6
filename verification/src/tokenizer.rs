//! The tokenizer: one forward pass from raw bytes to tokens and their lines.
use crate::text::{ascii_text, ascii_text_of, text_of};
use crate::token::{token_views, Token, TokenView};
use vstd::prelude::*;
use vstd::string::*;
use vstd::utf8::*;

verus! {

/// The bytes that the lexical rules name.
pub const NEWLINE: u8 = 10;
pub const SPACE: u8 = 32;
pub const QUOTE: u8 = 34;
pub const HASH: u8 = 35;
pub const LPAREN: u8 = 40;
pub const RPAREN: u8 = 41;
pub const STAR: u8 = 42;
pub const PLUS: u8 = 43;
pub const COMMA: u8 = 44;
pub const MINUS: u8 = 45;
pub const DIGIT_0: u8 = 48;
pub const DIGIT_9: u8 = 57;
pub const COLON: u8 = 58;
pub const SEMICOLON: u8 = 59;
pub const LESS: u8 = 60;
pub const EQUALS: u8 = 61;
pub const GREATER: u8 = 62;
pub const UPPER_A: u8 = 65;
pub const UPPER_Z: u8 = 90;
pub const UNDERSCORE: u8 = 95;
pub const LOWER_A: u8 = 97;
pub const LOWER_Z: u8 = 122;

/// Why a source could not be tokenized.
#[derive(Debug, Clone, Copy, PartialEq, Eq)]
pub enum LexError {
    /// A byte that starts no token and is not whitespace, with its line.
    /// Digits are among them: the language has no numeric literals.
    UnrecognizedByte { byte: u8, line: u16 },
    /// A string literal that the input ends in, with the line it opens on.
    UnterminatedString { line: u16 },
    /// A string literal whose bytes are not well-formed UTF-8, with its line.
    InvalidText { line: u16 },
    /// A line number, or the closing entry of the line table, beyond 65535.
    TooManyLines,
}

/// The three kinds of run that a sub-scanner walks over.
pub enum Run {
    /// The rest of a comment: everything up to a newline.
    Comment,
    /// The inside of a string literal: everything up to a double quote.
    Literal,
    /// The rest of a word: letters, digits and underscores.
    Word,
}

/// A letter or an underscore: what a word may start with.
pub open spec fn is_header(byte: u8) -> bool {
    (LOWER_A <= byte <= LOWER_Z) || (UPPER_A <= byte <= UPPER_Z) || byte == UNDERSCORE
}

/// A letter, a digit or an underscore: what a word may go on with.
pub open spec fn is_letter(byte: u8) -> bool {
    is_header(byte) || (DIGIT_0 <= byte <= DIGIT_9)
}

/// Whether a byte belongs to a run of the given kind.
pub open spec fn within(run: Run, byte: u8) -> bool {
    match run {
        Run::Comment => byte != NEWLINE,
        Run::Literal => byte != QUOTE,
        Run::Word => is_letter(byte),
    }
}

/// The number of bytes from `pos` on that belong to the run, up to the first
/// byte that does not or to the end of the source.
pub open spec fn run_len(src: Seq<u8>, pos: int, run: Run) -> nat
    decreases src.len() - pos,
{
    if 0 <= pos < src.len() && within(run, src[pos]) {
        1 + run_len(src, pos + 1, run)
    } else {
        0
    }
}

/// The token that a single byte stands for, if it is punctuation or an operator.
pub open spec fn punctuation(byte: u8) -> Option<TokenView> {
    if byte == LPAREN {
        Some(TokenView::LParen)
    } else if byte == RPAREN {
        Some(TokenView::RParen)
    } else if byte == PLUS {
        Some(TokenView::Plus)
    } else if byte == MINUS {
        Some(TokenView::Sub)
    } else if byte == STAR {
        Some(TokenView::Mul)
    } else if byte == SEMICOLON {
        Some(TokenView::Semi)
    } else if byte == EQUALS {
        Some(TokenView::Eq)
    } else if byte == COLON {
        Some(TokenView::Colon)
    } else if byte == COMMA {
        Some(TokenView::Comma)
    } else if byte == LESS {
        Some(TokenView::Lt)
    } else if byte == GREATER {
        Some(TokenView::Gt)
    } else {
        None
    }
}

/// The token that a word stands for: a keyword, or else an identifier.
pub open spec fn word_token(word: Seq<u8>) -> TokenView {
    if ascii_text(word) == "let"@ {
        TokenView::Let
    } else if ascii_text(word) == "fun"@ {
        TokenView::Func
    } else {
        TokenView::Id(ascii_text(word))
    }
}

/// What tokenizing gives: the tokens, and the line table that goes with them.
pub struct Lexed {
    pub tokens: Seq<TokenView>,
    pub lines: Seq<u16>,
}

/// A result with some tokens and their lines put in front of it.
pub open spec fn prepend(
    tokens: Seq<TokenView>,
    lines: Seq<u16>,
    rest: Result<Lexed, LexError>,
) -> Result<Lexed, LexError> {
    match rest {
        Ok(l) => Ok(Lexed { tokens: tokens + l.tokens, lines: lines + l.lines }),
        Err(e) => Err(e),
    }
}

/// The meaning of the tokenizer: what scanning `src` from `pos` gives when the
/// line counter stands at `line`. The first failure met in reading order
/// decides an error.
pub open spec fn lex(src: Seq<u8>, pos: int, line: u16) -> Result<Lexed, LexError>
    decreases (if pos < src.len() { src.len() - pos } else { 0 }),
{
    if pos < 0 || pos >= src.len() {
        if line < u16::MAX {
            Ok(Lexed { tokens: seq![], lines: seq![(line + 1) as u16] })
        } else {
            Err(LexError::TooManyLines)
        }
    } else {
        let byte = src[pos];
        if byte == NEWLINE {
            if line < u16::MAX {
                lex(src, pos + 1, (line + 1) as u16)
            } else {
                Err(LexError::TooManyLines)
            }
        } else if punctuation(byte) is Some {
            prepend(seq![punctuation(byte).unwrap()], seq![line], lex(src, pos + 1, line))
        } else if byte == HASH {
            if line < u16::MAX {
                lex(src, pos + run_len(src, pos, Run::Comment) + 1, (line + 1) as u16)
            } else {
                Err(LexError::TooManyLines)
            }
        } else if byte == QUOTE {
            let close = pos + 1 + run_len(src, pos + 1, Run::Literal);
            let inside = src.subrange(pos + 1, close);
            if close >= src.len() {
                Err(LexError::UnterminatedString { line })
            } else if !valid_utf8(inside) {
                Err(LexError::InvalidText { line })
            } else {
                prepend(
                    seq![TokenView::Str(decode_utf8(inside))],
                    seq![line],
                    lex(src, close + 1, line),
                )
            }
        } else if is_header(byte) {
            let end = pos + 1 + run_len(src, pos + 1, Run::Word);
            prepend(seq![word_token(src.subrange(pos, end))], seq![line], lex(src, end, line))
        } else if byte <= SPACE {
            lex(src, pos + 1, line)
        } else {
            Err(LexError::UnrecognizedByte { byte, line })
        }
    }
}

/// A run ends inside the source.
pub proof fn lemma_run_bounded(src: Seq<u8>, pos: int, run: Run)
    requires
        0 <= pos <= src.len(),
    ensures
        pos + run_len(src, pos, run) <= src.len(),
        forall|i: int| pos <= i < pos + run_len(src, pos, run) ==> within(run, #[trigger] src[i]),
        pos + run_len(src, pos, run) < src.len() ==> !within(
            run,
            src[pos + run_len(src, pos, run)],
        ),
    decreases src.len() - pos,
{
    if pos < src.len() && within(run, src[pos]) {
        lemma_run_bounded(src, pos + 1, run);
    }
}

/// Putting tokens in front in two steps is putting all of them in front at once.
pub proof fn lemma_prepend_push(
    tokens: Seq<TokenView>,
    lines: Seq<u16>,
    token: TokenView,
    line: u16,
    rest: Result<Lexed, LexError>,
)
    ensures
        prepend(tokens, lines, prepend(seq![token], seq![line], rest)) == prepend(
            tokens.push(token),
            lines.push(line),
            rest,
        ),
{
    if let Ok(l) = rest {
        assert(tokens + (seq![token] + l.tokens) =~= tokens.push(token) + l.tokens);
        assert(lines + (seq![line] + l.lines) =~= lines.push(line) + l.lines);
    }
}

/// Whether the source from `pos` on holds nothing but punctuation, operators,
/// whitespace, newlines and comments.
pub open spec fn only_marks(src: Seq<u8>, pos: int) -> bool
    decreases (if pos < src.len() { src.len() - pos } else { 0 }),
{
    if pos < 0 || pos >= src.len() {
        true
    } else if src[pos] == HASH {
        only_marks(src, pos + run_len(src, pos, Run::Comment) + 1)
    } else {
        (punctuation(src[pos]) is Some || src[pos] <= SPACE) && only_marks(src, pos + 1)
    }
}

/// The number of punctuation and operator bytes from `pos` on that stand
/// outside comments.
pub open spec fn count_marks(src: Seq<u8>, pos: int) -> nat
    decreases (if pos < src.len() { src.len() - pos } else { 0 }),
{
    if pos < 0 || pos >= src.len() {
        0
    } else if src[pos] == HASH {
        count_marks(src, pos + run_len(src, pos, Run::Comment) + 1)
    } else if punctuation(src[pos]) is Some {
        1 + count_marks(src, pos + 1)
    } else {
        count_marks(src, pos + 1)
    }
}

/// Whenever a source tokenizes, its line table has one entry for each token
/// and one more.
pub proof fn lemma_line_table_length(src: Seq<u8>, pos: int, line: u16)
    ensures
        lex(src, pos, line) matches Ok(l) ==> l.lines.len() == l.tokens.len() + 1,
    decreases (if pos < src.len() { src.len() - pos } else { 0 }),
{
    if 0 <= pos < src.len() {
        let byte = src[pos];
        if byte == NEWLINE {
            if line < u16::MAX {
                lemma_line_table_length(src, pos + 1, (line + 1) as u16);
            }
        } else if punctuation(byte) is Some {
            lemma_line_table_length(src, pos + 1, line);
        } else if byte == HASH {
            if line < u16::MAX {
                lemma_line_table_length(
                    src,
                    pos + run_len(src, pos, Run::Comment) + 1,
                    (line + 1) as u16,
                );
            }
        } else if byte == QUOTE {
            let close = pos + 1 + run_len(src, pos + 1, Run::Literal);
            if close < src.len() {
                lemma_line_table_length(src, close + 1, line);
            }
        } else if is_header(byte) {
            lemma_run_bounded(src, pos + 1, Run::Word);
            lemma_line_table_length(src, pos + 1 + run_len(src, pos + 1, Run::Word), line);
        } else if byte <= SPACE {
            lemma_line_table_length(src, pos + 1, line);
        }
    }
}

/// Whenever a source tokenizes, no entry of its line table is below the
/// line that scanning started on, the entries never go down, and the
/// closing entry is above the starting line.
pub proof fn lemma_lines_ascend(src: Seq<u8>, pos: int, line: u16)
    ensures
        lex(src, pos, line) matches Ok(l) ==> {
            &&& l.lines.len() > 0
            &&& l.lines.last() > line
            &&& forall|i: int| 0 <= i < l.lines.len() ==> line <= #[trigger] l.lines[i]
            &&& forall|i: int, j: int|
                0 <= i <= j < l.lines.len() ==> l.lines[i] <= l.lines[j]
        },
    decreases (if pos < src.len() { src.len() - pos } else { 0 }),
{
    if 0 <= pos < src.len() {
        let byte = src[pos];
        if byte == NEWLINE {
            if line < u16::MAX {
                lemma_lines_ascend(src, pos + 1, (line + 1) as u16);
            }
        } else if punctuation(byte) is Some {
            lemma_lines_ascend(src, pos + 1, line);
        } else if byte == HASH {
            if line < u16::MAX {
                lemma_lines_ascend(
                    src,
                    pos + run_len(src, pos, Run::Comment) + 1,
                    (line + 1) as u16,
                );
            }
        } else if byte == QUOTE {
            let close = pos + 1 + run_len(src, pos + 1, Run::Literal);
            if close < src.len() {
                lemma_lines_ascend(src, close + 1, line);
            }
        } else if is_header(byte) {
            lemma_lines_ascend(src, pos + 1 + run_len(src, pos + 1, Run::Word), line);
        } else if byte <= SPACE {
            lemma_lines_ascend(src, pos + 1, line);
        }
    }
}

/// A source that holds nothing but punctuation, operators, whitespace,
/// newlines and comments gives one token for each punctuation or operator
/// byte outside its comments. Such a source fails only by having too many
/// lines.
pub proof fn lemma_marks_counted(src: Seq<u8>, pos: int, line: u16)
    requires
        only_marks(src, pos),
    ensures
        match lex(src, pos, line) {
            Ok(l) => l.tokens.len() == count_marks(src, pos) && l.lines.len() == l.tokens.len() + 1,
            Err(e) => e == LexError::TooManyLines,
        },
    decreases (if pos < src.len() { src.len() - pos } else { 0 }),
{
    if 0 <= pos < src.len() {
        let byte = src[pos];
        if byte == NEWLINE {
            if line < u16::MAX {
                lemma_marks_counted(src, pos + 1, (line + 1) as u16);
            }
        } else if punctuation(byte) is Some {
            lemma_marks_counted(src, pos + 1, line);
        } else if byte == HASH {
            if line < u16::MAX {
                lemma_marks_counted(
                    src,
                    pos + run_len(src, pos, Run::Comment) + 1,
                    (line + 1) as u16,
                );
            }
        } else {
            lemma_marks_counted(src, pos + 1, line);
        }
    }
}

/// A word reads `let` or `fun` exactly when its bytes are those letters.
pub proof fn lemma_keyword_bytes(word: Seq<u8>)
    ensures
        ascii_text(word) == "let"@ <==> word == seq![108u8, 101u8, 116u8],
        ascii_text(word) == "fun"@ <==> word == seq![102u8, 117u8, 110u8],
{
    reveal_strlit("let");
    reveal_strlit("fun");
    let text = ascii_text(word);
    assert(text.len() == word.len());
    if word == seq![108u8, 101u8, 116u8] {
        assert(text =~= "let"@);
    }
    if word == seq![102u8, 117u8, 110u8] {
        assert(text =~= "fun"@);
    }
    if text == "let"@ {
        assert(text[0] == 'l' && text[1] == 'e' && text[2] == 't');
        assert(text[0] == word[0] as char);
        assert(word[0] == 108 && word[1] == 101 && word[2] == 116);
        assert(word =~= seq![108u8, 101u8, 116u8]);
    }
    if text == "fun"@ {
        assert(text[0] == 'f' && text[1] == 'u' && text[2] == 'n');
        assert(text[0] == word[0] as char);
        assert(word[0] == 102 && word[1] == 117 && word[2] == 110);
        assert(word =~= seq![102u8, 117u8, 110u8]);
    }
}

/// A tokenizer over a byte buffer: the bytes, a cursor into them, and the
/// number of the line that the cursor is on.
pub struct Tokenizer {
    src: Vec<u8>,
    cur: usize,
    line: u16,
}

impl Tokenizer {
    /// The bytes being tokenized.
    pub closed spec fn source(&self) -> Seq<u8> {
        self.src@
    }

    /// The index of the next byte to read.
    pub closed spec fn cursor(&self) -> int {
        self.cur as int
    }

    /// The number of the line that the cursor is on.
    pub closed spec fn line_number(&self) -> u16 {
        self.line
    }

    /// The cursor is inside the source or just behind it.
    pub open spec fn wf(&self) -> bool {
        0 <= self.cursor() <= self.source().len()
    }

    /// A tokenizer at the start of `src`, on line 1.
    pub fn new(src: Vec<u8>) -> (r: Tokenizer)
        ensures
            r.wf(),
            r.source() == src@,
            r.cursor() == 0,
            r.line_number() == 1,
    {
        Tokenizer { src, cur: 0, line: 1 }
    }

    /// Tokenizes the source from the cursor on. On success the result is the
    /// tokens and the line table, which has one entry for each token and a
    /// closing entry one above the last line, and the cursor is at the end. On
    /// failure the tokenizer is left as it was.
    pub fn tokenize(&mut self) -> (r: Result<(Vec<Token>, Vec<u16>), LexError>)
        requires
            old(self).wf(),
        ensures
            final(self).wf(),
            final(self).source() == old(self).source(),
            match lex(old(self).source(), old(self).cursor(), old(self).line_number()) {
                Ok(l) => r matches Ok(out) && token_views(out.0@) == l.tokens && out.1@ == l.lines
                    && out.1@.len() == out.0@.len() + 1
                    && final(self).cursor() == old(self).source().len()
                    && final(self).line_number() + 1 == out.1@.last(),
                Err(e) => r matches Err(x) && x == e && final(self).cursor() == old(self).cursor()
                    && final(self).line_number() == old(self).line_number(),
            },
    {
        let start = self.cur;
        let start_line = self.line;
        let ghost goal = lex(self.src@, self.cur as int, self.line);
        let mut tokens: Vec<Token> = Vec::new();
        let mut lines: Vec<u16> = Vec::new();
        while self.cur < self.src.len()
            invariant
                self.cur <= self.src.len(),
                self.src@ == old(self).src@,
                start == old(self).cur,
                start_line == old(self).line,
                start <= self.src.len(),
                tokens.len() == lines.len(),
                goal == lex(old(self).src@, old(self).cur as int, old(self).line),
                goal == prepend(
                    token_views(tokens@),
                    lines@,
                    lex(self.src@, self.cur as int, self.line),
                ),
            decreases self.src.len() - self.cur,
        {
            let byte = self.now();
            let ghost before = token_views(tokens@);
            if byte == NEWLINE {
                if self.line == u16::MAX {
                    self.cur = start;
                    self.line = start_line;
                    return Err(LexError::TooManyLines);
                }
                self.line += 1;
                self.cur += 1;
            } else if let Some(token) = Self::punctuation_token(byte) {
                proof {
                    lemma_prepend_push(
                        before,
                        lines@,
                        token@,
                        self.line,
                        lex(self.src@, self.cur + 1, self.line),
                    );
                    assert(token_views(tokens@.push(token)) =~= before.push(token@));
                }
                tokens.push(token);
                lines.push(self.line);
                self.cur += 1;
            } else if byte == HASH {
                if self.line == u16::MAX {
                    self.cur = start;
                    self.line = start_line;
                    return Err(LexError::TooManyLines);
                }
                self.skip_comment_line();
                if self.cur < self.src.len() {
                    self.cur += 1;
                } else {
                    // Behind the end of the source there is nothing left to scan.
                    assert(lex(self.src@, self.cur + 1, self.line) == lex(
                        self.src@,
                        self.cur as int,
                        self.line,
                    ));
                }
            } else if byte == QUOTE {
                match self.parse_str() {
                    Ok(token) => {
                        proof {
                            lemma_prepend_push(
                                before,
                                lines@,
                                token@,
                                self.line,
                                lex(self.src@, self.cur + 1, self.line),
                            );
                            assert(token_views(tokens@.push(token)) =~= before.push(token@));
                        }
                        tokens.push(token);
                        lines.push(self.line);
                        self.cur += 1;
                    },
                    Err(e) => {
                        self.cur = start;
                        self.line = start_line;
                        return Err(e);
                    },
                }
            } else if Self::is_valid_header(byte) {
                let token = self.parse_identifier();
                proof {
                    lemma_prepend_push(
                        before,
                        lines@,
                        token@,
                        self.line,
                        lex(self.src@, self.cur as int, self.line),
                    );
                    assert(token_views(tokens@.push(token)) =~= before.push(token@));
                }
                tokens.push(token);
                lines.push(self.line);
            } else if byte <= SPACE {
                self.cur += 1;
            } else {
                let line = self.line;
                self.cur = start;
                self.line = start_line;
                return Err(LexError::UnrecognizedByte { byte, line });
            }
        }
        if self.line == u16::MAX {
            self.cur = start;
            self.line = start_line;
            return Err(LexError::TooManyLines);
        }
        lines.push(self.line + 1);
        Ok((tokens, lines))
    }

    /// The token for a byte that is punctuation or an operator.
    pub fn punctuation_token(byte: u8) -> (r: Option<Token>)
        ensures
            match punctuation(byte) {
                Some(t) => r matches Some(token) && token@ == t,
                None => r is None,
            },
    {
        if byte == LPAREN {
            Some(Token::LParen)
        } else if byte == RPAREN {
            Some(Token::RParen)
        } else if byte == PLUS {
            Some(Token::Plus)
        } else if byte == MINUS {
            Some(Token::Sub)
        } else if byte == STAR {
            Some(Token::Mul)
        } else if byte == SEMICOLON {
            Some(Token::Semi)
        } else if byte == EQUALS {
            Some(Token::Eq)
        } else if byte == COLON {
            Some(Token::Colon)
        } else if byte == COMMA {
            Some(Token::Comma)
        } else if byte == LESS {
            Some(Token::Lt)
        } else if byte == GREATER {
            Some(Token::Gt)
        } else {
            None
        }
    }

    /// Moves the cursor over the rest of a comment, up to the newline that
    /// ends it or to the end of the source, and counts the line as crossed.
    pub fn skip_comment_line(&mut self)
        requires
            old(self).wf(),
            old(self).line_number() < u16::MAX,
        ensures
            final(self).wf(),
            final(self).source() == old(self).source(),
            final(self).cursor() == old(self).cursor() + run_len(
                old(self).source(),
                old(self).cursor(),
                Run::Comment,
            ),
            final(self).line_number() == old(self).line_number() + 1,
    {
        let ghost start = self.cur;
        while self.cur < self.src.len()
            invariant
                start <= self.cur <= self.src.len(),
                self.src@ == old(self).src@,
                self.line == old(self).line,
                run_len(self.src@, start as int, Run::Comment) == (self.cur - start) + run_len(
                    self.src@,
                    self.cur as int,
                    Run::Comment,
                ),
            ensures
                self.cur == self.src.len() || !within(Run::Comment, self.src@[self.cur as int]),
            decreases self.src.len() - self.cur,
        {
            let byte = self.now();
            if byte == NEWLINE {
                break;
            } else {
                self.cur += 1;
            }
        }
        self.line += 1;
    }

    /// Reads a string literal whose opening quote is under the cursor. On
    /// success the cursor is on the closing quote and the token holds the
    /// text between the quotes; newlines inside it do not count as lines.
    /// Fails, and leaves the cursor where it was, when the source ends before
    /// a closing quote or the bytes between the quotes are not UTF-8.
    pub fn parse_str(&mut self) -> (r: Result<Token, LexError>)
        requires
            old(self).wf(),
            old(self).cursor() < old(self).source().len(),
        ensures
            final(self).wf(),
            final(self).source() == old(self).source(),
            final(self).line_number() == old(self).line_number(),
            ({
                let src = old(self).source();
                let open = old(self).cursor();
                let close = open + 1 + run_len(src, open + 1, Run::Literal);
                let inside = src.subrange(open + 1, close);
                let line = old(self).line_number();
                if close >= src.len() {
                    r == Err::<Token, LexError>(LexError::UnterminatedString { line })
                        && final(self).cursor() == open
                } else if !valid_utf8(inside) {
                    r == Err::<Token, LexError>(LexError::InvalidText { line })
                        && final(self).cursor() == open
                } else {
                    r matches Ok(token) && token@ == TokenView::Str(decode_utf8(inside))
                        && final(self).cursor() == close
                }
            }),
    {
        let open = self.cur;
        assert(self.cur < self.src.len());
        self.cur += 1;
        let mut text: Vec<u8> = Vec::new();
        while self.cur < self.src.len()
            invariant
                open + 1 <= self.cur <= self.src.len(),
                self.src@ == old(self).src@,
                self.line == old(self).line,
                text@ == self.src@.subrange(open + 1, self.cur as int),
                run_len(self.src@, open + 1, Run::Literal) == (self.cur - (open + 1)) + run_len(
                    self.src@,
                    self.cur as int,
                    Run::Literal,
                ),
            ensures
                self.cur == self.src.len() || !within(Run::Literal, self.src@[self.cur as int]),
            decreases self.src.len() - self.cur,
        {
            let byte = self.now();
            if byte == QUOTE {
                break;
            } else {
                text.push(byte);
                self.cur += 1;
            }
        }
        if self.cur >= self.src.len() {
            self.cur = open;
            return Err(LexError::UnterminatedString { line: self.line });
        }
        match text_of(text) {
            Some(t) => Ok(Token::Str(t)),
            None => {
                self.cur = open;
                Err(LexError::InvalidText { line: self.line })
            },
        }
    }

    /// Whether a word may go on with this byte.
    pub fn is_valid_letter(byte: u8) -> (r: bool)
        ensures
            r == is_letter(byte),
    {
        (byte >= LOWER_A && byte <= LOWER_Z) || (byte >= UPPER_A && byte <= UPPER_Z) || (byte
            >= DIGIT_0 && byte <= DIGIT_9) || (byte == UNDERSCORE)
    }

    /// Whether a word may start with this byte.
    pub fn is_valid_header(byte: u8) -> (r: bool)
        ensures
            r == is_header(byte),
    {
        (byte >= LOWER_A && byte <= LOWER_Z) || (byte >= UPPER_A && byte <= UPPER_Z) || (byte
            == UNDERSCORE)
    }

    /// Reads the word that starts under the cursor, and leaves the cursor
    /// behind its last byte. The word `let` or `fun` gives the keyword, any
    /// other an identifier.
    pub fn parse_identifier(&mut self) -> (r: Token)
        requires
            old(self).wf(),
            old(self).cursor() < old(self).source().len(),
            is_header(old(self).source()[old(self).cursor()]),
        ensures
            final(self).wf(),
            final(self).source() == old(self).source(),
            final(self).line_number() == old(self).line_number(),
            final(self).cursor() == old(self).cursor() + 1 + run_len(
                old(self).source(),
                old(self).cursor() + 1,
                Run::Word,
            ),
            r@ == word_token(old(self).source().subrange(old(self).cursor(), final(self).cursor())),
    {
        let start = self.cur;
        let mut word: Vec<u8> = Vec::new();
        word.push(self.now());
        assert(self.cur < self.src.len());
        self.cur += 1;
        while self.cur < self.src.len()
            invariant
                start + 1 <= self.cur <= self.src.len(),
                self.src@ == old(self).src@,
                self.line == old(self).line,
                word@ == self.src@.subrange(start as int, self.cur as int),
                forall|i: int| 0 <= i < word.len() ==> is_letter(#[trigger] word[i]),
                run_len(self.src@, start + 1, Run::Word) == (self.cur - (start + 1)) + run_len(
                    self.src@,
                    self.cur as int,
                    Run::Word,
                ),
            ensures
                self.cur == self.src.len() || !within(Run::Word, self.src@[self.cur as int]),
            decreases self.src.len() - self.cur,
        {
            let byte = self.now();
            if Self::is_valid_letter(byte) {
                word.push(byte);
            } else {
                break;
            }
            self.cur += 1;
            assert(word@ =~= self.src@.subrange(start as int, self.cur as int));
        }
        proof {
            lemma_keyword_bytes(word@);
        }
        if Self::spells(&word, 108, 101, 116) {
            Token::Let
        } else if Self::spells(&word, 102, 117, 110) {
            Token::Func
        } else {
            Token::Id(ascii_text_of(word))
        }
    }

    /// Whether a word is exactly the three given bytes.
    fn spells(word: &Vec<u8>, first: u8, second: u8, third: u8) -> (r: bool)
        ensures
            r == (word@ == seq![first, second, third]),
    {
        let r = word.len() == 3 && word[0] == first && word[1] == second && word[2] == third;
        assert(r ==> word@ =~= seq![first, second, third]);
        r
    }

    /// The byte under the cursor.
    pub fn now(&mut self) -> (r: u8)
        requires
            old(self).wf(),
            old(self).cursor() < old(self).source().len(),
        ensures
            *final(self) == *old(self),
            r == old(self).source()[old(self).cursor()],
    {
        self.src[self.cur]
    }
}

} // verus!
