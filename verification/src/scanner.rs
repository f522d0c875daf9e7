use vstd::prelude::*;
use crate::enums::{Token, TokenView, tokens_view};
use crate::text::{chars_of, decimal_value, digit_value, is_digit, string_of};

verus! {

/// Why scanning stopped before the end of the source text.
#[derive(Debug, PartialEq, Eq, Clone, Copy, Structural)]
pub enum LexError {
    /// A character that starts no token, with its index among the characters.
    UnexpectedChar { position: usize, character: char },
    /// A text literal whose opening quote, at `position`, is never closed.
    UnterminatedString { position: usize },
    /// A number literal, starting at `position`, that does not fit in 32 bits.
    NumberTooLarge { position: usize },
}

/// The classes of characters that make up the runs of a token.
#[derive(Debug, PartialEq, Eq, Clone, Copy, Structural)]
pub enum CharClass {
    /// `0` to `9`.
    Digit,
    /// A letter, a digit or an underscore.
    Word,
    /// Anything but a double quote.
    Quoted,
}

/// Whether `c` is an ASCII letter.
pub open spec fn is_letter(c: char) -> bool {
    ('a' <= c && c <= 'z') || ('A' <= c && c <= 'Z')
}

/// Whether `c` belongs to `class`.
pub open spec fn in_class(class: CharClass, c: char) -> bool {
    match class {
        CharClass::Digit => is_digit(c),
        CharClass::Word => is_letter(c) || is_digit(c) || c == '_',
        CharClass::Quoted => c != '"',
    }
}

/// The end of the longest run of characters of `class` that starts at `from`.
pub open spec fn run_end(s: Seq<char>, from: int, class: CharClass) -> int
    decreases s.len() - from,
{
    if 0 <= from < s.len() && in_class(class, s[from]) {
        run_end(s, from + 1, class)
    } else {
        from
    }
}

/// The token that a single punctuation character stands for, if any.
pub open spec fn punct_token(c: char) -> Option<TokenView> {
    if c == '+' {
        Some(TokenView::PLUS)
    } else if c == '-' {
        Some(TokenView::MINUS)
    } else if c == '*' {
        Some(TokenView::STAR)
    } else if c == '/' {
        Some(TokenView::SLASH)
    } else if c == '<' {
        Some(TokenView::LT)
    } else if c == '>' {
        Some(TokenView::GT)
    } else if c == '=' {
        Some(TokenView::EQ)
    } else if c == '(' {
        Some(TokenView::LPAR)
    } else if c == ')' {
        Some(TokenView::RPAR)
    } else if c == '{' {
        Some(TokenView::LBRACE)
    } else if c == '}' {
        Some(TokenView::RBRACE)
    } else if c == ',' {
        Some(TokenView::COMMA)
    } else if c == ';' {
        Some(TokenView::SEMICOLON)
    } else {
        None
    }
}

/// The token of a word: a keyword for a reserved word, an identifier otherwise.
pub open spec fn word_token(w: Seq<char>) -> TokenView {
    if w == "if"@ {
        TokenView::IF
    } else if w == "else"@ {
        TokenView::ELSE
    } else if w == "return"@ {
        TokenView::RETURN
    } else if w == "fn"@ {
        TokenView::FN
    } else {
        TokenView::IDENT(w)
    }
}

/// The first token at or after `pos`, with the position just behind it;
/// `None` where only spaces are left.
pub open spec fn next_token(s: Seq<char>, pos: int) -> Result<Option<(TokenView, int)>, LexError>
    decreases s.len() - pos,
{
    if pos < 0 || pos >= s.len() {
        Ok(None)
    } else {
        let c = s[pos];
        if c == ' ' {
            next_token(s, pos + 1)
        } else if punct_token(c) is Some {
            Ok(Some((punct_token(c)->0, pos + 1)))
        } else if c == '"' {
            let end = run_end(s, pos + 1, CharClass::Quoted);
            if end >= s.len() {
                Err(LexError::UnterminatedString { position: pos as usize })
            } else {
                Ok(Some((TokenView::STR(s.subrange(pos + 1, end)), end + 1)))
            }
        } else if is_digit(c) {
            let end = run_end(s, pos, CharClass::Digit);
            let value = decimal_value(s.subrange(pos, end));
            if value > i32::MAX {
                Err(LexError::NumberTooLarge { position: pos as usize })
            } else {
                Ok(Some((TokenView::NUMBER(value as i32), end)))
            }
        } else if is_letter(c) {
            let end = run_end(s, pos, CharClass::Word);
            Ok(Some((word_token(s.subrange(pos, end)), end)))
        } else {
            Err(LexError::UnexpectedChar { position: pos as usize, character: c })
        }
    }
}

/// The tokens of `s` from `pos` on, or the first error met.
///
/// The test on `after` bounds the recursion and always holds
/// (`lemma_next_token_advances`).
pub open spec fn scan_from(s: Seq<char>, pos: int) -> Result<Seq<TokenView>, LexError>
    decreases s.len() - pos,
{
    match next_token(s, pos) {
        Err(e) => Err(e),
        Ok(None) => Ok(Seq::empty()),
        Ok(Some((token, after))) => {
            if pos < after <= s.len() {
                match scan_from(s, after) {
                    Err(e) => Err(e),
                    Ok(rest) => Ok(seq![token] + rest),
                }
            } else {
                Ok(seq![token])
            }
        },
    }
}

/// The tokens of a whole source text.
pub open spec fn scan(s: Seq<char>) -> Result<Seq<TokenView>, LexError> {
    scan_from(s, 0)
}

/// A run ends inside the text, holds only characters of its class, and is
/// followed by the end of the text or by a character outside the class.
pub proof fn lemma_run_end(s: Seq<char>, from: int, class: CharClass)
    requires
        0 <= from <= s.len(),
    ensures
        from <= run_end(s, from, class) <= s.len(),
        forall|i: int| from <= i < run_end(s, from, class) ==> in_class(class, #[trigger] s[i]),
        run_end(s, from, class) < s.len() ==> !in_class(class, s[run_end(s, from, class)]),
    decreases s.len() - from,
{
    if from < s.len() && in_class(class, s[from]) {
        lemma_run_end(s, from + 1, class);
    }
}

/// A token is never empty: the position behind it lies after the one it was
/// looked for at, and inside the text.
pub proof fn lemma_next_token_advances(s: Seq<char>, pos: int)
    requires
        0 <= pos,
    ensures
        next_token(s, pos) matches Ok(Some((_, after))) ==> pos < after <= s.len(),
    decreases s.len() - pos,
{
    if pos < s.len() {
        let c = s[pos];
        if c == ' ' {
            lemma_next_token_advances(s, pos + 1);
        } else if punct_token(c) is Some {
        } else if c == '"' {
            lemma_run_end(s, pos + 1, CharClass::Quoted);
        } else if is_digit(c) {
            lemma_run_end(s, pos, CharClass::Digit);
            assert(run_end(s, pos, CharClass::Digit) == run_end(s, pos + 1, CharClass::Digit));
            lemma_run_end(s, pos + 1, CharClass::Digit);
        } else if is_letter(c) {
            assert(run_end(s, pos, CharClass::Word) == run_end(s, pos + 1, CharClass::Word));
            lemma_run_end(s, pos + 1, CharClass::Word);
        }
    }
}

/// Adding digits never makes the number smaller.
pub proof fn lemma_decimal_value_grows(digits: Seq<char>, k: int)
    requires
        0 <= k <= digits.len(),
        forall|i: int| 0 <= i < digits.len() ==> is_digit(#[trigger] digits[i]),
    ensures
        decimal_value(digits.take(k)) <= decimal_value(digits),
    decreases digits.len() - k,
{
    if k == digits.len() {
        assert(digits.take(k) =~= digits);
    } else {
        lemma_decimal_value_grows(digits, k + 1);
        let longer = digits.take(k + 1);
        assert(longer.drop_last() =~= digits.take(k));
        assert(is_digit(digits[k]));
        assert(longer.last() == digits[k]);
    }
}

/// Reads tokens off a source text, one at a time.
pub struct Scanner {
    input: Vec<char>,
    pos: usize,
}

impl Scanner {
    /// The characters of the source text.
    pub closed spec fn source(&self) -> Seq<char> {
        self.input@
    }

    /// The index of the next character to read.
    pub closed spec fn position(&self) -> int {
        self.pos as int
    }

    /// The position never runs past the end of the text.
    #[verifier::type_invariant]
    spec fn inside(&self) -> bool {
        self.pos <= self.input.len()
    }

    /// A scanner at the start of `s`.
    pub fn new(s: &str) -> (r: Self)
        ensures
            r.source() == s@,
            r.position() == 0,
    {
        Scanner { input: chars_of(s), pos: 0 }
    }

    /// The end of the run of characters of `class` that starts at `from`.
    fn run(&self, from: usize, class: CharClass) -> (end: usize)
        requires
            from <= self.input.len(),
        ensures
            end == run_end(self.input@, from as int, class),
            from <= end <= self.input.len(),
    {
        let mut end: usize = from;
        while end < self.input.len() && Self::belongs(class, self.input[end])
            invariant
                from <= end <= self.input.len(),
                run_end(self.input@, from as int, class) == run_end(
                    self.input@,
                    end as int,
                    class,
                ),
            decreases self.input.len() - end,
        {
            end += 1;
        }
        end
    }

    /// Whether `c` belongs to `class`.
    fn belongs(class: CharClass, c: char) -> (b: bool)
        ensures
            b == in_class(class, c),
    {
        let digit = c >= '0' && c <= '9';
        match class {
            CharClass::Digit => digit,
            CharClass::Word => (c >= 'a' && c <= 'z') || (c >= 'A' && c <= 'Z') || digit || c
                == '_',
            CharClass::Quoted => c != '"',
        }
    }

    /// The token of a punctuation character.
    fn punctuation(c: char) -> (r: Option<Token>)
        ensures
            match r {
                Some(t) => punct_token(c) == Some(t@),
                None => punct_token(c) is None,
            },
    {
        match c {
            '+' => Some(Token::PLUS),
            '-' => Some(Token::MINUS),
            '*' => Some(Token::STAR),
            '/' => Some(Token::SLASH),
            '<' => Some(Token::LT),
            '>' => Some(Token::GT),
            '=' => Some(Token::EQ),
            '(' => Some(Token::LPAR),
            ')' => Some(Token::RPAR),
            '{' => Some(Token::LBRACE),
            '}' => Some(Token::RBRACE),
            ',' => Some(Token::COMMA),
            ';' => Some(Token::SEMICOLON),
            _ => None,
        }
    }

    /// The token of a word.
    fn word(w: String) -> (t: Token)
        ensures
            t@ == word_token(w@),
    {
        if w == "if".to_string() {
            Token::IF
        } else if w == "else".to_string() {
            Token::ELSE
        } else if w == "return".to_string() {
            Token::RETURN
        } else if w == "fn".to_string() {
            Token::FN
        } else {
            Token::IDENT(w)
        }
    }

    /// The number written by the digits `input[from..to]`, if it fits in 32 bits.
    fn number(&self, from: usize, to: usize) -> (r: Option<i32>)
        requires
            from <= to <= self.input.len(),
            forall|i: int| from <= i < to ==> is_digit(#[trigger] self.input@[i]),
        ensures
            match r {
                Some(n) => n == decimal_value(self.input@.subrange(from as int, to as int)),
                None => decimal_value(self.input@.subrange(from as int, to as int)) > i32::MAX,
            },
    {
        let ghost digits = self.input@.subrange(from as int, to as int);
        let mut acc: i64 = 0;
        let mut i: usize = from;
        while i < to
            invariant
                from <= i <= to <= self.input.len(),
                digits == self.input@.subrange(from as int, to as int),
                forall|j: int| 0 <= j < digits.len() ==> is_digit(#[trigger] digits[j]),
                acc == decimal_value(digits.take(i - from)),
                0 <= acc <= i32::MAX,
            decreases to - i,
        {
            let c = self.input[i];
            assert(c == digits[i - from]);
            assert(is_digit(c));
            let d: i64 = (c as u32 - '0' as u32) as i64;
            let next: i64 = acc * 10 + d;
            proof {
                let longer = digits.take(i - from + 1);
                assert(longer.drop_last() =~= digits.take(i - from));
                assert(longer.last() == c);
                assert(next == decimal_value(longer));
                lemma_decimal_value_grows(digits, i - from + 1);
            }
            if next > i32::MAX as i64 {
                return None;
            }
            acc = next;
            i += 1;
        }
        assert(digits.take(to - from) =~= digits);
        Some(acc as i32)
    }

    /// Reads the next token: `Ok(None)` at the end of the text, an error at a
    /// character that starts no token, at a text literal that is not closed and
    /// at a number literal that is too large. Where the position stands after
    /// an error is left open.
    pub fn next(&mut self) -> (r: Result<Option<Token>, LexError>)
        ensures
            final(self).source() == old(self).source(),
            match next_token(old(self).source(), old(self).position()) {
                Ok(Some((token, after))) => r matches Ok(Some(t)) && t@ == token
                    && final(self).position() == after,
                Ok(None) => r matches Ok(None)
                    && final(self).position() == old(self).source().len(),
                Err(e) => r == Err::<Option<Token>, LexError>(e),
            },
    {
        proof {
            use_type_invariant(&*self);
        }
        while self.pos < self.input.len() && self.input[self.pos] == ' '
            invariant
                self.pos <= self.input.len(),
                self.input@ == old(self).input@,
                next_token(self.input@, self.pos as int) == next_token(
                    old(self).input@,
                    old(self).pos as int,
                ),
            decreases self.input.len() - self.pos,
        {
            self.pos += 1;
        }
        if self.pos >= self.input.len() {
            return Ok(None);
        }
        let start: usize = self.pos;
        let c = self.input[start];
        match Self::punctuation(c) {
            Some(t) => {
                self.pos += 1;
                return Ok(Some(t));
            },
            None => {},
        }
        if c == '"' {
            let end = self.run(start + 1, CharClass::Quoted);
            if end >= self.input.len() {
                return Err(LexError::UnterminatedString { position: start });
            }
            let text = string_of(&self.input, start + 1, end);
            self.pos = end + 1;
            Ok(Some(Token::STR(text)))
        } else if c >= '0' && c <= '9' {
            let end = self.run(start, CharClass::Digit);
            proof {
                lemma_run_end(self.input@, start as int, CharClass::Digit);
            }
            match self.number(start, end) {
                Some(n) => {
                    self.pos = end;
                    Ok(Some(Token::NUMBER(n)))
                },
                None => Err(LexError::NumberTooLarge { position: start }),
            }
        } else if (c >= 'a' && c <= 'z') || (c >= 'A' && c <= 'Z') {
            let end = self.run(start, CharClass::Word);
            let w = string_of(&self.input, start, end);
            self.pos = end;
            Ok(Some(Self::word(w)))
        } else {
            Err(LexError::UnexpectedChar { position: start, character: c })
        }
    }
}

/// Turns a source text into its tokens, or reports the first place at which
/// no token can be read: a character that starts no token, a text literal that
/// is not closed before the end of the text, or a number literal that does not
/// fit in 32 bits. Positions count characters; only spaces separate tokens.
pub fn scanner(s: &str) -> (r: Result<Vec<Token>, LexError>)
    ensures
        match scan(s@) {
            Ok(tokens) => r matches Ok(v) && tokens_view(v@) == tokens,
            Err(e) => r == Err::<Vec<Token>, LexError>(e),
        },
{
    let mut result: Vec<Token> = Vec::new();
    let mut scanner = Scanner::new(s);
    loop
        invariant
            scanner.source() == s@,
            match scan_from(s@, scanner.position()) {
                Ok(rest) => scan(s@) == Ok::<Seq<TokenView>, LexError>(
                    tokens_view(result@) + rest,
                ),
                Err(e) => scan(s@) == Err::<Seq<TokenView>, LexError>(e),
            },
        decreases s@.len() - scanner.position(),
    {
        let ghost before = scanner.position();
        let ghost seen = tokens_view(result@);
        proof {
            lemma_next_token_advances(s@, before);
        }
        match scanner.next() {
            Err(e) => {
                return Err(e);
            },
            Ok(None) => {
                assert(tokens_view(result@) + Seq::<TokenView>::empty() =~= tokens_view(result@));
                return Ok(result);
            },
            Ok(Some(token)) => {
                result.push(token);
                proof {
                    assert(tokens_view(result@) =~= seen + seq![token@]);
                    match scan_from(s@, scanner.position()) {
                        Ok(rest) => {
                            assert(seen + (seq![token@] + rest) =~= tokens_view(result@) + rest);
                        },
                        Err(e) => {},
                    }
                }
            },
        }
    }
}

} // verus!
