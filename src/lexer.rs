use vstd::prelude::*;
use crate::text::{
    alphabetic, alphanumeric, is_alphabetic_char, is_alphanumeric_char, is_white_space,
    string_from_chars, white_space,
};
use crate::token::{keyword, lookup_chars, SpecToken, Token};

verus! {

/// Whether `c` may start an identifier: a letter or `_`.
pub open spec fn letter(c: char) -> bool {
    alphabetic(c) || c == '_'
}

/// Whether `c` may continue an identifier: a letter, a numeric character or `_`.
pub open spec fn word_char(c: char) -> bool {
    alphanumeric(c) || c == '_'
}

/// Whether `c` is an ASCII decimal digit.
pub open spec fn digit(c: char) -> bool {
    '0' <= c <= '9'
}

/// Whether `c` may continue a numeric literal: a digit or `.`.
pub open spec fn number_char(c: char) -> bool {
    digit(c) || c == '.'
}

/// `s` without its leading white space.
pub open spec fn skip_white_space(s: Seq<char>) -> Seq<char>
    decreases s.len(),
{
    if s.len() > 0 && white_space(s[0]) {
        skip_white_space(s.drop_first())
    } else {
        s
    }
}

/// The number of characters at the start of `s` that continue an identifier.
pub open spec fn word_len(s: Seq<char>) -> nat
    decreases s.len(),
{
    if s.len() > 0 && word_char(s[0]) {
        1 + word_len(s.drop_first())
    } else {
        0
    }
}

/// The number of characters at the start of `s` that continue a number.
pub open spec fn number_len(s: Seq<char>) -> nat
    decreases s.len(),
{
    if s.len() > 0 && number_char(s[0]) {
        1 + number_len(s.drop_first())
    } else {
        0
    }
}

/// The value of a string of decimal digits.
pub open spec fn digits_value(s: Seq<char>) -> int
    decreases s.len(),
{
    if s.len() == 0 {
        0
    } else {
        digits_value(s.drop_last()) * 10 + (s.last() as int - '0' as int)
    }
}

/// The number of `.` in `s`.
pub open spec fn dots(s: Seq<char>) -> nat
    decreases s.len(),
{
    if s.len() == 0 {
        0
    } else {
        dots(s.drop_last()) + if s.last() == '.' { 1nat } else { 0nat }
    }
}

/// The token for the text of a numeric literal: an integer when it holds no
/// `.` and its value fits in an `i32`, a real number when it holds one `.`,
/// and the illegal token otherwise.
pub open spec fn number_token(text: Seq<char>) -> SpecToken {
    if dots(text) == 0 {
        if digits_value(text) <= i32::MAX {
            SpecToken::NNInteger(digits_value(text) as i32)
        } else {
            SpecToken::Illegal
        }
    } else if dots(text) == 1 {
        SpecToken::Real(text)
    } else {
        SpecToken::Illegal
    }
}

/// The token that the single character `c` stands for, if it is one of the
/// one-character tokens.
pub open spec fn punctuation(c: char) -> Option<SpecToken> {
    if c == '+' {
        Some(SpecToken::Plus)
    } else if c == '*' {
        Some(SpecToken::Times)
    } else if c == '/' {
        Some(SpecToken::Divide)
    } else if c == '^' {
        Some(SpecToken::Power)
    } else if c == ';' {
        Some(SpecToken::Semicolon)
    } else if c == ',' {
        Some(SpecToken::Comma)
    } else if c == '(' {
        Some(SpecToken::LParen)
    } else if c == '[' {
        Some(SpecToken::LSParen)
    } else if c == '{' {
        Some(SpecToken::LCParen)
    } else if c == ')' {
        Some(SpecToken::RParen)
    } else if c == ']' {
        Some(SpecToken::RSParen)
    } else if c == '}' {
        Some(SpecToken::RCParen)
    } else {
        None
    }
}

/// The next token of `s` and the characters that follow it.
///
/// White space is skipped first. `==` and `->` are two-character tokens; a
/// `=` that no second `=` follows is illegal, and a `-` that no `>` follows
/// is a minus. A letter or `_` starts a word, which runs as long as letters,
/// digits and `_` follow, and is looked up as a keyword. A digit starts a
/// number, which runs as long as digits and `.` follow. Any other character is
/// illegal. At the end of the input the token is `EndOfFile`.
pub open spec fn next_token_of(s: Seq<char>) -> (SpecToken, Seq<char>) {
    let t = skip_white_space(s);
    if t.len() == 0 {
        (SpecToken::EndOfFile, t)
    } else {
        let c = t[0];
        let rest = t.drop_first();
        if c == '=' {
            if rest.len() > 0 && rest[0] == '=' {
                (SpecToken::Equals, rest.drop_first())
            } else {
                (SpecToken::Illegal, rest)
            }
        } else if c == '-' {
            if rest.len() > 0 && rest[0] == '>' {
                (SpecToken::Arrow, rest.drop_first())
            } else {
                (SpecToken::Minus, rest)
            }
        } else if punctuation(c) is Some {
            (punctuation(c)->0, rest)
        } else if letter(c) {
            let n = word_len(rest) as int;
            (keyword(t.take(n + 1)), t.skip(n + 1))
        } else if digit(c) {
            let n = number_len(rest) as int;
            (number_token(t.take(n + 1)), t.skip(n + 1))
        } else {
            (SpecToken::Illegal, rest)
        }
    }
}

pub proof fn lemma_skip_white_space_len(s: Seq<char>)
    ensures
        skip_white_space(s).len() <= s.len(),
    decreases s.len(),
{
    if s.len() > 0 && white_space(s[0]) {
        lemma_skip_white_space_len(s.drop_first());
    }
}

pub proof fn lemma_word_len(s: Seq<char>)
    ensures
        word_len(s) <= s.len(),
        forall|i: int| 0 <= i < word_len(s) ==> word_char(#[trigger] s[i]),
        word_len(s) < s.len() ==> !word_char(s[word_len(s) as int]),
    decreases s.len(),
{
    if s.len() > 0 && word_char(s[0]) {
        lemma_word_len(s.drop_first());
        assert forall|i: int| 0 <= i < word_len(s) implies word_char(#[trigger] s[i]) by {
            if i > 0 {
                assert(s[i] == s.drop_first()[i - 1]);
            }
        }
    }
}

pub proof fn lemma_number_len(s: Seq<char>)
    ensures
        number_len(s) <= s.len(),
        forall|i: int| 0 <= i < number_len(s) ==> number_char(#[trigger] s[i]),
        number_len(s) < s.len() ==> !number_char(s[number_len(s) as int]),
    decreases s.len(),
{
    if s.len() > 0 && number_char(s[0]) {
        lemma_number_len(s.drop_first());
        assert forall|i: int| 0 <= i < number_len(s) implies number_char(#[trigger] s[i]) by {
            if i > 0 {
                assert(s[i] == s.drop_first()[i - 1]);
            }
        }
    }
}

/// Every token but `EndOfFile` consumes at least one character.
pub proof fn lemma_next_token_consumes(s: Seq<char>)
    ensures
        next_token_of(s).1.len() <= s.len(),
        next_token_of(s).0 !is EndOfFile ==> next_token_of(s).1.len() < s.len(),
{
    lemma_skip_white_space_len(s);
    let t = skip_white_space(s);
    if t.len() > 0 {
        lemma_word_len(t.drop_first());
        lemma_number_len(t.drop_first());
    }
}

/// The tokens of `s`, in order, up to (not including) the end of the input.
pub open spec fn lex_tokens(s: Seq<char>) -> Seq<SpecToken>
    decreases s.len(),
{
    let (tok, rest) = next_token_of(s);
    if tok is EndOfFile {
        Seq::empty()
    } else {
        proof {
            lemma_next_token_consumes(s);
        }
        seq![tok] + lex_tokens(rest)
    }
}

pub proof fn lemma_no_dots(s: Seq<char>)
    requires
        dots(s) == 0,
    ensures
        forall|i: int| 0 <= i < s.len() ==> s[i] != '.',
    decreases s.len(),
{
    if s.len() > 0 {
        lemma_no_dots(s.drop_last());
        assert forall|i: int| 0 <= i < s.len() implies s[i] != '.' by {
            if i < s.len() - 1 {
                assert(s[i] == s.drop_last()[i]);
            }
        }
    }
}

/// The token for the text of a numeric literal (see [`number_token`]).
fn number_token_from(text: &Vec<char>) -> (r: Token)
    requires
        forall|i: int| 0 <= i < text@.len() ==> number_char(#[trigger] text@[i]),
    ensures
        r@ == number_token(text@),
{
    let n = text.len();
    let mut n_dots: usize = 0;
    let mut i: usize = 0;
    while i < n
        invariant
            n == text@.len(),
            i <= n,
            n_dots <= i,
            n_dots == dots(text@.take(i as int)),
        decreases n - i,
    {
        proof {
            assert(text@.take(i + 1).drop_last() =~= text@.take(i as int));
        }
        if text[i] == '.' {
            n_dots = n_dots + 1;
        }
        i = i + 1;
    }
    assert(text@.take(n as int) =~= text@);
    if n_dots == 1 {
        return Token::Real(string_from_chars(text.as_slice()));
    } else if n_dots > 1 {
        return Token::Illegal;
    }
    proof {
        lemma_no_dots(text@);
    }
    let mut value: u64 = 0;
    let mut too_big = false;
    i = 0;
    while i < n
        invariant
            n == text@.len(),
            i <= n,
            forall|j: int| 0 <= j < n ==> digit(#[trigger] text@[j]),
            !too_big ==> value == digits_value(text@.take(i as int)) && value <= i32::MAX,
            too_big ==> digits_value(text@.take(i as int)) > i32::MAX,
        decreases n - i,
    {
        let c = text[i];
        assert(number_char(text@[i as int]));
        let d = (c as u32 - '0' as u32) as u64;
        proof {
            assert(text@.take(i + 1).drop_last() =~= text@.take(i as int));
            assert(text@.take(i + 1).last() == c);
        }
        if !too_big {
            let v = value * 10 + d;
            if v > i32::MAX as u64 {
                too_big = true;
            } else {
                value = v;
            }
        }
        i = i + 1;
    }
    if too_big {
        Token::Illegal
    } else {
        Token::NNInteger(value as i32)
    }
}

/// Whether `ch` may start an identifier: a letter or `_`.
pub fn is_letter(ch: char) -> (r: bool)
    ensures
        r == letter(ch),
{
    is_alphabetic_char(ch) || ch == '_'
}

/// Whether `ch` may continue an identifier: a letter, a numeric character or `_`.
pub fn is_alphanumeric(ch: char) -> (r: bool)
    ensures
        r == word_char(ch),
{
    is_alphanumeric_char(ch) || ch == '_'
}

/// Splits a source text into tokens, one at a time.
///
/// Its view is the sequence of characters that are left to read.
pub struct Lexer {
    input: Vec<char>,
    pos: usize,
}

impl View for Lexer {
    type V = Seq<char>;

    closed spec fn view(&self) -> Seq<char> {
        self.input@.subrange(self.pos as int, self.input@.len() as int)
    }
}

impl Lexer {
    #[verifier::type_invariant]
    closed spec fn inv(&self) -> bool {
        self.pos <= self.input@.len()
    }

    /// A lexer at the start of `input`.
    pub fn new(input: &str) -> (r: Lexer)
        ensures
            r@ == input@,
    {
        let mut chars: Vec<char> = Vec::new();
        for c in it: input.chars()
            invariant
                chars@ == it.seq().take(it.index() as int),
        {
            chars.push(c);
        }
        let r = Lexer { input: chars, pos: 0 };
        assert(r@ =~= input@);
        r
    }

    /// The next token, and the lexer moved past it (see [`next_token_of`]).
    pub fn next_token(&mut self) -> (r: Token)
        ensures
            (r@, final(self)@) == next_token_of(old(self)@),
    {
        self.skip_whitespace();
        let ghost t = self@;
        match self.read_char() {
            None => Token::EndOfFile,
            Some(c) => {
                let ghost rest = self@;
                match c {
                    '=' => {
                        if self.peek_char_eq('=') {
                            self.read_char();
                            Token::Equals
                        } else {
                            Token::Illegal
                        }
                    },
                    '-' => {
                        if self.peek_char_eq('>') {
                            self.read_char();
                            Token::Arrow
                        } else {
                            Token::Minus
                        }
                    },
                    '+' => Token::Plus,
                    '*' => Token::Times,
                    '/' => Token::Divide,
                    '^' => Token::Power,
                    ';' => Token::Semicolon,
                    ',' => Token::Comma,
                    '(' => Token::LParen,
                    '[' => Token::LSParen,
                    '{' => Token::LCParen,
                    ')' => Token::RParen,
                    ']' => Token::RSParen,
                    '}' => Token::RCParen,
                    _ => {
                        if is_letter(c) {
                            let word = self.read_identifier(c);
                            proof {
                                let n = word_len(rest) as int;
                                lemma_word_len(rest);
                                assert(word@ =~= t.take(n + 1));
                                assert(self@ =~= t.skip(n + 1));
                            }
                            lookup_chars(word.as_slice())
                        } else if '0' <= c && c <= '9' {
                            let number = self.read_number(c);
                            proof {
                                let n = number_len(rest) as int;
                                lemma_number_len(rest);
                                assert(number@ =~= t.take(n + 1));
                                assert(self@ =~= t.skip(n + 1));
                                assert forall|i: int| 0 <= i < number@.len() implies number_char(
                                    #[trigger] number@[i],
                                ) by {
                                    if i > 0 {
                                        assert(number@[i] == rest[i - 1]);
                                    }
                                }
                            }
                            number_token_from(&number)
                        } else {
                            Token::Illegal
                        }
                    },
                }
            },
        }
    }

    fn read_char(&mut self) -> (r: Option<char>)
        ensures
            old(self)@.len() == 0 ==> r is None && final(self)@ == old(self)@,
            old(self)@.len() > 0 ==> r == Some(old(self)@[0]) && final(self)@ == old(self)@.drop_first(),
    {
        proof {
            use_type_invariant(&*self);
        }
        if self.pos < self.input.len() {
            let c = self.input[self.pos];
            self.pos = self.pos + 1;
            proof {
                assert(self@ =~= old(self)@.drop_first());
            }
            Some(c)
        } else {
            None
        }
    }

    fn peek_char(&self) -> (r: Option<char>)
        ensures
            self@.len() == 0 ==> r is None,
            self@.len() > 0 ==> r == Some(self@[0]),
    {
        proof {
            use_type_invariant(self);
        }
        if self.pos < self.input.len() {
            Some(self.input[self.pos])
        } else {
            None
        }
    }

    fn peek_char_eq(&self, ch: char) -> (r: bool)
        ensures
            r == (self@.len() > 0 && self@[0] == ch),
    {
        match self.peek_char() {
            Some(peek_ch) => peek_ch == ch,
            None => false,
        }
    }

    fn skip_whitespace(&mut self)
        ensures
            final(self)@ == skip_white_space(old(self)@),
    {
        loop
            invariant
                skip_white_space(self@) == skip_white_space(old(self)@),
            ensures
                self@ == skip_white_space(old(self)@),
            decreases self@.len(),
        {
            match self.peek_char() {
                Some(c) => {
                    if !is_white_space(c) {
                        break;
                    }
                    self.read_char();
                },
                None => break,
            }
        }
    }

    fn peek_is_alphanumeric(&self) -> (r: bool)
        ensures
            r == (self@.len() > 0 && word_char(self@[0])),
    {
        match self.peek_char() {
            Some(ch) => is_alphanumeric(ch),
            None => false,
        }
    }

    fn read_identifier(&mut self, first: char) -> (r: Vec<char>)
        ensures
            r@ == seq![first] + old(self)@.take(word_len(old(self)@) as int),
            final(self)@ == old(self)@.skip(word_len(old(self)@) as int),
    {
        let ghost s = self@;
        let mut ident: Vec<char> = Vec::new();
        ident.push(first);
        let ghost mut k: int = 0;
        proof {
            lemma_word_len(s);
        }
        while self.peek_is_alphanumeric()
            invariant
                0 <= k <= word_len(s),
                word_len(s) <= s.len(),
                forall|i: int| 0 <= i < word_len(s) ==> word_char(#[trigger] s[i]),
                word_len(s) < s.len() ==> !word_char(s[word_len(s) as int]),
                ident@ == seq![first] + s.take(k),
                self@ == s.skip(k),
            decreases self@.len(),
        {
            let c = self.read_char();
            proof {
                if k == word_len(s) {
                    assert(self@[0] == s[k]);
                }
                assert(s.skip(k).drop_first() =~= s.skip(k + 1));
                assert(seq![first] + s.take(k + 1) =~= (seq![first] + s.take(k)).push(s[k]));
            }
            ident.push(c.unwrap());
            proof {
                k = k + 1;
            }
        }
        proof {
            if k < word_len(s) {
                assert(self@[0] == s[k]);
            }
        }
        ident
    }

    fn read_number(&mut self, first: char) -> (r: Vec<char>)
        ensures
            r@ == seq![first] + old(self)@.take(number_len(old(self)@) as int),
            final(self)@ == old(self)@.skip(number_len(old(self)@) as int),
    {
        let ghost s = self@;
        let mut number: Vec<char> = Vec::new();
        number.push(first);
        let ghost mut k: int = 0;
        proof {
            lemma_number_len(s);
        }
        loop
            invariant
                0 <= k <= number_len(s),
                number_len(s) <= s.len(),
                forall|i: int| 0 <= i < number_len(s) ==> number_char(#[trigger] s[i]),
                number_len(s) < s.len() ==> !number_char(s[number_len(s) as int]),
                number@ == seq![first] + s.take(k),
                self@ == s.skip(k),
            ensures
                number@ == seq![first] + s.take(number_len(s) as int),
                self@ == s.skip(number_len(s) as int),
            decreases self@.len(),
        {
            let next = self.peek_char();
            if next.is_none() {
                break;
            }
            let c = next.unwrap();
            if !(('0' <= c && c <= '9') || c == '.') {
                proof {
                    if k < number_len(s) {
                        assert(self@[0] == s[k]);
                    }
                }
                break;
            }
            proof {
                if k == number_len(s) {
                    assert(self@[0] == s[k]);
                }
                assert(s.skip(k).drop_first() =~= s.skip(k + 1));
                assert(seq![first] + s.take(k + 1) =~= (seq![first] + s.take(k)).push(s[k]));
            }
            let c = self.read_char();
            number.push(c.unwrap());
            proof {
                k = k + 1;
            }
        }
        number
    }
}

} // verus!
