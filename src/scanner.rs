use vstd::prelude::*;

verus! {

#[derive(Debug, PartialEq, Eq, Structural, Clone, Copy)]
pub enum TokenType {
    LeftParen,
    RightParen,
    LeftBrace,
    RightBrace,
    Comma,
    Dot,
    Minus,
    Plus,
    SemiColon,
    Slash,
    Star,
    Bang,
    BangEqual,
    Equal,
    EqualEqual,
    Greater,
    GreaterEqual,
    Less,
    LessEqual,
    Identifier,
    String,
    Number,
    And,
    Class,
    Else,
    False,
    For,
    Fun,
    If,
    Nil,
    Or,
    Print,
    Return,
    Super,
    This,
    True,
    Var,
    While,
    Error,
    Eof,
}

#[derive(Debug)]
pub struct Token {
    pub t_type: TokenType,
    pub start: usize,
    pub content: String,
    pub length: usize,
    pub line: i32,
}

impl Token {
    /// A copy of the token.
    pub fn copy(&self) -> (r: Token)
        ensures
            r@ == self@,
    {
        Token {
            t_type: self.t_type,
            start: self.start,
            content: self.content.clone(),
            length: self.length,
            line: self.line,
        }
    }
}

/// What a token is: its kind, where its text starts, its text (the message,
/// for an error token), the length of that text, and its source line.
pub struct TokenModel {
    pub kind: TokenType,
    pub start: int,
    pub content: Seq<char>,
    pub length: int,
    pub line: int,
}

impl View for Token {
    type V = TokenModel;

    open spec fn view(&self) -> TokenModel {
        TokenModel {
            kind: self.t_type,
            start: self.start as int,
            content: self.content@,
            length: self.length as int,
            line: self.line as int,
        }
    }
}

/// Whether a character has the Unicode Alphabetic property, as std reports it.
pub uninterp spec fn alphabetic(c: char) -> bool;

/// Relies on `char::is_alphabetic`: its result depends on the character alone.
#[verifier::external_body]
fn is_alpha(c: char) -> (r: bool)
    ensures
        r == alphabetic(c),
{
    c.is_alphabetic()
}

/// The character at `i`, or `'\0'` past either end: a NUL ends the input.
pub open spec fn char_at(s: Seq<char>, i: int) -> char {
    if 0 <= i < s.len() {
        s[i]
    } else {
        '\0'
    }
}

pub open spec fn is_digit(c: char) -> bool {
    '0' <= c <= '9'
}

/// Where whitespace and `//` comments starting at `i` end, and the line
/// number there; `comment` says whether `i` lies inside a comment.
pub open spec fn skip_ws(s: Seq<char>, i: int, line: int, comment: bool) -> (int, int)
    decreases s.len() - i, (if comment { 1int } else { 0int }),
{
    let c = char_at(s, i);
    if comment {
        if c == '\n' || c == '\0' {
            skip_ws(s, i, line, false)
        } else {
            skip_ws(s, i + 1, line, true)
        }
    } else if c == ' ' || c == '\r' || c == '\t' {
        skip_ws(s, i + 1, line, false)
    } else if c == '\n' {
        skip_ws(s, i + 1, line + 1, false)
    } else if c == '/' && char_at(s, i + 1) == '/' {
        skip_ws(s, i + 2, line, true)
    } else {
        (i, line)
    }
}

/// Where the body of a string literal starting at `i` ends (at the closing
/// quote or the end of input), and the line number there.
pub open spec fn string_scan(s: Seq<char>, i: int, line: int) -> (int, int)
    decreases s.len() - i,
{
    let c = char_at(s, i);
    if c == '"' || c == '\0' {
        (i, line)
    } else if c == '\n' {
        string_scan(s, i + 1, line + 1)
    } else {
        string_scan(s, i + 1, line)
    }
}

/// The end of the run of decimal digits starting at `i`.
pub open spec fn digits_end(s: Seq<char>, i: int) -> int
    decreases s.len() - i,
{
    if is_digit(char_at(s, i)) {
        digits_end(s, i + 1)
    } else {
        i
    }
}

/// The end of a number literal whose first digit is at `i`: digits, then
/// optionally a point followed by at least one digit and more digits.
pub open spec fn number_end(s: Seq<char>, i: int) -> int {
    let e = digits_end(s, i + 1);
    if char_at(s, e) == '.' && is_digit(char_at(s, e + 1)) {
        digits_end(s, e + 1)
    } else {
        e
    }
}

/// The end of the run of letters and digits starting at `i`.
pub open spec fn ident_end(s: Seq<char>, i: int) -> int
    decreases s.len() - i,
{
    let c = char_at(s, i);
    if c != '\0' && (alphabetic(c) || is_digit(c)) {
        ident_end(s, i + 1)
    } else {
        i
    }
}

/// The kind of an identifier-shaped word: a reserved word, or a plain identifier.
pub open spec fn keyword_kind(w: Seq<char>) -> TokenType {
    if w == seq!['a', 'n', 'd'] {
        TokenType::And
    } else if w == seq!['c', 'l', 'a', 's', 's'] {
        TokenType::Class
    } else if w == seq!['e', 'l', 's', 'e'] {
        TokenType::Else
    } else if w == seq!['f', 'a', 'l', 's', 'e'] {
        TokenType::False
    } else if w == seq!['f', 'o', 'r'] {
        TokenType::For
    } else if w == seq!['f', 'u', 'n'] {
        TokenType::Fun
    } else if w == seq!['i', 'f'] {
        TokenType::If
    } else if w == seq!['n', 'i', 'l'] {
        TokenType::Nil
    } else if w == seq!['o', 'r'] {
        TokenType::Or
    } else if w == seq!['p', 'r', 'i', 'n', 't'] {
        TokenType::Print
    } else if w == seq!['r', 'e', 't', 'u', 'r', 'n'] {
        TokenType::Return
    } else if w == seq!['s', 'u', 'p', 'e', 'r'] {
        TokenType::Super
    } else if w == seq!['t', 'h', 'i', 's'] {
        TokenType::This
    } else if w == seq!['t', 'r', 'u', 'e'] {
        TokenType::True
    } else if w == seq!['v', 'a', 'r'] {
        TokenType::Var
    } else if w == seq!['w', 'h', 'i', 'l', 'e'] {
        TokenType::While
    } else {
        TokenType::Identifier
    }
}

/// A token whose text is `s[start..end]`.
pub open spec fn text_token(kind: TokenType, s: Seq<char>, start: int, end: int, line: int) -> TokenModel {
    TokenModel { kind, start, content: s.subrange(start, end), length: end - start, line }
}

/// An error token, carrying its message as its text.
pub open spec fn error_model(message: Seq<char>, line: int) -> TokenModel {
    TokenModel { kind: TokenType::Error, start: 0, content: message, length: message.len() as int, line }
}

/// The kind of the one-character token `c`, if it is one.
pub open spec fn single_kind(c: char) -> Option<TokenType> {
    if c == '(' {
        Some(TokenType::LeftParen)
    } else if c == ')' {
        Some(TokenType::RightParen)
    } else if c == '{' {
        Some(TokenType::LeftBrace)
    } else if c == '}' {
        Some(TokenType::RightBrace)
    } else if c == ',' {
        Some(TokenType::Comma)
    } else if c == '.' {
        Some(TokenType::Dot)
    } else if c == ';' {
        Some(TokenType::SemiColon)
    } else if c == '-' {
        Some(TokenType::Minus)
    } else if c == '+' {
        Some(TokenType::Plus)
    } else if c == '*' {
        Some(TokenType::Star)
    } else if c == '/' {
        Some(TokenType::Slash)
    } else {
        None
    }
}

/// The kinds of the operator `c` alone and of `c` followed by `=`, if `c`
/// starts such an operator.
pub open spec fn pair_kinds(c: char) -> Option<(TokenType, TokenType)> {
    if c == '!' {
        Some((TokenType::Bang, TokenType::BangEqual))
    } else if c == '=' {
        Some((TokenType::Equal, TokenType::EqualEqual))
    } else if c == '<' {
        Some((TokenType::Less, TokenType::LessEqual))
    } else if c == '>' {
        Some((TokenType::Greater, TokenType::GreaterEqual))
    } else {
        None
    }
}

/// The token that starts at `p`, a position past any whitespace, with the
/// position and line after it.
pub open spec fn token_at(s: Seq<char>, p: int, line: int) -> (TokenModel, int, int) {
    let c = char_at(s, p);
    if c == '\0' {
        (TokenModel { kind: TokenType::Eof, start: p, content: seq![], length: 0, line }, p, line)
    } else if single_kind(c) is Some {
        (text_token(single_kind(c)->0, s, p, p + 1, line), p + 1, line)
    } else if let Some((alone, with_equal)) = pair_kinds(c) {
        if char_at(s, p + 1) == '=' {
            (text_token(with_equal, s, p, p + 2, line), p + 2, line)
        } else {
            (text_token(alone, s, p, p + 1, line), p + 1, line)
        }
    } else if c == '"' {
        let (e, l) = string_scan(s, p + 1, line);
        if char_at(s, e) == '\0' {
            (error_model("Unterminated string."@, l), e, l)
        } else {
            (text_token(TokenType::String, s, p, e + 1, l), e + 1, l)
        }
    } else if is_digit(c) {
        let e = number_end(s, p);
        (text_token(TokenType::Number, s, p, e, line), e, line)
    } else if alphabetic(c) {
        let e = ident_end(s, p + 1);
        (text_token(keyword_kind(s.subrange(p, e)), s, p, e, line), e, line)
    } else {
        (error_model("Unexpected character."@, line), p + 1, line)
    }
}

/// The next token of `s` from position `pos` on line `line`, with the
/// position and line after it.
pub open spec fn scan_from(s: Seq<char>, pos: int, line: int) -> (TokenModel, int, int) {
    let (p, l) = skip_ws(s, pos, line, false);
    token_at(s, p, l)
}

/// Once the scanner has reached the end of its input, scanning again gives
/// the same end token, at the same place, again and again.
pub proof fn lemma_end_repeats(s: Seq<char>, pos: int, line: int)
    ensures
        ({
            let (t, p, l) = scan_from(s, pos, line);
            t.kind == TokenType::Eof ==> scan_from(s, p, l) == (t, p, l)
        }),
{
    let (p0, l0) = skip_ws(s, pos, line, false);
    let (t, p, l) = scan_from(s, pos, line);
    if t.kind == TokenType::Eof {
        assert(char_at(s, p0) == '\0');
        assert(skip_ws(s, p, l, false) == (p, l));
    }
}

/// The texts of the number literals of `s` from position `pos` on, in order.
pub open spec fn literals_from(s: Seq<char>, pos: int, line: int) -> Seq<Seq<char>>
    decreases s.len() - pos,
{
    let (t, p, l) = scan_from(s, pos, line);
    if t.kind == TokenType::Eof || p <= pos || p > s.len() {
        seq![]
    } else if t.kind == TokenType::Number {
        seq![t.content] + literals_from(s, p, l)
    } else {
        literals_from(s, p, l)
    }
}

/// The texts of the number literals of a source text, in order.
pub open spec fn number_literals(s: Seq<char>) -> Seq<Seq<char>> {
    literals_from(s, 0, 1)
}

pub struct Scanner {
    text: String,
    source: Vec<char>,
    start: usize,
    current: usize,
    line: i32,
}

/// `w` equals `k` exactly when their first characters agree and their tails do.
proof fn lemma_split_first(w: Seq<char>, k: Seq<char>)
    requires
        w.len() >= 1,
        k.len() >= 1,
        w[0] == k[0],
    ensures
        (w == k) == (w.subrange(1, w.len() as int) == k.subrange(1, k.len() as int)),
{
    if w.subrange(1, w.len() as int) == k.subrange(1, k.len() as int) {
        assert(w =~= seq![w[0]] + w.subrange(1, w.len() as int));
        assert(k =~= seq![k[0]] + k.subrange(1, k.len() as int));
    }
}

/// `w` equals `k` exactly when their first two characters agree and the rest does.
proof fn lemma_split_second(w: Seq<char>, k: Seq<char>)
    requires
        w.len() >= 2,
        k.len() >= 2,
        w[0] == k[0],
        w[1] == k[1],
    ensures
        (w == k) == (w.subrange(2, w.len() as int) == k.subrange(2, k.len() as int)),
{
    if w.subrange(2, w.len() as int) == k.subrange(2, k.len() as int) {
        assert(w =~= w.subrange(0, 2) + w.subrange(2, w.len() as int));
        assert(k =~= k.subrange(0, 2) + k.subrange(2, k.len() as int));
        assert(w.subrange(0, 2) =~= k.subrange(0, 2));
    }
}

/// The lengths and first two characters of the reserved words.
proof fn lemma_keyword_heads()
    ensures
        seq!['a', 'n', 'd'].len() == 3,
        seq!['a', 'n', 'd'][0] == 'a',
        seq!['a', 'n', 'd'][1] == 'n',
        seq!['c', 'l', 'a', 's', 's'].len() == 5,
        seq!['c', 'l', 'a', 's', 's'][0] == 'c',
        seq!['c', 'l', 'a', 's', 's'][1] == 'l',
        seq!['e', 'l', 's', 'e'].len() == 4,
        seq!['e', 'l', 's', 'e'][0] == 'e',
        seq!['e', 'l', 's', 'e'][1] == 'l',
        seq!['f', 'a', 'l', 's', 'e'].len() == 5,
        seq!['f', 'a', 'l', 's', 'e'][0] == 'f',
        seq!['f', 'a', 'l', 's', 'e'][1] == 'a',
        seq!['f', 'o', 'r'].len() == 3,
        seq!['f', 'o', 'r'][0] == 'f',
        seq!['f', 'o', 'r'][1] == 'o',
        seq!['f', 'u', 'n'].len() == 3,
        seq!['f', 'u', 'n'][0] == 'f',
        seq!['f', 'u', 'n'][1] == 'u',
        seq!['i', 'f'].len() == 2,
        seq!['i', 'f'][0] == 'i',
        seq!['i', 'f'][1] == 'f',
        seq!['n', 'i', 'l'].len() == 3,
        seq!['n', 'i', 'l'][0] == 'n',
        seq!['n', 'i', 'l'][1] == 'i',
        seq!['o', 'r'].len() == 2,
        seq!['o', 'r'][0] == 'o',
        seq!['o', 'r'][1] == 'r',
        seq!['p', 'r', 'i', 'n', 't'].len() == 5,
        seq!['p', 'r', 'i', 'n', 't'][0] == 'p',
        seq!['p', 'r', 'i', 'n', 't'][1] == 'r',
        seq!['r', 'e', 't', 'u', 'r', 'n'].len() == 6,
        seq!['r', 'e', 't', 'u', 'r', 'n'][0] == 'r',
        seq!['r', 'e', 't', 'u', 'r', 'n'][1] == 'e',
        seq!['s', 'u', 'p', 'e', 'r'].len() == 5,
        seq!['s', 'u', 'p', 'e', 'r'][0] == 's',
        seq!['s', 'u', 'p', 'e', 'r'][1] == 'u',
        seq!['t', 'h', 'i', 's'].len() == 4,
        seq!['t', 'h', 'i', 's'][0] == 't',
        seq!['t', 'h', 'i', 's'][1] == 'h',
        seq!['t', 'r', 'u', 'e'].len() == 4,
        seq!['t', 'r', 'u', 'e'][0] == 't',
        seq!['t', 'r', 'u', 'e'][1] == 'r',
        seq!['v', 'a', 'r'].len() == 3,
        seq!['v', 'a', 'r'][0] == 'v',
        seq!['v', 'a', 'r'][1] == 'a',
        seq!['w', 'h', 'i', 'l', 'e'].len() == 5,
        seq!['w', 'h', 'i', 'l', 'e'][0] == 'w',
        seq!['w', 'h', 'i', 'l', 'e'][1] == 'h',
{
}

impl Scanner {
    /// The characters being scanned.
    pub closed spec fn chars(&self) -> Seq<char> {
        self.source@
    }

    /// The position of the next character to scan.
    pub closed spec fn pos(&self) -> int {
        self.current as int
    }

    /// The current source line.
    pub closed spec fn line_no(&self) -> int {
        self.line as int
    }

    pub closed spec fn wf(&self) -> bool {
        &&& self.text@ == self.source@
        &&& self.source@.len() < i32::MAX
        &&& self.start <= self.current <= self.source@.len()
        &&& 1 <= self.line <= self.current + 1
    }

    /// The characters of the token being scanned.
    closed spec fn lexeme(&self) -> Seq<char> {
        self.source@.subrange(self.start as int, self.current as int)
    }

    pub fn init(source: String) -> (r: Self)
        requires
            source@.len() < i32::MAX,
        ensures
            r.wf(),
            r.chars() == source@,
            r.pos() == 0,
            r.line_no() == 1,
    {
        let n = source.as_str().unicode_len();
        let mut chars: Vec<char> = Vec::new();
        let mut i: usize = 0;
        while i < n
            invariant
                n == source@.len(),
                i <= n,
                chars@ == source@.subrange(0, i as int),
            decreases n - i,
        {
            chars.push(source.as_str().get_char(i));
            i = i + 1;
            assert(chars@ =~= source@.subrange(0, i as int));
        }
        assert(chars@ =~= source@);
        Scanner { text: source, source: chars, start: 0, current: 0, line: 1 }
    }

    fn error_token(&self, message: &str) -> (t: Token)
        ensures
            t@ == error_model(message@, self.line as int),
    {
        let content = message.to_owned();
        Token {
            t_type: TokenType::Error,
            start: 0,
            length: message.unicode_len(),
            content,
            line: self.line,
        }
    }

    fn peak(&self) -> (c: char)
        requires
            self.wf(),
        ensures
            c == char_at(self.source@, self.current as int),
    {
        if self.current < self.source.len() {
            self.source[self.current]
        } else {
            '\0'
        }
    }

    fn peak_next(&self) -> (c: char)
        requires
            self.wf(),
        ensures
            c == char_at(self.source@, self.current + 1),
    {
        if self.current + 1 >= self.source.len() {
            return '\0';
        }
        self.source[self.current + 1]
    }

    fn at_end(&self) -> (r: bool)
        requires
            self.wf(),
        ensures
            r == (char_at(self.source@, self.current as int) == '\0'),
    {
        self.peak() == '\0'
    }

    fn advance(&mut self) -> (c: char)
        requires
            old(self).wf(),
            char_at(old(self).source@, old(self).current as int) != '\0',
        ensures
            final(self).wf(),
            final(self).source@ == old(self).source@,
            final(self).text@ == old(self).text@,
            final(self).start == old(self).start,
            final(self).line == old(self).line,
            final(self).current == old(self).current + 1,
            c == char_at(old(self).source@, old(self).current as int),
    {
        self.current = self.current + 1;
        self.source[self.current - 1]
    }

    fn match_token(&mut self, expected: char) -> (r: bool)
        requires
            old(self).wf(),
            expected != '\0',
        ensures
            final(self).wf(),
            final(self).source@ == old(self).source@,
            final(self).text@ == old(self).text@,
            final(self).start == old(self).start,
            final(self).line == old(self).line,
            r == (char_at(old(self).source@, old(self).current as int) == expected),
            final(self).current == old(self).current + (if r { 1int } else { 0int }),
    {
        if self.at_end() {
            return false;
        }
        if self.source[self.current] != expected {
            return false;
        }
        self.current = self.current + 1;
        true
    }

    fn make_token(&self, token_type: TokenType) -> (t: Token)
        requires
            self.wf(),
        ensures
            t@ == (if token_type == TokenType::Eof {
                TokenModel {
                    kind: token_type,
                    start: self.start as int,
                    content: seq![],
                    length: self.current - self.start,
                    line: self.line as int,
                }
            } else {
                text_token(token_type, self.source@, self.start as int, self.current as int, self.line as int)
            }),
    {
        let content = if token_type == TokenType::Eof {
            String::new()
        } else {
            self.text.as_str().substring_char(self.start, self.current).to_owned()
        };
        Token {
            t_type: token_type,
            start: self.start,
            length: self.current - self.start,
            content,
            line: self.line,
        }
    }

    fn skip_whitespace(&mut self)
        requires
            old(self).wf(),
        ensures
            final(self).wf(),
            final(self).source@ == old(self).source@,
            final(self).text@ == old(self).text@,
            final(self).start == old(self).start,
            final(self).current >= old(self).current,
            (final(self).current as int, final(self).line as int) == skip_ws(
                old(self).source@,
                old(self).current as int,
                old(self).line as int,
                false,
            ),
    {
        let ghost s = self.source@;
        let ghost target = skip_ws(s, self.current as int, self.line as int, false);
        let ghost c0 = self.current;
        loop
            invariant
                self.wf(),
                self.source@ == s,
                self.text@ == old(self).text@,
                self.start == old(self).start,
                self.current >= c0,
                skip_ws(s, self.current as int, self.line as int, false) == target,
            ensures
                self.wf(),
                self.source@ == s,
                self.text@ == old(self).text@,
                self.start == old(self).start,
                self.current >= c0,
                (self.current as int, self.line as int) == target,
            decreases s.len() - self.current,
        {
            let c = self.peak();
            if c == ' ' || c == '\r' || c == '\t' {
                self.advance();
            } else if c == '\n' {
                self.advance();
                self.line = self.line + 1;
            } else if c == '/' {
                if self.peak_next() == '/' {
                    let ghost i0 = self.current as int;
                    let ghost l0 = self.line as int;
                    assert(skip_ws(s, i0 + 1, l0, true) == skip_ws(s, i0 + 2, l0, true));
                    assert(skip_ws(s, i0, l0, true) == skip_ws(s, i0 + 1, l0, true));
                    while self.peak() != '\n' && !self.at_end()
                        invariant
                            self.wf(),
                            self.source@ == s,
                            self.text@ == old(self).text@,
                            self.start == old(self).start,
                            self.current >= i0,
                            char_at(s, i0) == '/',
                            skip_ws(s, self.current as int, self.line as int, true) == target,
                        decreases s.len() - self.current,
                    {
                        self.advance();
                    }
                } else {
                    assert(skip_ws(s, self.current as int, self.line as int, false) == (
                    self.current as int, self.line as int));
                    break;
                }
            } else {
                assert(skip_ws(s, self.current as int, self.line as int, false) == (
                self.current as int, self.line as int));
                break;
            }
        }
    }

    fn string(&mut self) -> (t: Token)
        requires
            old(self).wf(),
            old(self).current == old(self).start + 1,
            char_at(old(self).source@, old(self).start as int) == '"',
        ensures
            final(self).wf(),
            final(self).source@ == old(self).source@,
            final(self).text@ == old(self).text@,
            final(self).current > old(self).start,
            (t@, final(self).current as int, final(self).line as int) == token_at(
                old(self).source@,
                old(self).start as int,
                old(self).line as int,
            ),
    {
        let ghost s = self.source@;
        let ghost target = string_scan(s, self.current as int, self.line as int);
        while self.peak() != '"' && !self.at_end()
            invariant
                self.wf(),
                self.source@ == s,
                self.text@ == old(self).text@,
                self.start == old(self).start,
                self.current > self.start,
                string_scan(s, self.current as int, self.line as int) == target,
            decreases s.len() - self.current,
        {
            let c = self.advance();
            if c == '\n' {
                self.line = self.line + 1;
            }
        }
        if self.at_end() {
            return self.error_token("Unterminated string.");
        }
        self.advance();
        self.make_token(TokenType::String)
    }

    fn number(&mut self) -> (t: Token)
        requires
            old(self).wf(),
            old(self).current == old(self).start + 1,
            is_digit(char_at(old(self).source@, old(self).start as int)),
        ensures
            final(self).wf(),
            final(self).source@ == old(self).source@,
            final(self).text@ == old(self).text@,
            final(self).line == old(self).line,
            final(self).current > old(self).start,
            (t@, final(self).current as int, final(self).line as int) == token_at(
                old(self).source@,
                old(self).start as int,
                old(self).line as int,
            ),
    {
        let ghost s = self.source@;
        let ghost first = digits_end(s, self.current as int);
        while is_digit_char(self.peak())
            invariant
                self.wf(),
                self.source@ == s,
                self.text@ == old(self).text@,
                self.start == old(self).start,
                self.line == old(self).line,
                self.current > self.start,
                digits_end(s, self.current as int) == first,
            decreases s.len() - self.current,
        {
            self.advance();
        }
        if self.peak() == '.' && is_digit_char(self.peak_next()) {
            self.advance();
            let ghost second = digits_end(s, self.current as int);
            while is_digit_char(self.peak())
                invariant
                    self.wf(),
                    self.source@ == s,
                    self.text@ == old(self).text@,
                    self.start == old(self).start,
                    self.line == old(self).line,
                    self.current > self.start,
                    digits_end(s, self.current as int) == second,
                decreases s.len() - self.current,
            {
                self.advance();
            }
        }
        self.make_token(TokenType::Number)
    }

    fn match_keyword(&self, start: usize, rest: &str, token: TokenType) -> (r: TokenType)
        requires
            self.wf(),
            self.start + start <= self.current,
        ensures
            r == (if self.lexeme().subrange(start as int, self.lexeme().len() as int) == rest@ {
                token
            } else {
                TokenType::Identifier
            }),
    {
        let ghost w = self.lexeme().subrange(start as int, self.lexeme().len() as int);
        let n = rest.unicode_len();
        if self.current - self.start - start != n {
            return TokenType::Identifier;
        }
        assert(self.start + start + n == self.current);
        let mut i: usize = 0;
        while i < n
            invariant
                self.wf(),
                n == rest@.len(),
                w.len() == n,
                w == self.source@.subrange(self.start + start, self.current as int),
                self.start + start + n == self.current,
                i <= n,
                w.subrange(0, i as int) == rest@.subrange(0, i as int),
            decreases n - i,
        {
            if self.source[self.start + start + i] != rest.get_char(i) {
                assert(w[i as int] != rest@[i as int]);
                return TokenType::Identifier;
            }
            i = i + 1;
            assert(w.subrange(0, i as int) =~= rest@.subrange(0, i as int));
        }
        assert(w =~= w.subrange(0, n as int));
        assert(rest@ =~= rest@.subrange(0, n as int));
        token
    }

    fn identifier_type(&self) -> (r: TokenType)
        requires
            self.wf(),
            self.start < self.current,
        ensures
            r == keyword_kind(self.lexeme()),
    {
        let ghost w = self.lexeme();
        proof {
            lemma_keyword_heads();
        }
        let c = self.source[self.start];
        match c {
            'a' => {
                proof {
                    reveal_strlit("nd");
                    lemma_split_first(w, seq!['a', 'n', 'd']);
                    assert(seq!['a', 'n', 'd'].subrange(1, 3) =~= "nd"@);
                }
                self.match_keyword(1, "nd", TokenType::And)
            },
            'c' => {
                proof {
                    reveal_strlit("lass");
                    lemma_split_first(w, seq!['c', 'l', 'a', 's', 's']);
                    assert(seq!['c', 'l', 'a', 's', 's'].subrange(1, 5) =~= "lass"@);
                }
                self.match_keyword(1, "lass", TokenType::Class)
            },
            'e' => {
                proof {
                    reveal_strlit("lse");
                    lemma_split_first(w, seq!['e', 'l', 's', 'e']);
                    assert(seq!['e', 'l', 's', 'e'].subrange(1, 4) =~= "lse"@);
                }
                self.match_keyword(1, "lse", TokenType::Else)
            },
            'f' => {
                if self.current - self.start > 1 {
                    match self.source[self.start + 1] {
                    'a' => {
                        proof {
                            reveal_strlit("lse");
                            lemma_split_second(w, seq!['f', 'a', 'l', 's', 'e']);
                            assert(seq!['f', 'a', 'l', 's', 'e'].subrange(2, 5) =~= "lse"@);
                        }
                        self.match_keyword(2, "lse", TokenType::False)
                    },
                    'o' => {
                        proof {
                            reveal_strlit("r");
                            lemma_split_second(w, seq!['f', 'o', 'r']);
                            assert(seq!['f', 'o', 'r'].subrange(2, 3) =~= "r"@);
                        }
                        self.match_keyword(2, "r", TokenType::For)
                    },
                    'u' => {
                        proof {
                            reveal_strlit("n");
                            lemma_split_second(w, seq!['f', 'u', 'n']);
                            assert(seq!['f', 'u', 'n'].subrange(2, 3) =~= "n"@);
                        }
                        self.match_keyword(2, "n", TokenType::Fun)
                    },
                        _ => TokenType::Identifier,
                    }
                } else {
                    TokenType::Identifier
                }
            },
            'i' => {
                proof {
                    reveal_strlit("f");
                    lemma_split_first(w, seq!['i', 'f']);
                    assert(seq!['i', 'f'].subrange(1, 2) =~= "f"@);
                }
                self.match_keyword(1, "f", TokenType::If)
            },
            'n' => {
                proof {
                    reveal_strlit("il");
                    lemma_split_first(w, seq!['n', 'i', 'l']);
                    assert(seq!['n', 'i', 'l'].subrange(1, 3) =~= "il"@);
                }
                self.match_keyword(1, "il", TokenType::Nil)
            },
            'o' => {
                proof {
                    reveal_strlit("r");
                    lemma_split_first(w, seq!['o', 'r']);
                    assert(seq!['o', 'r'].subrange(1, 2) =~= "r"@);
                }
                self.match_keyword(1, "r", TokenType::Or)
            },
            'p' => {
                proof {
                    reveal_strlit("rint");
                    lemma_split_first(w, seq!['p', 'r', 'i', 'n', 't']);
                    assert(seq!['p', 'r', 'i', 'n', 't'].subrange(1, 5) =~= "rint"@);
                }
                self.match_keyword(1, "rint", TokenType::Print)
            },
            'r' => {
                proof {
                    reveal_strlit("eturn");
                    lemma_split_first(w, seq!['r', 'e', 't', 'u', 'r', 'n']);
                    assert(seq!['r', 'e', 't', 'u', 'r', 'n'].subrange(1, 6) =~= "eturn"@);
                }
                self.match_keyword(1, "eturn", TokenType::Return)
            },
            's' => {
                proof {
                    reveal_strlit("uper");
                    lemma_split_first(w, seq!['s', 'u', 'p', 'e', 'r']);
                    assert(seq!['s', 'u', 'p', 'e', 'r'].subrange(1, 5) =~= "uper"@);
                }
                self.match_keyword(1, "uper", TokenType::Super)
            },
            't' => {
                if self.current - self.start > 1 {
                    match self.source[self.start + 1] {
                    'h' => {
                        proof {
                            reveal_strlit("is");
                            lemma_split_second(w, seq!['t', 'h', 'i', 's']);
                            assert(seq!['t', 'h', 'i', 's'].subrange(2, 4) =~= "is"@);
                        }
                        self.match_keyword(2, "is", TokenType::This)
                    },
                    'r' => {
                        proof {
                            reveal_strlit("ue");
                            lemma_split_second(w, seq!['t', 'r', 'u', 'e']);
                            assert(seq!['t', 'r', 'u', 'e'].subrange(2, 4) =~= "ue"@);
                        }
                        self.match_keyword(2, "ue", TokenType::True)
                    },
                        _ => TokenType::Identifier,
                    }
                } else {
                    TokenType::Identifier
                }
            },
            'v' => {
                proof {
                    reveal_strlit("ar");
                    lemma_split_first(w, seq!['v', 'a', 'r']);
                    assert(seq!['v', 'a', 'r'].subrange(1, 3) =~= "ar"@);
                }
                self.match_keyword(1, "ar", TokenType::Var)
            },
            'w' => {
                proof {
                    reveal_strlit("hile");
                    lemma_split_first(w, seq!['w', 'h', 'i', 'l', 'e']);
                    assert(seq!['w', 'h', 'i', 'l', 'e'].subrange(1, 5) =~= "hile"@);
                }
                self.match_keyword(1, "hile", TokenType::While)
            },
            _ => TokenType::Identifier,
        }
    }

    fn identifier(&mut self) -> (t: Token)
        requires
            old(self).wf(),
            old(self).current == old(self).start + 1,
            alphabetic(char_at(old(self).source@, old(self).start as int)),
        ensures
            final(self).wf(),
            final(self).source@ == old(self).source@,
            final(self).text@ == old(self).text@,
            final(self).line == old(self).line,
            final(self).current > old(self).start,
            t@ == text_token(
                keyword_kind(old(self).source@.subrange(old(self).start as int, final(self).current as int)),
                old(self).source@,
                old(self).start as int,
                final(self).current as int,
                old(self).line as int,
            ),
            final(self).current == ident_end(old(self).source@, old(self).start + 1),
    {
        let ghost s = self.source@;
        let ghost target = ident_end(s, self.current as int);
        while !self.at_end() && (is_alpha(self.peak()) || is_digit_char(self.peak()))
            invariant
                self.wf(),
                self.source@ == s,
                self.text@ == old(self).text@,
                self.start == old(self).start,
                self.line == old(self).line,
                self.current > self.start,
                ident_end(s, self.current as int) == target,
            decreases s.len() - self.current,
        {
            self.advance();
        }
        let kind = self.identifier_type();
        self.make_token(kind)
    }

    /// Scans the next token, skipping whitespace and comments before it. At
    /// the end of input it returns an end token, again on every later call.
    pub fn scan_token(&mut self) -> (t: Token)
        requires
            old(self).wf(),
        ensures
            final(self).wf(),
            final(self).chars() == old(self).chars(),
            (t@, final(self).pos(), final(self).line_no()) == scan_from(
                old(self).chars(),
                old(self).pos(),
                old(self).line_no(),
            ),
            final(self).pos() >= old(self).pos(),
            final(self).pos() <= final(self).chars().len(),
            t.t_type != TokenType::Eof ==> final(self).pos() > old(self).pos(),
            t.t_type == TokenType::Eof ==> char_at(final(self).chars(), final(self).pos()) == '\0',
    {
        self.skip_whitespace();
        self.start = self.current;
        if self.at_end() {
            return self.make_token(TokenType::Eof);
        }
        let c = self.advance();
        match c {
            '(' => self.make_token(TokenType::LeftParen),
            ')' => self.make_token(TokenType::RightParen),
            '{' => self.make_token(TokenType::LeftBrace),
            '}' => self.make_token(TokenType::RightBrace),
            ',' => self.make_token(TokenType::Comma),
            '.' => self.make_token(TokenType::Dot),
            ';' => self.make_token(TokenType::SemiColon),
            '-' => self.make_token(TokenType::Minus),
            '+' => self.make_token(TokenType::Plus),
            '*' => self.make_token(TokenType::Star),
            '/' => self.make_token(TokenType::Slash),
            '!' => {
                if self.match_token('=') {
                    self.make_token(TokenType::BangEqual)
                } else {
                    self.make_token(TokenType::Bang)
                }
            },
            '=' => {
                if self.match_token('=') {
                    self.make_token(TokenType::EqualEqual)
                } else {
                    self.make_token(TokenType::Equal)
                }
            },
            '<' => {
                if self.match_token('=') {
                    self.make_token(TokenType::LessEqual)
                } else {
                    self.make_token(TokenType::Less)
                }
            },
            '>' => {
                if self.match_token('=') {
                    self.make_token(TokenType::GreaterEqual)
                } else {
                    self.make_token(TokenType::Greater)
                }
            },
            '"' => self.string(),
            c if is_digit_char(c) => self.number(),
            c if is_alpha(c) => self.identifier(),
            _ => self.error_token("Unexpected character."),
        }
    }
}

/// Whether `c` is a decimal digit.
pub fn is_digit_char(c: char) -> (r: bool)
    ensures
        r == is_digit(c),
{
    '0' <= c && c <= '9'
}

} // verus!
