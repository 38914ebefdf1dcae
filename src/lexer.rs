use vstd::prelude::*;
use vstd::std_specs::iter::IteratorSpec;

verus! {

/// A token of JSON text.
///
/// `NumberMatch` and `StringMatch` are never produced by the lexer: they are
/// the classes under which any number and any string are looked up in the
/// action table. A number carries the digits it was scanned from; a string
/// carries its characters with each escaping backslash removed.
#[derive(Debug, Clone)]
pub enum Token {
    BeginArray,
    BeginObject,
    EndArray,
    EndObject,
    NameSeparator,
    ValueSeparator,
    Number(Vec<char>),
    NumberMatch,
    String(Vec<char>),
    StringMatch,
    LexerError(char),
    True,
    False,
    Null,
    EOF,
}

/// The mathematical value of a [`Token`].
pub ghost enum TokenView {
    BeginArray,
    BeginObject,
    EndArray,
    EndObject,
    NameSeparator,
    ValueSeparator,
    Number(Seq<char>),
    NumberMatch,
    String(Seq<char>),
    StringMatch,
    LexerError(char),
    True,
    False,
    Null,
    EOF,
}

impl View for Token {
    type V = TokenView;

    open spec fn view(&self) -> TokenView {
        match self {
            Token::BeginArray => TokenView::BeginArray,
            Token::BeginObject => TokenView::BeginObject,
            Token::EndArray => TokenView::EndArray,
            Token::EndObject => TokenView::EndObject,
            Token::NameSeparator => TokenView::NameSeparator,
            Token::ValueSeparator => TokenView::ValueSeparator,
            Token::Number(d) => TokenView::Number(d@),
            Token::NumberMatch => TokenView::NumberMatch,
            Token::String(s) => TokenView::String(s@),
            Token::StringMatch => TokenView::StringMatch,
            Token::LexerError(c) => TokenView::LexerError(*c),
            Token::True => TokenView::True,
            Token::False => TokenView::False,
            Token::Null => TokenView::Null,
            Token::EOF => TokenView::EOF,
        }
    }
}

fn same_chars(a: &Vec<char>, b: &Vec<char>) -> (r: bool)
    ensures
        r == (a@ == b@),
{
    if a.len() != b.len() {
        return false;
    }
    let mut i: usize = 0;
    while i < a.len()
        invariant
            a@.len() == b@.len(),
            i <= a@.len(),
            forall|j: int| 0 <= j < i ==> a@[j] == b@[j],
        decreases a@.len() - i,
    {
        if a[i] != b[i] {
            return false;
        }
        i = i + 1;
    }
    assert(a@ =~= b@);
    true
}

fn copy_chars(a: &Vec<char>) -> (r: Vec<char>)
    ensures
        r@ == a@,
{
    let mut r: Vec<char> = Vec::new();
    let mut i: usize = 0;
    while i < a.len()
        invariant
            i <= a@.len(),
            r@ == a@.subrange(0, i as int),
        decreases a@.len() - i,
    {
        r.push(a[i]);
        i = i + 1;
        assert(r@ =~= a@.subrange(0, i as int));
    }
    assert(r@ =~= a@);
    r
}

impl PartialEq for Token {
    fn eq(&self, other: &Token) -> (r: bool) {
        match (self, other) {
            (Token::Number(a), Token::Number(b)) => same_chars(a, b),
            (Token::String(a), Token::String(b)) => same_chars(a, b),
            (Token::LexerError(a), Token::LexerError(b)) => *a == *b,
            (Token::BeginArray, Token::BeginArray) => true,
            (Token::BeginObject, Token::BeginObject) => true,
            (Token::EndArray, Token::EndArray) => true,
            (Token::EndObject, Token::EndObject) => true,
            (Token::NameSeparator, Token::NameSeparator) => true,
            (Token::ValueSeparator, Token::ValueSeparator) => true,
            (Token::NumberMatch, Token::NumberMatch) => true,
            (Token::StringMatch, Token::StringMatch) => true,
            (Token::True, Token::True) => true,
            (Token::False, Token::False) => true,
            (Token::Null, Token::Null) => true,
            (Token::EOF, Token::EOF) => true,
            _ => false,
        }
    }
}

impl vstd::std_specs::cmp::PartialEqSpecImpl for Token {
    open spec fn obeys_eq_spec() -> bool {
        true
    }

    open spec fn eq_spec(&self, other: &Token) -> bool {
        self@ == other@
    }
}

impl Token {
    /// A token with the same value.
    pub fn duplicate(&self) -> (r: Token)
        ensures
            r@ == self@,
    {
        match self {
            Token::Number(d) => Token::Number(copy_chars(d)),
            Token::String(s) => Token::String(copy_chars(s)),
            Token::LexerError(c) => Token::LexerError(*c),
            Token::BeginArray => Token::BeginArray,
            Token::BeginObject => Token::BeginObject,
            Token::EndArray => Token::EndArray,
            Token::EndObject => Token::EndObject,
            Token::NameSeparator => Token::NameSeparator,
            Token::ValueSeparator => Token::ValueSeparator,
            Token::NumberMatch => Token::NumberMatch,
            Token::StringMatch => Token::StringMatch,
            Token::True => Token::True,
            Token::False => Token::False,
            Token::Null => Token::Null,
            Token::EOF => Token::EOF,
        }
    }

    /// The class under which the token is looked up in the action table:
    /// every number is `NumberMatch`, every string `StringMatch`, and any
    /// other token stands for itself.
    pub fn classify(&self) -> (r: Token)
        ensures
            r@ == class_of(self@),
    {
        match self {
            Token::Number(_) => Token::NumberMatch,
            Token::String(_) => Token::StringMatch,
            _ => self.duplicate(),
        }
    }
}

pub open spec fn class_of(t: TokenView) -> TokenView {
    match t {
        TokenView::Number(_) => TokenView::NumberMatch,
        TokenView::String(_) => TokenView::StringMatch,
        _ => t,
    }
}

pub open spec fn is_digit(c: char) -> bool {
    '0' <= c && c <= '9'
}

pub open spec fn is_alpha(c: char) -> bool {
    ('a' <= c && c <= 'z') || ('A' <= c && c <= 'Z')
}

/// ASCII whitespace: space, tab, line feed, form feed, carriage return.
pub open spec fn is_space(c: char) -> bool {
    c == ' ' || c == '\t' || c == '\n' || c == '\x0C' || c == '\r'
}

/// The first position at or after `p` that does not hold whitespace.
pub open spec fn skip_space(s: Seq<char>, p: int) -> int
    decreases s.len() - p,
{
    if 0 <= p < s.len() && is_space(s[p]) {
        skip_space(s, p + 1)
    } else {
        p
    }
}

/// The end of the run of decimal digits that starts at `p`.
pub open spec fn digits_end(s: Seq<char>, p: int) -> int
    decreases s.len() - p,
{
    if 0 <= p < s.len() && is_digit(s[p]) {
        digits_end(s, p + 1)
    } else {
        p
    }
}

/// The body of a string literal whose first character after the opening
/// quote is at `p`, with the position of the closing quote; `None` when the
/// input ends first. A backslash is dropped and the character after it kept.
pub open spec fn scan_string(s: Seq<char>, p: int) -> Option<(Seq<char>, int)>
    decreases s.len() - p,
{
    if p < 0 || p >= s.len() {
        None
    } else if s[p] == '"' {
        Some((Seq::<char>::empty(), p))
    } else if s[p] == '\\' {
        if p + 1 >= s.len() {
            None
        } else {
            match scan_string(s, p + 2) {
                Some(r) => Some((seq![s[p + 1]] + r.0, r.1)),
                None => None,
            }
        }
    } else {
        match scan_string(s, p + 1) {
            Some(r) => Some((seq![s[p]] + r.0, r.1)),
            None => None,
        }
    }
}

/// Whether the characters of `w` stand in `s` from position `p` on.
pub open spec fn word_at(s: Seq<char>, p: int, w: Seq<char>) -> bool {
    0 <= p && p + w.len() <= s.len() && s.subrange(p, p + w.len()) == w
}

/// The token that starts at `p`, which holds no whitespace, with the position
/// just past it; `None` for a string literal that is not closed.
pub open spec fn token_at(s: Seq<char>, p: int) -> Option<(TokenView, int)> {
    if p >= s.len() {
        Some((TokenView::EOF, p))
    } else {
        let c = s[p];
        if c == '[' {
            Some((TokenView::BeginArray, p + 1))
        } else if c == '{' {
            Some((TokenView::BeginObject, p + 1))
        } else if c == ']' {
            Some((TokenView::EndArray, p + 1))
        } else if c == '}' {
            Some((TokenView::EndObject, p + 1))
        } else if c == ':' {
            Some((TokenView::NameSeparator, p + 1))
        } else if c == ',' {
            Some((TokenView::ValueSeparator, p + 1))
        } else if is_digit(c) {
            Some((TokenView::Number(s.subrange(p, digits_end(s, p))), digits_end(s, p)))
        } else if c == '"' {
            match scan_string(s, p + 1) {
                Some(r) => Some((TokenView::String(r.0), r.1 + 1)),
                None => None,
            }
        } else if is_alpha(c) {
            if word_at(s, p, seq!['t', 'r', 'u', 'e']) {
                Some((TokenView::True, p + 4))
            } else if word_at(s, p, seq!['f', 'a', 'l', 's', 'e']) {
                Some((TokenView::False, p + 5))
            } else if word_at(s, p, seq!['n', 'u', 'l', 'l']) {
                Some((TokenView::Null, p + 4))
            } else {
                Some((TokenView::LexerError(c), p))
            }
        } else {
            Some((TokenView::LexerError(c), p + 1))
        }
    }
}

/// What a call of `next_token` on text `s` with the cursor at `cursor`
/// returns, and where it leaves the cursor: whitespace is skipped in both
/// modes, and only a consuming call moves past the token.
pub open spec fn next_spec(s: Seq<char>, cursor: int, consume: bool) -> (Option<TokenView>, int) {
    let p = skip_space(s, cursor);
    match token_at(s, p) {
        Some(r) => (Some(r.0), if consume { r.1 } else { p }),
        None => (None, p),
    }
}

/// `prefix` put in front of the body of a scanned string literal.
pub open spec fn with_prefix(prefix: Seq<char>, r: Option<(Seq<char>, int)>) -> Option<(Seq<char>, int)> {
    match r {
        Some(x) => Some((prefix + x.0, x.1)),
        None => None,
    }
}

pub open spec fn token_view_of(r: Option<Token>) -> Option<TokenView> {
    match r {
        Some(t) => Some(t@),
        None => None,
    }
}

fn digit_char(c: char) -> (r: bool)
    ensures
        r == is_digit(c),
{
    '0' <= c && c <= '9'
}

fn alpha_char(c: char) -> (r: bool)
    ensures
        r == is_alpha(c),
{
    ('a' <= c && c <= 'z') || ('A' <= c && c <= 'Z')
}

fn space_char(c: char) -> (r: bool)
    ensures
        r == is_space(c),
{
    c == ' ' || c == '\t' || c == '\n' || c == '\x0C' || c == '\r'
}

fn word_matches(chars: &Vec<char>, p: usize, w: &Vec<char>) -> (r: bool)
    ensures
        r == word_at(chars@, p as int, w@),
{
    if w.len() > chars.len() || p > chars.len() - w.len() {
        return false;
    }
    let mut i: usize = 0;
    while i < w.len()
        invariant
            p + w@.len() <= chars@.len(),
            chars@.len() == chars.len(),
            i <= w@.len(),
            forall|j: int| 0 <= j < i ==> chars@[p + j] == w@[j],
        decreases w@.len() - i,
    {
        if chars[p + i] != w[i] {
            assert(chars@.subrange(p as int, p + w@.len())[i as int] != w@[i as int]);
            return false;
        }
        i = i + 1;
    }
    assert(chars@.subrange(p as int, p + w@.len()) =~= w@);
    true
}

proof fn lemma_skip_space_settles(s: Seq<char>, p: int)
    requires
        0 <= p,
    ensures
        skip_space(s, skip_space(s, p)) == skip_space(s, p),
        p <= skip_space(s, p),
    decreases s.len() - p,
{
    if 0 <= p < s.len() && is_space(s[p]) {
        lemma_skip_space_settles(s, p + 1);
    }
}

/// Lookahead without consuming is stable: a second peek returns the same
/// token and leaves the cursor where the first left it, and a consuming call
/// after a peek returns the peeked token and moves the cursor as a consuming
/// call in place of the peek would have.
pub proof fn lemma_peek_idempotent(s: Seq<char>, cursor: int)
    requires
        0 <= cursor <= s.len(),
    ensures
        next_spec(s, next_spec(s, cursor, false).1, false) == next_spec(s, cursor, false),
        next_spec(s, next_spec(s, cursor, false).1, true) == next_spec(s, cursor, true),
{
    lemma_skip_space_settles(s, cursor);
}

/// A scanner over a fixed text, with a cursor into it.
pub struct Lexer {
    characters: Vec<char>,
    cursor: usize,
}

impl Lexer {
    /// The text being scanned.
    pub closed spec fn text(&self) -> Seq<char> {
        self.characters@
    }

    /// The position of the cursor in the text.
    pub closed spec fn pos(&self) -> int {
        self.cursor as int
    }

    /// The cursor stays within the text.
    pub closed spec fn wf(&self) -> bool {
        self.cursor <= self.characters@.len()
    }

    /// A lexer over the characters of `source`, with the cursor at the start.
    pub fn new(source: String) -> (r: Lexer)
        ensures
            r.wf(),
            r.text() == source@,
            r.pos() == 0,
    {
        let mut characters: Vec<char> = Vec::new();
        let mut it = source.as_str().chars();
        broadcast use vstd::string::axiom_spec_iter, vstd::string::next_postcondition;
        loop
            invariant
                characters@ + it.remaining() == source@,
                it.obeys_prophetic_iter_laws(),
                it.decrease() is Some,
            ensures
                characters@ == source@,
            decreases it.decrease()->0,
        {
            match it.next() {
                Some(c) => {
                    characters.push(c);
                    assert(characters@ + it.remaining() =~= source@);
                },
                None => {
                    assert(characters@ =~= source@);
                    break ;
                },
            }
        }
        Lexer { characters, cursor: 0 }
    }

    /// The number of characters of the text.
    pub fn len(&self) -> (r: usize)
        ensures
            r == self.text().len(),
    {
        self.characters.len()
    }

    /// The token at the cursor, after any whitespace, which is skipped in
    /// both modes. With `shift` the cursor moves past the token; without it
    /// the cursor stays at the token's start. `None` when a string literal
    /// runs to the end of the text without its closing quote.
    pub fn next_token(&mut self, shift: bool) -> (r: Option<Token>)
        requires
            old(self).wf(),
        ensures
            final(self).wf(),
            final(self).text() == old(self).text(),
            (token_view_of(r), final(self).pos()) == next_spec(old(self).text(), old(self).pos(), shift),
    {
        let ghost s = self.characters@;
        let len = self.characters.len();
        let mut p = self.cursor;
        while p < len && space_char(self.characters[p])
            invariant
                self.characters@ == s,
                len == s.len(),
                self.cursor <= p <= len,
                skip_space(s, self.cursor as int) == skip_space(s, p as int),
            decreases len - p,
        {
            p = p + 1;
        }
        self.cursor = p;
        if p >= len {
            return Some(Token::EOF);
        }
        let c = self.characters[p];
        let (token, end) = if c == '[' {
            (Token::BeginArray, p + 1)
        } else if c == '{' {
            (Token::BeginObject, p + 1)
        } else if c == ']' {
            (Token::EndArray, p + 1)
        } else if c == '}' {
            (Token::EndObject, p + 1)
        } else if c == ':' {
            (Token::NameSeparator, p + 1)
        } else if c == ',' {
            (Token::ValueSeparator, p + 1)
        } else if digit_char(c) {
            let mut digits: Vec<char> = Vec::new();
            digits.push(c);
            let mut q = p + 1;
            while q < len && digit_char(self.characters[q])
                invariant
                    self.characters@ == s,
                    len == s.len(),
                    p < q <= len,
                    digits@ == s.subrange(p as int, q as int),
                    digits_end(s, p as int) == digits_end(s, q as int),
                decreases len - q,
            {
                digits.push(self.characters[q]);
                q = q + 1;
                assert(digits@ =~= s.subrange(p as int, q as int));
            }
            (Token::Number(digits), q)
        } else if c == '"' {
            let mut body: Vec<char> = Vec::new();
            let mut q = p + 1;
            loop
                invariant
                    self.characters@ == s,
                    s == old(self).characters@,
                    self.cursor == p,
                    len == s.len(),
                    p < len,
                    p < q <= len + 1,
                    skip_space(s, old(self).cursor as int) == p,
                    s[p as int] == '"',
                    scan_string(s, p + 1) == with_prefix(body@, scan_string(s, q as int)),
                ensures
                    q < len,
                    scan_string(s, p + 1) == Some((body@, q as int)),
                decreases len + 1 - q,
            {
                if q >= len {
                    return None;
                }
                let d = self.characters[q];
                if d == '"' {
                    assert(body@ + Seq::<char>::empty() =~= body@);
                    break;
                }
                let ghost before = body@;
                if d == '\\' {
                    if q + 1 >= len {
                        return None;
                    }
                    body.push(self.characters[q + 1]);
                    q = q + 2;
                } else {
                    body.push(d);
                    q = q + 1;
                }
                proof {
                    match scan_string(s, q as int) {
                        Some(x) => {
                            assert(before + (seq![body@.last()] + x.0) =~= body@ + x.0);
                        },
                        None => {},
                    }
                }
            }
            (Token::String(body), q + 1)
        } else if alpha_char(c) {
            if word_matches(&self.characters, p, &vec!['t', 'r', 'u', 'e']) {
                (Token::True, p + 4)
            } else if word_matches(&self.characters, p, &vec!['f', 'a', 'l', 's', 'e']) {
                (Token::False, p + 5)
            } else if word_matches(&self.characters, p, &vec!['n', 'u', 'l', 'l']) {
                (Token::Null, p + 4)
            } else {
                (Token::LexerError(c), p)
            }
        } else {
            (Token::LexerError(c), p + 1)
        };
        if shift {
            self.cursor = end;
        }
        Some(token)
    }
}

} // verus!
