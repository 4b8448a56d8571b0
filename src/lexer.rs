use vstd::prelude::*;
use vstd::string::*;
use crate::token::{Span, Token};

verus! {

/// Whitespace between tokens.
pub open spec fn is_space(c: char) -> bool {
    c == ' ' || c == '\t' || c == '\n' || c == '\x0C'
}

/// A decimal digit.
pub open spec fn is_digit(c: char) -> bool {
    '0' <= c && c <= '9'
}

/// A character that can begin a name.
pub open spec fn is_name_start(c: char) -> bool {
    ('a' <= c && c <= 'z') || ('A' <= c && c <= 'Z') || c == '_'
}

/// A character that can continue a name.
pub open spec fn is_name_char(c: char) -> bool {
    is_name_start(c) || is_digit(c)
}

/// The token that a one-character symbol stands for.
pub open spec fn symbol(c: char) -> Option<Token> {
    if c == '=' { Some(Token::Equal) }
    else if c == ':' { Some(Token::Colon) }
    else if c == ';' { Some(Token::Semicolon) }
    else if c == ',' { Some(Token::Comma) }
    else if c == '(' { Some(Token::OpenParen) }
    else if c == ')' { Some(Token::CloseParen) }
    else if c == '{' { Some(Token::OpenBrace) }
    else if c == '}' { Some(Token::CloseBrace) }
    else if c == '[' { Some(Token::OpenBracket) }
    else if c == ']' { Some(Token::CloseBracket) }
    else if c == '<' { Some(Token::LessThan) }
    else if c == '>' { Some(Token::GreaterThan) }
    else if c == '+' { Some(Token::Plus) }
    else if c == '-' { Some(Token::Minus) }
    else if c == '*' { Some(Token::Star) }
    else if c == '/' { Some(Token::Slash) }
    else { None }
}

/// The keyword that a name spells, if any.
pub open spec fn keyword(w: Seq<char>) -> Option<Token> {
    if w == "if"@ { Some(Token::If) }
    else if w == "else"@ { Some(Token::Else) }
    else if w == "let"@ { Some(Token::Let) }
    else if w == "const"@ { Some(Token::Const) }
    else if w == "while"@ { Some(Token::While) }
    else { None }
}

/// Whether the text at `i` begins with `console.log`.
pub open spec fn at_log(s: Seq<char>, i: nat) -> bool {
    i + 11 <= s.len() && s.subrange(i as int, i + 11 as int) == "console.log"@
}

/// The end of the run of name characters from `i`.
pub open spec fn name_end(s: Seq<char>, i: nat) -> nat
    decreases s.len() - i,
{
    if i < s.len() && is_name_char(s[i as int]) { name_end(s, i + 1) } else { i }
}

/// The end of the run of digits from `i`.
pub open spec fn digits_end(s: Seq<char>, i: nat) -> nat
    decreases s.len() - i,
{
    if i < s.len() && is_digit(s[i as int]) { digits_end(s, i + 1) } else { i }
}

/// The index of the quote that closes a string whose contents start at
/// `i`: any character but a quote or a backslash, or a backslash followed by
/// `t`, `u`, `n` or a quote. None when the string is not closed.
pub open spec fn string_close(s: Seq<char>, i: nat) -> Option<nat>
    decreases s.len() - i,
{
    if i >= s.len() {
        None
    } else if s[i as int] == '"' {
        Some(i)
    } else if s[i as int] == '\\' {
        if i + 1 < s.len() && (s[i + 1 as int] == 't' || s[i + 1 as int] == 'u' || s[i + 1 as int] == 'n' || s[i + 1 as int] == '"') {
            string_close(s, i + 2)
        } else {
            None
        }
    } else {
        string_close(s, i + 1)
    }
}

/// The value of a run of decimal digits.
pub open spec fn digits_value(d: Seq<char>) -> int
    decreases d.len(),
{
    if d.len() == 0 { 0 } else { digits_value(d.drop_last()) * 10 + (d.last() as int - '0' as int) }
}

/// One step of the scan at `i < s.len()`: where the next step starts, and
/// whether the characters passed form a token. Whitespace, a string that is
/// not closed, a number too large for `i32` and any character that begins
/// no token are passed over.
pub open spec fn step(s: Seq<char>, i: nat) -> (nat, bool) {
    let c = s[i as int];
    if is_space(c) {
        (i + 1, false)
    } else if at_log(s, i) {
        (i + 11, true)
    } else if symbol(c) is Some {
        (i + 1, true)
    } else if c == '"' {
        match string_close(s, i + 1) {
            Some(j) => (j + 1, true),
            None => (i + 1, false),
        }
    } else if is_name_start(c) {
        (name_end(s, i + 1), true)
    } else if is_digit(c) {
        let j = digits_end(s, i + 1);
        (j, digits_value(s.subrange(i as int, j as int)) <= i32::MAX)
    } else {
        (i + 1, false)
    }
}

/// The spans of the tokens from `i` on, in order.
pub open spec fn spans_from(s: Seq<char>, i: nat) -> Seq<(nat, nat)>
    decreases s.len() - i,
{
    if i >= s.len() {
        Seq::empty()
    } else {
        let (j, emits) = step(s, i);
        if j <= i || j > s.len() {
            Seq::empty()
        } else if emits {
            seq![(i, j)] + spans_from(s, j)
        } else {
            spans_from(s, j)
        }
    }
}

/// Whether `t` is the token that the text `w` of a span stands for.
pub open spec fn denotes(w: Seq<char>, t: Token) -> bool {
    match t {
        Token::StringLiteral(x) => w.len() > 0 && w[0] == '"' && x@ == w,
        Token::Identifier(x) => w.len() > 0 && is_name_start(w[0]) && keyword(w) is None && x@ == w,
        Token::Number(n) => w.len() > 0 && is_digit(w[0]) && n as int == digits_value(w),
        Token::ConsoleLog => w == "console.log"@,
        _ => (w.len() == 1 && symbol(w[0]) == Some(t)) || keyword(w) == Some(t),
    }
}

/// The spans of a token list.
pub open spec fn token_spans(v: Seq<(Token, Span)>) -> Seq<(nat, nat)> {
    v.map_values(|p: (Token, Span)| (p.1.start as nat, p.1.end as nat))
}

/// Whether `v` is the token list of the text `s`: its spans are those of the
/// scan, and each token is the one its text stands for.
pub open spec fn lexes_to(s: Seq<char>, v: Seq<(Token, Span)>) -> bool {
    &&& token_spans(v) == spans_from(s, 0)
    &&& forall|k: int| #![trigger v[k]] 0 <= k < v.len() ==> v[k].1.start <= v[k].1.end <= s.len()
        && denotes(s.subrange(v[k].1.start as int, v[k].1.end as int), v[k].0)
}

/// Whether two texts hold the same characters.
pub fn str_equals(a: &str, b: &str) -> (r: bool)
    ensures
        r == (a@ == b@),
{
    let n = a.unicode_len();
    if n != b.unicode_len() {
        return false;
    }
    let mut i: usize = 0;
    while i < n
        invariant
            i <= n == a@.len() == b@.len(),
            forall|k: int| 0 <= k < i ==> a@[k] == b@[k],
        decreases n - i,
    {
        if a.get_char(i) != b.get_char(i) {
            assert(a@[i as int] != b@[i as int]);
            return false;
        }
        i = i + 1;
    }
    assert(a@ =~= b@);
    true
}

fn space(c: char) -> (r: bool)
    ensures
        r == is_space(c),
{
    c == ' ' || c == '\t' || c == '\n' || c == '\x0C'
}

fn digit(c: char) -> (r: bool)
    ensures
        r == is_digit(c),
{
    '0' <= c && c <= '9'
}

fn name_start(c: char) -> (r: bool)
    ensures
        r == is_name_start(c),
{
    ('a' <= c && c <= 'z') || ('A' <= c && c <= 'Z') || c == '_'
}

fn symbol_token(c: char) -> (r: Option<Token>)
    ensures
        r == symbol(c),
{
    match c {
        '=' => Some(Token::Equal),
        ':' => Some(Token::Colon),
        ';' => Some(Token::Semicolon),
        ',' => Some(Token::Comma),
        '(' => Some(Token::OpenParen),
        ')' => Some(Token::CloseParen),
        '{' => Some(Token::OpenBrace),
        '}' => Some(Token::CloseBrace),
        '[' => Some(Token::OpenBracket),
        ']' => Some(Token::CloseBracket),
        '<' => Some(Token::LessThan),
        '>' => Some(Token::GreaterThan),
        '+' => Some(Token::Plus),
        '-' => Some(Token::Minus),
        '*' => Some(Token::Star),
        '/' => Some(Token::Slash),
        _ => None,
    }
}

fn keyword_token(w: &str) -> (r: Option<Token>)
    ensures
        r == keyword(w@),
{
    if str_equals(w, "if") {
        Some(Token::If)
    } else if str_equals(w, "else") {
        Some(Token::Else)
    } else if str_equals(w, "let") {
        Some(Token::Let)
    } else if str_equals(w, "const") {
        Some(Token::Const)
    } else if str_equals(w, "while") {
        Some(Token::While)
    } else {
        None
    }
}

/// The characters of a text, in order; each is fetched by its index, so
/// this takes time quadratic in the length of the text.
fn char_vec(source: &str) -> (r: Vec<char>)
    ensures
        r@ == source@,
{
    let n = source.unicode_len();
    let mut out: Vec<char> = Vec::new();
    let mut i: usize = 0;
    while i < n
        invariant
            i <= n == source@.len(),
            out@ == source@.subrange(0, i as int),
        decreases n - i,
    {
        out.push(source.get_char(i));
        i = i + 1;
        assert(out@ =~= source@.subrange(0, i as int));
    }
    assert(out@ =~= source@);
    out
}

fn scan_name(chars: &Vec<char>, i: usize) -> (r: usize)
    requires
        i <= chars@.len(),
    ensures
        r == name_end(chars@, i as nat),
        i <= r <= chars@.len(),
{
    let mut k = i;
    while k < chars.len() && (name_start(chars[k]) || digit(chars[k]))
        invariant
            i <= k <= chars@.len(),
            name_end(chars@, i as nat) == name_end(chars@, k as nat),
        decreases chars@.len() - k,
    {
        k = k + 1;
    }
    k
}

fn scan_digits(chars: &Vec<char>, i: usize) -> (r: usize)
    requires
        i <= chars@.len(),
    ensures
        r == digits_end(chars@, i as nat),
        i <= r <= chars@.len(),
        forall|k: int| i <= k < r ==> is_digit(#[trigger] chars@[k]),
{
    let mut k = i;
    while k < chars.len() && digit(chars[k])
        invariant
            i <= k <= chars@.len(),
            digits_end(chars@, i as nat) == digits_end(chars@, k as nat),
            forall|m: int| i <= m < k ==> is_digit(#[trigger] chars@[m]),
        decreases chars@.len() - k,
    {
        k = k + 1;
    }
    k
}

fn scan_string(chars: &Vec<char>, i: usize) -> (r: Option<usize>)
    requires
        i <= chars@.len(),
    ensures
        match r {
            Some(j) => string_close(chars@, i as nat) == Some(j as nat) && i <= j < chars@.len(),
            None => string_close(chars@, i as nat) is None,
        },
{
    let n = chars.len();
    let mut k = i;
    loop
        invariant
            i <= k <= n == chars@.len(),
            string_close(chars@, i as nat) == string_close(chars@, k as nat),
        decreases n - k,
    {
        if k >= n {
            return None;
        }
        let c = chars[k];
        if c == '"' {
            return Some(k);
        } else if c == '\\' {
            if k + 1 < n {
                let e = chars[k + 1];
                if e == 't' || e == 'u' || e == 'n' || e == '"' {
                    k = k + 2;
                } else {
                    return None;
                }
            } else {
                return None;
            }
        } else {
            k = k + 1;
        }
    }
}

/// The value of the digits in `chars[i..j]`, when it fits in an `i32`.
fn number_value(chars: &Vec<char>, i: usize, j: usize) -> (r: Option<i32>)
    requires
        i <= j <= chars@.len(),
        forall|k: int| i <= k < j ==> is_digit(#[trigger] chars@[k]),
    ensures
        match r {
            Some(v) => v as int == digits_value(chars@.subrange(i as int, j as int)),
            None => digits_value(chars@.subrange(i as int, j as int)) > i32::MAX,
        },
{
    let mut acc: i64 = 0;
    let mut k = i;
    while k < j
        invariant
            i <= k <= j <= chars@.len(),
            forall|m: int| i <= m < j ==> is_digit(#[trigger] chars@[m]),
            0 <= acc <= i32::MAX,
            acc as int == digits_value(chars@.subrange(i as int, k as int)),
        decreases j - k,
    {
        let d = chars[k];
        assert(chars@.subrange(i as int, k + 1).drop_last() =~= chars@.subrange(i as int, k as int));
        let next: i64 = acc * 10 + (d as u32 - '0' as u32) as i64;
        if next > i32::MAX as i64 {
            proof {
                lemma_digits_above(chars@, i as nat, (k + 1) as nat, j as nat);
            }
            return None;
        }
        acc = next;
        k = k + 1;
    }
    Some(acc as i32)
}

/// A run of digits whose prefix is already above a bound stays above it.
proof fn lemma_digits_above(s: Seq<char>, i: nat, k: nat, j: nat)
    requires
        i <= k <= j <= s.len(),
        forall|m: int| i <= m < j ==> is_digit(#[trigger] s[m]),
        digits_value(s.subrange(i as int, k as int)) > i32::MAX,
    ensures
        digits_value(s.subrange(i as int, j as int)) > i32::MAX,
    decreases j - k,
{
    if k < j {
        assert(s.subrange(i as int, k + 1 as int).drop_last() =~= s.subrange(i as int, k as int));
        lemma_digits_above(s, i, k + 1, j);
    }
}

/// Reads a source text into its tokens, each with the span it was read
/// from. Whitespace and characters that begin no token are passed over.
pub fn tokenize(source: &str) -> (r: Vec<(Token, Span)>)
    ensures
        lexes_to(source@, r@),
{
    let ghost s = source@;
    let chars = char_vec(source);
    let n = chars.len();
    let mut out: Vec<(Token, Span)> = Vec::new();
    let mut i: usize = 0;
    assert(token_spans(out@) + spans_from(s, 0) =~= spans_from(s, 0));
    while i < n
        invariant
            chars@ == s,
            s == source@,
            n == s.len(),
            i <= n,
            spans_from(s, 0) == token_spans(out@) + spans_from(s, i as nat),
            forall|k: int| #![trigger out@[k]] 0 <= k < out@.len() ==> out@[k].1.start <= out@[k].1.end <= s.len()
                && denotes(s.subrange(out@[k].1.start as int, out@[k].1.end as int), out@[k].0),
        decreases n - i,
    {
        let c = chars[i];
        let mut j: usize = i + 1;
        let mut tok: Option<Token> = None;
        if space(c) {
        } else if n - i >= 11 && str_equals(source.substring_char(i, i + 11), "console.log") {
            j = i + 11;
            tok = Some(Token::ConsoleLog);
        } else if let Some(t) = symbol_token(c) {
            tok = Some(t);
        } else if c == '"' {
            match scan_string(&chars, i + 1) {
                Some(close) => {
                    j = close + 1;
                    tok = Some(Token::StringLiteral(String::from_str(source.substring_char(i, j))));
                },
                None => {},
            }
        } else if name_start(c) {
            j = scan_name(&chars, i + 1);
            let w = source.substring_char(i, j);
            tok = match keyword_token(w) {
                Some(k) => Some(k),
                None => Some(Token::Identifier(String::from_str(w))),
            };
        } else if digit(c) {
            j = scan_digits(&chars, i + 1);
            match number_value(&chars, i, j) {
                Some(v) => {
                    tok = Some(Token::Number(v));
                },
                None => {},
            }
        }
        assert(step(s, i as nat) == (j as nat, tok is Some));
        assert(i < j <= n);
        assert(tok is Some ==> denotes(s.subrange(i as int, j as int), tok->0));
        let ghost before = out@;
        match tok {
            Some(t) => {
                out.push((t, Span { start: i, end: j }));
                assert forall|k: int| #![trigger out@[k]] 0 <= k < out@.len() implies out@[k].1.start <= out@[k].1.end <= s.len()
                    && denotes(s.subrange(out@[k].1.start as int, out@[k].1.end as int), out@[k].0) by {
                    if k < before.len() {
                        assert(out@[k] == before[k]);
                    } else {
                        assert(out@[k] == (t, Span { start: i, end: j }));
                    }
                }
                assert(token_spans(out@) =~= token_spans(before).push((i as nat, j as nat)));
                assert(token_spans(before) + spans_from(s, i as nat)
                    =~= token_spans(out@) + spans_from(s, j as nat));
            },
            None => {},
        }
        i = j;
    }
    assert(token_spans(out@) + spans_from(s, i as nat) =~= token_spans(out@));
    out
}

/// The tokens of a source text, read in full when the lexer is made.
pub struct Lexer {
    tokens: Vec<(Token, Span)>,
}

impl Lexer {
    /// The tokens that were read.
    pub closed spec fn spec_tokens(&self) -> Seq<(Token, Span)> {
        self.tokens@
    }

    /// Reads the whole source text.
    pub fn new(source: &str) -> (r: Self)
        ensures
            lexes_to(source@, r.spec_tokens()),
    {
        Lexer { tokens: tokenize(source) }
    }

    /// The tokens, each with its span.
    pub fn get_tokens(self) -> (r: Vec<(Token, Span)>)
        ensures
            r@ == self.spec_tokens(),
    {
        self.tokens
    }
}

} // verus!
