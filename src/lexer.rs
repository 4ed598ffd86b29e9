//! Splits dump text into tokens: words, quoted identifiers, string literals,
//! numbers and symbols. Whitespace and comments are dropped.
use vstd::prelude::*;

verus! {

/// The kind of a token.
#[derive(Clone, Copy, Debug, PartialEq, Eq, Structural)]
pub enum TokenKind {
    /// A bare word: a keyword or an unquoted identifier.
    Word,
    /// A backtick-quoted identifier; the text is what stands between the backticks.
    Quoted,
    /// A string literal; the text is what stands between the quotes, escapes kept.
    Str,
    /// A number, digits with an optional point.
    Number,
    /// A single character of punctuation.
    Symbol,
}

/// A token and the position of its first character in the input.
#[derive(Clone, Debug)]
pub struct Token {
    pub kind: TokenKind,
    pub text: Vec<char>,
    pub position: usize,
}

/// An error of the recognizer or of the model builder.
#[derive(Clone, Debug, PartialEq, Eq)]
pub enum ParseError {
    /// The input does not match what was expected at `position`
    /// (a character offset for the tokenizer, a token index otherwise).
    Syntax { expected: String, position: usize },
    /// A data type keyword that the model does not define.
    UnknownType { name: String },
}

pub open spec fn is_digit_spec(c: char) -> bool {
    '0' <= c <= '9'
}

pub open spec fn is_word_char_spec(c: char) -> bool {
    ('a' <= c <= 'z') || ('A' <= c <= 'Z') || is_digit_spec(c) || c == '_' || c == '$'
}

pub open spec fn is_space_spec(c: char) -> bool {
    c == ' ' || c == '\t' || c == '\n' || c == '\r'
}

pub fn is_digit(c: char) -> (r: bool)
    ensures
        r == is_digit_spec(c),
{
    '0' <= c && c <= '9'
}

pub fn is_word_char(c: char) -> (r: bool)
    ensures
        r == is_word_char_spec(c),
{
    ('a' <= c && c <= 'z') || ('A' <= c && c <= 'Z') || is_digit(c) || c == '_' || c == '$'
}

pub fn is_space(c: char) -> (r: bool)
    ensures
        r == is_space_spec(c),
{
    c == ' ' || c == '\t' || c == '\n' || c == '\r'
}

/// The view of a token.
pub struct TokenV {
    pub kind: TokenKind,
    pub text: Seq<char>,
    pub position: int,
}

impl View for Token {
    type V = TokenV;

    open spec fn view(&self) -> TokenV {
        TokenV { kind: self.kind, text: self.text@, position: self.position as int }
    }
}

/// The end of the run of word characters that starts at `j`.
pub open spec fn word_end(s: Seq<char>, j: int) -> int
    decreases s.len() - j,
{
    if j < 0 || j >= s.len() || !is_word_char_spec(s[j]) {
        j
    } else {
        word_end(s, j + 1)
    }
}

/// The end of the run of digits and points that starts at `j`.
pub open spec fn number_end(s: Seq<char>, j: int) -> int
    decreases s.len() - j,
{
    if j < 0 || j >= s.len() || !(is_digit_spec(s[j]) || s[j] == '.') {
        j
    } else {
        number_end(s, j + 1)
    }
}

/// The position of the next line feed from `j`, or the end.
pub open spec fn line_end(s: Seq<char>, j: int) -> int
    decreases s.len() - j,
{
    if j < 0 || j >= s.len() || s[j] == '\n' {
        j
    } else {
        line_end(s, j + 1)
    }
}

/// The position of the next `*/` from `j`, or the end.
pub open spec fn star_slash(s: Seq<char>, j: int) -> int
    decreases s.len() - j,
{
    if j < 0 || j >= s.len() || (s[j] == '*' && j + 1 < s.len() && s[j + 1] == '/') {
        j
    } else {
        star_slash(s, j + 1)
    }
}

/// Whether a line comment starts at `i`: `#`, or `--` followed by whitespace or the end.
pub open spec fn line_comment_at(s: Seq<char>, i: int) -> bool {
    s[i] == '#' || (s[i] == '-' && i + 1 < s.len() && s[i + 1] == '-' && (i + 2 == s.len() || is_space_spec(s[i + 2])))
}

/// The position after the comment that starts at `i`, or `i` where none does.
pub open spec fn comment_after(s: Seq<char>, i: int) -> int {
    if line_comment_at(s, i) {
        line_end(s, i)
    } else if s[i] == '/' && i + 1 < s.len() && s[i + 1] == '*' {
        let k = star_slash(s, i + 2);
        if k < s.len() {
            k + 2
        } else {
            s.len() as int
        }
    } else {
        i
    }
}

/// The position of the quote `q` that closes a literal whose content starts at `j`;
/// a backslash escapes the next character outside backticks, and a doubled quote stands for one.
pub open spec fn close_of(s: Seq<char>, j: int, q: char) -> Option<int>
    decreases s.len() - j,
{
    if j < 0 || j >= s.len() {
        None
    } else if s[j] == '\\' && q != '`' {
        if j + 1 < s.len() {
            close_of(s, j + 2, q)
        } else {
            None
        }
    } else if s[j] == q {
        if j + 1 < s.len() && s[j + 1] == q {
            close_of(s, j + 2, q)
        } else {
            Some(j)
        }
    } else {
        close_of(s, j + 1, q)
    }
}

/// `t` in front of the tokens `rest`, unless reading them failed.
pub open spec fn prepend(t: TokenV, rest: Option<Seq<TokenV>>) -> Option<Seq<TokenV>> {
    match rest {
        Some(r) => Some(seq![t] + r),
        None => None,
    }
}

/// The tokens of `s` from position `i`; `None` where a literal is not closed or
/// a word that starts with digits holds a point.
pub open spec fn lex_from(s: Seq<char>, i: int) -> Option<Seq<TokenV>>
    decreases s.len() - i,
{
    if i < 0 || i >= s.len() {
        Some(Seq::empty())
    } else if is_space_spec(s[i]) {
        lex_from(s, i + 1)
    } else if i < comment_after(s, i) <= s.len() {
        lex_from(s, comment_after(s, i))
    } else if s[i] == '`' || s[i] == '\'' || s[i] == '"' {
        match close_of(s, i + 1, s[i]) {
            None => None,
            Some(j) => {
                let text = s.subrange(i + 1, j);
                if s[i] == '`' && text.contains('`') {
                    None
                } else {
                    let kind = if s[i] == '`' { TokenKind::Quoted } else { TokenKind::Str };
                    if i < j + 1 <= s.len() {
                        prepend(TokenV { kind, text, position: i }, lex_from(s, j + 1))
                    } else {
                        None
                    }
                }
            },
        }
    } else if is_digit_spec(s[i]) {
        let j = number_end(s, i);
        if j < s.len() && is_word_char_spec(s[j]) {
            let k = word_end(s, j);
            let text = s.subrange(i, k);
            if i < k <= s.len() && forall|m: int| 0 <= m < text.len() ==> is_word_char_spec(#[trigger] text[m]) {
                prepend(TokenV { kind: TokenKind::Word, text, position: i }, lex_from(s, k))
            } else {
                None
            }
        } else if i < j <= s.len() {
            prepend(TokenV { kind: TokenKind::Number, text: s.subrange(i, j), position: i }, lex_from(s, j))
        } else {
            None
        }
    } else if is_word_char_spec(s[i]) {
        let k = word_end(s, i);
        if i < k <= s.len() {
            prepend(TokenV { kind: TokenKind::Word, text: s.subrange(i, k), position: i }, lex_from(s, k))
        } else {
            None
        }
    } else {
        prepend(TokenV { kind: TokenKind::Symbol, text: seq![s[i]], position: i }, lex_from(s, i + 1))
    }
}

/// The tokens of `s`.
pub open spec fn lex(s: Seq<char>) -> Option<Seq<TokenV>> {
    lex_from(s, 0)
}

/// The characters of `s` from `from` up to, not including, `to`.
fn slice(s: &Vec<char>, from: usize, to: usize) -> (r: Vec<char>)
    requires
        from <= to <= s@.len(),
    ensures
        r@ == s@.subrange(from as int, to as int),
{
    let mut r: Vec<char> = Vec::new();
    let mut i = from;
    while i < to
        invariant
            from <= i <= to <= s@.len(),
            r@ == s@.subrange(from as int, i as int),
        decreases to - i,
    {
        r.push(s[i]);
        proof {
            assert(r@ =~= s@.subrange(from as int, i + 1));
        }
        i = i + 1;
    }
    r
}

fn scan_word(s: &Vec<char>, j: usize) -> (r: usize)
    requires
        j <= s@.len(),
    ensures
        r as int == word_end(s@, j as int),
        j <= r <= s@.len(),
        j < s@.len() && is_word_char_spec(s@[j as int]) ==> r > j,
{
    let mut k = j;
    while k < s.len() && is_word_char(s[k])
        invariant
            j <= k <= s@.len(),
            word_end(s@, j as int) == word_end(s@, k as int),
        decreases s@.len() - k,
    {
        k = k + 1;
    }
    k
}

fn scan_number(s: &Vec<char>, j: usize) -> (r: usize)
    requires
        j <= s@.len(),
    ensures
        r as int == number_end(s@, j as int),
        j <= r <= s@.len(),
        j < s@.len() && is_digit_spec(s@[j as int]) ==> r > j,
{
    let mut k = j;
    while k < s.len() && (is_digit(s[k]) || s[k] == '.')
        invariant
            j <= k <= s@.len(),
            number_end(s@, j as int) == number_end(s@, k as int),
        decreases s@.len() - k,
    {
        k = k + 1;
    }
    k
}

/// The position after a comment that starts at `i`, or `i` where none starts there.
fn skip_comment(s: &Vec<char>, i: usize) -> (r: usize)
    requires
        i < s@.len(),
    ensures
        r as int == comment_after(s@, i as int),
        i <= r <= s@.len(),
{
    let n = s.len();
    if s[i] == '#' || (s[i] == '-' && i + 1 < n && s[i + 1] == '-' && (i + 2 == n || is_space(s[i + 2]))) {
        let mut j = i;
        while j < n && s[j] != '\n'
            invariant
                i <= j <= n,
                n == s@.len(),
                line_end(s@, i as int) == line_end(s@, j as int),
            decreases n - j,
        {
            j = j + 1;
        }
        j
    } else if s[i] == '/' && i + 1 < n && s[i + 1] == '*' {
        let mut j = i + 2;
        while j < n && !(s[j] == '*' && j + 1 < n && s[j + 1] == '/')
            invariant
                i + 2 <= j <= n,
                n == s@.len(),
                star_slash(s@, i + 2) == star_slash(s@, j as int),
            decreases n - j,
        {
            j = j + 1;
        }
        if j < n {
            j + 2
        } else {
            n
        }
    } else {
        i
    }
}

/// The position of the quote that closes a literal whose content starts at `i`.
fn find_close(s: &Vec<char>, i: usize, q: char) -> (r: Option<usize>)
    requires
        i <= s@.len(),
    ensures
        match r {
            Some(j) => close_of(s@, i as int, q) == Some(j as int) && i <= j < s@.len(),
            None => close_of(s@, i as int, q) is None,
        },
{
    let n = s.len();
    let mut j = i;
    while j < n
        invariant
            i <= j <= n + 1,
            n == s@.len(),
            close_of(s@, i as int, q) == close_of(s@, j as int, q),
        decreases n + 1 - j,
    {
        if s[j] == '\\' && q != '`' {
            if j + 1 < n {
                j = j + 2;
            } else {
                return None;
            }
        } else if s[j] == q {
            if j + 1 < n && s[j + 1] == q {
                j = j + 2;
            } else {
                return Some(j);
            }
        } else {
            j = j + 1;
        }
    }
    None
}

/// Splits `s` into tokens.
pub fn tokenize(s: &Vec<char>) -> (r: Result<Vec<Token>, ParseError>)
    ensures
        r is Ok <==> lex(s@) is Some,
        r matches Ok(ts) ==> lex(s@) == Some(crate::model::views(ts@)),
{
    let n = s.len();
    let mut out: Vec<Token> = Vec::new();
    let mut i: usize = 0;
    proof {
        assert(Seq::<TokenV>::empty() + lex(s@).unwrap_or(Seq::empty()) =~= lex(s@).unwrap_or(Seq::empty()));
    }
    while i < n
        invariant
            i <= n,
            n == s@.len(),
            lex(s@) == prefixed(crate::model::views(out@), lex_from(s@, i as int)),
        decreases n - i,
    {
        let c = s[i];
        if is_space(c) {
            i = i + 1;
            continue;
        }
        let after = skip_comment(s, i);
        if after > i {
            i = after;
            continue;
        }
        let start = i;
        let tok: Token;
        let next: usize;
        if c == '`' || c == '\'' || c == '"' {
            match find_close(s, i + 1, c) {
                Some(j) => {
                    let text = slice(s, i + 1, j);
                    let kind = if c == '`' {
                        TokenKind::Quoted
                    } else {
                        TokenKind::Str
                    };
                    if c == '`' {
                        if contains_char(&text, '`') {
                            return Err(ParseError::Syntax { expected: String::from_str("IDENTIFIER"), position: start });
                        }
                    }
                    tok = Token { kind, text, position: start };
                    next = j + 1;
                },
                None => {
                    return Err(ParseError::Syntax { expected: String::from_str("closing quote"), position: start });
                },
            }
        } else if is_digit(c) {
            let j = scan_number(s, i);
            if j < n && is_word_char(s[j]) {
                let k = scan_word(s, j);
                let text = slice(s, i, k);
                if !all_word_chars(&text) {
                    return Err(ParseError::Syntax { expected: String::from_str("WORD"), position: start });
                }
                tok = Token { kind: TokenKind::Word, text, position: start };
                next = k;
            } else {
                let text = slice(s, i, j);
                tok = Token { kind: TokenKind::Number, text, position: start };
                next = j;
            }
        } else if is_word_char(c) {
            let k = scan_word(s, i);
            let text = slice(s, i, k);
            tok = Token { kind: TokenKind::Word, text, position: start };
            next = k;
        } else {
            let mut text: Vec<char> = Vec::new();
            text.push(c);
            proof {
                assert(text@ =~= seq![c]);
            }
            tok = Token { kind: TokenKind::Symbol, text, position: start };
            next = i + 1;
        }
        let ghost before = out@;
        out.push(tok);
        proof {
            crate::model::lemma_views_push(before, tok);
            assert(lex_from(s@, i as int) == prepend(tok@, lex_from(s@, next as int)));
            lemma_prefixed_push(crate::model::views(before), tok@, lex_from(s@, next as int));
        }
        i = next;
    }
    Ok(out)
}

/// The tokens `p` in front of those of `rest`, unless reading them failed.
pub open spec fn prefixed(p: Seq<TokenV>, rest: Option<Seq<TokenV>>) -> Option<Seq<TokenV>> {
    match rest {
        Some(r) => Some(p + r),
        None => None,
    }
}

proof fn lemma_prefixed_push(p: Seq<TokenV>, t: TokenV, rest: Option<Seq<TokenV>>)
    ensures
        prefixed(p, prepend(t, rest)) == prefixed(p.push(t), rest),
{
    if let Some(r) = rest {
        assert(p + (seq![t] + r) =~= p.push(t) + r);
    }
}

/// Whether `c` occurs in `v`.
pub fn contains_char(v: &Vec<char>, c: char) -> (r: bool)
    ensures
        r == v@.contains(c),
{
    let mut i: usize = 0;
    while i < v.len()
        invariant
            i <= v@.len(),
            forall|k: int| 0 <= k < i ==> v@[k] != c,
        decreases v@.len() - i,
    {
        if v[i] == c {
            return true;
        }
        i = i + 1;
    }
    false
}

/// Whether every character of `v` is a word character.
fn all_word_chars(v: &Vec<char>) -> (r: bool)
    ensures
        r == forall|k: int| 0 <= k < v@.len() ==> is_word_char_spec(#[trigger] v@[k]),
{
    let mut i: usize = 0;
    while i < v.len()
        invariant
            i <= v@.len(),
            forall|k: int| 0 <= k < i ==> is_word_char_spec(#[trigger] v@[k]),
        decreases v@.len() - i,
    {
        if !is_word_char(v[i]) {
            return false;
        }
        i = i + 1;
    }
    true
}

} // verus!
