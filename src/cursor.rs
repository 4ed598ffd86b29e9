//! Reading tokens: keywords, symbols, identifiers and numbers.
use vstd::prelude::*;
use crate::lexer::{Token, TokenV, TokenKind, ParseError, is_digit_spec};
use crate::model::views;
use crate::text::{chars_of, string_of};

verus! {

/// The upper-case form of an ASCII letter; other characters are kept.
pub open spec fn upper_char(c: char) -> char {
    if 'a' <= c <= 'z' {
        ((c as u32) - 32) as char
    } else {
        c
    }
}

pub open spec fn upper(s: Seq<char>) -> Seq<char> {
    s.map_values(|c: char| upper_char(c))
}

pub fn to_upper_char(c: char) -> (r: char)
    ensures
        r == upper_char(c),
{
    if 'a' <= c && c <= 'z' {
        ((c as u32) - 32) as u8 as char
    } else {
        c
    }
}

/// The upper-case form of `v`, ASCII letters only.
pub fn to_upper(v: &Vec<char>) -> (r: Vec<char>)
    ensures
        r@ == upper(v@),
{
    let mut r: Vec<char> = Vec::new();
    let mut i: usize = 0;
    while i < v.len()
        invariant
            i <= v@.len(),
            r@ == upper(v@.subrange(0, i as int)),
        decreases v@.len() - i,
    {
        r.push(to_upper_char(v[i]));
        proof {
            assert(upper(v@.subrange(0, i + 1)) =~= upper(v@.subrange(0, i as int)).push(
                upper_char(v@[i as int]),
            ));
        }
        i = i + 1;
    }
    proof {
        assert(v@.subrange(0, v@.len() as int) =~= v@);
    }
    r
}

/// Whether two character sequences are equal.
pub fn same_chars(a: &Vec<char>, b: &Vec<char>) -> (r: bool)
    ensures
        r == (a@ == b@),
{
    if a.len() != b.len() {
        return false;
    }
    let mut i: usize = 0;
    while i < a.len()
        invariant
            i <= a@.len() == b@.len(),
            forall|k: int| 0 <= k < i ==> a@[k] == b@[k],
        decreases a@.len() - i,
    {
        if a[i] != b[i] {
            return false;
        }
        i = i + 1;
    }
    proof {
        assert(a@ =~= b@);
    }
    true
}

/// Whether `v` spells the literal `lit`.
pub fn eq_lit(v: &Vec<char>, lit: &str) -> (r: bool)
    ensures
        r == (v@ == lit@),
{
    let l = chars_of(lit);
    same_chars(v, &l)
}

/// The tokens of a statement, as the grammar reads them.
pub open spec fn tv_of(ts: Seq<Token>) -> Seq<TokenV> {
    views(ts)
}

/// Whether the token at `p` is the keyword `kw` (given in upper case), in any case.
pub open spec fn is_kw_spec(tv: Seq<TokenV>, p: int, kw: Seq<char>) -> bool {
    0 <= p < tv.len() && tv[p].kind == TokenKind::Word && upper(tv[p].text) == kw
}

pub fn is_kw(ts: &Vec<Token>, p: usize, end: usize, kw: &str) -> (r: bool)
    requires
        end <= ts@.len(),
    ensures
        r == (p < end && is_kw_spec(tv_of(ts@), p as int, kw@)),
{
    if p >= end {
        return false;
    }
    if ts[p].kind != TokenKind::Word {
        return false;
    }
    let u = to_upper(&ts[p].text);
    eq_lit(&u, kw)
}

/// Whether the token at `p` is the symbol `c`.
pub open spec fn is_sym_spec(tv: Seq<TokenV>, p: int, c: char) -> bool {
    0 <= p < tv.len() && tv[p].kind == TokenKind::Symbol && tv[p].text == seq![c]
}

pub fn is_sym(ts: &Vec<Token>, p: usize, end: usize, c: char) -> (r: bool)
    requires
        end <= ts@.len(),
    ensures
        r == (p < end && is_sym_spec(tv_of(ts@), p as int, c)),
{
    if p >= end {
        return false;
    }
    if ts[p].kind != TokenKind::Symbol || ts[p].text.len() != 1 {
        return false;
    }
    let r = ts[p].text[0] == c;
    proof {
        if r {
            assert(ts@[p as int].text@ =~= seq![c]);
        }
    }
    r
}

/// A syntax error at token `p`.
pub fn syntax(expected: &str, p: usize) -> (r: ParseError)
    ensures
        r is Syntax,
{
    ParseError::Syntax { expected: String::from_str(expected), position: p }
}

/// Fails unless the token at `p` is the symbol `c`; the position after it.
pub fn expect_sym(ts: &Vec<Token>, p: usize, end: usize, c: char) -> (r: Result<usize, ParseError>)
    requires
        end <= ts@.len(),
    ensures
        r matches Ok(q) ==> q == p + 1,
        r is Ok <==> (p < end && is_sym_spec(tv_of(ts@), p as int, c)),
        r matches Err(e) ==> e is Syntax,
{
    if is_sym(ts, p, end, c) {
        Ok(p + 1)
    } else {
        Err(syntax("symbol", p))
    }
}

/// Fails unless the token at `p` is the keyword `kw`; the position after it.
pub fn expect_kw(ts: &Vec<Token>, p: usize, end: usize, kw: &str) -> (r: Result<usize, ParseError>)
    requires
        end <= ts@.len(),
    ensures
        r matches Ok(q) ==> q == p + 1,
        r is Ok <==> (p < end && is_kw_spec(tv_of(ts@), p as int, kw@)),
        r matches Err(e) ==> e is Syntax,
{
    if is_kw(ts, p, end, kw) {
        Ok(p + 1)
    } else {
        Err(syntax(kw, p))
    }
}

/// Whether the token at `p` names something: a quoted identifier or a bare word.
pub open spec fn is_name_spec(tv: Seq<TokenV>, p: int) -> bool {
    0 <= p < tv.len() && (tv[p].kind == TokenKind::Quoted || tv[p].kind == TokenKind::Word)
}

/// The name at `p`, delimiters stripped.
pub fn name_at(ts: &Vec<Token>, p: usize, end: usize) -> (r: Result<String, ParseError>)
    requires
        end <= ts@.len(),
    ensures
        r is Ok <==> (p < end && is_name_spec(tv_of(ts@), p as int)),
        r matches Ok(s) ==> s@ == tv_of(ts@)[p as int].text,
        r matches Err(e) ==> e is Syntax,
{
    if p < end && (ts[p].kind == TokenKind::Quoted || ts[p].kind == TokenKind::Word) {
        Ok(string_of(&ts[p].text))
    } else {
        Err(syntax("IDENTIFIER", p))
    }
}

/// A name that may be qualified by a database name (`db`.`t`): the last part, and
/// the position after it.
pub open spec fn qname(tv: Seq<TokenV>, p: int, end: int) -> Option<(Seq<char>, int)> {
    if !(p < end && is_name_spec(tv, p)) {
        None
    } else if p + 1 < end && is_sym_spec(tv, p + 1, '.') {
        if p + 2 < end && is_name_spec(tv, p + 2) {
            Some((tv[p + 2].text, p + 3))
        } else {
            None
        }
    } else {
        Some((tv[p].text, p + 1))
    }
}

pub fn qualified_name_at(ts: &Vec<Token>, p: usize, end: usize) -> (r: Result<(String, usize), ParseError>)
    requires
        end <= ts@.len(),
    ensures
        match r {
            Ok((s, q)) => qname(tv_of(ts@), p as int, end as int) == Some((s@, q as int)),
            Err(e) => qname(tv_of(ts@), p as int, end as int) is None && e is Syntax,
        },
{
    let s = name_at(ts, p, end)?;
    if is_sym(ts, p + 1, end, '.') {
        let t = name_at(ts, p + 2, end)?;
        Ok((t, p + 3))
    } else {
        Ok((s, p + 1))
    }
}

/// The value of a sequence of decimal digits.
pub open spec fn digits_value(s: Seq<char>) -> nat
    decreases s.len(),
{
    if s.len() == 0 {
        0
    } else {
        digits_value(s.drop_last()) * 10 + ((s.last() as u32) - ('0' as u32)) as nat
    }
}

/// The number that the digits `v` spell, where it fits in a `u32`.
pub fn parse_u32(v: &Vec<char>) -> (r: Option<u32>)
    ensures
        r == num_of(v@),
        r matches Some(n) ==> v@.len() > 0 && (forall|k: int| 0 <= k < v@.len() ==> is_digit_spec(#[trigger] v@[k])) && n as nat == digits_value(v@),
        r is None ==> v@.len() == 0 || (exists|k: int| 0 <= k < v@.len() && !is_digit_spec(#[trigger] v@[k])) || digits_value(v@) > u32::MAX,
{
    if v.len() == 0 {
        return None;
    }
    let mut acc: u64 = 0;
    let mut i: usize = 0;
    while i < v.len()
        invariant
            i <= v@.len(),
            forall|k: int| 0 <= k < i ==> is_digit_spec(#[trigger] v@[k]),
            acc as nat == digits_value(v@.subrange(0, i as int)),
            acc <= u32::MAX,
        decreases v@.len() - i,
    {
        let c = v[i];
        proof {
            assert(v@.subrange(0, i + 1).drop_last() =~= v@.subrange(0, i as int));
        }
        if !('0' <= c && c <= '9') {
            return None;
        }
        let d = (c as u32 - '0' as u32) as u64;
        let next = acc * 10 + d;
        if next > u32::MAX as u64 {
            proof {
                lemma_digits_grow(v@, i as int + 1);
            }
            return None;
        }
        acc = next;
        i = i + 1;
    }
    proof {
        assert(v@.subrange(0, v@.len() as int) =~= v@);
    }
    Some(acc as u32)
}

/// The value of digits never falls below the value of a prefix.
pub proof fn lemma_digits_grow(s: Seq<char>, n: int)
    requires
        0 <= n <= s.len(),
    ensures
        digits_value(s.subrange(0, n)) <= digits_value(s),
    decreases s.len() - n,
{
    if n < s.len() {
        lemma_digits_grow(s, n + 1);
        assert(s.subrange(0, n + 1).drop_last() =~= s.subrange(0, n));
    } else {
        assert(s.subrange(0, n) =~= s);
    }
}

/// The number that the digits `s` spell, where it fits in a `u32`.
pub open spec fn num_of(s: Seq<char>) -> Option<u32> {
    if s.len() > 0 && (forall|k: int| 0 <= k < s.len() ==> is_digit_spec(#[trigger] s[k])) && digits_value(s) <= u32::MAX {
        Some(digits_value(s) as u32)
    } else {
        None
    }
}

/// The position after the group whose content starts at `q`, `depth` levels deep.
pub open spec fn group_end(tv: Seq<TokenV>, q: int, end: int, depth: nat) -> Option<int>
    decreases end - q,
{
    if q < 0 || q >= end {
        None
    } else if is_sym_spec(tv, q, '(') {
        group_end(tv, q + 1, end, depth + 1)
    } else if is_sym_spec(tv, q, ')') {
        if depth <= 1 {
            Some(q + 1)
        } else {
            group_end(tv, q + 1, end, (depth - 1) as nat)
        }
    } else {
        group_end(tv, q + 1, end, depth)
    }
}

/// The position after the parenthesised group that opens at `p`.
pub open spec fn group_after(tv: Seq<TokenV>, p: int, end: int) -> Option<int> {
    if p < end && is_sym_spec(tv, p, '(') {
        group_end(tv, p + 1, end, 1)
    } else {
        None
    }
}

/// A found group end lies past its start.
pub proof fn lemma_group_end(tv: Seq<TokenV>, q: int, end: int, depth: nat)
    ensures
        group_end(tv, q, end, depth) matches Some(e) ==> q < e <= end,
    decreases end - q,
{
    if 0 <= q < end {
        if is_sym_spec(tv, q, '(') {
            lemma_group_end(tv, q + 1, end, depth + 1);
        } else if is_sym_spec(tv, q, ')') {
            if depth > 1 {
                lemma_group_end(tv, q + 1, end, (depth - 1) as nat);
            }
        } else {
            lemma_group_end(tv, q + 1, end, depth);
        }
    }
}

pub fn skip_group(ts: &Vec<Token>, p: usize, end: usize) -> (r: Result<usize, ParseError>)
    requires
        end <= ts@.len(),
    ensures
        match r {
            Ok(q) => group_after(tv_of(ts@), p as int, end as int) == Some(q as int) && p < q <= end,
            Err(e) => group_after(tv_of(ts@), p as int, end as int) is None && e is Syntax,
        },
{
    let mut q = expect_sym(ts, p, end, '(')?;
    let mut depth: usize = 1;
    while q < end
        invariant
            p < q <= end,
            end <= ts@.len(),
            1 <= depth <= q - p,
            group_after(tv_of(ts@), p as int, end as int) == group_end(tv_of(ts@), q as int, end as int, depth as nat),
        decreases end - q,
    {
        if is_sym(ts, q, end, '(') {
            depth = depth + 1;
        } else if is_sym(ts, q, end, ')') {
            if depth == 1 {
                proof {
                    lemma_group_end(tv_of(ts@), q as int, end as int, 1);
                }
                return Ok(q + 1);
            }
            depth = depth - 1;
        }
        q = q + 1;
    }
    Err(syntax("')'", q))
}

/// The position of the next `,` or `)` at the current depth, or of `end`.
pub open spec fn separator_from(tv: Seq<TokenV>, q: int, end: int) -> Option<int>
    decreases end - q,
{
    if q < 0 || q >= end || is_sym_spec(tv, q, ',') || is_sym_spec(tv, q, ')') {
        Some(q)
    } else if is_sym_spec(tv, q, '(') {
        match group_after(tv, q, end) {
            Some(e) => if q < e <= end {
                separator_from(tv, e, end)
            } else {
                None
            },
            None => None,
        }
    } else {
        separator_from(tv, q + 1, end)
    }
}

pub fn skip_to_separator(ts: &Vec<Token>, p: usize, end: usize) -> (r: Result<usize, ParseError>)
    requires
        end <= ts@.len(),
        p <= end,
    ensures
        match r {
            Ok(q) => separator_from(tv_of(ts@), p as int, end as int) == Some(q as int) && p <= q <= end,
            Err(e) => separator_from(tv_of(ts@), p as int, end as int) is None && e is Syntax,
        },
{
    let mut q = p;
    while q < end && !is_sym(ts, q, end, ',') && !is_sym(ts, q, end, ')')
        invariant
            p <= q <= end,
            end <= ts@.len(),
            separator_from(tv_of(ts@), p as int, end as int) == separator_from(tv_of(ts@), q as int, end as int),
        decreases end - q,
    {
        if is_sym(ts, q, end, '(') {
            q = skip_group(ts, q, end)?;
        } else {
            q = q + 1;
        }
    }
    Ok(q)
}

} // verus!

verus! {

/// The end of the run of backticks that starts at `i`.
pub open spec fn ticks_end(s: Seq<char>, i: int) -> int
    decreases s.len() - i,
{
    if 0 <= i < s.len() && s[i] == '`' {
        ticks_end(s, i + 1)
    } else {
        i
    }
}

/// The start of the run of backticks that ends at `j`, not going below `lo`.
pub open spec fn ticks_start(s: Seq<char>, j: int, lo: int) -> int
    decreases j - lo,
{
    if lo < j <= s.len() && s[j - 1] == '`' {
        ticks_start(s, j - 1, lo)
    } else {
        j
    }
}

/// `s` without the backticks at either end.
pub open spec fn trimmed(s: Seq<char>) -> Seq<char> {
    let a = ticks_end(s, 0);
    s.subrange(a, ticks_start(s, s.len() as int, a))
}

/// `s` without the backticks at either end.
pub fn trimmed_str(s: &str) -> (r: String)
    ensures
        r@ == trimmed(s@),
{
    let c = chars_of(s);
    let n = c.len();
    let mut a: usize = 0;
    while a < n && c[a] == '`'
        invariant
            a <= n,
            n == c@.len(),
            c@ == s@,
            ticks_end(s@, 0) == ticks_end(s@, a as int),
        decreases n - a,
    {
        a = a + 1;
    }
    let mut b: usize = n;
    while b > a && c[b - 1] == '`'
        invariant
            a <= b <= n,
            n == c@.len(),
            c@ == s@,
            ticks_start(s@, n as int, a as int) == ticks_start(s@, b as int, a as int),
        decreases b - a,
    {
        b = b - 1;
    }
    let mut out: Vec<char> = Vec::new();
    let mut i = a;
    while i < b
        invariant
            a <= i <= b <= n,
            n == c@.len(),
            out@ == c@.subrange(a as int, i as int),
        decreases b - i,
    {
        out.push(c[i]);
        proof {
            assert(out@ =~= c@.subrange(a as int, i + 1));
        }
        i = i + 1;
    }
    string_of(&out)
}

} // verus!
