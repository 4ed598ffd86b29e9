//! Schema statements: CREATE DATABASE, CREATE TABLE and its clauses, ALTER TABLE.
//!
//! Each reader has a spec function of the same name with `spec_` in front (or a
//! `_from` function for lists) that states, over the views of the tokens, what it
//! accepts and what it yields; the reader's `ensures` says it does exactly that.
use vstd::prelude::*;
use crate::lexer::{Token, TokenV, TokenKind, ParseError, lex};
use crate::cursor::{
    tv_of, is_kw, is_kw_spec, is_sym, is_sym_spec, is_name_spec, expect_sym, expect_kw, name_at,
    qname, qualified_name_at, syntax, parse_u32, num_of, skip_group, group_after,
    skip_to_separator, separator_from,
};
use crate::datatypes::{data_type_from, is_known_type, known_type, type_of};
use crate::model::{
    views, opt_view, Column, ColumnV, DataType, DataTypeV, DatabaseOption,
    DatabaseOptionV, ForeignKey, ForeignKeyV, Index, IndexV, PrimaryKey, PrimaryKeyV,
};
use crate::schema::{AlterSpec, AlterSpecV, Database, DatabaseV, Table, TableV, empty_table};
use crate::text::{chars_of, string_of, uppercase, upper_of};

verus! {

/// `16` to the power `e`.
pub open spec fn pow16(e: nat) -> nat
    decreases e,
{
    if e == 0 {
        1
    } else {
        16 * pow16((e - 1) as nat)
    }
}

/// The lower-case hexadecimal digit of `d`, below 16.
pub open spec fn hex_digit(d: int) -> char {
    if d < 10 {
        ((d + 48) as u8) as char
    } else {
        ((d - 10 + 97) as u8) as char
    }
}

/// The `k`-th hexadecimal digit of `n`, the most significant first, `k` below 32.
pub open spec fn nibble(n: u128, k: int) -> int {
    (n as int / pow16((31 - k) as nat) as int) % 16
}

/// The hyphenated text of the identifier whose 128 bits are `n`: its 32 hexadecimal
/// digits in lower case, most significant first, with `-` after the 8th, 12th, 16th
/// and 20th.
pub open spec fn uuid_text(n: u128) -> Seq<char> {
    Seq::new(
        36,
        |i: int|
            if i == 8 || i == 13 || i == 18 || i == 23 {
                '-'
            } else {
                hex_digit(nibble(n, i - (if i < 8 { 0int } else if i < 13 { 1int } else if i < 18 { 2int } else if i < 23 { 3int } else { 4int })))
            },
    )
}

/// Relies on `uuid::Uuid::from_u128` (the bits taken big-endian) and its hyphenated
/// text form, lower-case hexadecimal digits with four hyphens.
#[verifier::external_body]
fn uuid_of(n: u128) -> (r: String)
    ensures
        r@ == uuid_text(n),
{
    uuid::Uuid::from_u128(n).hyphenated().to_string()
}

/// Relies on `uuid::Uuid::new_v4`, whose bits come from the system's random source:
/// any value.
#[verifier::external_body]
pub(crate) fn random_u128() -> (r: u128) {
    uuid::Uuid::new_v4().as_u128()
}

/// The name given to an index that the clause at token `p` leaves unnamed, under
/// the random `seed` drawn for the text: `index_` and an identifier.
pub open spec fn synthesized(seed: u128, p: int) -> Seq<char> {
    "index_"@ + uuid_text(seed.wrapping_add(p as u128))
}

pub fn synthesized_index_name(seed: u128, p: usize) -> (r: String)
    ensures
        r@ == synthesized(seed, p as int),
{
    let id = uuid_of(seed.wrapping_add(p as u128));
    String::from_str("index_").concat(id.as_str())
}

// ---- data types ----

/// The parameters of a data type from `q` (inside the parentheses): numbers and
/// string literals separated by `,`, up to the `)`; the position after it.
pub open spec fn params_from(tv: Seq<TokenV>, q: int, end: int) -> Option<(Seq<u32>, Seq<Seq<char>>, int)>
    decreases end - q,
{
    if q < 0 || q >= end {
        None
    } else {
        let item: Option<(Seq<u32>, Seq<Seq<char>>)> = if tv[q].kind == TokenKind::Number {
            match num_of(tv[q].text) {
                Some(n) => Some((seq![n], Seq::empty())),
                None => None,
            }
        } else if tv[q].kind == TokenKind::Str {
            Some((Seq::empty(), seq![tv[q].text]))
        } else {
            None
        };
        match item {
            None => None,
            Some((ns, ss)) => if q + 1 < end && is_sym_spec(tv, q + 1, ',') {
                match params_from(tv, q + 2, end) {
                    Some((ns2, ss2, e)) => Some((ns + ns2, ss + ss2, e)),
                    None => None,
                }
            } else if q + 1 < end && is_sym_spec(tv, q + 1, ')') {
                Some((ns, ss, q + 2))
            } else {
                None
            },
        }
    }
}

/// The position after the attributes UNSIGNED, SIGNED and ZEROFILL from `q`.
pub open spec fn attrs_end(tv: Seq<TokenV>, q: int, end: int) -> int
    decreases end - q,
{
    if 0 <= q < end && (is_kw_spec(tv, q, "UNSIGNED"@) || is_kw_spec(tv, q, "SIGNED"@) || is_kw_spec(tv, q, "ZEROFILL"@)) {
        attrs_end(tv, q + 1, end)
    } else {
        q
    }
}

/// The data type at `p`: a keyword (compared in upper case), optional parameters in
/// parentheses and optional attributes; the position after it.
pub open spec fn spec_type(tv: Seq<TokenV>, p: int, end: int) -> Option<(DataTypeV, int)> {
    if !(0 <= p < end && tv[p].kind == TokenKind::Word) {
        None
    } else {
        let n = upper_of(tv[p].text);
        if !known_type(n) {
            None
        } else {
            let ps = if p + 1 < end && is_sym_spec(tv, p + 1, '(') {
                params_from(tv, p + 2, end)
            } else {
                Some((Seq::<u32>::empty(), Seq::<Seq<char>>::empty(), p + 1))
            };
            match ps {
                None => None,
                Some((ns, ss, q)) => match type_of(n, ns, ss) {
                    Some(t) => Some((t, attrs_end(tv, q, end))),
                    None => None,
                },
            }
        }
    }
}

fn parse_params(ts: &Vec<Token>, q: usize, end: usize) -> (r: Result<(Vec<u32>, Vec<String>, usize), ParseError>)
    requires
        end <= ts@.len(),
    ensures
        match r {
            Ok((ns, ss, e)) => params_from(tv_of(ts@), q as int, end as int) == Some((ns@, views(ss@), e as int)) && q < e <= end,
            Err(e) => params_from(tv_of(ts@), q as int, end as int) is None && e is Syntax,
        },
    decreases end - q,
{
    if q >= end {
        return Err(syntax("TYPE_PARAMETER", q));
    }
    let mut ns: Vec<u32> = Vec::new();
    let mut ss: Vec<String> = Vec::new();
    if ts[q].kind == TokenKind::Number {
        match parse_u32(&ts[q].text) {
            Some(n) => ns.push(n),
            None => return Err(syntax("INTEGER", q)),
        }
    } else if ts[q].kind == TokenKind::Str {
        ss.push(string_of(&ts[q].text));
    } else {
        return Err(syntax("TYPE_PARAMETER", q));
    }
    proof {
        assert(views(ss@) =~= (if ts@[q as int].kind == TokenKind::Str { seq![tv_of(ts@)[q as int].text] } else { Seq::empty() }));
        if ts@[q as int].kind == TokenKind::Number {
            assert(ns@ =~= seq![num_of(tv_of(ts@)[q as int].text)->Some_0]);
        } else {
            assert(ns@ =~= Seq::<u32>::empty());
        }
    }
    if is_sym(ts, q + 1, end, ',') {
        let (mut ns2, mut ss2, e) = parse_params(ts, q + 2, end)?;
        let ghost v1 = views(ss@);
        let ghost v2 = views(ss2@);
        ns.append(&mut ns2);
        ss.append(&mut ss2);
        proof {
            assert(views(ss@) =~= v1 + v2);
        }
        Ok((ns, ss, e))
    } else if is_sym(ts, q + 1, end, ')') {
        Ok((ns, ss, q + 2))
    } else {
        Err(syntax("')'", q + 1))
    }
}

fn skip_attrs(ts: &Vec<Token>, q: usize, end: usize) -> (r: usize)
    requires
        end <= ts@.len(),
        q <= end,
    ensures
        r as int == attrs_end(tv_of(ts@), q as int, end as int),
        q <= r <= end,
    decreases end - q,
{
    if q < end && (is_kw(ts, q, end, "UNSIGNED") || is_kw(ts, q, end, "SIGNED") || is_kw(ts, q, end, "ZEROFILL")) {
        skip_attrs(ts, q + 1, end)
    } else {
        q
    }
}

/// The data type at `p`. A keyword that names no data type of the model is an
/// `UnknownType` error naming it in upper case.
pub fn parse_data_type(ts: &Vec<Token>, p: usize, end: usize) -> (r: Result<(DataType, usize), ParseError>)
    requires
        end <= ts@.len(),
    ensures
        match r {
            Ok((t, q)) => spec_type(tv_of(ts@), p as int, end as int) == Some((t@, q as int)) && p < q <= end,
            Err(_) => spec_type(tv_of(ts@), p as int, end as int) is None,
        },
        (r matches Err(ParseError::UnknownType { name })) <==> (p < end && ts@[p as int].kind == TokenKind::Word
            && !known_type(upper_of(tv_of(ts@)[p as int].text))),
        r matches Err(ParseError::UnknownType { name }) ==> name@ == upper_of(tv_of(ts@)[p as int].text),
{
    if !(p < end && ts[p].kind == TokenKind::Word) {
        return Err(syntax("DATA_TYPE", p));
    }
    let upper_name = uppercase(string_of(&ts[p].text).as_str());
    let name = chars_of(upper_name.as_str());
    if !is_known_type(&name) {
        return Err(ParseError::UnknownType { name: upper_name });
    }
    let (nums, strs, q) = if is_sym(ts, p + 1, end, '(') {
        parse_params(ts, p + 2, end)?
    } else {
        (Vec::new(), Vec::new(), p + 1)
    };
    proof {
        if !(p + 1 < end && is_sym_spec(tv_of(ts@), p + 1, '(')) {
            assert(nums@ =~= Seq::<u32>::empty());
            assert(views(strs@) =~= Seq::<Seq<char>>::empty());
        }
    }
    let ghost sv = views(strs@);
    match data_type_from(&name, &nums, strs) {
        Some(t) => {
            let q2 = skip_attrs(ts, q, end);
            Ok((t, q2))
        },
        None => Err(syntax("TYPE_SIZE", p)),
    }
}

// ---- column definitions ----

/// A literal after DEFAULT: a negative number, a string or number, or a word with
/// an optional parenthesised group; its text and the position after it.
pub open spec fn spec_literal(tv: Seq<TokenV>, p: int, end: int) -> Option<(Seq<char>, int)> {
    if !(0 <= p < end) {
        None
    } else if is_sym_spec(tv, p, '-') && p + 1 < end && tv[p + 1].kind == TokenKind::Number {
        Some(("-"@ + tv[p + 1].text, p + 2))
    } else if tv[p].kind == TokenKind::Str || tv[p].kind == TokenKind::Number {
        Some((tv[p].text, p + 1))
    } else if tv[p].kind == TokenKind::Word {
        if p + 1 < end && is_sym_spec(tv, p + 1, '(') {
            match group_after(tv, p + 1, end) {
                Some(e) => Some((tv[p].text, e)),
                None => None,
            }
        } else {
            Some((tv[p].text, p + 1))
        }
    } else {
        None
    }
}

fn parse_literal(ts: &Vec<Token>, p: usize, end: usize) -> (r: Result<(String, usize), ParseError>)
    requires
        end <= ts@.len(),
    ensures
        match r {
            Ok((s, q)) => spec_literal(tv_of(ts@), p as int, end as int) == Some((s@, q as int)) && p < q <= end,
            Err(_) => spec_literal(tv_of(ts@), p as int, end as int) is None,
        },
{
    if p >= end {
        return Err(syntax("LITERAL", p));
    }
    if is_sym(ts, p, end, '-') && p + 1 < end && ts[p + 1].kind == TokenKind::Number {
        let s = String::from_str("-").concat(string_of(&ts[p + 1].text).as_str());
        return Ok((s, p + 2));
    }
    if ts[p].kind == TokenKind::Str || ts[p].kind == TokenKind::Number {
        Ok((string_of(&ts[p].text), p + 1))
    } else if ts[p].kind == TokenKind::Word {
        let s = string_of(&ts[p].text);
        if is_sym(ts, p + 1, end, '(') {
            let q = skip_group(ts, p + 1, end)?;
            Ok((s, q))
        } else {
            Ok((s, p + 1))
        }
    } else {
        Err(syntax("LITERAL", p))
    }
}

/// The modifiers of a column definition from `q`, in any order, up to `,` or `)`:
/// NOT NULL and NULL set nullability, DEFAULT sets the default, AUTO_INCREMENT the
/// flag; a parenthesised group and any other token are read and not recorded.
pub open spec fn mods_from(tv: Seq<TokenV>, q: int, end: int, c: ColumnV) -> Option<(ColumnV, int)>
    decreases end - q,
{
    if q < 0 || q >= end || is_sym_spec(tv, q, ',') || is_sym_spec(tv, q, ')') {
        Some((c, q))
    } else if is_kw_spec(tv, q, "NOT"@) && q + 1 < end && is_kw_spec(tv, q + 1, "NULL"@) {
        mods_from(tv, q + 2, end, ColumnV { nullable: false, ..c })
    } else if is_kw_spec(tv, q, "NULL"@) {
        mods_from(tv, q + 1, end, ColumnV { nullable: true, ..c })
    } else if is_kw_spec(tv, q, "DEFAULT"@) {
        match spec_literal(tv, q + 1, end) {
            Some((v, e)) => if q < e <= end {
                mods_from(tv, e, end, ColumnV { default: Some(v), ..c })
            } else {
                None
            },
            None => None,
        }
    } else if is_kw_spec(tv, q, "AUTO_INCREMENT"@) {
        mods_from(tv, q + 1, end, ColumnV { auto_increment: true, ..c })
    } else if is_sym_spec(tv, q, '(') {
        match group_after(tv, q, end) {
            Some(e) => if q < e <= end {
                mods_from(tv, e, end, c)
            } else {
                None
            },
            None => None,
        }
    } else {
        mods_from(tv, q + 1, end, c)
    }
}

/// A column definition at `p`: a name, a data type and its modifiers.
pub open spec fn spec_column(tv: Seq<TokenV>, p: int, end: int) -> Option<(ColumnV, int)> {
    if !(p < end && is_name_spec(tv, p)) {
        None
    } else {
        match spec_type(tv, p + 1, end) {
            None => None,
            Some((t, q)) => mods_from(
                tv,
                q,
                end,
                ColumnV { name: tv[p].text, data_type: t, nullable: true, default: None, auto_increment: false },
            ),
        }
    }
}

fn parse_modifiers(ts: &Vec<Token>, q: usize, end: usize, column: Column) -> (r: Result<(Column, usize), ParseError>)
    requires
        end <= ts@.len(),
        q <= end,
    ensures
        match r {
            Ok((c, e)) => mods_from(tv_of(ts@), q as int, end as int, column@) == Some((c@, e as int)) && q <= e <= end,
            Err(_) => mods_from(tv_of(ts@), q as int, end as int, column@) is None,
        },
    decreases end - q,
{
    let mut column = column;
    if q >= end || is_sym(ts, q, end, ',') || is_sym(ts, q, end, ')') {
        Ok((column, q))
    } else if is_kw(ts, q, end, "NOT") && is_kw(ts, q + 1, end, "NULL") {
        column.nullable = false;
        parse_modifiers(ts, q + 2, end, column)
    } else if is_kw(ts, q, end, "NULL") {
        column.nullable = true;
        parse_modifiers(ts, q + 1, end, column)
    } else if is_kw(ts, q, end, "DEFAULT") {
        let (v, e) = parse_literal(ts, q + 1, end)?;
        column.default = Some(v);
        parse_modifiers(ts, e, end, column)
    } else if is_kw(ts, q, end, "AUTO_INCREMENT") {
        column.auto_increment = true;
        parse_modifiers(ts, q + 1, end, column)
    } else if is_sym(ts, q, end, '(') {
        let e = skip_group(ts, q, end)?;
        parse_modifiers(ts, e, end, column)
    } else {
        parse_modifiers(ts, q + 1, end, column)
    }
}

/// A column definition: a name, a data type and modifiers in any order.
pub fn parse_column_definition(ts: &Vec<Token>, p: usize, end: usize) -> (r: Result<(Column, usize), ParseError>)
    requires
        end <= ts@.len(),
    ensures
        match r {
            Ok((c, q)) => spec_column(tv_of(ts@), p as int, end as int) == Some((c@, q as int)) && p < q <= end,
            Err(_) => spec_column(tv_of(ts@), p as int, end as int) is None,
        },
{
    let name = name_at(ts, p, end)?;
    let (data_type, q0) = parse_data_type(ts, p + 1, end)?;
    let column = Column::new(name, data_type);
    parse_modifiers(ts, q0, end, column)
}

// ---- key clauses ----

/// Names from `q`, separated by `,` up to `)`; a prefix length or an order after a
/// name is read and not recorded.
pub open spec fn names_from(tv: Seq<TokenV>, q: int, end: int) -> Option<(Seq<Seq<char>>, int)>
    decreases end - q,
{
    if !(0 <= q < end && is_name_spec(tv, q)) {
        None
    } else {
        let q2 = if q + 1 < end && is_sym_spec(tv, q + 1, '(') {
            group_after(tv, q + 1, end)
        } else {
            Some(q + 1)
        };
        match q2 {
            None => None,
            Some(q2) => {
                let q3 = if q2 < end && (is_kw_spec(tv, q2, "ASC"@) || is_kw_spec(tv, q2, "DESC"@)) {
                    q2 + 1
                } else {
                    q2
                };
                if q3 < end && is_sym_spec(tv, q3, ',') {
                    if q < q3 + 1 {
                        match names_from(tv, q3 + 1, end) {
                            Some((ns, e)) => Some((seq![tv[q].text] + ns, e)),
                            None => None,
                        }
                    } else {
                        None
                    }
                } else if q3 < end && is_sym_spec(tv, q3, ')') {
                    Some((seq![tv[q].text], q3 + 1))
                } else {
                    None
                }
            },
        }
    }
}

/// A parenthesised list of names at `p`.
pub open spec fn spec_name_list(tv: Seq<TokenV>, p: int, end: int) -> Option<(Seq<Seq<char>>, int)> {
    if p < end && is_sym_spec(tv, p, '(') {
        names_from(tv, p + 1, end)
    } else {
        None
    }
}

fn parse_names(ts: &Vec<Token>, q: usize, end: usize) -> (r: Result<(Vec<String>, usize), ParseError>)
    requires
        end <= ts@.len(),
    ensures
        match r {
            Ok((v, e)) => names_from(tv_of(ts@), q as int, end as int) == Some((views(v@), e as int)) && q < e <= end,
            Err(_) => names_from(tv_of(ts@), q as int, end as int) is None,
        },
    decreases end - q,
{
    let n = name_at(ts, q, end)?;
    let mut q2 = q + 1;
    if is_sym(ts, q2, end, '(') {
        q2 = skip_group(ts, q2, end)?;
    }
    if is_kw(ts, q2, end, "ASC") || is_kw(ts, q2, end, "DESC") {
        q2 = q2 + 1;
    }
    if is_sym(ts, q2, end, ',') {
        let (rest, e) = parse_names(ts, q2 + 1, end)?;
        let mut v: Vec<String> = Vec::new();
        v.push(n);
        let ghost rv = views(rest@);
        let mut rest = rest;
        v.append(&mut rest);
        proof {
            assert(views(v@) =~= seq![tv_of(ts@)[q as int].text] + rv);
        }
        Ok((v, e))
    } else if is_sym(ts, q2, end, ')') {
        let mut v: Vec<String> = Vec::new();
        v.push(n);
        proof {
            assert(views(v@) =~= seq![tv_of(ts@)[q as int].text]);
        }
        Ok((v, q2 + 1))
    } else {
        Err(syntax("')'", q2))
    }
}

/// A parenthesised list of column names.
pub fn parse_name_list(ts: &Vec<Token>, p: usize, end: usize) -> (r: Result<(Vec<String>, usize), ParseError>)
    requires
        end <= ts@.len(),
    ensures
        match r {
            Ok((v, q)) => spec_name_list(tv_of(ts@), p as int, end as int) == Some((views(v@), q as int)) && p < q <= end,
            Err(_) => spec_name_list(tv_of(ts@), p as int, end as int) is None,
        },
{
    let q = expect_sym(ts, p, end, '(')?;
    parse_names(ts, q, end)
}

/// A key clause of a table definition.
#[derive(Clone, Debug)]
pub enum KeyClause {
    Primary(PrimaryKey),
    Secondary(Index),
    Foreign(ForeignKey),
    /// A CHECK constraint, read and not recorded.
    Check,
}

/// The view of a [`KeyClause`].
pub enum KeyClauseV {
    Primary(PrimaryKeyV),
    Secondary(IndexV),
    Foreign(ForeignKeyV),
    Check,
}

impl View for KeyClause {
    type V = KeyClauseV;

    open spec fn view(&self) -> KeyClauseV {
        match self {
            KeyClause::Primary(k) => KeyClauseV::Primary(k@),
            KeyClause::Secondary(i) => KeyClauseV::Secondary(i@),
            KeyClause::Foreign(k) => KeyClauseV::Foreign(k@),
            KeyClause::Check => KeyClauseV::Check,
        }
    }
}

/// Whether a key clause starts at `p`.
pub open spec fn starts_key_spec(tv: Seq<TokenV>, p: int) -> bool {
    is_kw_spec(tv, p, "CONSTRAINT"@) || is_kw_spec(tv, p, "PRIMARY"@) || is_kw_spec(tv, p, "UNIQUE"@)
        || is_kw_spec(tv, p, "KEY"@) || is_kw_spec(tv, p, "INDEX"@) || is_kw_spec(tv, p, "FULLTEXT"@)
        || is_kw_spec(tv, p, "SPATIAL"@) || is_kw_spec(tv, p, "FOREIGN"@) || is_kw_spec(tv, p, "CHECK"@)
}

pub fn starts_key(ts: &Vec<Token>, p: usize, end: usize) -> (r: bool)
    requires
        end <= ts@.len(),
    ensures
        r == (p < end && starts_key_spec(tv_of(ts@), p as int)),
{
    is_kw(ts, p, end, "CONSTRAINT") || is_kw(ts, p, end, "PRIMARY") || is_kw(ts, p, end, "UNIQUE")
        || is_kw(ts, p, end, "KEY") || is_kw(ts, p, end, "INDEX") || is_kw(ts, p, end, "FULLTEXT")
        || is_kw(ts, p, end, "SPATIAL") || is_kw(ts, p, end, "FOREIGN") || is_kw(ts, p, end, "CHECK")
}

/// A referential action after ON UPDATE or ON DELETE: SET or NO with the next word
/// (joined by a space), or one word.
pub open spec fn spec_action(tv: Seq<TokenV>, p: int, end: int) -> Option<(Seq<char>, int)> {
    if p < end && (is_kw_spec(tv, p, "SET"@) || is_kw_spec(tv, p, "NO"@)) {
        if p + 1 < end && tv[p + 1].kind == TokenKind::Word {
            Some((tv[p].text + " "@ + tv[p + 1].text, p + 2))
        } else {
            None
        }
    } else if 0 <= p < end && tv[p].kind == TokenKind::Word {
        Some((tv[p].text, p + 1))
    } else {
        None
    }
}

fn parse_action(ts: &Vec<Token>, p: usize, end: usize) -> (r: Result<(String, usize), ParseError>)
    requires
        end <= ts@.len(),
    ensures
        match r {
            Ok((s, q)) => spec_action(tv_of(ts@), p as int, end as int) == Some((s@, q as int)) && p < q <= end,
            Err(_) => spec_action(tv_of(ts@), p as int, end as int) is None,
        },
{
    if is_kw(ts, p, end, "SET") || is_kw(ts, p, end, "NO") {
        if !(p + 1 < end && ts[p + 1].kind == TokenKind::Word) {
            return Err(syntax("REFERENCE_OPTION", p + 1));
        }
        let s = string_of(&ts[p].text).concat(" ").concat(string_of(&ts[p + 1].text).as_str());
        Ok((s, p + 2))
    } else if p < end && ts[p].kind == TokenKind::Word {
        Ok((string_of(&ts[p].text), p + 1))
    } else {
        Err(syntax("REFERENCE_OPTION", p))
    }
}

/// The ON UPDATE and ON DELETE actions from `q`; the last ON UPDATE action is kept.
pub open spec fn actions_from(tv: Seq<TokenV>, q: int, end: int, ou: Option<Seq<char>>) -> Option<(Option<Seq<char>>, int)>
    decreases end - q,
{
    if !(0 <= q < end && is_kw_spec(tv, q, "ON"@)) {
        Some((ou, q))
    } else if q + 1 < end && (is_kw_spec(tv, q + 1, "UPDATE"@) || is_kw_spec(tv, q + 1, "DELETE"@)) {
        match spec_action(tv, q + 2, end) {
            Some((a, e)) => if q < e {
                actions_from(tv, e, end, if is_kw_spec(tv, q + 1, "UPDATE"@) { Some(a) } else { ou })
            } else {
                None
            },
            None => None,
        }
    } else {
        None
    }
}

fn parse_actions(ts: &Vec<Token>, q: usize, end: usize, ou: Option<String>) -> (r: Result<(Option<String>, usize), ParseError>)
    requires
        end <= ts@.len(),
        q <= end,
    ensures
        match r {
            Ok((o, e)) => actions_from(tv_of(ts@), q as int, end as int, opt_view(ou)) == Some((opt_view(o), e as int)) && q <= e <= end,
            Err(_) => actions_from(tv_of(ts@), q as int, end as int, opt_view(ou)) is None,
        },
    decreases end - q,
{
    if !is_kw(ts, q, end, "ON") {
        return Ok((ou, q));
    }
    if is_kw(ts, q + 1, end, "UPDATE") {
        let (a, e) = parse_action(ts, q + 2, end)?;
        parse_actions(ts, e, end, Some(a))
    } else if is_kw(ts, q + 1, end, "DELETE") {
        let (_a, e) = parse_action(ts, q + 2, end)?;
        parse_actions(ts, e, end, ou)
    } else {
        Err(syntax("UPDATE", q + 1))
    }
}

/// The rest of a foreign key clause from the local column list at `p`.
pub open spec fn spec_fk_rest(tv: Seq<TokenV>, p: int, end: int, name: Option<Seq<char>>) -> Option<(ForeignKeyV, int)> {
    match spec_name_list(tv, p, end) {
        None => None,
        Some((local, q1)) => if !(q1 < end && is_kw_spec(tv, q1, "REFERENCES"@)) {
            None
        } else {
            match qname(tv, q1 + 1, end) {
                None => None,
                Some((table, q3)) => match spec_name_list(tv, q3, end) {
                    None => None,
                    Some((foreign, q4)) => match actions_from(tv, q4, end, None) {
                        None => None,
                        Some((ou, q)) => Some((
                            ForeignKeyV {
                                name,
                                local_column_names: local,
                                foreign_column_names: foreign,
                                foreign_table_name: table,
                                on_update: ou,
                            },
                            q,
                        )),
                    },
                },
            }
        },
    }
}

fn parse_foreign_rest(ts: &Vec<Token>, p: usize, end: usize, name: Option<String>) -> (r: Result<(ForeignKey, usize), ParseError>)
    requires
        end <= ts@.len(),
    ensures
        match r {
            Ok((k, q)) => spec_fk_rest(tv_of(ts@), p as int, end as int, opt_view(name)) == Some((k@, q as int)) && p < q <= end,
            Err(_) => spec_fk_rest(tv_of(ts@), p as int, end as int, opt_view(name)) is None,
        },
{
    let ghost nv = opt_view(name);
    let (local, q1) = parse_name_list(ts, p, end)?;
    let q2 = expect_kw(ts, q1, end, "REFERENCES")?;
    let (table, q3) = qualified_name_at(ts, q2, end)?;
    let (foreign, q4) = parse_name_list(ts, q3, end)?;
    let (on_update, q) = parse_actions(ts, q4, end, None)?;
    Ok((ForeignKey::new(name, local, foreign, table, on_update), q))
}

/// The position of a key clause's kind keyword at `p`, after CONSTRAINT and a name
/// where they stand first, and that name.
pub open spec fn key_head(tv: Seq<TokenV>, p: int, end: int) -> Option<(Option<Seq<char>>, int)> {
    if p < end && is_kw_spec(tv, p, "CONSTRAINT"@) {
        if p + 1 < end && starts_key_spec(tv, p + 1) {
            Some((None, p + 1))
        } else if p + 1 < end && is_name_spec(tv, p + 1) {
            Some((Some(tv[p + 1].text), p + 2))
        } else {
            None
        }
    } else {
        Some((None, p))
    }
}

/// The rest of an index clause from `q`, after its kind keywords: an optional name,
/// an optional USING method, the column list, and options up to the separator.
pub open spec fn spec_index_rest(tv: Seq<TokenV>, p: int, q: int, end: int, name: Option<Seq<char>>, unique: bool, seed: u128) -> Option<(KeyClauseV, int)> {
    let named = q < end && !is_sym_spec(tv, q, '(') && !is_kw_spec(tv, q, "USING"@);
    if named && !is_name_spec(tv, q) {
        None
    } else {
        let name2 = if named { Some(tv[q].text) } else { name };
        let q1 = if named { q + 1 } else { q };
        let q2 = if q1 < end && is_kw_spec(tv, q1, "USING"@) && q1 + 1 < end { q1 + 2 } else { q1 };
        match spec_name_list(tv, q2, end) {
            None => None,
            Some((cols, q3)) => match separator_from(tv, q3, end) {
                None => None,
                Some(q4) => Some((
                    KeyClauseV::Secondary(IndexV {
                        name: match name2 {
                            Some(n) => n,
                            None => synthesized(seed, p),
                        },
                        columns: cols,
                        unique,
                    }),
                    q4,
                )),
            },
        }
    }
}

/// A key clause at `p`: PRIMARY KEY, UNIQUE, KEY or INDEX, FULLTEXT or SPATIAL,
/// FOREIGN KEY or CHECK, each with an optional CONSTRAINT name. An index that the
/// clause leaves unnamed gets the synthesized name for `p`; an index is unique
/// exactly when its keywords hold UNIQUE.
pub open spec fn spec_key(tv: Seq<TokenV>, p: int, end: int, seed: u128) -> Option<(KeyClauseV, int)> {
    match key_head(tv, p, end) {
        None => None,
        Some((constraint, q)) => if q < end && is_kw_spec(tv, q, "PRIMARY"@) {
            if !(q + 1 < end && is_kw_spec(tv, q + 1, "KEY"@)) {
                None
            } else {
                let q1 = if q + 2 < end && is_kw_spec(tv, q + 2, "USING"@) && q + 3 < end { q + 4 } else { q + 2 };
                match spec_name_list(tv, q1, end) {
                    None => None,
                    Some((cols, q2)) => match separator_from(tv, q2, end) {
                        None => None,
                        Some(q3) => Some((KeyClauseV::Primary(PrimaryKeyV { name: constraint, columns: cols }), q3)),
                    },
                }
            }
        } else if q < end && is_kw_spec(tv, q, "FOREIGN"@) {
            if !(q + 1 < end && is_kw_spec(tv, q + 1, "KEY"@)) {
                None
            } else {
                let q1 = if q + 2 < end && !is_sym_spec(tv, q + 2, '(') { q + 3 } else { q + 2 };
                match spec_fk_rest(tv, q1, end, constraint) {
                    None => None,
                    Some((k, q2)) => Some((KeyClauseV::Foreign(k), q2)),
                }
            }
        } else if q < end && is_kw_spec(tv, q, "CHECK"@) {
            match group_after(tv, q + 1, end) {
                None => None,
                Some(e) => Some((KeyClauseV::Check, e)),
            }
        } else {
            let unique = q < end && is_kw_spec(tv, q, "UNIQUE"@);
            if unique || (q < end && (is_kw_spec(tv, q, "FULLTEXT"@) || is_kw_spec(tv, q, "SPATIAL"@))) {
                let q1 = if q + 1 < end && (is_kw_spec(tv, q + 1, "KEY"@) || is_kw_spec(tv, q + 1, "INDEX"@)) { q + 2 } else { q + 1 };
                spec_index_rest(tv, p, q1, end, constraint, unique, seed)
            } else if q < end && (is_kw_spec(tv, q, "KEY"@) || is_kw_spec(tv, q, "INDEX"@)) {
                spec_index_rest(tv, p, q + 1, end, constraint, false, seed)
            } else {
                None
            }
        }
    }
}

fn parse_index_rest(ts: &Vec<Token>, p: usize, q: usize, end: usize, name: Option<String>, unique: bool, seed: u128) -> (r: Result<(KeyClause, usize), ParseError>)
    requires
        end <= ts@.len(),
        p < q <= end,
    ensures
        match r {
            Ok((k, e)) => spec_index_rest(tv_of(ts@), p as int, q as int, end as int, opt_view(name), unique, seed) == Some((k@, e as int)) && p < e <= end,
            Err(_) => spec_index_rest(tv_of(ts@), p as int, q as int, end as int, opt_view(name), unique, seed) is None,
        },
{
    let mut q = q;
    let mut name = name;
    if q < end && !is_sym(ts, q, end, '(') && !is_kw(ts, q, end, "USING") {
        name = Some(name_at(ts, q, end)?);
        q = q + 1;
    }
    if is_kw(ts, q, end, "USING") && q + 1 < end {
        q = q + 2;
    }
    let (cols, q1) = parse_name_list(ts, q, end)?;
    let q2 = skip_to_separator(ts, q1, end)?;
    let index_name = match name {
        Some(n) => n,
        None => synthesized_index_name(seed, p),
    };
    Ok((KeyClause::Secondary(Index::new(index_name, cols, unique)), q2))
}

/// A key clause at `p`.
#[verifier::rlimit(100)]
pub fn parse_key_clause(ts: &Vec<Token>, p: usize, end: usize, seed: u128) -> (r: Result<(KeyClause, usize), ParseError>)
    requires
        end <= ts@.len(),
    ensures
        match r {
            Ok((k, q)) => spec_key(tv_of(ts@), p as int, end as int, seed) == Some((k@, q as int)) && p < q <= end,
            Err(_) => spec_key(tv_of(ts@), p as int, end as int, seed) is None,
        },
{
    let mut q = p;
    let mut constraint: Option<String> = None;
    if is_kw(ts, q, end, "CONSTRAINT") {
        if starts_key(ts, q + 1, end) {
            q = q + 1;
        } else {
            constraint = Some(name_at(ts, q + 1, end)?);
            q = q + 2;
        }
    }
    if is_kw(ts, q, end, "PRIMARY") {
        let mut q1 = expect_kw(ts, q + 1, end, "KEY")?;
        if is_kw(ts, q1, end, "USING") && q1 + 1 < end {
            q1 = q1 + 2;
        }
        let (cols, q2) = parse_name_list(ts, q1, end)?;
        let q3 = skip_to_separator(ts, q2, end)?;
        return Ok((KeyClause::Primary(PrimaryKey::new(constraint, cols)), q3));
    }
    if is_kw(ts, q, end, "FOREIGN") {
        let mut q1 = expect_kw(ts, q + 1, end, "KEY")?;
        if q1 < end && !is_sym(ts, q1, end, '(') {
            q1 = q1 + 1;
        }
        let (k, q2) = parse_foreign_rest(ts, q1, end, constraint)?;
        return Ok((KeyClause::Foreign(k), q2));
    }
    if is_kw(ts, q, end, "CHECK") {
        let q1 = skip_group(ts, q + 1, end)?;
        return Ok((KeyClause::Check, q1));
    }
    let unique = is_kw(ts, q, end, "UNIQUE");
    if unique || is_kw(ts, q, end, "FULLTEXT") || is_kw(ts, q, end, "SPATIAL") {
        let q1 = if is_kw(ts, q + 1, end, "KEY") || is_kw(ts, q + 1, end, "INDEX") {
            q + 2
        } else {
            q + 1
        };
        parse_index_rest(ts, p, q1, end, constraint, unique, seed)
    } else if is_kw(ts, q, end, "KEY") || is_kw(ts, q, end, "INDEX") {
        parse_index_rest(ts, p, q + 1, end, constraint, false, seed)
    } else {
        Err(syntax("INDEX_DEFINITION", q))
    }
}

// ---- CREATE TABLE ----

/// An element of a CREATE TABLE body.
#[derive(Clone, Debug)]
pub enum TableElement {
    Column(Column),
    Key(KeyClause),
}

/// The view of a [`TableElement`].
pub enum TableElementV {
    Column(ColumnV),
    Key(KeyClauseV),
}

impl View for TableElement {
    type V = TableElementV;

    open spec fn view(&self) -> TableElementV {
        match self {
            TableElement::Column(c) => TableElementV::Column(c@),
            TableElement::Key(k) => TableElementV::Key(k@),
        }
    }
}

/// The elements of a CREATE TABLE body from `q`, separated by `,` up to `)`; the
/// position after the `)`.
pub open spec fn elements_from(tv: Seq<TokenV>, q: int, end: int, seed: u128) -> Option<(Seq<TableElementV>, int)>
    decreases end - q,
{
    let el: Option<(TableElementV, int)> = if q < end && starts_key_spec(tv, q) {
        match spec_key(tv, q, end, seed) {
            Some((k, e)) => Some((TableElementV::Key(k), e)),
            None => None,
        }
    } else {
        match spec_column(tv, q, end) {
            Some((c, e)) => Some((TableElementV::Column(c), e)),
            None => None,
        }
    };
    match el {
        None => None,
        Some((x, q2)) => if q2 < end && is_sym_spec(tv, q2, ',') {
            if q < q2 + 1 {
                match elements_from(tv, q2 + 1, end, seed) {
                    Some((xs, e)) => Some((seq![x] + xs, e)),
                    None => None,
                }
            } else {
                None
            }
        } else if q2 < end && is_sym_spec(tv, q2, ')') {
            Some((seq![x], q2 + 1))
        } else {
            None
        },
    }
}

fn parse_elements(ts: &Vec<Token>, q: usize, end: usize, seed: u128) -> (r: Result<Vec<TableElement>, ParseError>)
    requires
        end <= ts@.len(),
    ensures
        match r {
            Ok(es) => elements_from(tv_of(ts@), q as int, end as int, seed) matches Some((xs, _)) && xs == views(es@),
            Err(_) => elements_from(tv_of(ts@), q as int, end as int, seed) is None,
        },
    decreases end - q,
{
    let (x, q2) = if starts_key(ts, q, end) {
        let (k, e) = parse_key_clause(ts, q, end, seed)?;
        (TableElement::Key(k), e)
    } else {
        let (c, e) = parse_column_definition(ts, q, end)?;
        (TableElement::Column(c), e)
    };
    let mut v: Vec<TableElement> = Vec::new();
    v.push(x);
    if is_sym(ts, q2, end, ',') {
        let mut rest = parse_elements(ts, q2 + 1, end, seed)?;
        let ghost rv = views(rest@);
        v.append(&mut rest);
        proof {
            assert(views(v@) =~= seq![x@] + rv);
        }
        Ok(v)
    } else if is_sym(ts, q2, end, ')') {
        proof {
            assert(views(v@) =~= seq![x@]);
        }
        Ok(v)
    } else {
        Err(syntax("')'", q2))
    }
}

/// The table `t` with the element `e` added.
pub open spec fn with_element(t: TableV, e: TableElementV) -> TableV {
    match e {
        TableElementV::Column(c) => TableV { columns: t.columns.push(c), ..t },
        TableElementV::Key(KeyClauseV::Primary(k)) => TableV { primary_key: Some(k), ..t },
        TableElementV::Key(KeyClauseV::Secondary(i)) => TableV { indexes: t.indexes.push(i), ..t },
        TableElementV::Key(KeyClauseV::Foreign(k)) => TableV { foreign_keys: t.foreign_keys.push(k), ..t },
        TableElementV::Key(KeyClauseV::Check) => t,
    }
}

/// The table `t` with the elements `es` added in order.
pub open spec fn with_elements(t: TableV, es: Seq<TableElementV>) -> TableV
    decreases es.len(),
{
    if es.len() == 0 {
        t
    } else {
        with_element(with_elements(t, es.drop_last()), es.last())
    }
}

/// The column definitions among `es`, in order.
pub open spec fn column_defs(es: Seq<TableElementV>) -> Seq<ColumnV>
    decreases es.len(),
{
    if es.len() == 0 {
        Seq::empty()
    } else {
        let rest = column_defs(es.drop_last());
        match es.last() {
            TableElementV::Column(c) => rest.push(c),
            _ => rest,
        }
    }
}

/// The table that a CREATE TABLE named `name` with the body elements `es` defines.
pub open spec fn table_of(name: Seq<char>, es: Seq<TableElementV>) -> TableV {
    with_elements(empty_table(name), es)
}

/// Builds a table from the elements of its definition.
pub fn build_table(name: String, es: Vec<TableElement>) -> (r: Table)
    ensures
        r@ == table_of(name@, views(es@)),
{
    let ghost n = name@;
    let mut t = Table::new(name);
    let mut es = es;
    let ghost all = views(es@);
    let total = es.len();
    let mut i: usize = 0;
    while es.len() > 0
        invariant
            i + es@.len() == all.len(),
            all.len() == total,
            views(es@) == all.subrange(i as int, all.len() as int),
            t@ == with_elements(empty_table(n), all.subrange(0, i as int)),
        decreases es@.len(),
    {
        let ghost before = es@;
        let e = es.remove(0);
        proof {
            assert(e@ == views(before)[0]);
            assert(e@ == all[i as int]);
            assert(es@ =~= before.subrange(1, before.len() as int));
            assert(views(es@) =~= views(before).subrange(1, before.len() as int));
            assert(views(es@) =~= all.subrange(i + 1, all.len() as int));
            assert(all.subrange(0, i + 1).drop_last() =~= all.subrange(0, i as int));
        }
        match e {
            TableElement::Column(c) => t.add_column(c),
            TableElement::Key(KeyClause::Primary(k)) => t.set_primary_key(k),
            TableElement::Key(KeyClause::Secondary(x)) => t.add_index(x),
            TableElement::Key(KeyClause::Foreign(k)) => t.add_foreign_key(k),
            TableElement::Key(KeyClause::Check) => {},
        }
        i = i + 1;
    }
    proof {
        assert(all.subrange(0, all.len() as int) =~= all);
    }
    t
}

/// A table with N column definitions has exactly those N columns, in the order
/// in which they were declared.
pub proof fn lemma_table_columns(name: Seq<char>, es: Seq<TableElementV>)
    ensures
        table_of(name, es).columns == column_defs(es),
        table_of(name, es).name == name,
        table_of(name, es).inserts.len() == 0,
        table_of(name, es).updates.len() == 0,
        table_of(name, es).deletes.len() == 0,
    decreases es.len(),
{
    if es.len() > 0 {
        lemma_table_columns(name, es.drop_last());
    }
}

/// The position of the name after an optional IF NOT EXISTS at `p`.
pub open spec fn database_name_pos(tv: Seq<TokenV>, p: int, end: int) -> int {
    if p + 2 < end && is_kw_spec(tv, p, "IF"@) && is_kw_spec(tv, p + 1, "NOT"@) && is_kw_spec(tv, p + 2, "EXISTS"@) {
        p + 3
    } else {
        p
    }
}

fn skip_if_not_exists(ts: &Vec<Token>, p: usize, end: usize) -> (r: usize)
    requires
        end <= ts@.len(),
    ensures
        r == database_name_pos(tv_of(ts@), p as int, end as int),
{
    if is_kw(ts, p, end, "IF") && is_kw(ts, p + 1, end, "NOT") && is_kw(ts, p + 2, end, "EXISTS") {
        p + 3
    } else {
        p
    }
}

/// CREATE TABLE [IF NOT EXISTS] name ( elements ) with table options after the
/// body, which are read and not recorded; `p` is the position after TABLE.
pub open spec fn spec_create_table(tv: Seq<TokenV>, p: int, end: int, seed: u128) -> Option<(Seq<char>, Seq<TableElementV>)> {
    match qname(tv, database_name_pos(tv, p, end), end) {
        None => None,
        Some((name, q1)) => if q1 < end && is_sym_spec(tv, q1, '(') {
            match elements_from(tv, q1 + 1, end, seed) {
                Some((es, _)) => Some((name, es)),
                None => None,
            }
        } else {
            None
        },
    }
}

/// The table that a CREATE TABLE read at `p` defines has the statement's name, its
/// column definitions as columns in the order of declaration, and no records.
pub proof fn lemma_create_table(tv: Seq<TokenV>, p: int, end: int, seed: u128)
    requires
        spec_create_table(tv, p, end, seed) is Some,
    ensures
        ({
            let (n, es) = spec_create_table(tv, p, end, seed)->Some_0;
            &&& table_of(n, es).name == n
            &&& table_of(n, es).columns == column_defs(es)
            &&& table_of(n, es).inserts.len() == 0
            &&& table_of(n, es).updates.len() == 0
            &&& table_of(n, es).deletes.len() == 0
        }),
{
    let (n, es) = spec_create_table(tv, p, end, seed)->Some_0;
    lemma_table_columns(n, es);
}

pub fn parse_create_table(ts: &Vec<Token>, p: usize, end: usize, seed: u128) -> (r: Result<(String, Vec<TableElement>), ParseError>)
    requires
        end <= ts@.len(),
    ensures
        match r {
            Ok((n, es)) => spec_create_table(tv_of(ts@), p as int, end as int, seed) == Some((n@, views(es@))),
            Err(_) => spec_create_table(tv_of(ts@), p as int, end as int, seed) is None,
        },
{
    let q0 = skip_if_not_exists(ts, p, end);
    let (name, q1) = qualified_name_at(ts, q0, end)?;
    let q = expect_sym(ts, q1, end, '(')?;
    let es = parse_elements(ts, q, end, seed)?;
    Ok((name, es))
}

// ---- CREATE DATABASE ----

/// An option of CREATE DATABASE at `p`: [DEFAULT] CHARACTER SET, CHARSET or COLLATE,
/// an optional `=`, and a value.
pub open spec fn spec_option(tv: Seq<TokenV>, p: int, end: int) -> Option<(DatabaseOptionV, int)> {
    let q = if p < end && is_kw_spec(tv, p, "DEFAULT"@) { p + 1 } else { p };
    let kind: Option<(bool, int)> = if q < end && is_kw_spec(tv, q, "CHARACTER"@) && q + 1 < end && is_kw_spec(tv, q + 1, "SET"@) {
        Some((true, q + 2))
    } else if q < end && is_kw_spec(tv, q, "CHARSET"@) {
        Some((true, q + 1))
    } else if q < end && is_kw_spec(tv, q, "COLLATE"@) {
        Some((false, q + 1))
    } else {
        None
    };
    match kind {
        None => None,
        Some((charset, q1)) => {
            let q2 = if q1 < end && is_sym_spec(tv, q1, '=') { q1 + 1 } else { q1 };
            if 0 <= q2 < end && (tv[q2].kind == TokenKind::Word || tv[q2].kind == TokenKind::Str || tv[q2].kind == TokenKind::Quoted) {
                Some((
                    if charset {
                        DatabaseOptionV::CharacterSet(tv[q2].text)
                    } else {
                        DatabaseOptionV::Collate(tv[q2].text)
                    },
                    q2 + 1,
                ))
            } else {
                None
            }
        },
    }
}

fn parse_database_option(ts: &Vec<Token>, p: usize, end: usize) -> (r: Result<(DatabaseOption, usize), ParseError>)
    requires
        end <= ts@.len(),
    ensures
        match r {
            Ok((o, q)) => spec_option(tv_of(ts@), p as int, end as int) == Some((o@, q as int)) && p < q <= end,
            Err(_) => spec_option(tv_of(ts@), p as int, end as int) is None,
        },
{
    let mut q = p;
    if is_kw(ts, q, end, "DEFAULT") {
        q = q + 1;
    }
    let charset: bool;
    if is_kw(ts, q, end, "CHARACTER") && is_kw(ts, q + 1, end, "SET") {
        charset = true;
        q = q + 2;
    } else if is_kw(ts, q, end, "CHARSET") {
        charset = true;
        q = q + 1;
    } else if is_kw(ts, q, end, "COLLATE") {
        charset = false;
        q = q + 1;
    } else {
        return Err(syntax("DATABASE_OPTION", q));
    }
    if is_sym(ts, q, end, '=') {
        q = q + 1;
    }
    if !(q < end && (ts[q].kind == TokenKind::Word || ts[q].kind == TokenKind::Str || ts[q].kind == TokenKind::Quoted)) {
        return Err(syntax("OPTION_VALUE", q));
    }
    let value = string_of(&ts[q].text);
    let o = if charset {
        DatabaseOption::CharacterSet(value)
    } else {
        DatabaseOption::Collate(value)
    };
    Ok((o, q + 1))
}

/// The options of CREATE DATABASE from `q` to the end of the statement.
pub open spec fn options_from(tv: Seq<TokenV>, q: int, end: int) -> Option<Seq<DatabaseOptionV>>
    decreases end - q,
{
    if q >= end {
        Some(Seq::empty())
    } else {
        match spec_option(tv, q, end) {
            None => None,
            Some((o, q1)) => if q < q1 {
                match options_from(tv, q1, end) {
                    Some(os) => Some(seq![o] + os),
                    None => None,
                }
            } else {
                None
            },
        }
    }
}

fn parse_options(ts: &Vec<Token>, q: usize, end: usize) -> (r: Result<Vec<DatabaseOption>, ParseError>)
    requires
        end <= ts@.len(),
    ensures
        match r {
            Ok(os) => options_from(tv_of(ts@), q as int, end as int) == Some(views(os@)),
            Err(_) => options_from(tv_of(ts@), q as int, end as int) is None,
        },
    decreases end - q,
{
    if q >= end {
        let v: Vec<DatabaseOption> = Vec::new();
        proof {
            assert(views(v@) =~= Seq::<DatabaseOptionV>::empty());
        }
        return Ok(v);
    }
    let (o, q1) = parse_database_option(ts, q, end)?;
    let mut rest = parse_options(ts, q1, end)?;
    let mut v: Vec<DatabaseOption> = Vec::new();
    v.push(o);
    let ghost rv = views(rest@);
    v.append(&mut rest);
    proof {
        assert(views(v@) =~= seq![o@] + rv);
    }
    Ok(v)
}

/// CREATE DATABASE [IF NOT EXISTS] name options; `p` is the position after
/// DATABASE. The database has the options and no tables.
pub open spec fn spec_create_database(tv: Seq<TokenV>, p: int, end: int) -> Option<DatabaseV> {
    let k = database_name_pos(tv, p, end);
    if k < end && is_name_spec(tv, k) {
        match options_from(tv, k + 1, end) {
            Some(os) => Some(DatabaseV { name: tv[k].text, options: os, tables: Seq::empty() }),
            None => None,
        }
    } else {
        None
    }
}

pub fn parse_create_database(ts: &Vec<Token>, p: usize, end: usize) -> (r: Result<Database, ParseError>)
    requires
        end <= ts@.len(),
    ensures
        match r {
            Ok(db) => spec_create_database(tv_of(ts@), p as int, end as int) == Some(db@),
            Err(_) => spec_create_database(tv_of(ts@), p as int, end as int) is None,
        },
{
    let q0 = skip_if_not_exists(ts, p, end);
    let name = name_at(ts, q0, end)?;
    let options = parse_options(ts, q0 + 1, end)?;
    let mut db = Database::new(name);
    db.options = options;
    Ok(db)
}

// ---- ALTER TABLE ----

/// One action of ALTER TABLE at `p`: ADD [COLUMN] a column, or a key clause (which
/// adds an index; a PRIMARY KEY adds a unique index); MODIFY [COLUMN] a column; DROP
/// COLUMN or DROP INDEX/KEY a name; any other action up to the next `,` is read and
/// not recorded.
pub open spec fn spec_alter_spec(tv: Seq<TokenV>, p: int, end: int, seed: u128) -> Option<(AlterSpecV, int)> {
    if p < end && is_kw_spec(tv, p, "ADD"@) {
        let q = if p + 1 < end && is_kw_spec(tv, p + 1, "COLUMN"@) { p + 2 } else { p + 1 };
        if q < end && starts_key_spec(tv, q) {
            match spec_key(tv, q, end, seed) {
                None => None,
                Some((k, q1)) => Some((
                    match k {
                        KeyClauseV::Secondary(i) => AlterSpecV::AddIndex(i),
                        KeyClauseV::Primary(pk) => AlterSpecV::AddIndex(IndexV {
                            name: match pk.name {
                                Some(n) => n,
                                None => synthesized(seed, q),
                            },
                            columns: pk.columns,
                            unique: true,
                        }),
                        _ => AlterSpecV::Ignored,
                    },
                    q1,
                )),
            }
        } else {
            match spec_column(tv, q, end) {
                None => None,
                Some((c, q1)) => Some((AlterSpecV::AddColumn(c), q1)),
            }
        }
    } else if p < end && is_kw_spec(tv, p, "MODIFY"@) {
        let q = if p + 1 < end && is_kw_spec(tv, p + 1, "COLUMN"@) { p + 2 } else { p + 1 };
        match spec_column(tv, q, end) {
            None => None,
            Some((c, q1)) => Some((AlterSpecV::ModifyColumn(c), q1)),
        }
    } else if p < end && is_kw_spec(tv, p, "DROP"@) {
        if p + 1 < end && is_kw_spec(tv, p + 1, "COLUMN"@) {
            if p + 2 < end && is_name_spec(tv, p + 2) {
                Some((AlterSpecV::DropColumn(tv[p + 2].text), p + 3))
            } else {
                None
            }
        } else if p + 1 < end && (is_kw_spec(tv, p + 1, "INDEX"@) || is_kw_spec(tv, p + 1, "KEY"@)) {
            if p + 2 < end && is_name_spec(tv, p + 2) {
                Some((AlterSpecV::DropIndex(tv[p + 2].text), p + 3))
            } else {
                None
            }
        } else {
            match separator_from(tv, p + 1, end) {
                Some(q) => Some((AlterSpecV::Ignored, q)),
                None => None,
            }
        }
    } else if 0 <= p < end && tv[p].kind == TokenKind::Word {
        match separator_from(tv, p + 1, end) {
            Some(q) => Some((AlterSpecV::Ignored, q)),
            None => None,
        }
    } else {
        None
    }
}

pub fn parse_alter_spec(ts: &Vec<Token>, p: usize, end: usize, seed: u128) -> (r: Result<(AlterSpec, usize), ParseError>)
    requires
        end <= ts@.len(),
        p <= end,
    ensures
        match r {
            Ok((a, q)) => spec_alter_spec(tv_of(ts@), p as int, end as int, seed) == Some((a@, q as int)) && p < q <= end,
            Err(_) => spec_alter_spec(tv_of(ts@), p as int, end as int, seed) is None,
        },
{
    if is_kw(ts, p, end, "ADD") {
        let q = if is_kw(ts, p + 1, end, "COLUMN") {
            p + 2
        } else {
            p + 1
        };
        if starts_key(ts, q, end) {
            let (kc, q1) = parse_key_clause(ts, q, end, seed)?;
            let a = match kc {
                KeyClause::Secondary(i) => AlterSpec::AddIndex(i),
                KeyClause::Primary(k) => AlterSpec::AddIndex(Index::new(
                    match k.name {
                        Some(n) => n,
                        None => synthesized_index_name(seed, q),
                    },
                    k.columns,
                    true,
                )),
                _ => AlterSpec::Ignored,
            };
            Ok((a, q1))
        } else {
            let (c, q1) = parse_column_definition(ts, q, end)?;
            Ok((AlterSpec::AddColumn(c), q1))
        }
    } else if is_kw(ts, p, end, "MODIFY") {
        let q = if is_kw(ts, p + 1, end, "COLUMN") {
            p + 2
        } else {
            p + 1
        };
        let (c, q1) = parse_column_definition(ts, q, end)?;
        Ok((AlterSpec::ModifyColumn(c), q1))
    } else if is_kw(ts, p, end, "DROP") {
        if is_kw(ts, p + 1, end, "COLUMN") {
            let n = name_at(ts, p + 2, end)?;
            Ok((AlterSpec::DropColumn(n), p + 3))
        } else if is_kw(ts, p + 1, end, "INDEX") || is_kw(ts, p + 1, end, "KEY") {
            let n = name_at(ts, p + 2, end)?;
            Ok((AlterSpec::DropIndex(n), p + 3))
        } else {
            let q = skip_to_separator(ts, p + 1, end)?;
            Ok((AlterSpec::Ignored, q))
        }
    } else if p < end && ts[p].kind == TokenKind::Word {
        let q = skip_to_separator(ts, p + 1, end)?;
        Ok((AlterSpec::Ignored, q))
    } else {
        Err(syntax("ALTER_SPECIFICATION", p))
    }
}

/// The actions of ALTER TABLE from `q`, separated by `,` up to the end of the statement.
pub open spec fn specs_from(tv: Seq<TokenV>, q: int, end: int, seed: u128) -> Option<Seq<AlterSpecV>>
    decreases end - q,
{
    match spec_alter_spec(tv, q, end, seed) {
        None => None,
        Some((a, q1)) => if q1 < end && is_sym_spec(tv, q1, ',') {
            if q < q1 + 1 {
                match specs_from(tv, q1 + 1, end, seed) {
                    Some(rest) => Some(seq![a] + rest),
                    None => None,
                }
            } else {
                None
            }
        } else if q1 == end {
            Some(seq![a])
        } else {
            None
        },
    }
}

fn parse_specs(ts: &Vec<Token>, q: usize, end: usize, seed: u128) -> (r: Result<Vec<AlterSpec>, ParseError>)
    requires
        end <= ts@.len(),
        q <= end,
    ensures
        match r {
            Ok(v) => specs_from(tv_of(ts@), q as int, end as int, seed) == Some(views(v@)),
            Err(_) => specs_from(tv_of(ts@), q as int, end as int, seed) is None,
        },
    decreases end - q,
{
    let (a, q1) = parse_alter_spec(ts, q, end, seed)?;
    let mut v: Vec<AlterSpec> = Vec::new();
    v.push(a);
    if is_sym(ts, q1, end, ',') {
        let mut rest = parse_specs(ts, q1 + 1, end, seed)?;
        let ghost rv = views(rest@);
        v.append(&mut rest);
        proof {
            assert(views(v@) =~= seq![a@] + rv);
        }
        Ok(v)
    } else if q1 == end {
        proof {
            assert(views(v@) =~= seq![a@]);
        }
        Ok(v)
    } else {
        Err(syntax("','", q1))
    }
}

/// ALTER TABLE name action (, action)*; `p` is the position after TABLE.
pub open spec fn spec_alter_table(tv: Seq<TokenV>, p: int, end: int, seed: u128) -> Option<(Seq<char>, Seq<AlterSpecV>)> {
    match qname(tv, p, end) {
        None => None,
        Some((n, q0)) => match specs_from(tv, q0, end, seed) {
            Some(s) => Some((n, s)),
            None => None,
        },
    }
}

pub fn parse_alter_table(ts: &Vec<Token>, p: usize, end: usize, seed: u128) -> (r: Result<(String, Vec<AlterSpec>), ParseError>)
    requires
        end <= ts@.len(),
    ensures
        match r {
            Ok((n, specs)) => spec_alter_table(tv_of(ts@), p as int, end as int, seed) == Some((n@, views(specs@))),
            Err(_) => spec_alter_table(tv_of(ts@), p as int, end as int, seed) is None,
        },
{
    let (name, q0) = qualified_name_at(ts, p, end)?;
    let specs = parse_specs(ts, q0, end, seed)?;
    Ok((name, specs))
}

impl ForeignKey {
    /// Reads a foreign key clause, with an optional CONSTRAINT name, at the start of
    /// `sql`; what follows the clause is not read.
    pub fn parse(sql: &str) -> (r: Result<ForeignKey, ParseError>)
        ensures
            lex(sql@) is None ==> r is Err,
            lex(sql@) matches Some(tv) ==> match r {
                Ok(k) => spec_key(tv, 0, tv.len() as int, 0) matches Some((KeyClauseV::Foreign(f), _)) && f == k@,
                Err(_) => !(spec_key(tv, 0, tv.len() as int, 0) matches Some((KeyClauseV::Foreign(_), _))),
            },
    {
        let chars = chars_of(sql);
        let ts = crate::lexer::tokenize(&chars)?;
        let end = ts.len();
        match parse_key_clause(&ts, 0, end, 0)? {
            (KeyClause::Foreign(k), _) => Ok(k),
            _ => Err(syntax("FOREIGN_KEY", 0)),
        }
    }
}

} // verus!
