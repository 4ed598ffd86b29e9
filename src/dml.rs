//! Data statements: INSERT, UPDATE, DELETE, and the WHERE clause.
//!
//! As in the schema readers, each reader is tied by its `ensures` to a spec
//! function over the views of the tokens.
use vstd::prelude::*;
use crate::lexer::{Token, TokenV, TokenKind, ParseError, tokenize, lex};
use crate::cursor::{
    tv_of, is_kw, is_kw_spec, is_sym, is_sym_spec, is_name_spec, expect_sym, expect_kw, name_at,
    qname, qualified_name_at, syntax,
};
use crate::model::{
    views, Named, put_named, put, Assignment, Delete, DeleteV, Insert, InsertV, InsertValue,
    InsertValueV, Row, Update, UpdateV, Where,
};
use crate::text::{string_of, chars_of};

verus! {

impl Named for Assignment {
    open spec fn key(v: (Seq<char>, Seq<char>)) -> Seq<char> {
        v.0
    }

    fn name_str(&self) -> (r: &String) {
        &self.column
    }
}

/// One value of a VALUES row at `p`: a string (quotes stripped), a number (with a
/// leading `-`), NULL, or a word with an optional empty argument list, kept as written.
pub open spec fn spec_value(tv: Seq<TokenV>, p: int, end: int) -> Option<(InsertValueV, int)> {
    if !(0 <= p < end) {
        None
    } else if tv[p].kind == TokenKind::Str {
        Some((InsertValueV::Text(tv[p].text), p + 1))
    } else if tv[p].kind == TokenKind::Number {
        Some((InsertValueV::Number(tv[p].text), p + 1))
    } else if tv[p].kind == TokenKind::Word {
        if is_kw_spec(tv, p, "NULL"@) {
            Some((InsertValueV::Null, p + 1))
        } else if p + 1 < end && is_sym_spec(tv, p + 1, '(') && p + 2 < end && is_sym_spec(tv, p + 2, ')') {
            Some((InsertValueV::Raw(tv[p].text + "()"@), p + 3))
        } else {
            Some((InsertValueV::Raw(tv[p].text), p + 1))
        }
    } else if tv[p].kind == TokenKind::Symbol && is_sym_spec(tv, p, '-') && p + 1 < end && tv[p + 1].kind == TokenKind::Number {
        Some((InsertValueV::Number("-"@ + tv[p + 1].text), p + 2))
    } else {
        None
    }
}

pub fn parse_value(ts: &Vec<Token>, p: usize, end: usize) -> (r: Result<(InsertValue, usize), ParseError>)
    requires
        end <= ts@.len(),
    ensures
        match r {
            Ok((v, q)) => spec_value(tv_of(ts@), p as int, end as int) == Some((v@, q as int)) && p < q <= end,
            Err(_) => spec_value(tv_of(ts@), p as int, end as int) is None,
        },
{
    if p >= end {
        return Err(syntax("VALUE", p));
    }
    match ts[p].kind {
        TokenKind::Str => Ok((InsertValue::Text { value: string_of(&ts[p].text) }, p + 1)),
        TokenKind::Number => Ok((InsertValue::Number { value: string_of(&ts[p].text) }, p + 1)),
        TokenKind::Word => {
            if is_kw(ts, p, end, "NULL") {
                Ok((InsertValue::Null, p + 1))
            } else if is_sym(ts, p + 1, end, '(') && is_sym(ts, p + 2, end, ')') {
                let w = string_of(&ts[p].text).concat("()");
                Ok((InsertValue::Raw { value: w }, p + 3))
            } else {
                Ok((InsertValue::Raw { value: string_of(&ts[p].text) }, p + 1))
            }
        },
        TokenKind::Symbol => {
            if is_sym(ts, p, end, '-') && p + 1 < end && ts[p + 1].kind == TokenKind::Number {
                let v = String::from_str("-").concat(string_of(&ts[p + 1].text).as_str());
                Ok((InsertValue::Number { value: v }, p + 2))
            } else {
                Err(syntax("VALUE", p))
            }
        },
        TokenKind::Quoted => Err(syntax("VALUE", p)),
    }
}

/// The values of a row from `q`, separated by `,` up to `)`; the position after it.
pub open spec fn values_from(tv: Seq<TokenV>, q: int, end: int) -> Option<(Seq<InsertValueV>, int)>
    decreases end - q,
{
    match spec_value(tv, q, end) {
        None => None,
        Some((v, q1)) => if q1 < end && is_sym_spec(tv, q1, ',') {
            if q < q1 + 1 {
                match values_from(tv, q1 + 1, end) {
                    Some((vs, e)) => Some((seq![v] + vs, e)),
                    None => None,
                }
            } else {
                None
            }
        } else if q1 < end && is_sym_spec(tv, q1, ')') {
            Some((seq![v], q1 + 1))
        } else {
            None
        },
    }
}

fn parse_values(ts: &Vec<Token>, q: usize, end: usize) -> (r: Result<(Vec<InsertValue>, usize), ParseError>)
    requires
        end <= ts@.len(),
    ensures
        match r {
            Ok((v, e)) => values_from(tv_of(ts@), q as int, end as int) == Some((views(v@), e as int)) && q < e <= end,
            Err(_) => values_from(tv_of(ts@), q as int, end as int) is None,
        },
    decreases end - q,
{
    let (x, q1) = parse_value(ts, q, end)?;
    let mut v: Vec<InsertValue> = Vec::new();
    v.push(x);
    if is_sym(ts, q1, end, ',') {
        let (mut rest, e) = parse_values(ts, q1 + 1, end)?;
        let ghost rv = views(rest@);
        v.append(&mut rest);
        proof {
            assert(views(v@) =~= seq![x@] + rv);
        }
        Ok((v, e))
    } else if is_sym(ts, q1, end, ')') {
        proof {
            assert(views(v@) =~= seq![x@]);
        }
        Ok((v, q1 + 1))
    } else {
        Err(syntax("')'", q1))
    }
}

/// A parenthesised row of values at `p`, possibly empty.
pub open spec fn spec_row(tv: Seq<TokenV>, p: int, end: int) -> Option<(Seq<InsertValueV>, int)> {
    if !(p < end && is_sym_spec(tv, p, '(')) {
        None
    } else if p + 1 < end && is_sym_spec(tv, p + 1, ')') {
        Some((Seq::empty(), p + 2))
    } else {
        values_from(tv, p + 1, end)
    }
}

pub fn parse_row(ts: &Vec<Token>, p: usize, end: usize) -> (r: Result<(Row, usize), ParseError>)
    requires
        end <= ts@.len(),
    ensures
        match r {
            Ok((v, q)) => spec_row(tv_of(ts@), p as int, end as int) == Some((v@, q as int)) && p < q <= end,
            Err(_) => spec_row(tv_of(ts@), p as int, end as int) is None,
        },
{
    let q = expect_sym(ts, p, end, '(')?;
    if is_sym(ts, q, end, ')') {
        let vals: Vec<InsertValue> = Vec::new();
        proof {
            assert(views(vals@) =~= Seq::<InsertValueV>::empty());
        }
        return Ok((Row(vals), q + 1));
    }
    let (vals, e) = parse_values(ts, q, end)?;
    Ok((Row(vals), e))
}

/// The rows of VALUES from `q`, separated by `,` up to the end of the statement.
pub open spec fn rows_from(tv: Seq<TokenV>, q: int, end: int) -> Option<Seq<Seq<InsertValueV>>>
    decreases end - q,
{
    match spec_row(tv, q, end) {
        None => None,
        Some((row, q1)) => if q1 < end && is_sym_spec(tv, q1, ',') {
            if q < q1 + 1 {
                match rows_from(tv, q1 + 1, end) {
                    Some(rest) => Some(seq![row] + rest),
                    None => None,
                }
            } else {
                None
            }
        } else if q1 == end {
            Some(seq![row])
        } else {
            None
        },
    }
}

fn parse_rows(ts: &Vec<Token>, q: usize, end: usize) -> (r: Result<Vec<Row>, ParseError>)
    requires
        end <= ts@.len(),
    ensures
        match r {
            Ok(v) => rows_from(tv_of(ts@), q as int, end as int) == Some(views(v@)),
            Err(_) => rows_from(tv_of(ts@), q as int, end as int) is None,
        },
    decreases end - q,
{
    let (row, q1) = parse_row(ts, q, end)?;
    let mut v: Vec<Row> = Vec::new();
    v.push(row);
    if is_sym(ts, q1, end, ',') {
        let mut rest = parse_rows(ts, q1 + 1, end)?;
        let ghost rv = views(rest@);
        v.append(&mut rest);
        proof {
            assert(views(v@) =~= seq![row@] + rv);
        }
        Ok(v)
    } else if q1 == end {
        proof {
            assert(views(v@) =~= seq![row@]);
        }
        Ok(v)
    } else {
        Err(syntax("';'", q1))
    }
}

/// Column names from `q`, separated by `,` up to `)`; the position after it.
pub open spec fn columns_from(tv: Seq<TokenV>, q: int, end: int) -> Option<(Seq<Seq<char>>, int)>
    decreases end - q,
{
    if !(0 <= q < end && is_name_spec(tv, q)) {
        None
    } else if q + 1 < end && is_sym_spec(tv, q + 1, ',') {
        match columns_from(tv, q + 2, end) {
            Some((ns, e)) => Some((seq![tv[q].text] + ns, e)),
            None => None,
        }
    } else if q + 1 < end && is_sym_spec(tv, q + 1, ')') {
        Some((seq![tv[q].text], q + 2))
    } else {
        None
    }
}

fn parse_columns_from(ts: &Vec<Token>, q: usize, end: usize) -> (r: Result<(Vec<String>, usize), ParseError>)
    requires
        end <= ts@.len(),
    ensures
        match r {
            Ok((v, e)) => columns_from(tv_of(ts@), q as int, end as int) == Some((views(v@), e as int)) && q < e <= end,
            Err(_) => columns_from(tv_of(ts@), q as int, end as int) is None,
        },
    decreases end - q,
{
    let n = name_at(ts, q, end)?;
    let mut v: Vec<String> = Vec::new();
    v.push(n);
    if is_sym(ts, q + 1, end, ',') {
        let (mut rest, e) = parse_columns_from(ts, q + 2, end)?;
        let ghost rv = views(rest@);
        v.append(&mut rest);
        proof {
            assert(views(v@) =~= seq![tv_of(ts@)[q as int].text] + rv);
        }
        Ok((v, e))
    } else if is_sym(ts, q + 1, end, ')') {
        proof {
            assert(views(v@) =~= seq![tv_of(ts@)[q as int].text]);
        }
        Ok((v, q + 2))
    } else {
        Err(syntax("')'", q + 1))
    }
}

/// INSERT [IGNORE] INTO name [(columns)] VALUES row (, row)*; `p` is the position
/// after INSERT. The statement ends with the last row.
pub open spec fn spec_insert(tv: Seq<TokenV>, p: int, end: int) -> Option<InsertV> {
    let q = if p < end && is_kw_spec(tv, p, "IGNORE"@) { p + 1 } else { p };
    if !(q < end && is_kw_spec(tv, q, "INTO"@)) {
        None
    } else {
        match qname(tv, q + 1, end) {
            None => None,
            Some((t, q1)) => {
                let cs: Option<(Seq<Seq<char>>, int)> = if q1 < end && is_sym_spec(tv, q1, '(') {
                    columns_from(tv, q1 + 1, end)
                } else {
                    Some((Seq::empty(), q1))
                };
                match cs {
                    None => None,
                    Some((cols, q2)) => if q2 < end && (is_kw_spec(tv, q2, "VALUES"@) || is_kw_spec(tv, q2, "VALUE"@)) {
                        match rows_from(tv, q2 + 1, end) {
                            Some(rows) => Some(InsertV { table_name: t, column_names: cols, values: rows }),
                            None => None,
                        }
                    } else {
                        None
                    },
                }
            },
        }
    }
}

pub fn parse_insert(ts: &Vec<Token>, p: usize, end: usize) -> (r: Result<Insert, ParseError>)
    requires
        end <= ts@.len(),
    ensures
        match r {
            Ok(x) => spec_insert(tv_of(ts@), p as int, end as int) == Some(x@),
            Err(_) => spec_insert(tv_of(ts@), p as int, end as int) is None,
        },
{
    let mut q = p;
    if is_kw(ts, q, end, "IGNORE") {
        q = q + 1;
    }
    q = expect_kw(ts, q, end, "INTO")?;
    let (table, q1) = qualified_name_at(ts, q, end)?;
    let (columns, q2) = if is_sym(ts, q1, end, '(') {
        parse_columns_from(ts, q1 + 1, end)?
    } else {
        let v: Vec<String> = Vec::new();
        proof {
            assert(views(v@) =~= Seq::<Seq<char>>::empty());
        }
        (v, q1)
    };
    if !(is_kw(ts, q2, end, "VALUES") || is_kw(ts, q2, end, "VALUE")) {
        return Err(syntax("VALUES", q2));
    }
    let rows = parse_rows(ts, q2 + 1, end)?;
    Ok(Insert::new(table, columns, rows))
}

/// A value on the right of `=`: a negative number, or the text of any token that is
/// not a symbol.
pub open spec fn spec_scalar(tv: Seq<TokenV>, p: int, end: int) -> Option<(Seq<char>, int)> {
    if !(0 <= p < end) {
        None
    } else if is_sym_spec(tv, p, '-') && p + 1 < end && tv[p + 1].kind == TokenKind::Number {
        Some(("-"@ + tv[p + 1].text, p + 2))
    } else if tv[p].kind != TokenKind::Symbol {
        Some((tv[p].text, p + 1))
    } else {
        None
    }
}

fn parse_scalar(ts: &Vec<Token>, p: usize, end: usize) -> (r: Result<(String, usize), ParseError>)
    requires
        end <= ts@.len(),
    ensures
        match r {
            Ok((s, q)) => spec_scalar(tv_of(ts@), p as int, end as int) == Some((s@, q as int)) && p < q <= end,
            Err(_) => spec_scalar(tv_of(ts@), p as int, end as int) is None,
        },
{
    if p >= end {
        return Err(syntax("VALUE", p));
    }
    if is_sym(ts, p, end, '-') && p + 1 < end && ts[p + 1].kind == TokenKind::Number {
        let v = String::from_str("-").concat(string_of(&ts[p + 1].text).as_str());
        return Ok((v, p + 2));
    }
    if ts[p].kind != TokenKind::Symbol {
        Ok((string_of(&ts[p].text), p + 1))
    } else {
        Err(syntax("VALUE", p))
    }
}

/// The assignments of UPDATE from `q`, added to `acc`: `column = value` separated by
/// `,` up to the end or WHERE; a column assigned twice keeps its last value.
pub open spec fn assigns_from(tv: Seq<TokenV>, q: int, end: int, acc: Seq<(Seq<char>, Seq<char>)>) -> Option<Seq<(Seq<char>, Seq<char>)>>
    decreases end - q,
{
    if !(0 <= q < end && is_name_spec(tv, q)) || !(q + 1 < end && is_sym_spec(tv, q + 1, '=')) {
        None
    } else {
        match spec_scalar(tv, q + 2, end) {
            None => None,
            Some((v, q2)) => {
                let acc2 = put::<Assignment>(acc, (tv[q].text, v));
                if q2 < end && is_sym_spec(tv, q2, ',') {
                    if q < q2 + 1 {
                        assigns_from(tv, q2 + 1, end, acc2)
                    } else {
                        None
                    }
                } else if q2 == end || spec_where_clause(tv, q2, end) is Some {
                    Some(acc2)
                } else {
                    None
                }
            },
        }
    }
}

fn parse_assignments(ts: &Vec<Token>, q: usize, end: usize, acc: Vec<Assignment>) -> (r: Result<Vec<Assignment>, ParseError>)
    requires
        end <= ts@.len(),
    ensures
        match r {
            Ok(v) => assigns_from(tv_of(ts@), q as int, end as int, views(acc@)) == Some(views(v@)),
            Err(_) => assigns_from(tv_of(ts@), q as int, end as int, views(acc@)) is None,
        },
    decreases end - q,
{
    let column = name_at(ts, q, end)?;
    let q1 = expect_sym(ts, q + 1, end, '=')?;
    let (value, q2) = parse_scalar(ts, q1, end)?;
    let mut acc = acc;
    put_named(&mut acc, Assignment { column, value });
    if is_sym(ts, q2, end, ',') {
        parse_assignments(ts, q2 + 1, end, acc)
    } else if q2 == end {
        Ok(acc)
    } else {
        let _w = parse_where_clause(ts, q2, end)?;
        Ok(acc)
    }
}

/// UPDATE name SET assignments [WHERE column operator value]; `p` is the position
/// after UPDATE. The predicate is read and not recorded.
pub open spec fn spec_update(tv: Seq<TokenV>, p: int, end: int) -> Option<UpdateV> {
    match qname(tv, p, end) {
        None => None,
        Some((t, q0)) => if q0 < end && is_kw_spec(tv, q0, "SET"@) {
            match assigns_from(tv, q0 + 1, end, Seq::empty()) {
                Some(vals) => Some(UpdateV { table_name: t, values: vals }),
                None => None,
            }
        } else {
            None
        },
    }
}

pub fn parse_update(ts: &Vec<Token>, p: usize, end: usize) -> (r: Result<Update, ParseError>)
    requires
        end <= ts@.len(),
    ensures
        match r {
            Ok(x) => spec_update(tv_of(ts@), p as int, end as int) == Some(x@),
            Err(_) => spec_update(tv_of(ts@), p as int, end as int) is None,
        },
{
    let (table, q0) = qualified_name_at(ts, p, end)?;
    let q = expect_kw(ts, q0, end, "SET")?;
    let acc: Vec<Assignment> = Vec::new();
    proof {
        assert(views(acc@) =~= Seq::<(Seq<char>, Seq<char>)>::empty());
    }
    let values = parse_assignments(ts, q, end, acc)?;
    Ok(Update { table_name: table, values })
}

/// DELETE FROM name [WHERE column operator value]; `p` is the position after
/// DELETE. The predicate is read and not recorded.
pub open spec fn spec_delete(tv: Seq<TokenV>, p: int, end: int) -> Option<DeleteV> {
    if !(p < end && is_kw_spec(tv, p, "FROM"@)) {
        None
    } else {
        match qname(tv, p + 1, end) {
            None => None,
            Some((t, q1)) => if q1 == end || spec_where_clause(tv, q1, end) is Some {
                Some(DeleteV { table_name: t, where_clause: None })
            } else {
                None
            },
        }
    }
}

pub fn parse_delete(ts: &Vec<Token>, p: usize, end: usize) -> (r: Result<Delete, ParseError>)
    requires
        end <= ts@.len(),
    ensures
        match r {
            Ok(x) => spec_delete(tv_of(ts@), p as int, end as int) == Some(x@),
            Err(_) => spec_delete(tv_of(ts@), p as int, end as int) is None,
        },
{
    let q = expect_kw(ts, p, end, "FROM")?;
    let (table, q1) = qualified_name_at(ts, q, end)?;
    if q1 < end {
        let _w = parse_where_clause(ts, q1, end)?;
    }
    Ok(Delete::new(table, None))
}

/// A WHERE clause from `p` to the end of the statement: WHERE, a column, an
/// operator and a value; the column, the operator and the value.
pub open spec fn spec_where_clause(tv: Seq<TokenV>, p: int, end: int) -> Option<(Seq<char>, Seq<char>, Seq<char>)> {
    if !(p < end && is_kw_spec(tv, p, "WHERE"@) && p + 1 < end && is_name_spec(tv, p + 1)) {
        None
    } else {
        match spec_operator(tv, p + 2, end) {
            None => None,
            Some((op, q1)) => match spec_scalar(tv, q1, end) {
                None => None,
                Some((v, q2)) => if q2 == end {
                    Some((tv[p + 1].text, op, v))
                } else {
                    None
                },
            },
        }
    }
}

pub fn parse_where_clause(ts: &Vec<Token>, p: usize, end: usize) -> (r: Result<Where, ParseError>)
    requires
        end <= ts@.len(),
    ensures
        match r {
            Ok(w) => spec_where_clause(tv_of(ts@), p as int, end as int) == Some((w.column@, w.operator@, w.value@)),
            Err(_) => spec_where_clause(tv_of(ts@), p as int, end as int) is None,
        },
{
    let q = expect_kw(ts, p, end, "WHERE")?;
    let column = name_at(ts, q, end)?;
    let (operator, q1) = parse_operator(ts, q + 1, end)?;
    let (value, q2) = parse_scalar(ts, q1, end)?;
    if q2 != end {
        return Err(syntax("';'", q2));
    }
    Ok(Where::new(column, operator, value))
}

/// A comparison operator at `p`: LIKE, `=`, `<`, `>`, `!`, or two of them (`<=`,
/// `>=`, `!=`, `<>`).
pub open spec fn spec_operator(tv: Seq<TokenV>, p: int, end: int) -> Option<(Seq<char>, int)> {
    if p < end && is_kw_spec(tv, p, "LIKE"@) {
        Some((tv[p].text, p + 1))
    } else if p < end && is_sym_spec(tv, p, '=') {
        Some(("="@, p + 1))
    } else if p < end && (is_sym_spec(tv, p, '<') || is_sym_spec(tv, p, '>') || is_sym_spec(tv, p, '!')) {
        if p + 1 < end && (is_sym_spec(tv, p + 1, '=') || (is_sym_spec(tv, p, '<') && is_sym_spec(tv, p + 1, '>'))) {
            Some((tv[p].text + tv[p + 1].text, p + 2))
        } else if is_sym_spec(tv, p, '!') {
            None
        } else {
            Some((tv[p].text, p + 1))
        }
    } else {
        None
    }
}

fn parse_operator(ts: &Vec<Token>, p: usize, end: usize) -> (r: Result<(String, usize), ParseError>)
    requires
        end <= ts@.len(),
    ensures
        match r {
            Ok((s, q)) => spec_operator(tv_of(ts@), p as int, end as int) == Some((s@, q as int)) && p < q <= end,
            Err(_) => spec_operator(tv_of(ts@), p as int, end as int) is None,
        },
{
    if is_kw(ts, p, end, "LIKE") {
        return Ok((string_of(&ts[p].text), p + 1));
    }
    if is_sym(ts, p, end, '=') {
        return Ok((String::from_str("="), p + 1));
    }
    if is_sym(ts, p, end, '<') || is_sym(ts, p, end, '>') || is_sym(ts, p, end, '!') {
        if is_sym(ts, p + 1, end, '=') || (is_sym(ts, p, end, '<') && is_sym(ts, p + 1, end, '>')) {
            let s = string_of(&ts[p].text).concat(string_of(&ts[p + 1].text).as_str());
            return Ok((s, p + 2));
        }
        if is_sym(ts, p, end, '!') {
            return Err(syntax("'='", p + 1));
        }
        return Ok((string_of(&ts[p].text), p + 1));
    }
    Err(syntax("OPERATOR", p))
}

/// `WHERE column operator value` and an optional `;`, over all of `tv`: the
/// column, the operator and the value.
pub open spec fn spec_where(tv: Seq<TokenV>) -> Option<(Seq<char>, Seq<char>, Seq<char>)> {
    let end = tv.len() as int;
    if !(0 < end && is_kw_spec(tv, 0, "WHERE"@) && 1 < end && is_name_spec(tv, 1)) {
        None
    } else {
        match spec_operator(tv, 2, end) {
            None => None,
            Some((op, q1)) => match spec_scalar(tv, q1, end) {
                None => None,
                Some((v, q2)) => if q2 < end && !is_sym_spec(tv, q2, ';') {
                    None
                } else {
                    Some((tv[1].text, op, v))
                },
            },
        }
    }
}

impl Where {
    /// Reads `WHERE column operator value`.
    pub fn parse(sql: &str) -> (r: Result<Where, ParseError>)
        ensures
            lex(sql@) is None ==> r is Err,
            lex(sql@) matches Some(tv) ==> match r {
                Ok(w) => spec_where(tv) == Some((w.column@, w.operator@, w.value@)),
                Err(_) => spec_where(tv) is None,
            },
    {
        let chars = chars_of(sql);
        let ts = tokenize(&chars)?;
        let end = ts.len();
        let q = expect_kw(&ts, 0, end, "WHERE")?;
        let column = name_at(&ts, q, end)?;
        let (operator, q1) = parse_operator(&ts, q + 1, end)?;
        let (value, q2) = parse_scalar(&ts, q1, end)?;
        if q2 < end && !is_sym(&ts, q2, end, ';') {
            return Err(syntax("';'", q2));
        }
        Ok(Where::new(column, operator, value))
    }
}

} // verus!
