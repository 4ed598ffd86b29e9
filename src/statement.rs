//! The statements of a dump and the recognizer that splits and reads them.
use vstd::prelude::*;
use crate::lexer::{Token, TokenV, ParseError, tokenize, lex};
use crate::cursor::{tv_of, is_kw, is_kw_spec, is_sym, is_sym_spec, is_name_spec, name_at, qname, qualified_name_at, syntax};
use crate::ddl::{
    parse_create_database, parse_create_table, parse_alter_table, spec_create_database,
    spec_create_table, spec_alter_table, TableElement, TableElementV,
};
use crate::dml::{parse_insert, parse_update, parse_delete, spec_insert, spec_update, spec_delete};
use crate::model::{views, Delete, DeleteV, Insert, InsertV, Update, UpdateV};
use crate::schema::{AlterSpec, AlterSpecV, Database, DatabaseV};
use crate::text::chars_of;

verus! {

/// One statement of a dump.
#[derive(Clone, Debug)]
pub enum Statement {
    CreateDatabase(Database),
    UseDatabase(String),
    CreateTable(String, Vec<TableElement>),
    AlterTable(String, Vec<AlterSpec>),
    DropTable(Vec<String>),
    Insert(Insert),
    Update(Update),
    Delete(Delete),
    /// A statement that is recognized and changes nothing, such as SET.
    Ignored,
}

/// The view of a [`Statement`].
pub enum StatementV {
    CreateDatabase(DatabaseV),
    UseDatabase(Seq<char>),
    CreateTable(Seq<char>, Seq<TableElementV>),
    AlterTable(Seq<char>, Seq<AlterSpecV>),
    DropTable(Seq<Seq<char>>),
    Insert(InsertV),
    Update(UpdateV),
    Delete(DeleteV),
    Ignored,
}

impl View for Statement {
    type V = StatementV;

    open spec fn view(&self) -> StatementV {
        match self {
            Statement::CreateDatabase(d) => StatementV::CreateDatabase(d@),
            Statement::UseDatabase(n) => StatementV::UseDatabase(n@),
            Statement::CreateTable(n, es) => StatementV::CreateTable(n@, views(es@)),
            Statement::AlterTable(n, s) => StatementV::AlterTable(n@, views(s@)),
            Statement::DropTable(ns) => StatementV::DropTable(views(ns@)),
            Statement::Insert(x) => StatementV::Insert(x@),
            Statement::Update(x) => StatementV::Update(x@),
            Statement::Delete(x) => StatementV::Delete(x@),
            Statement::Ignored => StatementV::Ignored,
        }
    }
}

/// Table names from `q`, separated by `,` up to the end of the statement.
pub open spec fn drop_names_from(tv: Seq<TokenV>, q: int, end: int) -> Option<Seq<Seq<char>>>
    decreases end - q,
{
    match qname(tv, q, end) {
        None => None,
        Some((n, q1)) => if q1 < end && is_sym_spec(tv, q1, ',') {
            if q < q1 + 1 {
                match drop_names_from(tv, q1 + 1, end) {
                    Some(rest) => Some(seq![n] + rest),
                    None => None,
                }
            } else {
                None
            }
        } else if q1 == end {
            Some(seq![n])
        } else {
            None
        },
    }
}

fn parse_drop_names(ts: &Vec<Token>, q: usize, end: usize) -> (r: Result<Vec<String>, ParseError>)
    requires
        end <= ts@.len(),
    ensures
        match r {
            Ok(v) => drop_names_from(tv_of(ts@), q as int, end as int) == Some(views(v@)),
            Err(_) => drop_names_from(tv_of(ts@), q as int, end as int) is None,
        },
    decreases end - q,
{
    let (n, q1) = qualified_name_at(ts, q, end)?;
    let mut v: Vec<String> = Vec::new();
    v.push(n);
    if is_sym(ts, q1, end, ',') {
        let mut rest = parse_drop_names(ts, q1 + 1, end)?;
        let ghost rv = views(rest@);
        v.append(&mut rest);
        proof {
            assert(views(v@) =~= seq![n@] + rv);
        }
        Ok(v)
    } else if q1 == end {
        proof {
            assert(views(v@) =~= seq![n@]);
        }
        Ok(v)
    } else {
        Err(syntax("';'", q1))
    }
}

/// The statement that the tokens from `p` up to `end` hold. An unnamed index gets
/// the synthesized name for its clause under `seed`.
#[verifier::opaque]
pub open spec fn spec_statement(tv: Seq<TokenV>, p: int, end: int, seed: u128) -> Option<StatementV> {
    if p < end && is_kw_spec(tv, p, "CREATE"@) {
        if p + 1 < end && (is_kw_spec(tv, p + 1, "DATABASE"@) || is_kw_spec(tv, p + 1, "SCHEMA"@)) {
            match spec_create_database(tv, p + 2, end) {
                Some(d) => Some(StatementV::CreateDatabase(d)),
                None => None,
            }
        } else {
            let q = if p + 1 < end && is_kw_spec(tv, p + 1, "TEMPORARY"@) { p + 2 } else { p + 1 };
            if q < end && is_kw_spec(tv, q, "TABLE"@) {
                match spec_create_table(tv, q + 1, end, seed) {
                    Some((n, es)) => Some(StatementV::CreateTable(n, es)),
                    None => None,
                }
            } else {
                None
            }
        }
    } else if p < end && is_kw_spec(tv, p, "USE"@) {
        if p + 1 < end && is_name_spec(tv, p + 1) && p + 2 == end {
            Some(StatementV::UseDatabase(tv[p + 1].text))
        } else {
            None
        }
    } else if p < end && is_kw_spec(tv, p, "ALTER"@) {
        let q = if p + 1 < end && is_kw_spec(tv, p + 1, "IGNORE"@) { p + 2 } else { p + 1 };
        if q < end && is_kw_spec(tv, q, "TABLE"@) {
            match spec_alter_table(tv, q + 1, end, seed) {
                Some((n, s)) => Some(StatementV::AlterTable(n, s)),
                None => None,
            }
        } else {
            None
        }
    } else if p < end && is_kw_spec(tv, p, "DROP"@) {
        let q = if p + 1 < end && is_kw_spec(tv, p + 1, "TEMPORARY"@) { p + 2 } else { p + 1 };
        if q < end && (is_kw_spec(tv, q, "TABLE"@) || is_kw_spec(tv, q, "TABLES"@)) {
            let q1 = if q + 2 < end && is_kw_spec(tv, q + 1, "IF"@) && is_kw_spec(tv, q + 2, "EXISTS"@) { q + 3 } else { q + 1 };
            match drop_names_from(tv, q1, end) {
                Some(ns) => Some(StatementV::DropTable(ns)),
                None => None,
            }
        } else {
            None
        }
    } else if p < end && is_kw_spec(tv, p, "INSERT"@) {
        match spec_insert(tv, p + 1, end) {
            Some(x) => Some(StatementV::Insert(x)),
            None => None,
        }
    } else if p < end && is_kw_spec(tv, p, "UPDATE"@) {
        match spec_update(tv, p + 1, end) {
            Some(x) => Some(StatementV::Update(x)),
            None => None,
        }
    } else if p < end && is_kw_spec(tv, p, "DELETE"@) {
        match spec_delete(tv, p + 1, end) {
            Some(x) => Some(StatementV::Delete(x)),
            None => None,
        }
    } else if p < end && is_kw_spec(tv, p, "SET"@) {
        Some(StatementV::Ignored)
    } else {
        None
    }
}

/// Reads the statement that the tokens from `p` up to `end` hold.
pub fn parse_statement(ts: &Vec<Token>, p: usize, end: usize, seed: u128) -> (r: Result<Statement, ParseError>)
    requires
        p < end <= ts@.len(),
    ensures
        match r {
            Ok(st) => spec_statement(tv_of(ts@), p as int, end as int, seed) == Some(st@),
            Err(_) => spec_statement(tv_of(ts@), p as int, end as int, seed) is None,
        },
{
    reveal(spec_statement);
    if is_kw(ts, p, end, "CREATE") {
        if is_kw(ts, p + 1, end, "DATABASE") || is_kw(ts, p + 1, end, "SCHEMA") {
            let db = parse_create_database(ts, p + 2, end)?;
            return Ok(Statement::CreateDatabase(db));
        }
        let q = if is_kw(ts, p + 1, end, "TEMPORARY") {
            p + 2
        } else {
            p + 1
        };
        if is_kw(ts, q, end, "TABLE") {
            let (name, es) = parse_create_table(ts, q + 1, end, seed)?;
            return Ok(Statement::CreateTable(name, es));
        }
        return Err(syntax("CREATE_TABLE", q));
    }
    if is_kw(ts, p, end, "USE") {
        let name = name_at(ts, p + 1, end)?;
        if p + 2 != end {
            return Err(syntax("';'", p + 2));
        }
        return Ok(Statement::UseDatabase(name));
    }
    if is_kw(ts, p, end, "ALTER") {
        let q = if is_kw(ts, p + 1, end, "IGNORE") {
            p + 2
        } else {
            p + 1
        };
        if is_kw(ts, q, end, "TABLE") {
            let (name, specs) = parse_alter_table(ts, q + 1, end, seed)?;
            return Ok(Statement::AlterTable(name, specs));
        }
        return Err(syntax("TABLE", q));
    }
    if is_kw(ts, p, end, "DROP") {
        let q = if is_kw(ts, p + 1, end, "TEMPORARY") {
            p + 2
        } else {
            p + 1
        };
        if is_kw(ts, q, end, "TABLE") || is_kw(ts, q, end, "TABLES") {
            let q1 = if is_kw(ts, q + 1, end, "IF") && is_kw(ts, q + 2, end, "EXISTS") {
                q + 3
            } else {
                q + 1
            };
            let names = parse_drop_names(ts, q1, end)?;
            return Ok(Statement::DropTable(names));
        }
        return Err(syntax("TABLE", q));
    }
    if is_kw(ts, p, end, "INSERT") {
        return Ok(Statement::Insert(parse_insert(ts, p + 1, end)?));
    }
    if is_kw(ts, p, end, "UPDATE") {
        return Ok(Statement::Update(parse_update(ts, p + 1, end)?));
    }
    if is_kw(ts, p, end, "DELETE") {
        return Ok(Statement::Delete(parse_delete(ts, p + 1, end)?));
    }
    if is_kw(ts, p, end, "SET") {
        return Ok(Statement::Ignored);
    }
    Err(syntax("SQL_STATEMENT", p))
}

/// The statements of the tokens from `i`, the current statement having started at
/// `start`: each non-empty run of tokens between `;` terminators is one statement.
pub open spec fn statements_from(tv: Seq<TokenV>, start: int, i: int, seed: u128) -> Option<Seq<StatementV>>
    decreases tv.len() - i,
{
    if i < 0 || start < 0 || start > i {
        None
    } else if i >= tv.len() {
        if start < tv.len() {
            match spec_statement(tv, start, tv.len() as int, seed) {
                Some(s) => Some(seq![s]),
                None => None,
            }
        } else {
            Some(Seq::empty())
        }
    } else if is_sym_spec(tv, i, ';') {
        if start < i {
            match spec_statement(tv, start, i, seed) {
                None => None,
                Some(s) => match statements_from(tv, i + 1, i + 1, seed) {
                    Some(rest) => Some(seq![s] + rest),
                    None => None,
                },
            }
        } else {
            statements_from(tv, i + 1, i + 1, seed)
        }
    } else {
        statements_from(tv, start, i + 1, seed)
    }
}

/// The statements of a dump's tokens.
pub open spec fn statements_of(tv: Seq<TokenV>, seed: u128) -> Option<Seq<StatementV>> {
    statements_from(tv, 0, 0, seed)
}

/// The statements that `input` holds, unnamed indexes named under `seed`.
pub open spec fn dump_statements(input: Seq<char>, seed: u128) -> Option<Seq<StatementV>> {
    match lex(input) {
        Some(tv) => statements_of(tv, seed),
        None => None,
    }
}

pub open spec fn prefixed(p: Seq<StatementV>, rest: Option<Seq<StatementV>>) -> Option<Seq<StatementV>> {
    match rest {
        Some(r) => Some(p + r),
        None => None,
    }
}

/// Splits the text into statements at each `;` outside literals and reads them in
/// order, naming unnamed indexes under `seed`; comments and empty statements are
/// dropped.
pub fn parse_statements_seeded(input: &str, seed: u128) -> (r: Result<Vec<Statement>, ParseError>)
    ensures
        match r {
            Ok(sts) => dump_statements(input@, seed) == Some(views(sts@)),
            Err(_) => dump_statements(input@, seed) is None,
        },
{
    let chars = chars_of(input);
    let ts = tokenize(&chars)?;
    let ghost tv = tv_of(ts@);
    let n = ts.len();
    let mut out: Vec<Statement> = Vec::new();
    let mut start: usize = 0;
    let mut i: usize = 0;
    proof {
        assert(views(out@) + statements_of(tv, seed).unwrap_or(Seq::empty()) =~= statements_of(tv, seed).unwrap_or(Seq::empty()));
    }
    while i < n
        invariant
            start <= i <= n,
            n == ts@.len(),
            tv == tv_of(ts@),
            lex(input@) == Some(tv),
            statements_of(tv, seed) == prefixed(views(out@), statements_from(tv, start as int, i as int, seed)),
        decreases n - i,
    {
        if is_sym(&ts, i, n, ';') {
            if start < i {
                let st = match parse_statement(&ts, start, i, seed) {
                    Ok(st) => st,
                    Err(e) => {
                        proof {
                            assert(statements_from(tv, start as int, i as int, seed) is None);
                            assert(lex(input@) == Some(tv));
                            assert(dump_statements(input@, seed) is None);
                        }
                        return Err(e);
                    },
                };
                let ghost before = out@;
                out.push(st);
                proof {
                    crate::model::lemma_views_push(before, st);
                    let rest = statements_from(tv, i + 1, i + 1, seed);
                    if rest is Some {
                        assert(views(before) + (seq![st@] + rest->Some_0) =~= views(out@) + rest->Some_0);
                    }
                }
            }
            start = i + 1;
        }
        i = i + 1;
    }
    if start < n {
        let st = parse_statement(&ts, start, n, seed)?;
        let ghost before = out@;
        out.push(st);
        proof {
            crate::model::lemma_views_push(before, st);
            assert(views(before) + seq![st@] =~= views(out@));
        }
    } else {
        proof {
            assert(views(out@) + Seq::<StatementV>::empty() =~= views(out@));
        }
    }
    Ok(out)
}

/// Splits the text into statements and reads them, naming unnamed indexes under a
/// seed drawn from the system's random source.
pub fn parse_statements(input: &str) -> (r: Result<Vec<Statement>, ParseError>)
    ensures
        exists|seed: u128| match r {
            Ok(sts) => #[trigger] dump_statements(input@, seed) == Some(views(sts@)),
            Err(_) => dump_statements(input@, seed) is None,
        },
{
    let seed = crate::ddl::random_u128();
    parse_statements_seeded(input, seed)
}

/// Where a single statement's tokens end: before a closing `;`, if there is one.
pub open spec fn statement_end(tv: Seq<TokenV>) -> int {
    if tv.len() > 0 && is_sym_spec(tv, tv.len() - 1, ';') {
        tv.len() - 1
    } else {
        tv.len() as int
    }
}

/// The insert that a single INSERT statement, with or without its closing `;`, denotes.
pub open spec fn spec_insert_statement(tv: Seq<TokenV>) -> Option<InsertV> {
    if 0 < statement_end(tv) && is_kw_spec(tv, 0, "INSERT"@) {
        spec_insert(tv, 1, statement_end(tv))
    } else {
        None
    }
}

/// Reads a single INSERT statement, with or without its closing `;`.
pub fn parse_insert_statement(input: &str) -> (r: Result<Insert, ParseError>)
    ensures
        lex(input@) is None ==> r is Err,
        lex(input@) matches Some(tv) ==> match r {
            Ok(x) => spec_insert_statement(tv) == Some(x@),
            Err(_) => spec_insert_statement(tv) is None,
        },
{
    let chars = chars_of(input);
    let ts = tokenize(&chars)?;
    let mut end = ts.len();
    if end > 0 && is_sym(&ts, end - 1, end, ';') {
        end = end - 1;
    }
    if !is_kw(&ts, 0, end, "INSERT") {
        return Err(syntax("INSERT_STATEMENT", 0));
    }
    parse_insert(&ts, 1, end)
}

} // verus!
