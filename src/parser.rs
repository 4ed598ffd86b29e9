//! The model builder: replays statements in order over a set of databases and
//! one current database.
use vstd::prelude::*;
use crate::lexer::ParseError;
use crate::ddl::{build_table, table_of};
use crate::model::{views, Duplicate, duplicate_vec, find_named, put_named, put, position_of, lemma_position_of};
use crate::schema::{Database, DatabaseV, Table, TableV, AlterSpecV, at_table, altered, altered_all, empty_database};
use crate::model::ColumnV;
use crate::statement::{Statement, StatementV, parse_statements_seeded, statements_from, dump_statements};
use crate::lexer::lex;
use crate::cursor::is_sym_spec;

verus! {

/// Holds the databases built so far and the one that statements currently apply to.
#[derive(Debug)]
pub struct MyParser {
    pub databases: Vec<Database>,
    pub current_database: Option<Database>,
}

/// The view of a [`MyParser`].
pub struct ParserV {
    pub databases: Seq<DatabaseV>,
    pub current: Option<DatabaseV>,
}

pub open spec fn db_view(d: Option<Database>) -> Option<DatabaseV> {
    match d {
        Some(x) => Some(x@),
        None => None,
    }
}

impl View for MyParser {
    type V = ParserV;

    open spec fn view(&self) -> ParserV {
        ParserV { databases: views(self.databases@), current: db_view(self.current_database) }
    }
}

/// `tables` without each of `names`, removed in order.
pub open spec fn without_all(tables: Seq<TableV>, names: Seq<Seq<char>>) -> Seq<TableV>
    decreases names.len(),
{
    if names.len() == 0 {
        tables
    } else {
        crate::model::without::<Table>(without_all(tables, names.drop_last()), names.last())
    }
}

/// The current database changed by `f`, if there is one.
pub open spec fn on_current(c: Option<DatabaseV>, f: spec_fn(Seq<TableV>) -> Seq<TableV>) -> Option<DatabaseV> {
    match c {
        Some(d) => Some(DatabaseV { tables: f(d.tables), ..d }),
        None => None,
    }
}

/// The builder's state after one statement.
pub open spec fn step(s: ParserV, st: StatementV) -> ParserV {
    match st {
        StatementV::CreateDatabase(db) => ParserV {
            databases: match s.current {
                Some(c) => if c.name != db.name {
                    put::<Database>(s.databases, c)
                } else {
                    s.databases
                },
                None => s.databases,
            },
            current: Some(db),
        },
        StatementV::UseDatabase(n) => ParserV { current: Some(empty_database(n)), ..s },
        StatementV::CreateTable(n, es) => ParserV {
            current: on_current(s.current, |ts: Seq<TableV>| put::<Table>(ts, table_of(n, es))),
            ..s
        },
        StatementV::AlterTable(n, specs) => ParserV {
            current: on_current(
                s.current,
                |ts: Seq<TableV>| at_table(ts, n, |t: TableV| altered_all(t, specs)),
            ),
            ..s
        },
        StatementV::DropTable(names) => ParserV {
            current: on_current(s.current, |ts: Seq<TableV>| without_all(ts, names)),
            ..s
        },
        StatementV::Insert(x) => ParserV {
            current: on_current(
                s.current,
                |ts: Seq<TableV>| at_table(ts, x.table_name, |t: TableV| TableV { inserts: t.inserts.push(x), ..t }),
            ),
            ..s
        },
        StatementV::Update(x) => ParserV {
            current: on_current(
                s.current,
                |ts: Seq<TableV>| at_table(ts, x.table_name, |t: TableV| TableV { updates: t.updates.push(x), ..t }),
            ),
            ..s
        },
        StatementV::Delete(x) => ParserV {
            current: on_current(
                s.current,
                |ts: Seq<TableV>| at_table(ts, x.table_name, |t: TableV| TableV { deletes: t.deletes.push(x), ..t }),
            ),
            ..s
        },
        StatementV::Ignored => s,
    }
}

/// The builder's state after the statements `sts`, in order.
pub open spec fn run(s: ParserV, sts: Seq<StatementV>) -> ParserV
    decreases sts.len(),
{
    if sts.len() == 0 {
        s
    } else {
        step(run(s, sts.drop_last()), sts.last())
    }
}

/// The state at the end of the input: the current database, if any, is committed.
pub open spec fn finish(s: ParserV) -> ParserV {
    match s.current {
        Some(c) => ParserV { databases: put::<Database>(s.databases, c), ..s },
        None => s,
    }
}

/// The state after reading `input` from `s` under `seed`, or `None` where the
/// text is not a dump: its statements replayed in order, then the current database
/// committed.
pub open spec fn dump_result(s: ParserV, input: Seq<char>, seed: u128) -> Option<ParserV> {
    match dump_statements(input, seed) {
        Some(sts) => Some(finish(run(s, sts))),
        None => None,
    }
}

/// The state that a result of reading holds, if any.
pub open spec fn result_view(r: Result<MyParser, ParseError>) -> Option<ParserV> {
    match r {
        Ok(p) => Some(p@),
        Err(_) => None,
    }
}

impl MyParser {
    pub fn new() -> (r: Self)
        ensures
            r@.databases == Seq::<DatabaseV>::empty(),
            r@.current is None,
            r.wf(),
    {
        let r = MyParser { databases: Vec::new(), current_database: None };
        proof {
            assert(r@.databases =~= Seq::<DatabaseV>::empty());
        }
        r
    }

    /// Builds the model of a whole dump from an empty state.
    pub fn with_parse(input: &str) -> (r: Result<Self, ParseError>)
        ensures
            exists|seed: u128| result_view(r) == #[trigger] dump_result(ParserV { databases: Seq::empty(), current: None }, input@, seed),
            r matches Ok(p) ==> p.wf(),
    {
        let parser = Self::new();
        proof {
            assert(parser@ == ParserV { databases: Seq::<DatabaseV>::empty(), current: None });
        }
        parser.parse_mysqldump(input)
    }

    /// Continues building from this state with the statements of `input`.
    pub fn parse(self, input: &str) -> (r: Result<Self, ParseError>)
        ensures
            exists|seed: u128| result_view(r) == #[trigger] dump_result(self@, input@, seed),
            self.wf() ==> (r matches Ok(p) ==> p.wf()),
    {
        self.parse_mysqldump(input)
    }

    /// Copies of the databases committed so far.
    pub fn get_databases(&self) -> (r: Vec<Database>)
        ensures
            views(r@) == self@.databases,
    {
        duplicate_vec(&self.databases)
    }

    /// Makes a copy of the committed database named `name` current, or none where
    /// there is no such database.
    pub fn set_current_database(self, name: &str) -> (r: Self)
        ensures
            r@.databases == self@.databases,
            r@.current == (if position_of::<Database>(self@.databases, name@) >= 0 {
                Some(self@.databases[position_of::<Database>(self@.databases, name@)])
            } else {
                None
            }),
            self.wf() ==> r.wf(),
    {
        let mut s = self;
        let n = String::from_str(name);
        match find_named(&s.databases, &n) {
            Some(k) => {
                proof {
                    lemma_position_of::<Database>(views(s.databases@), n@);
                }
                let d = s.databases[k].duplicate();
                s.current_database = Some(d);
            },
            None => {
                s.current_database = None;
            },
        }
        s
    }

    /// Commits a database, in place of the one of the same name if there is one.
    pub fn insert_database(&mut self, db: Database)
        ensures
            final(self)@ == (ParserV { databases: put::<Database>(old(self)@.databases, db@), ..old(self)@ }),
            old(self).wf() && db_wf(db@) ==> final(self).wf(),
    {
        proof {
            if old(self).wf() && db_wf(db@) {
                lemma_put_database_wf(self@, db@);
            }
        }
        put_named(&mut self.databases, db);
    }

    /// Applies the table change `f` to the current database.
    fn current_put_table(&mut self, t: Table)
        ensures
            final(self)@ == (ParserV {
                current: on_current(old(self)@.current, |ts: Seq<TableV>| put::<Table>(ts, t@)),
                ..old(self)@
            }),
    {
        match &mut self.current_database {
            Some(db) => db.put_table(t),
            None => {},
        }
    }

    /// Applies one statement.
    pub fn apply(&mut self, st: Statement)
        ensures
            final(self)@ == step(old(self)@, st@),
            old(self).wf() && statement_wf(st@) ==> final(self).wf(),
    {
        proof {
            if old(self).wf() && statement_wf(st@) {
                lemma_step_wf(old(self)@, st@);
            }
        }
        let ghost st0 = st;
        match st {
            Statement::CreateDatabase(db) => {
                let prev = self.current_database.take();
                match prev {
                    Some(c) => {
                        if !c.name.eq(&db.name) {
                            self.insert_database(c);
                        }
                    },
                    None => {},
                }
                self.current_database = Some(db);
            },
            Statement::UseDatabase(n) => {
                self.current_database = Some(Database::new(n));
            },
            Statement::CreateTable(n, es) => {
                let t = build_table(n, es);
                self.current_put_table(t);
            },
            Statement::AlterTable(n, specs) => {
                match &mut self.current_database {
                    Some(db) => db.alter_table(&n, &specs),
                    None => {},
                }
            },
            Statement::DropTable(names) => {
                match &mut self.current_database {
                    Some(db) => drop_tables(db, &names),
                    None => {},
                }
            },
            Statement::Insert(x) => {
                match &mut self.current_database {
                    Some(db) => db.record_insert(x),
                    None => {},
                }
            },
            Statement::Update(x) => {
                match &mut self.current_database {
                    Some(db) => db.record_update(x),
                    None => {},
                }
            },
            Statement::Delete(x) => {
                match &mut self.current_database {
                    Some(db) => db.record_delete(x),
                    None => {},
                }
            },
            Statement::Ignored => {},
        }
    }

    /// Applies statements in order.
    pub fn apply_all(&mut self, sts: Vec<Statement>)
        ensures
            final(self)@ == run(old(self)@, views(sts@)),
            old(self).wf() && (forall|k: int| 0 <= k < sts@.len() ==> statement_wf(#[trigger] views(sts@)[k])) ==> final(self).wf(),
    {
        proof {
            if old(self).wf() && (forall|k: int| 0 <= k < sts@.len() ==> statement_wf(#[trigger] views(sts@)[k])) {
                lemma_run_wf(old(self)@, views(sts@));
            }
        }
        let mut sts = sts;
        let ghost all = sts@;
        let total = sts.len();
        let mut i: usize = 0;
        while sts.len() > 0
            invariant
                i + sts@.len() == all.len(),
                all.len() == total,
                sts@ == all.subrange(i as int, all.len() as int),
                self@ == run(old(self)@, views(all.subrange(0, i as int))),
            decreases sts@.len(),
        {
            let st = sts.remove(0);
            proof {
                assert(st == all[i as int]);
                assert(sts@ =~= all.subrange(i + 1, all.len() as int));
                assert(views(all.subrange(0, i + 1)).drop_last() =~= views(all.subrange(0, i as int)));
                assert(views(all.subrange(0, i + 1)).last() == st@);
            }
            self.apply(st);
            i = i + 1;
        }
        proof {
            assert(all.subrange(0, all.len() as int) =~= all);
        }
    }

    /// Commits the current database, which stays current.
    pub fn commit(&mut self)
        ensures
            final(self)@ == finish(old(self)@),
            old(self).wf() ==> final(self).wf(),
    {
        proof {
            if old(self).wf() {
                lemma_finish_wf(old(self)@);
            }
        }
        match &self.current_database {
            Some(c) => {
                let d = c.duplicate();
                self.insert_database(d);
            },
            None => {},
        }
    }

    /// Reads the statements of `input` and applies them in order, naming unnamed
    /// indexes under `seed`, then commits the current database. Fails, returning no
    /// model, where the input is not a dump.
    pub fn parse_mysqldump_seeded(self, input: &str, seed: u128) -> (r: Result<Self, ParseError>)
        ensures
            result_view(r) == dump_result(self@, input@, seed),
            self.wf() ==> (r matches Ok(p) ==> p.wf()),
    {
        let sts = parse_statements_seeded(input, seed)?;
        proof {
            assert forall|k: int| 0 <= k < sts@.len() implies statement_wf(#[trigger] views(sts@)[k]) by {
                if let Some(tv) = lex(input@) {
                    lemma_statements_wf(tv, 0, 0, seed);
                }
            }
        }
        let mut p = self;
        p.apply_all(sts);
        p.commit();
        Ok(p)
    }

    /// Reads the statements of `input` and applies them in order, then commits the
    /// current database; unnamed indexes are named under a seed drawn from the
    /// system's random source. Fails, returning no model, where the input is not a dump.
    pub fn parse_mysqldump(self, input: &str) -> (r: Result<Self, ParseError>)
        ensures
            exists|seed: u128| result_view(r) == #[trigger] dump_result(self@, input@, seed),
            self.wf() ==> (r matches Ok(p) ==> p.wf()),
    {
        let seed = crate::ddl::random_u128();
        self.parse_mysqldump_seeded(input, seed)
    }
}

/// Removes the tables named in `names`, in order.
fn drop_tables(db: &mut Database, names: &Vec<String>)
    ensures
        final(db)@ == (DatabaseV { tables: without_all(old(db)@.tables, views(names@)), ..old(db)@ }),
{
    let mut i: usize = 0;
    while i < names.len()
        invariant
            i <= names@.len(),
            db@ == (DatabaseV { tables: without_all(old(db)@.tables, views(names@.subrange(0, i as int))), ..old(db)@ }),
        decreases names@.len() - i,
    {
        db.drop_table(&names[i]);
        proof {
            assert(views(names@.subrange(0, i + 1)).drop_last() =~= views(names@.subrange(0, i as int)));
        }
        i = i + 1;
    }
    proof {
        assert(names@.subrange(0, names@.len() as int) =~= names@);
    }
}

} // verus!

verus! {

/// Table names are unique within a database.
pub open spec fn db_wf(d: DatabaseV) -> bool {
    crate::model::unique_keys::<Table>(d.tables)
}

/// Database names are unique among the committed ones, and each database,
/// committed or current, is well formed.
pub open spec fn parser_wf(s: ParserV) -> bool {
    &&& crate::model::unique_keys::<Database>(s.databases)
    &&& forall|i: int| 0 <= i < s.databases.len() ==> db_wf(#[trigger] s.databases[i])
    &&& s.current matches Some(c) ==> db_wf(c)
}

/// A statement that opens a database opens a well-formed one.
pub open spec fn statement_wf(st: StatementV) -> bool {
    match st {
        StatementV::CreateDatabase(db) => db_wf(db),
        _ => true,
    }
}

/// Every statement read from a text opens only well-formed databases.
pub proof fn lemma_statements_wf(tv: Seq<crate::lexer::TokenV>, start: int, i: int, seed: u128)
    ensures
        statements_from(tv, start, i, seed) matches Some(ss) ==> forall|k: int| 0 <= k < ss.len() ==> statement_wf(#[trigger] ss[k]),
    decreases tv.len() - i,
{
    reveal(crate::statement::spec_statement);
    if i < 0 || start < 0 || start > i {
    } else if i >= tv.len() {
    } else if is_sym_spec(tv, i, ';') {
        lemma_statements_wf(tv, i + 1, i + 1, seed);
        if start < i {
            if let Some(ss) = statements_from(tv, start, i, seed) {
                let rest = statements_from(tv, i + 1, i + 1, seed)->Some_0;
                assert forall|k: int| 0 <= k < ss.len() implies statement_wf(#[trigger] ss[k]) by {
                    if k > 0 {
                        assert(ss[k] == rest[k - 1]);
                    }
                }
            }
        }
    } else {
        lemma_statements_wf(tv, start, i + 1, seed);
    }
}

impl MyParser {
    pub open spec fn wf(&self) -> bool {
        parser_wf(self@)
    }
}

/// Each element of `put(s, x)` is `x` or the element of `s` at the same index.
pub proof fn lemma_put_elems<T: crate::model::Named>(s: Seq<T::V>, x: T::V)
    ensures
        forall|i: int| 0 <= i < put::<T>(s, x).len() ==> #[trigger] put::<T>(s, x)[i] == x || (i < s.len() && put::<T>(s, x)[i] == s[i]),
{
    lemma_position_of::<T>(s, T::key(x));
}

/// Alter actions keep a table's name.
pub proof fn lemma_altered_name(t: TableV, specs: Seq<crate::schema::AlterSpecV>)
    ensures
        altered_all(t, specs).name == t.name,
    decreases specs.len(),
{
    if specs.len() > 0 {
        lemma_altered_name(t, specs.drop_last());
    }
}

/// Changing the table named `name` by a change that keeps its name keeps names unique.
pub proof fn lemma_at_table_unique(tables: Seq<TableV>, name: Seq<char>, f: spec_fn(TableV) -> TableV)
    requires
        crate::model::unique_keys::<Table>(tables),
        position_of::<Table>(tables, name) >= 0 ==> f(tables[position_of::<Table>(tables, name)]).name
            == tables[position_of::<Table>(tables, name)].name,
    ensures
        crate::model::unique_keys::<Table>(at_table(tables, name, f)),
{
    lemma_position_of::<Table>(tables, name);
    let k = position_of::<Table>(tables, name);
    if k >= 0 {
        crate::model::lemma_update_unique::<Table>(tables, k, f(tables[k]));
    }
}

/// Removing tables by name keeps names unique.
pub proof fn lemma_without_all_unique(tables: Seq<TableV>, names: Seq<Seq<char>>)
    requires
        crate::model::unique_keys::<Table>(tables),
    ensures
        crate::model::unique_keys::<Table>(without_all(tables, names)),
    decreases names.len(),
{
    if names.len() > 0 {
        lemma_without_all_unique(tables, names.drop_last());
        crate::model::lemma_without_unique::<Table>(without_all(tables, names.drop_last()), names.last());
    }
}

/// Committing a well-formed database keeps the state well formed.
pub proof fn lemma_put_database_wf(s: ParserV, c: DatabaseV)
    requires
        parser_wf(s),
        db_wf(c),
    ensures
        crate::model::unique_keys::<Database>(put::<Database>(s.databases, c)),
        forall|i: int| 0 <= i < put::<Database>(s.databases, c).len() ==> db_wf(#[trigger] put::<Database>(s.databases, c)[i]),
{
    crate::model::lemma_put_unique::<Database>(s.databases, c);
    lemma_put_elems::<Database>(s.databases, c);
}

/// Each statement keeps the state well formed.
pub proof fn lemma_step_wf(s: ParserV, st: StatementV)
    requires
        parser_wf(s),
        statement_wf(st),
    ensures
        parser_wf(step(s, st)),
{
    match st {
        StatementV::CreateDatabase(db) => {
            if let Some(c) = s.current {
                lemma_put_database_wf(s, c);
            }
        },
        StatementV::UseDatabase(n) => {},
        StatementV::CreateTable(n, es) => {
            if let Some(c) = s.current {
                crate::model::lemma_put_unique::<Table>(c.tables, table_of(n, es));
            }
        },
        StatementV::AlterTable(n, specs) => {
            if let Some(c) = s.current {
                lemma_position_of::<Table>(c.tables, n);
                let k = position_of::<Table>(c.tables, n);
                if k >= 0 {
                    lemma_altered_name(c.tables[k], specs);
                }
                lemma_at_table_unique(c.tables, n, |t: TableV| altered_all(t, specs));
            }
        },
        StatementV::DropTable(names) => {
            if let Some(c) = s.current {
                lemma_without_all_unique(c.tables, names);
            }
        },
        StatementV::Insert(x) => {
            if let Some(c) = s.current {
                lemma_at_table_unique(c.tables, x.table_name, |t: TableV| TableV { inserts: t.inserts.push(x), ..t });
            }
        },
        StatementV::Update(x) => {
            if let Some(c) = s.current {
                lemma_at_table_unique(c.tables, x.table_name, |t: TableV| TableV { updates: t.updates.push(x), ..t });
            }
        },
        StatementV::Delete(x) => {
            if let Some(c) = s.current {
                lemma_at_table_unique(c.tables, x.table_name, |t: TableV| TableV { deletes: t.deletes.push(x), ..t });
            }
        },
        StatementV::Ignored => {},
    }
}

/// Statements applied in order keep the state well formed.
pub proof fn lemma_run_wf(s: ParserV, sts: Seq<StatementV>)
    requires
        parser_wf(s),
        forall|k: int| 0 <= k < sts.len() ==> statement_wf(#[trigger] sts[k]),
    ensures
        parser_wf(run(s, sts)),
    decreases sts.len(),
{
    if sts.len() > 0 {
        assert forall|k: int| 0 <= k < sts.drop_last().len() implies statement_wf(#[trigger] sts.drop_last()[k]) by {
            assert(sts.drop_last()[k] == sts[k]);
        }
        lemma_run_wf(s, sts.drop_last());
        lemma_step_wf(run(s, sts.drop_last()), sts.last());
    }
}

/// Committing the current database keeps the state well formed.
pub proof fn lemma_finish_wf(s: ParserV)
    requires
        parser_wf(s),
    ensures
        parser_wf(finish(s)),
{
    if let Some(c) = s.current {
        lemma_put_database_wf(s, c);
    }
}

} // verus!

verus! {

/// A statement that is recognized and ignored, such as SET, leaves the state as it was.
pub proof fn lemma_ignored_changes_nothing(s: ParserV, sts: Seq<StatementV>)
    ensures
        run(s, sts.push(StatementV::Ignored)) == run(s, sts),
        finish(run(s, sts.push(StatementV::Ignored))) == finish(run(s, sts)),
{
    assert(sts.push(StatementV::Ignored).drop_last() =~= sts);
}

/// Positions by name depend on the names alone.
pub proof fn lemma_position_keys<T: crate::model::Named>(a: Seq<T::V>, b: Seq<T::V>, name: Seq<char>)
    requires
        a.len() == b.len(),
        forall|i: int| 0 <= i < a.len() ==> T::key(#[trigger] a[i]) == T::key(b[i]),
    ensures
        position_of::<T>(a, name) == position_of::<T>(b, name),
    decreases a.len(),
{
    if a.len() > 0 {
        lemma_position_keys::<T>(a.drop_last(), b.drop_last(), name);
    }
}

/// In the current database, ALTER TABLE n ADD a column that table n does not have,
/// followed by ALTER TABLE n DROP COLUMN of that name, leaves the state as it was.
pub proof fn lemma_alter_add_then_drop(s: ParserV, n: Seq<char>, c: ColumnV)
    requires
        s.current is Some,
        position_of::<Table>(s.current->Some_0.tables, n) >= 0,
        forall|j: int| 0 <= j < s.current->Some_0.tables[position_of::<Table>(s.current->Some_0.tables, n)].columns.len()
            ==> (#[trigger] s.current->Some_0.tables[position_of::<Table>(s.current->Some_0.tables, n)].columns[j]).name != c.name,
    ensures
        step(step(s, StatementV::AlterTable(n, seq![AlterSpecV::AddColumn(c)])), StatementV::AlterTable(n, seq![AlterSpecV::DropColumn(c.name)])) == s,
{
    let d = s.current->Some_0;
    let tables = d.tables;
    lemma_position_of::<Table>(tables, n);
    let k = position_of::<Table>(tables, n);
    let t = tables[k];
    let add = seq![AlterSpecV::AddColumn(c)];
    let drop = seq![AlterSpecV::DropColumn(c.name)];
    assert(add.drop_last() =~= Seq::<AlterSpecV>::empty());
    assert(drop.drop_last() =~= Seq::<AlterSpecV>::empty());
    assert(add.last() == AlterSpecV::AddColumn(c));
    assert(drop.last() == AlterSpecV::DropColumn(c.name));
    assert(altered_all(t, add.drop_last()) == t);
    let t1 = altered_all(t, add);
    assert(t1 == altered(t, AlterSpecV::AddColumn(c)));
    let tables1 = tables.update(k, t1);
    assert(at_table(tables, n, |x: TableV| altered_all(x, add)) == tables1);
    lemma_position_keys::<Table>(tables1, tables, n);
    crate::schema::lemma_add_then_drop_column(t, c);
    assert(altered_all(t1, drop.drop_last()) == t1);
    assert(altered_all(t1, drop) == altered(t1, AlterSpecV::DropColumn(c.name)));
    assert(at_table(tables1, n, |x: TableV| altered_all(x, drop)) =~= tables);
    let s1 = step(s, StatementV::AlterTable(n, add));
    assert(s1.current == Some(DatabaseV { tables: tables1, ..d }));
    assert(DatabaseV { tables: tables, ..d } == d);
}

} // verus!
