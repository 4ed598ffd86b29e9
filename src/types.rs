//! The summary of a model that the JSON output and the column query read: per
//! table, its columns with a small closed set of type tags.
use vstd::prelude::*;
use crate::model::{views, DataType, IntKind, DecimalKind, TimeKind, SizedKind, LobKind};
use crate::masker::occurs;
use crate::text::chars_of;

verus! {

/// The type tags of the summary.
#[derive(Clone, Copy, Debug, PartialEq, Eq, Structural)]
pub enum ColumnType {
    String,
    Int,
    BigInt,
    Boolean,
    Float,
    Double,
    Decimal,
    Char,
    Timestamp,
    Date,
    DateTime,
    Time,
}

/// The tag of a data type: a lossy mapping, text for anything without a tag of its own.
pub open spec fn tag_of(t: DataType) -> ColumnType {
    match t {
        DataType::Integer(IntKind::Int, _) => ColumnType::Int,
        DataType::Integer(IntKind::BigInt, _) => ColumnType::BigInt,
        DataType::Integer(IntKind::TinyInt, _) => ColumnType::Decimal,
        DataType::Integer(IntKind::SmallInt, _) => ColumnType::Decimal,
        DataType::Fixed(DecimalKind::Float, _) => ColumnType::Float,
        DataType::Fixed(DecimalKind::Double, _) => ColumnType::Double,
        DataType::Sized(SizedKind::Char, _) => ColumnType::Char,
        DataType::Sized(SizedKind::Varchar, _) => ColumnType::String,
        DataType::Lob(LobKind::Text) => ColumnType::String,
        DataType::Temporal(TimeKind::Timestamp, _) => ColumnType::Timestamp,
        DataType::Temporal(TimeKind::DateTime, _) => ColumnType::DateTime,
        DataType::Temporal(TimeKind::Time, _) => ColumnType::Time,
        _ => ColumnType::String,
    }
}

impl ColumnType {
    pub fn from_data_type(t: &DataType) -> (r: ColumnType)
        ensures
            r == tag_of(*t),
    {
        match t {
            DataType::Integer(IntKind::Int, _) => ColumnType::Int,
            DataType::Integer(IntKind::BigInt, _) => ColumnType::BigInt,
            DataType::Integer(IntKind::TinyInt, _) => ColumnType::Decimal,
            DataType::Integer(IntKind::SmallInt, _) => ColumnType::Decimal,
            DataType::Fixed(DecimalKind::Float, _) => ColumnType::Float,
            DataType::Fixed(DecimalKind::Double, _) => ColumnType::Double,
            DataType::Sized(SizedKind::Char, _) => ColumnType::Char,
            DataType::Sized(SizedKind::Varchar, _) => ColumnType::String,
            DataType::Lob(LobKind::Text) => ColumnType::String,
            DataType::Temporal(TimeKind::Timestamp, _) => ColumnType::Timestamp,
            DataType::Temporal(TimeKind::DateTime, _) => ColumnType::DateTime,
            DataType::Temporal(TimeKind::Time, _) => ColumnType::Time,
            _ => ColumnType::String,
        }
    }
}

/// A column of the summary.
#[derive(Clone, Debug)]
pub struct Column {
    pub name: String,
    pub type_: ColumnType,
}

/// A named constraint.
#[derive(Clone, Debug)]
pub struct Constraint {
    pub name: String,
}

/// A table of the summary.
#[derive(Clone, Debug)]
pub struct Table {
    pub name: String,
    pub columns: Vec<Column>,
    pub constraints: Option<Vec<Constraint>>,
}

/// The column names and the values of an INSERT or REPLACE, as text.
#[derive(Clone, Debug)]
pub struct TableInsertReplace {
    pub columns: Vec<String>,
    pub values: Vec<String>,
}

/// A database of the summary.
#[derive(Clone, Debug)]
pub struct Database {
    pub db_name: String,
    pub tables: Vec<Table>,
}

impl Database {
    pub fn new(db_name: String) -> (r: Self)
        ensures
            r.db_name == db_name,
            r.tables@.len() == 0,
    {
        Database { db_name, tables: Vec::new() }
    }
}

/// The summary of a column: its name and its tag.
pub fn summarize_column(c: &crate::model::Column) -> (r: Column)
    ensures
        r.name == c.name,
        r.type_ == tag_of(c.data_type),
{
    Column { name: c.name.clone(), type_: ColumnType::from_data_type(&c.data_type) }
}

/// The summary of a table: its columns in order, no constraints.
pub fn summarize_table(t: &crate::schema::Table) -> (r: Table)
    ensures
        r.name == t.name,
        r.constraints is None,
        r.columns@.len() == t.columns@.len(),
        forall|i: int| 0 <= i < t.columns@.len() ==> (#[trigger] r.columns@[i]).name == t.columns@[i].name
            && r.columns@[i].type_ == tag_of(t.columns@[i].data_type),
{
    let mut cols: Vec<Column> = Vec::new();
    let mut i: usize = 0;
    while i < t.columns.len()
        invariant
            i <= t.columns@.len(),
            cols@.len() == i,
            forall|k: int| 0 <= k < i ==> (#[trigger] cols@[k]).name == t.columns@[k].name
                && cols@[k].type_ == tag_of(t.columns@[k].data_type),
        decreases t.columns@.len() - i,
    {
        cols.push(summarize_column(&t.columns[i]));
        i = i + 1;
    }
    Table { name: t.name.clone(), columns: cols, constraints: None }
}

/// The summary of a database: its tables in order, each with its columns' names
/// and tags.
pub fn summarize_database(d: &crate::schema::Database) -> (r: Database)
    ensures
        r.db_name == d.name,
        r.tables@.len() == d.tables@.len(),
        forall|i: int| 0 <= i < d.tables@.len() ==> summarizes(#[trigger] r.tables@[i], d.tables@[i]),
{
    let mut tables: Vec<Table> = Vec::new();
    let mut i: usize = 0;
    while i < d.tables.len()
        invariant
            i <= d.tables@.len(),
            tables@.len() == i,
            forall|k: int| 0 <= k < i ==> summarizes(#[trigger] tables@[k], d.tables@[k]),
        decreases d.tables@.len() - i,
    {
        tables.push(summarize_table(&d.tables[i]));
        i = i + 1;
    }
    Database { db_name: d.name.clone(), tables }
}

/// `s` is the summary of the table `t`: same name, no constraints, and per column
/// the same name and the column's tag.
pub open spec fn summarizes(s: Table, t: crate::schema::Table) -> bool {
    &&& s.name == t.name
    &&& s.constraints is None
    &&& s.columns@.len() == t.columns@.len()
    &&& forall|j: int| 0 <= j < t.columns@.len() ==> (#[trigger] s.columns@[j]).name == t.columns@[j].name
        && s.columns@[j].type_ == tag_of(t.columns@[j].data_type)
}

/// The lower-case form of a string, as `str::to_lowercase` gives it.
pub uninterp spec fn lower_of(s: Seq<char>) -> Seq<char>;

/// Relies on `str::to_lowercase`: the result depends on the characters of `s` alone.
#[verifier::external_body]
fn lowercase(s: &str) -> (r: String)
    ensures
        r@ == lower_of(s@),
{
    s.to_lowercase()
}

/// The index of the first of `names` that contains `query`.
pub fn first_containing(names: &Vec<String>, query: &String) -> (r: Option<usize>)
    ensures
        match r {
            Some(i) => i < names@.len() && occurs(names@[i as int]@, query@) && forall|j: int| 0 <= j < i ==> !occurs(#[trigger] names@[j]@, query@),
            None => forall|j: int| 0 <= j < names@.len() ==> !occurs(#[trigger] names@[j]@, query@),
        },
{
    let q = chars_of(query.as_str());
    let mut i: usize = 0;
    while i < names.len()
        invariant
            i <= names@.len(),
            q@ == query@,
            forall|j: int| 0 <= j < i ==> !occurs(#[trigger] names@[j]@, query@),
        decreases names@.len() - i,
    {
        let c = chars_of(names[i].as_str());
        if crate::masker::occurs_in(&c, &q) {
            return Some(i);
        }
        i = i + 1;
    }
    None
}

/// A column whose name contains the query.
#[derive(Clone, Debug)]
pub struct ColumnMatch {
    pub db_name: String,
    pub table_name: String,
    pub column_name: String,
}

impl View for ColumnMatch {
    type V = (Seq<char>, Seq<char>, Seq<char>);

    open spec fn view(&self) -> (Seq<char>, Seq<char>, Seq<char>) {
        (self.db_name@, self.table_name@, self.column_name@)
    }
}

/// The index of the first column whose lower-case name contains `q`, or -1.
pub open spec fn first_hit(cols: Seq<Column>, q: Seq<char>) -> int
    decreases cols.len(),
{
    if cols.len() == 0 {
        -1
    } else {
        let k = first_hit(cols.drop_last(), q);
        if k >= 0 {
            k
        } else if occurs(lower_of(cols.last().name@), q) {
            cols.len() - 1
        } else {
            -1
        }
    }
}

/// The matches in the tables `ts` of the database `db`: one per table that has a
/// matching column, naming the first such column.
pub open spec fn table_matches(db: Seq<char>, ts: Seq<Table>, q: Seq<char>) -> Seq<(Seq<char>, Seq<char>, Seq<char>)>
    decreases ts.len(),
{
    if ts.len() == 0 {
        Seq::empty()
    } else {
        let rest = table_matches(db, ts.drop_last(), q);
        let t = ts.last();
        let k = first_hit(t.columns@, q);
        if k >= 0 {
            rest.push((db, t.name@, t.columns@[k].name@))
        } else {
            rest
        }
    }
}

/// The matches over all databases, in order.
pub open spec fn all_matches(ds: Seq<Database>, q: Seq<char>) -> Seq<(Seq<char>, Seq<char>, Seq<char>)>
    decreases ds.len(),
{
    if ds.len() == 0 {
        Seq::empty()
    } else {
        all_matches(ds.drop_last(), q) + table_matches(ds.last().db_name@, ds.last().tables@, q)
    }
}

/// `first_hit` is the first index whose name matches.
pub proof fn lemma_first_hit(cols: Seq<Column>, q: Seq<char>, i: int)
    requires
        -1 <= i < cols.len(),
        i >= 0 ==> occurs(lower_of(cols[i].name@), q),
        forall|j: int| 0 <= j < cols.len() && (i == -1 || j < i) ==> !occurs(lower_of(#[trigger] cols[j].name@), q),
    ensures
        first_hit(cols, q) == i,
    decreases cols.len(),
{
    if cols.len() > 0 {
        let pre = cols.drop_last();
        if i == cols.len() - 1 {
            lemma_first_hit(pre, q, -1);
        } else {
            lemma_first_hit(pre, q, i);
        }
    }
}

/// For each table, the first column whose name contains `query`, compared in
/// lower case: at most one entry per table, tables in order.
pub fn find_pass_columns(databases: &Vec<Database>, query: &str) -> (r: Vec<ColumnMatch>)
    ensures
        views(r@) == all_matches(databases@, lower_of(query@)),
{
    let q = lowercase(query);
    let mut out: Vec<ColumnMatch> = Vec::new();
    let mut d: usize = 0;
    while d < databases.len()
        invariant
            d <= databases@.len(),
            q@ == lower_of(query@),
            views(out@) == all_matches(databases@.subrange(0, d as int), q@),
        decreases databases@.len() - d,
    {
        let db = &databases[d];
        let ghost base = views(out@);
        let mut t: usize = 0;
        while t < db.tables.len()
            invariant
                d < databases@.len(),
                *db == databases@[d as int],
                t <= db.tables@.len(),
                views(out@) == base + table_matches(db.db_name@, db.tables@.subrange(0, t as int), q@),
            decreases db.tables@.len() - t,
        {
            let table = &db.tables[t];
            let mut folded: Vec<String> = Vec::new();
            let mut c: usize = 0;
            while c < table.columns.len()
                invariant
                    c <= table.columns@.len(),
                    folded@.len() == c,
                    forall|j: int| 0 <= j < c ==> (#[trigger] folded@[j])@ == lower_of(table.columns@[j].name@),
                decreases table.columns@.len() - c,
            {
                folded.push(lowercase(table.columns[c].name.as_str()));
                c = c + 1;
            }
            let ghost pre = db.tables@.subrange(0, t as int);
            proof {
                assert(db.tables@.subrange(0, t + 1).drop_last() =~= pre);
                assert(db.tables@.subrange(0, t + 1).last() == *table);
            }
            match first_containing(&folded, &q) {
                Some(i) => {
                    proof {
                        assert forall|j: int| 0 <= j < table.columns@.len() && j < i implies !occurs(lower_of(#[trigger] table.columns@[j].name@), q@) by {
                            assert(folded@[j]@ == lower_of(table.columns@[j].name@));
                        }
                        assert(folded@[i as int]@ == lower_of(table.columns@[i as int].name@));
                        lemma_first_hit(table.columns@, q@, i as int);
                    }
                    let m = ColumnMatch {
                        db_name: db.db_name.clone(),
                        table_name: table.name.clone(),
                        column_name: table.columns[i].name.clone(),
                    };
                    let ghost before = out@;
                    out.push(m);
                    proof {
                        crate::model::lemma_views_push(before, m);
                    }
                },
                None => {
                    proof {
                        assert forall|j: int| 0 <= j < table.columns@.len() implies !occurs(lower_of(#[trigger] table.columns@[j].name@), q@) by {
                            assert(folded@[j]@ == lower_of(table.columns@[j].name@));
                        }
                        lemma_first_hit(table.columns@, q@, -1);
                    }
                },
            }
            t = t + 1;
        }
        proof {
            assert(db.tables@.subrange(0, db.tables@.len() as int) =~= db.tables@);
            assert(databases@.subrange(0, d + 1).drop_last() =~= databases@.subrange(0, d as int));
        }
        d = d + 1;
    }
    proof {
        assert(databases@.subrange(0, databases@.len() as int) =~= databases@);
    }
    out
}

} // verus!
