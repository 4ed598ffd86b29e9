//! Tables and databases, and the rules by which statements change them.
use vstd::prelude::*;
use crate::model::{
    views, lemma_views_push, Duplicate, Named, duplicate_vec, remove_named,
    replace_named, put_named, find_named, without, replaced, put, position_of, lemma_position_of,
    Column, ColumnV, Index, IndexV, ForeignKey, ForeignKeyV, PrimaryKey, PrimaryKeyV, Insert,
    InsertV, Update, UpdateV, Delete, DeleteV, DatabaseOption, DatabaseOptionV,
};

verus! {

impl Named for Column {
    open spec fn key(v: ColumnV) -> Seq<char> {
        v.name
    }

    fn name_str(&self) -> (r: &String) {
        &self.name
    }
}

impl Named for Index {
    open spec fn key(v: IndexV) -> Seq<char> {
        v.name
    }

    fn name_str(&self) -> (r: &String) {
        &self.name
    }
}

/// One action of an ALTER TABLE statement.
#[derive(Clone, Debug)]
pub enum AlterSpec {
    AddColumn(Column),
    AddIndex(Index),
    ModifyColumn(Column),
    DropColumn(String),
    DropIndex(String),
    /// An action that the model does not record.
    Ignored,
}

/// The view of an [`AlterSpec`].
pub enum AlterSpecV {
    AddColumn(ColumnV),
    AddIndex(IndexV),
    ModifyColumn(ColumnV),
    DropColumn(Seq<char>),
    DropIndex(Seq<char>),
    Ignored,
}

impl View for AlterSpec {
    type V = AlterSpecV;

    open spec fn view(&self) -> AlterSpecV {
        match self {
            AlterSpec::AddColumn(c) => AlterSpecV::AddColumn(c@),
            AlterSpec::AddIndex(i) => AlterSpecV::AddIndex(i@),
            AlterSpec::ModifyColumn(c) => AlterSpecV::ModifyColumn(c@),
            AlterSpec::DropColumn(n) => AlterSpecV::DropColumn(n@),
            AlterSpec::DropIndex(n) => AlterSpecV::DropIndex(n@),
            AlterSpec::Ignored => AlterSpecV::Ignored,
        }
    }
}

/// A table: its schema and the data operations recorded on it, in source order.
#[derive(Clone, Debug)]
pub struct Table {
    pub name: String,
    pub columns: Vec<Column>,
    pub primary_key: Option<PrimaryKey>,
    pub indexes: Vec<Index>,
    pub foreign_keys: Vec<ForeignKey>,
    pub inserts: Vec<Insert>,
    pub updates: Vec<Update>,
    pub deletes: Vec<Delete>,
}

/// The view of a [`Table`].
pub struct TableV {
    pub name: Seq<char>,
    pub columns: Seq<ColumnV>,
    pub primary_key: Option<PrimaryKeyV>,
    pub indexes: Seq<IndexV>,
    pub foreign_keys: Seq<ForeignKeyV>,
    pub inserts: Seq<InsertV>,
    pub updates: Seq<UpdateV>,
    pub deletes: Seq<DeleteV>,
}

pub open spec fn pk_view(p: Option<PrimaryKey>) -> Option<PrimaryKeyV> {
    match p {
        Some(k) => Some(k@),
        None => None,
    }
}

impl View for Table {
    type V = TableV;

    open spec fn view(&self) -> TableV {
        TableV {
            name: self.name@,
            columns: views(self.columns@),
            primary_key: pk_view(self.primary_key),
            indexes: views(self.indexes@),
            foreign_keys: views(self.foreign_keys@),
            inserts: views(self.inserts@),
            updates: views(self.updates@),
            deletes: views(self.deletes@),
        }
    }
}

impl Duplicate for Table {
    fn duplicate(&self) -> (r: Self) {
        Table {
            name: self.name.clone(),
            columns: duplicate_vec(&self.columns),
            primary_key: match &self.primary_key {
                Some(k) => Some(k.duplicate()),
                None => None,
            },
            indexes: duplicate_vec(&self.indexes),
            foreign_keys: duplicate_vec(&self.foreign_keys),
            inserts: duplicate_vec(&self.inserts),
            updates: duplicate_vec(&self.updates),
            deletes: duplicate_vec(&self.deletes),
        }
    }
}

impl Named for Table {
    open spec fn key(v: TableV) -> Seq<char> {
        v.name
    }

    fn name_str(&self) -> (r: &String) {
        &self.name
    }
}

/// The view of a table with no columns, keys or records.
pub open spec fn empty_table(name: Seq<char>) -> TableV {
    TableV {
        name,
        columns: Seq::empty(),
        primary_key: None,
        indexes: Seq::empty(),
        foreign_keys: Seq::empty(),
        inserts: Seq::empty(),
        updates: Seq::empty(),
        deletes: Seq::empty(),
    }
}

/// The table `t` after the alter action `a`.
pub open spec fn altered(t: TableV, a: AlterSpecV) -> TableV {
    match a {
        AlterSpecV::AddColumn(c) => TableV { columns: t.columns.push(c), ..t },
        AlterSpecV::AddIndex(i) => TableV { indexes: t.indexes.push(i), ..t },
        AlterSpecV::ModifyColumn(c) => TableV { columns: replaced::<Column>(t.columns, c), ..t },
        AlterSpecV::DropColumn(n) => TableV { columns: without::<Column>(t.columns, n), ..t },
        AlterSpecV::DropIndex(n) => TableV { indexes: without::<Index>(t.indexes, n), ..t },
        AlterSpecV::Ignored => t,
    }
}

/// The table `t` after the alter actions `s`, in order.
pub open spec fn altered_all(t: TableV, s: Seq<AlterSpecV>) -> TableV
    decreases s.len(),
{
    if s.len() == 0 {
        t
    } else {
        altered(altered_all(t, s.drop_last()), s.last())
    }
}

impl Table {
    pub fn new(name: String) -> (r: Self)
        ensures
            r@ == empty_table(name@),
    {
        let r = Table {
            name,
            columns: Vec::new(),
            primary_key: None,
            indexes: Vec::new(),
            foreign_keys: Vec::new(),
            inserts: Vec::new(),
            updates: Vec::new(),
            deletes: Vec::new(),
        };
        proof {
            assert(r@.columns =~= Seq::empty());
            assert(r@.indexes =~= Seq::empty());
            assert(r@.foreign_keys =~= Seq::empty());
            assert(r@.inserts =~= Seq::empty());
            assert(r@.updates =~= Seq::empty());
            assert(r@.deletes =~= Seq::empty());
        }
        r
    }

    /// Appends a column.
    pub fn add_column(&mut self, c: Column)
        ensures
            final(self)@ == (TableV { columns: old(self)@.columns.push(c@), ..old(self)@ }),
    {
        let ghost before = self.columns@;
        self.columns.push(c);
        proof {
            lemma_views_push(before, c);
        }
    }

    /// Appends an index.
    pub fn add_index(&mut self, i: Index)
        ensures
            final(self)@ == (TableV { indexes: old(self)@.indexes.push(i@), ..old(self)@ }),
    {
        let ghost before = self.indexes@;
        self.indexes.push(i);
        proof {
            lemma_views_push(before, i);
        }
    }

    /// Appends a foreign key.
    pub fn add_foreign_key(&mut self, k: ForeignKey)
        ensures
            final(self)@ == (TableV {
                foreign_keys: old(self)@.foreign_keys.push(k@),
                ..old(self)@
            }),
    {
        let ghost before = self.foreign_keys@;
        self.foreign_keys.push(k);
        proof {
            lemma_views_push(before, k);
        }
    }

    /// Sets the primary key.
    pub fn set_primary_key(&mut self, k: PrimaryKey)
        ensures
            final(self)@ == (TableV { primary_key: Some(k@), ..old(self)@ }),
    {
        self.primary_key = Some(k);
    }

    /// Replaces the column of the same name, in place; no change where there is none.
    pub fn modify_column(&mut self, c: Column)
        ensures
            final(self)@ == (TableV {
                columns: replaced::<Column>(old(self)@.columns, c@),
                ..old(self)@
            }),
    {
        replace_named(&mut self.columns, c);
    }

    /// Removes the columns named `name`. Indexes and keys that name it are kept.
    pub fn drop_column(&mut self, name: &String)
        ensures
            final(self)@ == (TableV {
                columns: without::<Column>(old(self)@.columns, name@),
                ..old(self)@
            }),
    {
        self.columns = remove_named(&self.columns, name);
    }

    /// Removes the indexes named `name`.
    pub fn drop_index(&mut self, name: &String)
        ensures
            final(self)@ == (TableV {
                indexes: without::<Index>(old(self)@.indexes, name@),
                ..old(self)@
            }),
    {
        self.indexes = remove_named(&self.indexes, name);
    }

    /// Applies one alter action.
    pub fn alter(&mut self, a: &AlterSpec)
        ensures
            final(self)@ == altered(old(self)@, a@),
    {
        match a {
            AlterSpec::AddColumn(c) => self.add_column(c.duplicate()),
            AlterSpec::AddIndex(i) => self.add_index(i.duplicate()),
            AlterSpec::ModifyColumn(c) => self.modify_column(c.duplicate()),
            AlterSpec::DropColumn(n) => self.drop_column(n),
            AlterSpec::DropIndex(n) => self.drop_index(n),
            AlterSpec::Ignored => {},
        }
    }

    /// Applies alter actions in order.
    pub fn alter_all(&mut self, s: &Vec<AlterSpec>)
        ensures
            final(self)@ == altered_all(old(self)@, views(s@)),
    {
        let mut i: usize = 0;
        while i < s.len()
            invariant
                i <= s@.len(),
                self@ == altered_all(old(self)@, views(s@.subrange(0, i as int))),
            decreases s@.len() - i,
        {
            self.alter(&s[i]);
            proof {
                assert(views(s@.subrange(0, i + 1)).drop_last() =~= views(s@.subrange(0, i as int)));
                assert(views(s@.subrange(0, i + 1)).last() == s@[i as int]@);
            }
            i = i + 1;
        }
        proof {
            assert(s@.subrange(0, s@.len() as int) =~= s@);
        }
    }

    /// Records an insert.
    pub fn push_insert(&mut self, x: Insert)
        ensures
            final(self)@ == (TableV { inserts: old(self)@.inserts.push(x@), ..old(self)@ }),
    {
        let ghost before = self.inserts@;
        self.inserts.push(x);
        proof {
            lemma_views_push(before, x);
        }
    }

    /// Records an update.
    pub fn push_update(&mut self, x: Update)
        ensures
            final(self)@ == (TableV { updates: old(self)@.updates.push(x@), ..old(self)@ }),
    {
        let ghost before = self.updates@;
        self.updates.push(x);
        proof {
            lemma_views_push(before, x);
        }
    }

    /// Records a delete.
    pub fn push_delete(&mut self, x: Delete)
        ensures
            final(self)@ == (TableV { deletes: old(self)@.deletes.push(x@), ..old(self)@ }),
    {
        let ghost before = self.deletes@;
        self.deletes.push(x);
        proof {
            lemma_views_push(before, x);
        }
    }
}

} // verus!

verus! {

/// Removing a name that no element carries changes nothing.
pub proof fn lemma_without_absent<T: Named>(s: Seq<T::V>, name: Seq<char>)
    requires
        forall|j: int| 0 <= j < s.len() ==> T::key(#[trigger] s[j]) != name,
    ensures
        without::<T>(s, name) == s,
    decreases s.len(),
{
    reveal(Seq::filter);
    if s.len() > 0 {
        lemma_without_absent::<T>(s.drop_last(), name);
        assert(s.drop_last().push(s.last()) =~= s);
    }
}

/// Adding a column that the table does not have and then dropping it by name
/// gives back the table as it was, its columns in the same order.
pub proof fn lemma_add_then_drop_column(t: TableV, c: ColumnV)
    requires
        forall|j: int| 0 <= j < t.columns.len() ==> (#[trigger] t.columns[j]).name != c.name,
    ensures
        altered(altered(t, AlterSpecV::AddColumn(c)), AlterSpecV::DropColumn(c.name)) == t,
{
    let added = t.columns.push(c);
    reveal(Seq::filter);
    assert(added.drop_last() =~= t.columns);
    lemma_without_absent::<Column>(t.columns, c.name);
    assert(without::<Column>(added, c.name) == without::<Column>(t.columns, c.name));
}

/// A database: its options and its tables, one per name, in order of creation.
#[derive(Clone, Debug)]
pub struct Database {
    pub name: String,
    pub options: Vec<DatabaseOption>,
    pub tables: Vec<Table>,
}

/// The view of a [`Database`].
pub struct DatabaseV {
    pub name: Seq<char>,
    pub options: Seq<DatabaseOptionV>,
    pub tables: Seq<TableV>,
}

impl View for Database {
    type V = DatabaseV;

    open spec fn view(&self) -> DatabaseV {
        DatabaseV { name: self.name@, options: views(self.options@), tables: views(self.tables@) }
    }
}

impl Duplicate for Database {
    fn duplicate(&self) -> (r: Self) {
        Database {
            name: self.name.clone(),
            options: duplicate_vec(&self.options),
            tables: duplicate_vec(&self.tables),
        }
    }
}


impl Named for Database {
    open spec fn key(v: DatabaseV) -> Seq<char> {
        v.name
    }

    fn name_str(&self) -> (r: &String) {
        &self.name
    }
}

/// `tables` with `f` applied to the table named `name`, if there is one.
pub open spec fn at_table(tables: Seq<TableV>, name: Seq<char>, f: spec_fn(TableV) -> TableV) -> Seq<TableV> {
    let k = position_of::<Table>(tables, name);
    if k >= 0 {
        tables.update(k, f(tables[k]))
    } else {
        tables
    }
}

/// The view of a database with no options and no tables.
pub open spec fn empty_database(name: Seq<char>) -> DatabaseV {
    DatabaseV { name, options: Seq::empty(), tables: Seq::empty() }
}

impl Database {
    pub fn new(name: String) -> (r: Self)
        ensures
            r@ == empty_database(name@),
    {
        let r = Database { name, options: Vec::new(), tables: Vec::new() };
        proof {
            assert(r@.options =~= Seq::empty());
            assert(r@.tables =~= Seq::empty());
        }
        r
    }

    /// Adds a table, in place of the one of the same name if there is one.
    pub fn put_table(&mut self, t: Table)
        ensures
            final(self)@ == (DatabaseV { tables: put::<Table>(old(self)@.tables, t@), ..old(self)@ }),
    {
        put_named(&mut self.tables, t);
    }

    /// Removes the table named `name`; no change where there is none.
    pub fn drop_table(&mut self, name: &String)
        ensures
            final(self)@ == (DatabaseV {
                tables: without::<Table>(old(self)@.tables, name@),
                ..old(self)@
            }),
    {
        self.tables = remove_named(&self.tables, name);
    }

    /// Takes the table at `k` out, for a change, and puts it back.
    fn take_table(&mut self, k: usize) -> (r: Table)
        requires
            k < old(self).tables@.len(),
        ensures
            r@ == old(self)@.tables[k as int],
            final(self).tables@ == old(self).tables@.remove(k as int),
            final(self).name == old(self).name,
            final(self).options == old(self).options,
    {
        self.tables.remove(k)
    }

    fn give_table(&mut self, k: usize, t: Table)
        requires
            k <= old(self).tables@.len(),
        ensures
            final(self).tables@ == old(self).tables@.insert(k as int, t),
            final(self).name == old(self).name,
            final(self).options == old(self).options,
    {
        self.tables.insert(k, t);
    }

    /// Applies alter actions to the table named `name`; no change where there is none.
    pub fn alter_table(&mut self, name: &String, specs: &Vec<AlterSpec>)
        ensures
            final(self)@ == (DatabaseV {
                tables: at_table(old(self)@.tables, name@, |t: TableV| altered_all(t, views(specs@))),
                ..old(self)@
            }),
    {
        match find_named(&self.tables, name) {
            Some(k) => {
                proof {
                    lemma_position_of::<Table>(views(self.tables@), name@);
                }
                let ghost old_tables = self.tables@;
                let mut t = self.take_table(k);
                t.alter_all(specs);
                self.give_table(k, t);
                proof {
                    assert(views(self.tables@) =~= views(old_tables).update(k as int, t@));
                }
            },
            None => {},
        }
    }

    /// Records an insert on its table; dropped where the table is unknown.
    pub fn record_insert(&mut self, x: Insert)
        ensures
            final(self)@ == (DatabaseV {
                tables: at_table(
                    old(self)@.tables,
                    x@.table_name,
                    |t: TableV| TableV { inserts: t.inserts.push(x@), ..t },
                ),
                ..old(self)@
            }),
    {
        match find_named(&self.tables, &x.table_name) {
            Some(k) => {
                proof {
                    lemma_position_of::<Table>(views(self.tables@), x@.table_name);
                }
                let ghost old_tables = self.tables@;
                let mut t = self.take_table(k);
                t.push_insert(x);
                self.give_table(k, t);
                proof {
                    assert(views(self.tables@) =~= views(old_tables).update(k as int, t@));
                }
            },
            None => {},
        }
    }

    /// Records an update on its table; dropped where the table is unknown.
    pub fn record_update(&mut self, x: Update)
        ensures
            final(self)@ == (DatabaseV {
                tables: at_table(
                    old(self)@.tables,
                    x@.table_name,
                    |t: TableV| TableV { updates: t.updates.push(x@), ..t },
                ),
                ..old(self)@
            }),
    {
        match find_named(&self.tables, &x.table_name) {
            Some(k) => {
                proof {
                    lemma_position_of::<Table>(views(self.tables@), x@.table_name);
                }
                let ghost old_tables = self.tables@;
                let mut t = self.take_table(k);
                t.push_update(x);
                self.give_table(k, t);
                proof {
                    assert(views(self.tables@) =~= views(old_tables).update(k as int, t@));
                }
            },
            None => {},
        }
    }

    /// Records a delete on its table; dropped where the table is unknown.
    pub fn record_delete(&mut self, x: Delete)
        ensures
            final(self)@ == (DatabaseV {
                tables: at_table(
                    old(self)@.tables,
                    x@.table_name,
                    |t: TableV| TableV { deletes: t.deletes.push(x@), ..t },
                ),
                ..old(self)@
            }),
    {
        match find_named(&self.tables, &x.table_name) {
            Some(k) => {
                proof {
                    lemma_position_of::<Table>(views(self.tables@), x@.table_name);
                }
                let ghost old_tables = self.tables@;
                let mut t = self.take_table(k);
                t.push_delete(x);
                self.give_table(k, t);
                proof {
                    assert(views(self.tables@) =~= views(old_tables).update(k as int, t@));
                }
            },
            None => {},
        }
    }
}

} // verus!
