//! The canonical text form of foreign keys, database options and inserts.
use vstd::prelude::*;
use crate::model::{ForeignKey, ForeignKeyV, DatabaseOption, Insert, InsertV, InsertValue, views, DatabaseOptionV, InsertValueV};

verus! {

/// An entity with a canonical text form.
pub trait Sql: View {
    /// The text form of a view.
    spec fn sql(v: Self::V) -> Seq<char>;

    fn as_sql(&self) -> (r: String)
        ensures
            r@ == Self::sql(self@),
    ;
}

/// Names between backticks, joined by `,`.
pub open spec fn quoted_list(s: Seq<Seq<char>>) -> Seq<char>
    decreases s.len(),
{
    if s.len() == 0 {
        Seq::empty()
    } else if s.len() == 1 {
        "`"@ + s[0] + "`"@
    } else {
        quoted_list(s.drop_last()) + ",`"@ + s.last() + "`"@
    }
}

/// `CONSTRAINT `name` ` where a constraint name is given.
pub open spec fn constraint_prefix(name: Option<Seq<char>>) -> Seq<char> {
    match name {
        Some(n) => "CONSTRAINT `"@ + n + "` "@,
        None => Seq::empty(),
    }
}

/// The foreign key clause without its constraint name.
pub open spec fn fk_body(k: ForeignKeyV) -> Seq<char> {
    "FOREIGN KEY ("@ + quoted_list(k.local_column_names) + ") REFERENCES `"@ + k.foreign_table_name
        + "` ("@ + quoted_list(k.foreign_column_names) + ")"@ + match k.on_update {
        Some(a) => " ON UPDATE "@ + a,
        None => Seq::empty(),
    }
}

pub open spec fn fk_sql(k: ForeignKeyV) -> Seq<char> {
    constraint_prefix(k.name) + fk_body(k)
}

/// Rendering a foreign key with a constraint name gives `CONSTRAINT `name` `
/// followed by the rendering of the same key without a name.
pub proof fn lemma_fk_name_prefix(k: ForeignKeyV, n: Seq<char>)
    ensures
        fk_sql(ForeignKeyV { name: Some(n), ..k }) == "CONSTRAINT `"@ + n + "` "@ + fk_sql(ForeignKeyV { name: None, ..k }),
{
    assert(fk_sql(ForeignKeyV { name: None, ..k }) =~= fk_body(k));
    assert(fk_body(ForeignKeyV { name: Some(n), ..k }) == fk_body(k));
}

/// Appends `t` to `s`.
fn append(s: String, t: &str) -> (r: String)
    ensures
        r@ == s@ + t@,
{
    s.concat(t)
}

/// Names between backticks, joined by `,`.
pub fn render_quoted_list(names: &Vec<String>) -> (r: String)
    ensures
        r@ == quoted_list(views(names@)),
{
    let mut out = String::new();
    let mut i: usize = 0;
    while i < names.len()
        invariant
            i <= names@.len(),
            out@ == quoted_list(views(names@.subrange(0, i as int))),
        decreases names@.len() - i,
    {
        let ghost pre = views(names@.subrange(0, i as int));
        proof {
            assert(views(names@.subrange(0, i + 1)).drop_last() =~= pre);
            assert(views(names@.subrange(0, i + 1)).last() == names@[i as int]@);
        }
        if i == 0 {
            proof {
                assert(views(names@.subrange(0, 1))[0] == names@[0]@);
                assert(Seq::<char>::empty() + "`"@ =~= "`"@);
            }
            out = append(out, "`");
        } else {
            out = append(out, ",`");
        }
        out = append(out, names[i].as_str());
        out = append(out, "`");
        i = i + 1;
    }
    proof {
        assert(names@.subrange(0, names@.len() as int) =~= names@);
    }
    out
}

impl Sql for ForeignKey {
    open spec fn sql(v: ForeignKeyV) -> Seq<char> {
        fk_sql(v)
    }

    fn as_sql(&self) -> (r: String) {
        let mut out = String::new();
        match &self.name {
            Some(n) => {
                out = append(out, "CONSTRAINT `");
                out = append(out, n.as_str());
                out = append(out, "` ");
            },
            None => {},
        }
        let ghost prefix = out@;
        proof {
            assert(prefix =~= constraint_prefix(self@.name));
        }
        out = append(out, "FOREIGN KEY (");
        out = append(out, render_quoted_list(&self.local_column_names).as_str());
        out = append(out, ") REFERENCES `");
        out = append(out, self.foreign_table_name.as_str());
        out = append(out, "` (");
        out = append(out, render_quoted_list(&self.foreign_column_names).as_str());
        out = append(out, ")");
        match &self.on_update {
            Some(a) => {
                out = append(out, " ON UPDATE ");
                out = append(out, a.as_str());
            },
            None => {},
        }
        proof {
            assert(out@ =~= fk_sql(self@));
        }
        out
    }
}

pub open spec fn option_sql(o: DatabaseOptionV) -> Seq<char> {
    match o {
        DatabaseOptionV::CharacterSet(v) => "CHARACTER_SET "@ + v,
        DatabaseOptionV::Collate(v) => "COLLATE "@ + v,
    }
}

impl Sql for DatabaseOption {
    open spec fn sql(v: DatabaseOptionV) -> Seq<char> {
        option_sql(v)
    }

    fn as_sql(&self) -> (r: String) {
        match self {
            DatabaseOption::CharacterSet(v) => append(String::from_str("CHARACTER_SET "), v.as_str()),
            DatabaseOption::Collate(v) => append(String::from_str("COLLATE "), v.as_str()),
        }
    }
}

/// A value as it stands in a VALUES row: text between single quotes, other values as they are.
pub open spec fn value_sql(v: InsertValueV) -> Seq<char> {
    match v {
        InsertValueV::Text(value) => "'"@ + value + "'"@,
        InsertValueV::Number(value) => value,
        InsertValueV::Null => "NULL"@,
        InsertValueV::Raw(value) => value,
    }
}

/// Values joined by `,`.
pub open spec fn values_sql(s: Seq<InsertValueV>) -> Seq<char>
    decreases s.len(),
{
    if s.len() == 0 {
        Seq::empty()
    } else if s.len() == 1 {
        value_sql(s[0])
    } else {
        values_sql(s.drop_last()) + ","@ + value_sql(s.last())
    }
}

/// Rows between parentheses, joined by `,`.
pub open spec fn rows_sql(s: Seq<Seq<InsertValueV>>) -> Seq<char>
    decreases s.len(),
{
    if s.len() == 0 {
        Seq::empty()
    } else if s.len() == 1 {
        "("@ + values_sql(s[0]) + ")"@
    } else {
        rows_sql(s.drop_last()) + ",("@ + values_sql(s.last()) + ")"@
    }
}

/// `INSERT INTO `t` (`a`,`b`) VALUES (..),(..);`; the column list is left out where it is empty.
pub open spec fn insert_sql(x: InsertV) -> Seq<char> {
    "INSERT INTO `"@ + x.table_name + "` "@ + (if x.column_names.len() > 0 {
        "("@ + quoted_list(x.column_names) + ") "@
    } else {
        Seq::empty()
    }) + "VALUES "@ + rows_sql(x.values) + ";"@
}

pub fn render_value(v: &InsertValue) -> (r: String)
    ensures
        r@ == value_sql(v@),
{
    match v {
        InsertValue::Text { value } => {
            let s = append(String::from_str("'"), value.as_str());
            append(s, "'")
        },
        InsertValue::Number { value } => value.clone(),
        InsertValue::Null => String::from_str("NULL"),
        InsertValue::Raw { value } => value.clone(),
    }
}

pub fn render_values(vals: &Vec<InsertValue>) -> (r: String)
    ensures
        r@ == values_sql(views(vals@)),
{
    let mut out = String::new();
    let mut i: usize = 0;
    while i < vals.len()
        invariant
            i <= vals@.len(),
            out@ == values_sql(views(vals@.subrange(0, i as int))),
        decreases vals@.len() - i,
    {
        proof {
            assert(views(vals@.subrange(0, i + 1)).drop_last() =~= views(vals@.subrange(0, i as int)));
            assert(views(vals@.subrange(0, i + 1)).last() == vals@[i as int]@);
        }
        if i > 0 {
            out = append(out, ",");
        }
        let v = render_value(&vals[i]);
        out = append(out, v.as_str());
        proof {
            if i == 0 {
                assert(out@ =~= values_sql(views(vals@.subrange(0, 1))));
            } else {
                assert(out@ =~= values_sql(views(vals@.subrange(0, i + 1))));
            }
        }
        i = i + 1;
    }
    proof {
        assert(vals@.subrange(0, vals@.len() as int) =~= vals@);
    }
    out
}

impl Sql for Insert {
    open spec fn sql(v: InsertV) -> Seq<char> {
        insert_sql(v)
    }

    fn as_sql(&self) -> (r: String) {
        let mut out = append(String::from_str("INSERT INTO `"), self.table_name.as_str());
        out = append(out, "` ");
        let ghost head = out@;
        if self.column_names.len() > 0 {
            out = append(out, "(");
            out = append(out, render_quoted_list(&self.column_names).as_str());
            out = append(out, ") ");
        }
        out = append(out, "VALUES ");
        let ghost before_rows = out@;
        let mut rows = String::new();
        let mut i: usize = 0;
        while i < self.values.len()
            invariant
                i <= self.values@.len(),
                rows@ == rows_sql(views(self.values@.subrange(0, i as int))),
            decreases self.values@.len() - i,
        {
            proof {
                assert(views(self.values@.subrange(0, i + 1)).drop_last() =~= views(self.values@.subrange(0, i as int)));
                assert(views(self.values@.subrange(0, i + 1)).last() == self.values@[i as int]@);
            }
            if i == 0 {
                rows = append(rows, "(");
            } else {
                rows = append(rows, ",(");
            }
            rows = append(rows, render_values(&self.values[i].0).as_str());
            rows = append(rows, ")");
            proof {
                if i == 0 {
                    assert(rows@ =~= rows_sql(views(self.values@.subrange(0, 1))));
                } else {
                    assert(rows@ =~= rows_sql(views(self.values@.subrange(0, i + 1))));
                }
            }
            i = i + 1;
        }
        proof {
            assert(self.values@.subrange(0, self.values@.len() as int) =~= self.values@);
        }
        out = append(out, rows.as_str());
        out = append(out, ";");
        proof {
            assert(out@ =~= insert_sql(self@));
        }
        out
    }
}

} // verus!
