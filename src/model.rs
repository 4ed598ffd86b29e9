//! The entities of the dump model and their mathematical views.
//!
//! Types that hold a `Vec` have a view made of sequences; those made of
//! strings and plain values only are their own view.
use vstd::prelude::*;

verus! {

/// The views of the elements of a sequence.
pub open spec fn views<T: View>(s: Seq<T>) -> Seq<T::V> {
    s.map_values(|x: T| x@)
}

/// The views of a sequence with one more element.
pub proof fn lemma_views_push<T: View>(s: Seq<T>, x: T)
    ensures
        views(s.push(x)) == views(s).push(x@),
{
    assert(views(s.push(x)) =~= views(s).push(x@));
}

/// A copy whose view equals that of the value copied.
pub trait Duplicate: View + Sized {
    fn duplicate(&self) -> (r: Self)
        ensures
            r@ == self@,
    ;
}

impl Duplicate for String {
    fn duplicate(&self) -> (r: Self) {
        self.clone()
    }
}

/// Copies a vector element by element.
pub fn duplicate_vec<T: Duplicate>(v: &Vec<T>) -> (r: Vec<T>)
    ensures
        views(r@) == views(v@),
{
    let mut r: Vec<T> = Vec::new();
    let mut i: usize = 0;
    while i < v.len()
        invariant
            i <= v@.len(),
            views(r@) == views(v@.subrange(0, i as int)),
        decreases v@.len() - i,
    {
        let x = v[i].duplicate();
        let ghost before = r@;
        r.push(x);
        proof {
            lemma_views_push(before, x);
            lemma_views_push(v@.subrange(0, i as int), v@[i as int]);
            assert(v@.subrange(0, i + 1) =~= v@.subrange(0, i as int).push(v@[i as int]));
        }
        i = i + 1;
    }
    proof {
        assert(v@.subrange(0, v@.len() as int) =~= v@);
    }
    r
}

/// Copies an optional string.
pub fn duplicate_opt(o: &Option<String>) -> (r: Option<String>)
    ensures
        r == *o,
{
    match o {
        Some(s) => Some(s.clone()),
        None => None,
    }
}

/// The view of an optional string.
pub open spec fn opt_view(o: Option<String>) -> Option<Seq<char>> {
    match o {
        Some(s) => Some(s@),
        None => None,
    }
}

/// Members of the sized-integer family.
#[derive(Clone, Copy, Debug, PartialEq, Eq, Structural)]
pub enum IntKind {
    TinyInt,
    SmallInt,
    MediumInt,
    Int,
    BigInt,
    Bit,
}

/// Members of the fixed-point family; NUMERIC is a DECIMAL.
#[derive(Clone, Copy, Debug, PartialEq, Eq, Structural)]
pub enum DecimalKind {
    Decimal,
    Float,
    Double,
}

/// Temporal types that take a fractional-seconds size.
#[derive(Clone, Copy, Debug, PartialEq, Eq, Structural)]
pub enum TimeKind {
    DateTime,
    Timestamp,
    Time,
    Year,
}

/// Fixed and variable string and binary types, which take a size.
#[derive(Clone, Copy, Debug, PartialEq, Eq, Structural)]
pub enum SizedKind {
    Char,
    Varchar,
    Binary,
    Varbinary,
}

/// Unsized text and blob types.
#[derive(Clone, Copy, Debug, PartialEq, Eq, Structural)]
pub enum LobKind {
    TinyBlob,
    Blob,
    MediumBlob,
    LongBlob,
    TinyText,
    Text,
    MediumText,
    LongText,
}

/// Types that hold one or several of a list of literals.
#[derive(Clone, Copy, Debug, PartialEq, Eq, Structural)]
pub enum ChoiceKind {
    Enum,
    SetOf,
}

/// Spatial types.
#[derive(Clone, Copy, Debug, PartialEq, Eq, Structural)]
pub enum SpatialKind {
    Geometry,
    Point,
    LineString,
    Polygon,
    MultiPoint,
    MultiLineString,
    MultiPolygon,
    GeometryCollection,
}

/// The data type of a column: one variant per family.
#[derive(Clone, Debug)]
pub enum DataType {
    Integer(IntKind, Option<u32>),
    /// Precision and scale, both or neither.
    Fixed(DecimalKind, Option<(u32, u32)>),
    Date,
    Temporal(TimeKind, Option<u32>),
    Sized(SizedKind, u32),
    Lob(LobKind),
    Choice(ChoiceKind, Vec<String>),
    Spatial(SpatialKind),
    Json,
}

/// The view of a [`DataType`].
pub enum DataTypeV {
    Integer(IntKind, Option<u32>),
    Fixed(DecimalKind, Option<(u32, u32)>),
    Date,
    Temporal(TimeKind, Option<u32>),
    Sized(SizedKind, u32),
    Lob(LobKind),
    Choice(ChoiceKind, Seq<Seq<char>>),
    Spatial(SpatialKind),
    Json,
}

impl View for DataType {
    type V = DataTypeV;

    open spec fn view(&self) -> DataTypeV {
        match self {
            DataType::Integer(k, w) => DataTypeV::Integer(*k, *w),
            DataType::Fixed(k, p) => DataTypeV::Fixed(*k, *p),
            DataType::Date => DataTypeV::Date,
            DataType::Temporal(k, f) => DataTypeV::Temporal(*k, *f),
            DataType::Sized(k, n) => DataTypeV::Sized(*k, *n),
            DataType::Lob(k) => DataTypeV::Lob(*k),
            DataType::Choice(k, vals) => DataTypeV::Choice(*k, views(vals@)),
            DataType::Spatial(k) => DataTypeV::Spatial(*k),
            DataType::Json => DataTypeV::Json,
        }
    }
}

impl Duplicate for DataType {
    fn duplicate(&self) -> (r: Self) {
        match self {
            DataType::Integer(k, w) => DataType::Integer(*k, *w),
            DataType::Fixed(k, p) => DataType::Fixed(*k, *p),
            DataType::Date => DataType::Date,
            DataType::Temporal(k, f) => DataType::Temporal(*k, *f),
            DataType::Sized(k, n) => DataType::Sized(*k, *n),
            DataType::Lob(k) => DataType::Lob(*k),
            DataType::Choice(k, vals) => DataType::Choice(*k, duplicate_vec(vals)),
            DataType::Spatial(k) => DataType::Spatial(*k),
            DataType::Json => DataType::Json,
        }
    }
}

/// A column of a table.
#[derive(Clone, Debug)]
pub struct Column {
    pub name: String,
    pub data_type: DataType,
    pub nullable: bool,
    pub default: Option<String>,
    pub auto_increment: bool,
}

/// The view of a [`Column`].
pub struct ColumnV {
    pub name: Seq<char>,
    pub data_type: DataTypeV,
    pub nullable: bool,
    pub default: Option<Seq<char>>,
    pub auto_increment: bool,
}

impl View for Column {
    type V = ColumnV;

    open spec fn view(&self) -> ColumnV {
        ColumnV {
            name: self.name@,
            data_type: self.data_type@,
            nullable: self.nullable,
            default: opt_view(self.default),
            auto_increment: self.auto_increment,
        }
    }
}

impl Duplicate for Column {
    fn duplicate(&self) -> (r: Self) {
        Column {
            name: self.name.clone(),
            data_type: self.data_type.duplicate(),
            nullable: self.nullable,
            default: duplicate_opt(&self.default),
            auto_increment: self.auto_increment,
        }
    }
}

impl Column {
    /// A nullable column with no default that does not auto-increment.
    pub fn new(name: String, data_type: DataType) -> (r: Self)
        ensures
            r@ == (ColumnV {
                name: name@,
                data_type: data_type@,
                nullable: true,
                default: None,
                auto_increment: false,
            }),
    {
        Column { name, data_type, nullable: true, default: None, auto_increment: false }
    }
}

/// A primary key: an optional constraint name and the participating columns.
#[derive(Clone, Debug)]
pub struct PrimaryKey {
    pub name: Option<String>,
    pub columns: Vec<String>,
}

/// The view of a [`PrimaryKey`].
pub struct PrimaryKeyV {
    pub name: Option<Seq<char>>,
    pub columns: Seq<Seq<char>>,
}

impl View for PrimaryKey {
    type V = PrimaryKeyV;

    open spec fn view(&self) -> PrimaryKeyV {
        PrimaryKeyV { name: opt_view(self.name), columns: views(self.columns@) }
    }
}

impl Duplicate for PrimaryKey {
    fn duplicate(&self) -> (r: Self) {
        PrimaryKey { name: duplicate_opt(&self.name), columns: duplicate_vec(&self.columns) }
    }
}

impl PrimaryKey {
    pub fn new(name: Option<String>, columns: Vec<String>) -> (r: Self)
        ensures
            r@ == (PrimaryKeyV { name: opt_view(name), columns: views(columns@) }),
    {
        PrimaryKey { name, columns }
    }
}

/// A secondary index.
#[derive(Clone, Debug)]
pub struct Index {
    pub name: String,
    pub columns: Vec<String>,
    pub unique: bool,
}

/// The view of an [`Index`].
pub struct IndexV {
    pub name: Seq<char>,
    pub columns: Seq<Seq<char>>,
    pub unique: bool,
}

impl View for Index {
    type V = IndexV;

    open spec fn view(&self) -> IndexV {
        IndexV { name: self.name@, columns: views(self.columns@), unique: self.unique }
    }
}

impl Duplicate for Index {
    fn duplicate(&self) -> (r: Self) {
        Index { name: self.name.clone(), columns: duplicate_vec(&self.columns), unique: self.unique }
    }
}

impl Index {
    pub fn new(name: String, columns: Vec<String>, unique: bool) -> (r: Self)
        ensures
            r@ == (IndexV { name: name@, columns: views(columns@), unique }),
    {
        Index { name, columns, unique }
    }
}

/// A foreign key: local columns matched positionally with columns of another table.
#[derive(Clone, Debug)]
pub struct ForeignKey {
    pub name: Option<String>,
    pub local_column_names: Vec<String>,
    pub foreign_column_names: Vec<String>,
    pub foreign_table_name: String,
    pub on_update: Option<String>,
}

/// The view of a [`ForeignKey`].
pub struct ForeignKeyV {
    pub name: Option<Seq<char>>,
    pub local_column_names: Seq<Seq<char>>,
    pub foreign_column_names: Seq<Seq<char>>,
    pub foreign_table_name: Seq<char>,
    pub on_update: Option<Seq<char>>,
}

impl View for ForeignKey {
    type V = ForeignKeyV;

    open spec fn view(&self) -> ForeignKeyV {
        ForeignKeyV {
            name: opt_view(self.name),
            local_column_names: views(self.local_column_names@),
            foreign_column_names: views(self.foreign_column_names@),
            foreign_table_name: self.foreign_table_name@,
            on_update: opt_view(self.on_update),
        }
    }
}

impl Duplicate for ForeignKey {
    fn duplicate(&self) -> (r: Self) {
        ForeignKey {
            name: duplicate_opt(&self.name),
            local_column_names: duplicate_vec(&self.local_column_names),
            foreign_column_names: duplicate_vec(&self.foreign_column_names),
            foreign_table_name: self.foreign_table_name.clone(),
            on_update: duplicate_opt(&self.on_update),
        }
    }
}

impl ForeignKey {
    pub fn new(
        name: Option<String>,
        local_column_names: Vec<String>,
        foreign_column_names: Vec<String>,
        foreign_table_name: String,
        on_update: Option<String>,
    ) -> (r: Self)
        ensures
            r@ == (ForeignKeyV {
                name: opt_view(name),
                local_column_names: views(local_column_names@),
                foreign_column_names: views(foreign_column_names@),
                foreign_table_name: foreign_table_name@,
                on_update: opt_view(on_update),
            }),
    {
        ForeignKey { name, local_column_names, foreign_column_names, foreign_table_name, on_update }
    }
}

/// An option given to CREATE DATABASE.
#[derive(Clone, Debug)]
pub enum DatabaseOption {
    CharacterSet(String),
    Collate(String),
}

/// The view of a [`DatabaseOption`].
pub enum DatabaseOptionV {
    CharacterSet(Seq<char>),
    Collate(Seq<char>),
}

impl View for DatabaseOption {
    type V = DatabaseOptionV;

    open spec fn view(&self) -> DatabaseOptionV {
        match self {
            DatabaseOption::CharacterSet(s) => DatabaseOptionV::CharacterSet(s@),
            DatabaseOption::Collate(s) => DatabaseOptionV::Collate(s@),
        }
    }
}

impl Duplicate for DatabaseOption {
    fn duplicate(&self) -> (r: Self) {
        match self {
            DatabaseOption::CharacterSet(s) => DatabaseOption::CharacterSet(s.clone()),
            DatabaseOption::Collate(s) => DatabaseOption::Collate(s.clone()),
        }
    }
}

/// One value of an inserted row, quotes stripped from text.
#[derive(Clone, Debug, PartialEq, Eq)]
pub enum InsertValue {
    Text { value: String },
    Number { value: String },
    Null,
    /// Anything else, such as a function call, kept as written.
    Raw { value: String },
}

/// The view of an [`InsertValue`].
pub enum InsertValueV {
    Text(Seq<char>),
    Number(Seq<char>),
    Null,
    Raw(Seq<char>),
}

impl View for InsertValue {
    type V = InsertValueV;

    open spec fn view(&self) -> InsertValueV {
        match self {
            InsertValue::Text { value } => InsertValueV::Text(value@),
            InsertValue::Number { value } => InsertValueV::Number(value@),
            InsertValue::Null => InsertValueV::Null,
            InsertValue::Raw { value } => InsertValueV::Raw(value@),
        }
    }
}

impl Duplicate for InsertValue {
    fn duplicate(&self) -> (r: Self) {
        match self {
            InsertValue::Text { value } => InsertValue::Text { value: value.clone() },
            InsertValue::Number { value } => InsertValue::Number { value: value.clone() },
            InsertValue::Null => InsertValue::Null,
            InsertValue::Raw { value } => InsertValue::Raw { value: value.clone() },
        }
    }
}

/// A row of values.
#[derive(Clone, Debug)]
pub struct Row(pub Vec<InsertValue>);

impl View for Row {
    type V = Seq<InsertValueV>;

    open spec fn view(&self) -> Seq<InsertValueV> {
        views(self.0@)
    }
}

impl Duplicate for Row {
    fn duplicate(&self) -> (r: Self) {
        Row(duplicate_vec(&self.0))
    }
}

/// An INSERT: the target table, the column names and one or more rows.
#[derive(Clone, Debug)]
pub struct Insert {
    pub table_name: String,
    pub column_names: Vec<String>,
    pub values: Vec<Row>,
}

/// The view of an [`Insert`].
pub struct InsertV {
    pub table_name: Seq<char>,
    pub column_names: Seq<Seq<char>>,
    pub values: Seq<Seq<InsertValueV>>,
}

impl View for Insert {
    type V = InsertV;

    open spec fn view(&self) -> InsertV {
        InsertV {
            table_name: self.table_name@,
            column_names: views(self.column_names@),
            values: views(self.values@),
        }
    }
}

impl Duplicate for Insert {
    fn duplicate(&self) -> (r: Self) {
        Insert {
            table_name: self.table_name.clone(),
            column_names: duplicate_vec(&self.column_names),
            values: duplicate_vec(&self.values),
        }
    }
}

impl Insert {
    pub fn new(table_name: String, column_names: Vec<String>, values: Vec<Row>) -> (r: Self)
        ensures
            r@ == (InsertV {
                table_name: table_name@,
                column_names: views(column_names@),
                values: views(values@),
            }),
    {
        Insert { table_name, column_names, values }
    }
}

/// A column assignment of an UPDATE.
#[derive(Clone, Debug)]
pub struct Assignment {
    pub column: String,
    pub value: String,
}

impl View for Assignment {
    type V = (Seq<char>, Seq<char>);

    open spec fn view(&self) -> (Seq<char>, Seq<char>) {
        (self.column@, self.value@)
    }
}

impl Duplicate for Assignment {
    fn duplicate(&self) -> (r: Self) {
        Assignment { column: self.column.clone(), value: self.value.clone() }
    }
}

/// An UPDATE: the target table and the new value of each assigned column,
/// one entry per column.
#[derive(Clone, Debug)]
pub struct Update {
    pub table_name: String,
    pub values: Vec<Assignment>,
}

/// The view of an [`Update`].
pub struct UpdateV {
    pub table_name: Seq<char>,
    pub values: Seq<(Seq<char>, Seq<char>)>,
}

impl View for Update {
    type V = UpdateV;

    open spec fn view(&self) -> UpdateV {
        UpdateV { table_name: self.table_name@, values: views(self.values@) }
    }
}

impl Duplicate for Update {
    fn duplicate(&self) -> (r: Self) {
        Update { table_name: self.table_name.clone(), values: duplicate_vec(&self.values) }
    }
}

/// A simple predicate `column operator value`.
#[derive(Clone, Debug, Default)]
pub struct Where {
    pub column: String,
    pub operator: String,
    pub value: String,
}

impl Where {
    pub fn new(column: String, operator: String, value: String) -> (r: Self)
        ensures
            r.column == column,
            r.operator == operator,
            r.value == value,
    {
        Where { column, operator, value }
    }
}

/// A DELETE: the target table; the predicate is not captured.
#[derive(Clone, Debug)]
pub struct Delete {
    pub table_name: String,
    pub where_clause: Option<Where>,
}

/// The view of a [`Delete`]: the table name, and the predicate's column,
/// operator and value where one is held.
pub struct DeleteV {
    pub table_name: Seq<char>,
    pub where_clause: Option<(Seq<char>, Seq<char>, Seq<char>)>,
}

impl View for Delete {
    type V = DeleteV;

    open spec fn view(&self) -> DeleteV {
        DeleteV {
            table_name: self.table_name@,
            where_clause: match self.where_clause {
                Some(w) => Some((w.column@, w.operator@, w.value@)),
                None => None,
            },
        }
    }
}

impl Duplicate for Delete {
    fn duplicate(&self) -> (r: Self) {
        Delete {
            table_name: self.table_name.clone(),
            where_clause: match &self.where_clause {
                Some(w) => Some(
                    Where {
                        column: w.column.clone(),
                        operator: w.operator.clone(),
                        value: w.value.clone(),
                    },
                ),
                None => None,
            },
        }
    }
}

impl Delete {
    pub fn new(table_name: String, where_clause: Option<Where>) -> (r: Self)
        ensures
            r.table_name == table_name,
            r.where_clause == where_clause,
    {
        Delete { table_name, where_clause }
    }
}

} // verus!

verus! {

/// An entity that a table or a database finds by name.
pub trait Named: Duplicate {
    /// The name of an entity, read from its view.
    spec fn key(v: Self::V) -> Seq<char>;

    fn name_str(&self) -> (r: &String)
        ensures
            r@ == Self::key(self@),
    ;
}

/// The index of the first element of `s` named `name`, or -1.
pub open spec fn position_of<T: Named>(s: Seq<T::V>, name: Seq<char>) -> int
    decreases s.len(),
{
    if s.len() == 0 {
        -1
    } else {
        let k = position_of::<T>(s.drop_last(), name);
        if k >= 0 {
            k
        } else if T::key(s.last()) == name {
            s.len() - 1
        } else {
            -1
        }
    }
}

/// `s` without the elements named `name`.
pub open spec fn without<T: Named>(s: Seq<T::V>, name: Seq<char>) -> Seq<T::V> {
    s.filter(|x: T::V| T::key(x) != name)
}

/// What `position_of` says of its result.
pub proof fn lemma_position_of<T: Named>(s: Seq<T::V>, name: Seq<char>)
    ensures
        -1 <= position_of::<T>(s, name) < s.len(),
        position_of::<T>(s, name) >= 0 ==> T::key(s[position_of::<T>(s, name)]) == name,
        position_of::<T>(s, name) == -1 ==> forall|j: int|
            0 <= j < s.len() ==> T::key(#[trigger] s[j]) != name,
    decreases s.len(),
{
    if s.len() > 0 {
        lemma_position_of::<T>(s.drop_last(), name);
        assert forall|j: int| 0 <= j < s.len() - 1 implies s.drop_last()[j] == s[j] by {}
    }
}

/// Finds the first element named `name`.
pub fn find_named<T: Named>(v: &Vec<T>, name: &String) -> (r: Option<usize>)
    ensures
        match r {
            Some(i) => i as int == position_of::<T>(views(v@), name@),
            None => position_of::<T>(views(v@), name@) == -1,
        },
{
    let mut i: usize = 0;
    while i < v.len()
        invariant
            i <= v@.len(),
            position_of::<T>(views(v@.subrange(0, i as int)), name@) == -1,
        decreases v@.len() - i,
    {
        let ghost pre = views(v@.subrange(0, i as int));
        let ghost next = views(v@.subrange(0, i + 1));
        proof {
            assert(next.drop_last() =~= pre);
            assert(next.last() == v@[i as int]@);
        }
        if v[i].name_str().eq(name) {
            proof {
                assert(views(v@.subrange(0, i + 1)) =~= views(v@).subrange(0, i + 1));
                assert(views(v@.subrange(0, v@.len() as int)) =~= views(v@));
                lemma_prefix_position::<T>(views(v@), i + 1);
                assert(position_of::<T>(next, name@) == i);
            }
            return Some(i);
        }
        i = i + 1;
    }
    proof {
        assert(v@.subrange(0, v@.len() as int) =~= v@);
    }
    None
}

/// A found position stays the same when more elements follow.
pub proof fn lemma_prefix_position<T: Named>(s: Seq<T::V>, n: int)
    requires
        0 <= n <= s.len(),
    ensures
        forall|name: Seq<char>|
            position_of::<T>(s.subrange(0, n), name) >= 0 ==> position_of::<T>(s, name)
                == position_of::<T>(s.subrange(0, n), name),
    decreases s.len() - n,
{
    if n < s.len() {
        lemma_prefix_position::<T>(s, n + 1);
        assert forall|name: Seq<char>|
            position_of::<T>(s.subrange(0, n), name) >= 0 implies position_of::<T>(s, name)
                == position_of::<T>(s.subrange(0, n), name) by {
            assert(s.subrange(0, n + 1).drop_last() =~= s.subrange(0, n));
        }
    } else {
        assert(s.subrange(0, n) =~= s);
    }
}

/// Copies the elements not named `name`.
pub fn remove_named<T: Named>(v: &Vec<T>, name: &String) -> (r: Vec<T>)
    ensures
        views(r@) == without::<T>(views(v@), name@),
{
    let mut r: Vec<T> = Vec::new();
    let mut i: usize = 0;
    while i < v.len()
        invariant
            i <= v@.len(),
            views(r@) == without::<T>(views(v@.subrange(0, i as int)), name@),
        decreases v@.len() - i,
    {
        let ghost pre = views(v@.subrange(0, i as int));
        let ghost next = views(v@.subrange(0, i + 1));
        proof {
            assert(next.drop_last() =~= pre);
            assert(next.last() == v@[i as int]@);
            reveal(Seq::filter);
            assert(without::<T>(next, name@) == if T::key(next.last()) != name@ {
                without::<T>(pre, name@).push(next.last())
            } else {
                without::<T>(pre, name@)
            });
        }
        if !v[i].name_str().eq(name) {
            let x = v[i].duplicate();
            let ghost before = r@;
            r.push(x);
            proof {
                lemma_views_push(before, x);
            }
        }
        i = i + 1;
    }
    proof {
        assert(v@.subrange(0, v@.len() as int) =~= v@);
    }
    r
}

} // verus!

verus! {

/// `s` with `x` in place of the first element of the same name, if any.
pub open spec fn replaced<T: Named>(s: Seq<T::V>, x: T::V) -> Seq<T::V> {
    let k = position_of::<T>(s, T::key(x));
    if k >= 0 {
        s.update(k, x)
    } else {
        s
    }
}

/// `s` with `x` in place of the first element of the same name, or `x` appended.
pub open spec fn put<T: Named>(s: Seq<T::V>, x: T::V) -> Seq<T::V> {
    let k = position_of::<T>(s, T::key(x));
    if k >= 0 {
        s.update(k, x)
    } else {
        s.push(x)
    }
}

/// Overwrites the element at `k`.
fn set_at<T: Named>(v: &mut Vec<T>, k: usize, x: T)
    requires
        k < old(v)@.len(),
    ensures
        views(final(v)@) == views(old(v)@).update(k as int, x@),
{
    v.set(k, x);
    proof {
        assert(views(v@) =~= views(old(v)@).update(k as int, x@));
    }
}

/// Replaces the first element named as `x`; no change where there is none.
pub fn replace_named<T: Named>(v: &mut Vec<T>, x: T)
    ensures
        views(final(v)@) == replaced::<T>(views(old(v)@), x@),
{
    match find_named(v, x.name_str()) {
        Some(k) => {
            proof {
                lemma_position_of::<T>(views(v@), T::key(x@));
            }
            set_at(v, k, x);
        },
        None => {},
    }
}

/// Replaces the first element named as `x`, or appends `x`.
pub fn put_named<T: Named>(v: &mut Vec<T>, x: T)
    ensures
        views(final(v)@) == put::<T>(views(old(v)@), x@),
{
    match find_named(v, x.name_str()) {
        Some(k) => {
            proof {
                lemma_position_of::<T>(views(v@), T::key(x@));
            }
            set_at(v, k, x);
        },
        None => {
            let ghost before = v@;
            v.push(x);
            proof {
                lemma_views_push(before, x);
            }
        },
    }
}

} // verus!

verus! {

impl InsertValue {
    /// A copy equal to this value.
    pub fn clone_value(&self) -> (r: InsertValue)
        ensures
            r@ == self@,
    {
        self.duplicate()
    }
}

} // verus!

verus! {

/// No two elements of `s` share a name.
pub open spec fn unique_keys<T: Named>(s: Seq<T::V>) -> bool {
    forall|i: int, j: int|
        0 <= i < s.len() && 0 <= j < s.len() && i != j ==> T::key(#[trigger] s[i]) != T::key(#[trigger] s[j])
}

/// Putting an element keeps names unique.
pub proof fn lemma_put_unique<T: Named>(s: Seq<T::V>, x: T::V)
    requires
        unique_keys::<T>(s),
    ensures
        unique_keys::<T>(put::<T>(s, x)),
{
    lemma_position_of::<T>(s, T::key(x));
}

/// Replacing an element by one of the same name keeps names unique.
pub proof fn lemma_update_unique<T: Named>(s: Seq<T::V>, k: int, x: T::V)
    requires
        unique_keys::<T>(s),
        0 <= k < s.len(),
        T::key(x) == T::key(s[k]),
    ensures
        unique_keys::<T>(s.update(k, x)),
{
}

/// Each element left after removing by name is an element of `s`.
pub proof fn lemma_without_from<T: Named>(s: Seq<T::V>, name: Seq<char>)
    ensures
        forall|i: int| 0 <= i < without::<T>(s, name).len() ==> exists|j: int| 0 <= j < s.len() && s[j] == #[trigger] without::<T>(s, name)[i],
    decreases s.len(),
{
    reveal(Seq::filter);
    if s.len() > 0 {
        let pre = s.drop_last();
        lemma_without_from::<T>(pre, name);
        let kept = without::<T>(pre, name);
        let out = without::<T>(s, name);
        assert forall|i: int| 0 <= i < out.len() implies exists|j: int| 0 <= j < s.len() && s[j] == #[trigger] out[i] by {
            if i < kept.len() {
                assert(out[i] == kept[i]);
                let j = choose|j: int| 0 <= j < pre.len() && pre[j] == kept[i];
                assert(s[j] == pre[j]);
            } else {
                assert(out[i] == s[s.len() - 1]);
            }
        }
    }
}

/// Removing by name keeps names unique.
pub proof fn lemma_without_unique<T: Named>(s: Seq<T::V>, name: Seq<char>)
    requires
        unique_keys::<T>(s),
    ensures
        unique_keys::<T>(without::<T>(s, name)),
    decreases s.len(),
{
    reveal(Seq::filter);
    if s.len() > 0 {
        let pre = s.drop_last();
        let last = s.last();
        assert(unique_keys::<T>(pre)) by {
            assert forall|i: int, j: int| 0 <= i < pre.len() && 0 <= j < pre.len() && i != j implies T::key(#[trigger] pre[i]) != T::key(#[trigger] pre[j]) by {
                assert(pre[i] == s[i] && pre[j] == s[j]);
            }
        }
        lemma_without_unique::<T>(pre, name);
        let kept = without::<T>(pre, name);
        assert forall|i: int| 0 <= i < kept.len() implies T::key(#[trigger] kept[i]) != T::key(last) by {
            lemma_without_from::<T>(pre, name);
            let j = choose|j: int| 0 <= j < pre.len() && pre[j] == kept[i];
            assert(s[j] == pre[j]);
            assert(s[s.len() - 1] == last);
        }
    }
}

} // verus!
