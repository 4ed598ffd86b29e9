//! The data type keywords and the family each belongs to.
use vstd::prelude::*;
use crate::model::{
    views, DataType, DataTypeV, IntKind, DecimalKind, TimeKind, SizedKind, LobKind, ChoiceKind,
    SpatialKind,
};
use crate::cursor::eq_lit;

verus! {

pub open spec fn int_kind(n: Seq<char>) -> Option<IntKind> {
    if n == "TINYINT"@ {
        Some(IntKind::TinyInt)
    } else if n == "SMALLINT"@ {
        Some(IntKind::SmallInt)
    } else if n == "MEDIUMINT"@ {
        Some(IntKind::MediumInt)
    } else if n == "INT"@ || n == "INTEGER"@ {
        Some(IntKind::Int)
    } else if n == "BIGINT"@ {
        Some(IntKind::BigInt)
    } else if n == "BIT"@ {
        Some(IntKind::Bit)
    } else {
        None
    }
}

pub open spec fn decimal_kind(n: Seq<char>) -> Option<DecimalKind> {
    if n == "DECIMAL"@ || n == "NUMERIC"@ {
        Some(DecimalKind::Decimal)
    } else if n == "FLOAT"@ {
        Some(DecimalKind::Float)
    } else if n == "DOUBLE"@ {
        Some(DecimalKind::Double)
    } else {
        None
    }
}

pub open spec fn time_kind(n: Seq<char>) -> Option<TimeKind> {
    if n == "DATETIME"@ {
        Some(TimeKind::DateTime)
    } else if n == "TIMESTAMP"@ {
        Some(TimeKind::Timestamp)
    } else if n == "TIME"@ {
        Some(TimeKind::Time)
    } else if n == "YEAR"@ {
        Some(TimeKind::Year)
    } else {
        None
    }
}

pub open spec fn sized_kind(n: Seq<char>) -> Option<SizedKind> {
    if n == "CHAR"@ {
        Some(SizedKind::Char)
    } else if n == "VARCHAR"@ {
        Some(SizedKind::Varchar)
    } else if n == "BINARY"@ {
        Some(SizedKind::Binary)
    } else if n == "VARBINARY"@ {
        Some(SizedKind::Varbinary)
    } else {
        None
    }
}

pub open spec fn lob_kind(n: Seq<char>) -> Option<LobKind> {
    if n == "TINYBLOB"@ {
        Some(LobKind::TinyBlob)
    } else if n == "BLOB"@ {
        Some(LobKind::Blob)
    } else if n == "MEDIUMBLOB"@ {
        Some(LobKind::MediumBlob)
    } else if n == "LONGBLOB"@ {
        Some(LobKind::LongBlob)
    } else if n == "TINYTEXT"@ {
        Some(LobKind::TinyText)
    } else if n == "TEXT"@ {
        Some(LobKind::Text)
    } else if n == "MEDIUMTEXT"@ {
        Some(LobKind::MediumText)
    } else if n == "LONGTEXT"@ {
        Some(LobKind::LongText)
    } else {
        None
    }
}

pub open spec fn choice_kind(n: Seq<char>) -> Option<ChoiceKind> {
    if n == "ENUM"@ {
        Some(ChoiceKind::Enum)
    } else if n == "SET"@ {
        Some(ChoiceKind::SetOf)
    } else {
        None
    }
}

pub open spec fn spatial_kind(n: Seq<char>) -> Option<SpatialKind> {
    if n == "GEOMETRY"@ {
        Some(SpatialKind::Geometry)
    } else if n == "POINT"@ {
        Some(SpatialKind::Point)
    } else if n == "LINESTRING"@ {
        Some(SpatialKind::LineString)
    } else if n == "POLYGON"@ {
        Some(SpatialKind::Polygon)
    } else if n == "MULTIPOINT"@ {
        Some(SpatialKind::MultiPoint)
    } else if n == "MULTILINESTRING"@ {
        Some(SpatialKind::MultiLineString)
    } else if n == "MULTIPOLYGON"@ {
        Some(SpatialKind::MultiPolygon)
    } else if n == "GEOMETRYCOLLECTION"@ {
        Some(SpatialKind::GeometryCollection)
    } else {
        None
    }
}

pub open spec fn first_num(nums: Seq<u32>) -> Option<u32> {
    if nums.len() > 0 {
        Some(nums[0])
    } else {
        None
    }
}

/// Precision and scale, both or neither.
pub open spec fn num_pair(nums: Seq<u32>) -> Option<(u32, u32)> {
    if nums.len() >= 2 {
        Some((nums[0], nums[1]))
    } else {
        None
    }
}

/// Whether `n` (in upper case) names a data type of the model.
pub open spec fn known_type(n: Seq<char>) -> bool {
    int_kind(n) is Some || decimal_kind(n) is Some || n == "DATE"@ || time_kind(n) is Some
        || sized_kind(n) is Some || lob_kind(n) is Some || choice_kind(n) is Some
        || spatial_kind(n) is Some || n == "JSON"@
}

/// The data type that the keyword `n` (in upper case) with the numeric parameters
/// `nums` and the literal parameters `strs` denotes; `None` where a string type
/// lacks its size or the keyword is unknown.
pub open spec fn type_of(n: Seq<char>, nums: Seq<u32>, strs: Seq<Seq<char>>) -> Option<DataTypeV> {
    if let Some(k) = int_kind(n) {
        Some(DataTypeV::Integer(k, first_num(nums)))
    } else if let Some(k) = decimal_kind(n) {
        Some(DataTypeV::Fixed(k, num_pair(nums)))
    } else if n == "DATE"@ {
        Some(DataTypeV::Date)
    } else if let Some(k) = time_kind(n) {
        Some(DataTypeV::Temporal(k, first_num(nums)))
    } else if let Some(k) = sized_kind(n) {
        if nums.len() > 0 {
            Some(DataTypeV::Sized(k, nums[0]))
        } else {
            None
        }
    } else if let Some(k) = lob_kind(n) {
        Some(DataTypeV::Lob(k))
    } else if let Some(k) = choice_kind(n) {
        Some(DataTypeV::Choice(k, strs))
    } else if let Some(k) = spatial_kind(n) {
        Some(DataTypeV::Spatial(k))
    } else if n == "JSON"@ {
        Some(DataTypeV::Json)
    } else {
        None
    }
}

fn int_kind_of(n: &Vec<char>) -> (r: Option<IntKind>)
    ensures
        r == int_kind(n@),
{
    if eq_lit(n, "TINYINT") {
        Some(IntKind::TinyInt)
    } else if eq_lit(n, "SMALLINT") {
        Some(IntKind::SmallInt)
    } else if eq_lit(n, "MEDIUMINT") {
        Some(IntKind::MediumInt)
    } else if eq_lit(n, "INT") || eq_lit(n, "INTEGER") {
        Some(IntKind::Int)
    } else if eq_lit(n, "BIGINT") {
        Some(IntKind::BigInt)
    } else if eq_lit(n, "BIT") {
        Some(IntKind::Bit)
    } else {
        None
    }
}

fn decimal_kind_of(n: &Vec<char>) -> (r: Option<DecimalKind>)
    ensures
        r == decimal_kind(n@),
{
    if eq_lit(n, "DECIMAL") || eq_lit(n, "NUMERIC") {
        Some(DecimalKind::Decimal)
    } else if eq_lit(n, "FLOAT") {
        Some(DecimalKind::Float)
    } else if eq_lit(n, "DOUBLE") {
        Some(DecimalKind::Double)
    } else {
        None
    }
}

fn time_kind_of(n: &Vec<char>) -> (r: Option<TimeKind>)
    ensures
        r == time_kind(n@),
{
    if eq_lit(n, "DATETIME") {
        Some(TimeKind::DateTime)
    } else if eq_lit(n, "TIMESTAMP") {
        Some(TimeKind::Timestamp)
    } else if eq_lit(n, "TIME") {
        Some(TimeKind::Time)
    } else if eq_lit(n, "YEAR") {
        Some(TimeKind::Year)
    } else {
        None
    }
}

fn sized_kind_of(n: &Vec<char>) -> (r: Option<SizedKind>)
    ensures
        r == sized_kind(n@),
{
    if eq_lit(n, "CHAR") {
        Some(SizedKind::Char)
    } else if eq_lit(n, "VARCHAR") {
        Some(SizedKind::Varchar)
    } else if eq_lit(n, "BINARY") {
        Some(SizedKind::Binary)
    } else if eq_lit(n, "VARBINARY") {
        Some(SizedKind::Varbinary)
    } else {
        None
    }
}

fn lob_kind_of(n: &Vec<char>) -> (r: Option<LobKind>)
    ensures
        r == lob_kind(n@),
{
    if eq_lit(n, "TINYBLOB") {
        Some(LobKind::TinyBlob)
    } else if eq_lit(n, "BLOB") {
        Some(LobKind::Blob)
    } else if eq_lit(n, "MEDIUMBLOB") {
        Some(LobKind::MediumBlob)
    } else if eq_lit(n, "LONGBLOB") {
        Some(LobKind::LongBlob)
    } else if eq_lit(n, "TINYTEXT") {
        Some(LobKind::TinyText)
    } else if eq_lit(n, "TEXT") {
        Some(LobKind::Text)
    } else if eq_lit(n, "MEDIUMTEXT") {
        Some(LobKind::MediumText)
    } else if eq_lit(n, "LONGTEXT") {
        Some(LobKind::LongText)
    } else {
        None
    }
}

fn choice_kind_of(n: &Vec<char>) -> (r: Option<ChoiceKind>)
    ensures
        r == choice_kind(n@),
{
    if eq_lit(n, "ENUM") {
        Some(ChoiceKind::Enum)
    } else if eq_lit(n, "SET") {
        Some(ChoiceKind::SetOf)
    } else {
        None
    }
}

fn spatial_kind_of(n: &Vec<char>) -> (r: Option<SpatialKind>)
    ensures
        r == spatial_kind(n@),
{
    if eq_lit(n, "GEOMETRY") {
        Some(SpatialKind::Geometry)
    } else if eq_lit(n, "POINT") {
        Some(SpatialKind::Point)
    } else if eq_lit(n, "LINESTRING") {
        Some(SpatialKind::LineString)
    } else if eq_lit(n, "POLYGON") {
        Some(SpatialKind::Polygon)
    } else if eq_lit(n, "MULTIPOINT") {
        Some(SpatialKind::MultiPoint)
    } else if eq_lit(n, "MULTILINESTRING") {
        Some(SpatialKind::MultiLineString)
    } else if eq_lit(n, "MULTIPOLYGON") {
        Some(SpatialKind::MultiPolygon)
    } else if eq_lit(n, "GEOMETRYCOLLECTION") {
        Some(SpatialKind::GeometryCollection)
    } else {
        None
    }
}

/// Whether `n` names a data type of the model.
pub fn is_known_type(n: &Vec<char>) -> (r: bool)
    ensures
        r == known_type(n@),
{
    int_kind_of(n).is_some() || decimal_kind_of(n).is_some() || eq_lit(n, "DATE")
        || time_kind_of(n).is_some() || sized_kind_of(n).is_some() || lob_kind_of(n).is_some()
        || choice_kind_of(n).is_some() || spatial_kind_of(n).is_some() || eq_lit(n, "JSON")
}

/// The data type that a keyword in upper case and its parameters denote.
pub fn data_type_from(n: &Vec<char>, nums: &Vec<u32>, strs: Vec<String>) -> (r: Option<DataType>)
    ensures
        r matches Some(t) ==> type_of(n@, nums@, views(strs@)) == Some(t@),
        r is None ==> type_of(n@, nums@, views(strs@)) is None,
{
    let first = if nums.len() > 0 {
        Some(nums[0])
    } else {
        None
    };
    if let Some(k) = int_kind_of(n) {
        Some(DataType::Integer(k, first))
    } else if let Some(k) = decimal_kind_of(n) {
        let pair = if nums.len() >= 2 {
            Some((nums[0], nums[1]))
        } else {
            None
        };
        Some(DataType::Fixed(k, pair))
    } else if eq_lit(n, "DATE") {
        Some(DataType::Date)
    } else if let Some(k) = time_kind_of(n) {
        Some(DataType::Temporal(k, first))
    } else if let Some(k) = sized_kind_of(n) {
        if nums.len() > 0 {
            Some(DataType::Sized(k, nums[0]))
        } else {
            None
        }
    } else if let Some(k) = lob_kind_of(n) {
        Some(DataType::Lob(k))
    } else if let Some(k) = choice_kind_of(n) {
        Some(DataType::Choice(k, strs))
    } else if let Some(k) = spatial_kind_of(n) {
        Some(DataType::Spatial(k))
    } else if eq_lit(n, "JSON") {
        Some(DataType::Json)
    } else {
        None
    }
}

} // verus!
