//! Values that cross the boundary to SQLite: the parameters bound to a
//! statement, the column values of a result row, and how a column value is
//! read as a Rust value (`i64`, `i32`, `bool`, `String`, `Option<String>`).
use vstd::prelude::*;
use vstd::utf8::{decode_utf8, encode_utf8, encode_utf8_decode_utf8, encode_utf8_valid_utf8, valid_utf8};

use crate::text::{decimal_int, lemma_parse_decimal_roundtrip, parse_i64_spec};

verus! {

#[verifier::external_type_specification]
#[verifier::external_body]
pub struct ExSqliteError(rusqlite::Error);

/// Why a database operation gave no result.
#[derive(Debug)]
pub enum DbError {
    /// SQLite (or the driver) reported an error.
    Sqlite(rusqlite::Error),
    /// A column was read that the row does not have.
    InvalidColumnIndex(usize),
    /// A column holds a value of the wrong SQLite type for what was read.
    InvalidColumnType(usize),
    /// A column holds an integer outside the range of what was read.
    IntegralValueOutOfRange(usize, i64),
    /// A text column holds bytes that are not UTF-8.
    Utf8Error(usize),
    /// A query that must return one row returned none.
    QueryReturnedNoRows,
    /// A query that must return one row returned more.
    QueryReturnedMoreThanOneRow,
    /// A statement was given this many parameters but takes that many.
    InvalidParameterCount(usize, usize),
    /// A row id does not fit the `i32` ids of the models.
    RowIdOutOfRange(i64),
}

/// One column value of a result row, as SQLite stores it.
/// A floating-point value is kept only as its kind: nothing here reads one.
#[derive(Debug, Clone, PartialEq, Eq)]
pub enum SqlValue {
    Null,
    Integer(i64),
    Real,
    Text(Vec<u8>),
    Blob(Vec<u8>),
}

/// A parameter bound to a statement.
#[derive(Debug, Clone, PartialEq, Eq)]
pub enum SqlParam {
    Integer(i64),
    Text(String),
}

pub enum SqlArg {
    Integer(i64),
    Text(Seq<char>),
}

impl View for SqlParam {
    type V = SqlArg;

    open spec fn view(&self) -> SqlArg {
        match self {
            SqlParam::Integer(i) => SqlArg::Integer(*i),
            SqlParam::Text(s) => SqlArg::Text(s@),
        }
    }
}

pub open spec fn args_of(params: Seq<SqlParam>) -> Seq<SqlArg> {
    params.map_values(|p: SqlParam| p@)
}

/// No parameters.
pub fn no_params() -> (r: Vec<SqlParam>)
    ensures
        args_of(r@) == Seq::<SqlArg>::empty(),
{
    let r: Vec<SqlParam> = Vec::new();
    assert(args_of(r@) =~= Seq::<SqlArg>::empty());
    r
}

/// One INTEGER parameter.
pub fn one_integer(x: i64) -> (r: Vec<SqlParam>)
    ensures
        args_of(r@) == seq![SqlArg::Integer(x)],
{
    let r = vec![SqlParam::Integer(x)];
    assert(args_of(r@) =~= seq![SqlArg::Integer(x)]);
    r
}

/// Two INTEGER parameters.
pub fn two_integers(x: i64, y: i64) -> (r: Vec<SqlParam>)
    ensures
        args_of(r@) == seq![SqlArg::Integer(x), SqlArg::Integer(y)],
{
    let r = vec![SqlParam::Integer(x), SqlParam::Integer(y)];
    assert(args_of(r@) =~= seq![SqlArg::Integer(x), SqlArg::Integer(y)]);
    r
}

/// One TEXT parameter.
pub fn one_text(s: String) -> (r: Vec<SqlParam>)
    ensures
        args_of(r@) == seq![SqlArg::Text(s@)],
{
    let ghost v = s@;
    let r = vec![SqlParam::Text(s)];
    assert(args_of(r@) =~= seq![SqlArg::Text(v)]);
    r
}

/// A text argument.
pub open spec fn text_arg(s: Seq<char>) -> SqlArg {
    SqlArg::Text(s)
}

/// How SQLite stores a bound argument in a column of INTEGER affinity
/// (`integer_column`) or of TEXT affinity, where the model covers it: in a
/// TEXT column an integer is stored as its decimal text and text as its UTF-8
/// bytes; in an INTEGER column an integer is stored as itself, and so is text
/// that `str::parse::<i64>` reads as an integer. SQLite also turns other
/// numeric text (such as `1.0` or `1.5`) in an INTEGER column into a number;
/// for such text the predicate holds of no value, as the model leaves it out.
pub open spec fn stores_arg(v: SqlValue, arg: SqlArg, integer_column: bool) -> bool {
    match arg {
        SqlArg::Integer(i) => if integer_column {
            v == SqlValue::Integer(i)
        } else {
            v matches SqlValue::Text(b) && b@ == encode_utf8(decimal_int(i as int))
        },
        SqlArg::Text(t) => if integer_column {
            parse_i64_spec(t) is Some && v == SqlValue::Integer(parse_i64_spec(t)->Some_0)
        } else {
            v matches SqlValue::Text(b) && b@ == encode_utf8(t)
        },
    }
}

/// Text stored in a text column reads back as the same text.
pub proof fn lemma_text_reads_back(row: Seq<SqlValue>, i: int, t: Seq<char>)
    requires
        0 <= i < row.len(),
        stores_arg(row[i], SqlArg::Text(t), false),
    ensures
        column_text(row, i) == Ok::<Seq<char>, DbError>(t),
        column_opt_text(row, i) == Ok::<Option<Seq<char>>, DbError>(Some(t)),
{
    encode_utf8_valid_utf8(t);
    encode_utf8_decode_utf8(t);
}

/// An `i32` written as decimal text into an INTEGER column reads back as itself.
pub proof fn lemma_decimal_reads_back(row: Seq<SqlValue>, i: int, x: i32)
    requires
        0 <= i < row.len(),
        stores_arg(row[i], SqlArg::Text(decimal_int(x as int)), true),
    ensures
        column_i32(row, i) == Ok::<i32, DbError>(x),
{
    lemma_parse_decimal_roundtrip(x as i64);
}

/// The view of a result whose `Ok` value has a view.
pub open spec fn view_result<T: View>(r: Result<T, DbError>) -> Result<T::V, DbError> {
    match r {
        Ok(t) => Ok(t@),
        Err(e) => Err(e),
    }
}

/// The views of a sequence of values.
pub open spec fn views<T: View>(s: Seq<T>) -> Seq<T::V> {
    s.map_values(|t: T| t@)
}

/// The view of a result holding a vector.
pub open spec fn vec_result_view<T: View>(r: Result<Vec<T>, DbError>) -> Result<Seq<T::V>, DbError> {
    match r {
        Ok(v) => Ok(views(v@)),
        Err(e) => Err(e),
    }
}

/// Result rows as sequences of column values.
pub open spec fn rows_view(rows: Seq<Vec<SqlValue>>) -> Seq<Seq<SqlValue>> {
    rows.map_values(|r: Vec<SqlValue>| r@)
}

/// Decodes every row with `decode`, in order; the first row that fails to
/// decode gives the error.
pub open spec fn decode_all<V>(rows: Seq<Seq<SqlValue>>, decode: spec_fn(Seq<SqlValue>) -> Result<V, DbError>) -> Result<Seq<V>, DbError>
    decreases rows.len(),
{
    if rows.len() == 0 {
        Ok(Seq::empty())
    } else {
        match decode_all(rows.drop_last(), decode) {
            Err(e) => Err(e),
            Ok(vs) => match decode(rows.last()) {
                Err(e) => Err(e),
                Ok(v) => Ok(vs.push(v)),
            },
        }
    }
}

/// Once a prefix of the rows fails to decode, every longer prefix fails with
/// the same error.
pub proof fn lemma_decode_all_error_persists<V>(rows: Seq<Seq<SqlValue>>, decode: spec_fn(Seq<SqlValue>) -> Result<V, DbError>, j: int, k: int)
    requires
        0 <= j <= k <= rows.len(),
        decode_all(rows.take(j), decode) is Err,
    ensures
        decode_all(rows.take(k), decode) == decode_all(rows.take(j), decode),
    decreases k - j,
{
    if j < k {
        lemma_decode_all_error_persists(rows, decode, j, k - 1);
        assert(rows.take(k).drop_last() =~= rows.take(k - 1));
    }
}

/// Decodes every row with `f`, in order, stopping at the first failure; `f`
/// decodes a row as `decode` says.
pub(crate) fn decode_rows<T: View, F: Fn(&Vec<SqlValue>) -> Result<T, DbError>>(
    rows: &Vec<Vec<SqlValue>>,
    f: F,
    Ghost(decode): Ghost<spec_fn(Seq<SqlValue>) -> Result<T::V, DbError>>,
) -> (r: Result<Vec<T>, DbError>)
    requires
        forall|row: &Vec<SqlValue>| #[trigger] f.requires((row,)),
        forall|row: &Vec<SqlValue>, res: Result<T, DbError>|
            #[trigger] f.ensures((row,), res) ==> view_result(res) == decode(row@),
    ensures
        vec_result_view(r) == decode_all(rows_view(rows@), decode),
{
    let mut out: Vec<T> = Vec::new();
    let mut k: usize = 0;
    assert(rows_view(rows@).take(0) =~= Seq::<Seq<SqlValue>>::empty());
    assert(views(out@) =~= Seq::<T::V>::empty());
    while k < rows.len()
        invariant
            k <= rows@.len(),
            forall|row: &Vec<SqlValue>| #[trigger] f.requires((row,)),
            forall|row: &Vec<SqlValue>, res: Result<T, DbError>|
                #[trigger] f.ensures((row,), res) ==> view_result(res) == decode(row@),
            decode_all(rows_view(rows@).take(k as int), decode) == Ok::<Seq<T::V>, DbError>(views(out@)),
        decreases rows.len() - k,
    {
        let ghost prefix = rows_view(rows@).take(k as int);
        let ghost next = rows_view(rows@).take(k + 1);
        assert(next.drop_last() =~= prefix);
        assert(next.last() == rows@[k as int]@);
        let ghost before = out@;
        let t = match f(&rows[k]) {
            Ok(t) => t,
            Err(e) => {
                proof {
                    lemma_decode_all_error_persists(rows_view(rows@), decode, k + 1, rows@.len() as int);
                    assert(rows_view(rows@).take(rows@.len() as int) =~= rows_view(rows@));
                }
                return Err(e);
            },
        };
        out.push(t);
        assert(views(out@) =~= views(before).push(t@));
        k = k + 1;
    }
    assert(rows_view(rows@).take(rows@.len() as int) =~= rows_view(rows@));
    Ok(out)
}

/// The value of column `i` read as `i64`: only an integer column qualifies.
pub open spec fn column_i64(row: Seq<SqlValue>, i: int) -> Result<i64, DbError> {
    if 0 <= i < row.len() {
        match row[i] {
            SqlValue::Integer(x) => Ok(x),
            _ => Err(DbError::InvalidColumnType(i as usize)),
        }
    } else {
        Err(DbError::InvalidColumnIndex(i as usize))
    }
}

/// The value of column `i` read as `i32`: an integer column whose value fits.
pub open spec fn column_i32(row: Seq<SqlValue>, i: int) -> Result<i32, DbError> {
    match column_i64(row, i) {
        Ok(x) => if i32::MIN <= x && x <= i32::MAX {
            Ok(x as i32)
        } else {
            Err(DbError::IntegralValueOutOfRange(i as usize, x))
        },
        Err(e) => Err(e),
    }
}

/// The value of column `i` read as `bool`: an integer column, true unless 0.
pub open spec fn column_bool(row: Seq<SqlValue>, i: int) -> Result<bool, DbError> {
    match column_i64(row, i) {
        Ok(x) => Ok(x != 0),
        Err(e) => Err(e),
    }
}

/// The value of column `i` read as text: a text column holding UTF-8.
pub open spec fn column_text(row: Seq<SqlValue>, i: int) -> Result<Seq<char>, DbError> {
    if 0 <= i < row.len() {
        match row[i] {
            SqlValue::Text(b) => if valid_utf8(b@) {
                Ok(decode_utf8(b@))
            } else {
                Err(DbError::Utf8Error(i as usize))
            },
            _ => Err(DbError::InvalidColumnType(i as usize)),
        }
    } else {
        Err(DbError::InvalidColumnIndex(i as usize))
    }
}

/// The value of column `i` read as optional text: NULL is `None`.
pub open spec fn column_opt_text(row: Seq<SqlValue>, i: int) -> Result<Option<Seq<char>>, DbError> {
    if 0 <= i < row.len() && row[i] is Null {
        Ok(None)
    } else {
        match column_text(row, i) {
            Ok(t) => Ok(Some(t)),
            Err(e) => Err(e),
        }
    }
}

/// `String::from_utf8`: the bytes as a string when they are valid UTF-8.
#[verifier::external_body]
pub(crate) fn string_from_utf8(bytes: Vec<u8>) -> (r: Option<String>)
    ensures
        r is Some <==> valid_utf8(bytes@),
        r matches Some(s) ==> s@ == decode_utf8(bytes@),
{
    String::from_utf8(bytes).ok()
}

pub fn get_i64(row: &Vec<SqlValue>, i: usize) -> (r: Result<i64, DbError>)
    ensures
        r == column_i64(row@, i as int),
{
    if i < row.len() {
        match &row[i] {
            SqlValue::Integer(x) => Ok(*x),
            _ => Err(DbError::InvalidColumnType(i)),
        }
    } else {
        Err(DbError::InvalidColumnIndex(i))
    }
}

pub fn get_i32(row: &Vec<SqlValue>, i: usize) -> (r: Result<i32, DbError>)
    ensures
        r == column_i32(row@, i as int),
{
    match get_i64(row, i) {
        Ok(x) => if -2147483648i64 <= x && x <= 2147483647i64 {
            Ok(x as i32)
        } else {
            Err(DbError::IntegralValueOutOfRange(i, x))
        },
        Err(e) => Err(e),
    }
}

pub fn get_bool(row: &Vec<SqlValue>, i: usize) -> (r: Result<bool, DbError>)
    ensures
        r == column_bool(row@, i as int),
{
    match get_i64(row, i) {
        Ok(x) => Ok(x != 0),
        Err(e) => Err(e),
    }
}

pub fn get_text(row: &Vec<SqlValue>, i: usize) -> (r: Result<String, DbError>)
    ensures
        view_result(r) == column_text(row@, i as int),
{
    if i < row.len() {
        match &row[i] {
            SqlValue::Text(b) => {
                let bytes = b.clone();
                match string_from_utf8(bytes) {
                    Some(s) => Ok(s),
                    None => Err(DbError::Utf8Error(i)),
                }
            },
            _ => Err(DbError::InvalidColumnType(i)),
        }
    } else {
        Err(DbError::InvalidColumnIndex(i))
    }
}

pub fn get_opt_text(row: &Vec<SqlValue>, i: usize) -> (r: Result<Option<String>, DbError>)
    ensures
        match (r, column_opt_text(row@, i as int)) {
            (Ok(Some(s)), Ok(Some(t))) => s@ == t,
            (Ok(None), Ok(None)) => true,
            (Err(e), Err(f)) => e == f,
            _ => false,
        },
{
    if i < row.len() {
        if let SqlValue::Null = &row[i] {
            return Ok(None);
        }
    }
    match get_text(row, i) {
        Ok(s) => Ok(Some(s)),
        Err(e) => Err(e),
    }
}

} // verus!
