use vstd::prelude::*;

use arrow::datatypes::{DataType, Field, SchemaBuilder};
use arrow_array::RecordBatch;
use arrow_csv::reader::Format;
use arrow_csv::ReaderBuilder;
use std::io::Cursor;
use std::sync::Arc;

use crate::discovery::{
    append_digit, find, first_occurrence, is_digit, is_digit_char, lemma_first_occurrence_unique,
    push_digit,
};
use crate::error::DbgenError;
use crate::schema::{columns_view, get_schema, table_schema, ColumnSpec, ColumnType};
use crate::table::{is_composite, table_of_name, Table};

verus! {

/// One columnar batch of rows: an arrow `RecordBatch`, whose contents the
/// library describes through `batch_columns` and `batch_rows`.
#[verifier::external_body]
pub struct Batch {
    pub batch: RecordBatch,
}

/// The byte that separates the fields of a record.
pub const FIELD_DELIMITER: u8 = 124;

/// The byte that ends a line.
pub const NEWLINE: u8 = 10;

/// Whether the byte at `i` survives normalization: every record ends with a
/// delimiter followed by a newline, and that delimiter is dropped.
pub open spec fn kept(s: Seq<u8>, i: int) -> bool {
    !(s[i] == FIELD_DELIMITER && i + 1 < s.len() && s[i + 1] == NEWLINE)
}

/// The first `n` bytes of `s` with each delimiter that ends a record removed.
pub open spec fn normalized_prefix(s: Seq<u8>, n: int) -> Seq<u8>
    decreases n,
{
    if n <= 0 {
        seq![]
    } else if kept(s, n - 1) {
        normalized_prefix(s, n - 1).push(s[n - 1])
    } else {
        normalized_prefix(s, n - 1)
    }
}

/// `s` with every delimiter-newline pair turned into a bare newline.
pub open spec fn normalized(s: Seq<u8>) -> Seq<u8> {
    normalized_prefix(s, s.len() as int)
}

/// Turns each delimiter-newline pair into a bare newline, so that the
/// generator's trailing delimiter is not read as one more, empty, column.
pub fn strip_record_terminators(data: &Vec<u8>) -> (r: Vec<u8>)
    ensures
        r@ == normalized(data@),
{
    let mut out: Vec<u8> = Vec::new();
    let n = data.len();
    let mut i: usize = 0;
    while i < n
        invariant
            n == data@.len(),
            i <= n,
            out@ == normalized_prefix(data@, i as int),
        decreases n - i,
    {
        let b = data[i];
        if !(b == FIELD_DELIMITER && i + 1 < n && data[i + 1] == NEWLINE) {
            out.push(b);
        }
        i = i + 1;
    }
    out
}

/// The columns of a batch: the name, type and nullability of each field of
/// its schema, in order.
pub uninterp spec fn batch_columns(b: Batch) -> Seq<(Seq<char>, ColumnType, bool)>;

/// The number of rows of a batch.
pub uninterp spec fn batch_rows(b: Batch) -> nat;

/// What arrow_csv makes of `data` read under the columns `cols`, as records
/// whose fields are separated by `delimiter` (after a header line where
/// `has_header`): the number of records it reads, or the message of the
/// error it stops at. The outcome depends on these arguments alone.
pub uninterp spec fn delimited_read(
    cols: Seq<(Seq<char>, ColumnType, bool)>,
    has_header: bool,
    delimiter: u8,
    data: Seq<u8>,
) -> Result<nat, Seq<char>>;

/// The rows of a list of batches, added up.
pub open spec fn rows_of(s: Seq<Batch>) -> nat
    decreases s.len(),
{
    if s.len() == 0 {
        0
    } else {
        rows_of(s.drop_last()) + batch_rows(s.last())
    }
}

/// Relies on arrow's `Field::new` and `SchemaBuilder`, and on arrow_csv's
/// `ReaderBuilder` with a `Format`: builds the arrow schema of `cols`, in
/// order, parses `data` under it as records whose fields are separated by
/// `delimiter` (after a header line where `has_header`), and collects the
/// batches, each under that schema, none of them empty, and together holding
/// one row per record, or the message of the first error met.
#[verifier::external_body]
fn read_delimited(
    cols: &Vec<ColumnSpec>,
    has_header: bool,
    delimiter: u8,
    data: Vec<u8>,
) -> (r: Result<Vec<Batch>, String>)
    ensures
        r is Ok <==> delimited_read(columns_view(cols@), has_header, delimiter, data@) is Ok,
        r matches Ok(v) ==> (delimited_read(columns_view(cols@), has_header, delimiter, data@) matches Ok(
            n,
        ) && n == rows_of(v@)),
        r matches Ok(v) ==> forall|i: int|
            0 <= i < v@.len() ==> batch_columns(#[trigger] v@[i]) == columns_view(cols@),
        r matches Ok(v) ==> forall|i: int| 0 <= i < v@.len() ==> batch_rows(#[trigger] v@[i]) > 0,
        r matches Err(m) ==> (delimited_read(columns_view(cols@), has_header, delimiter, data@) matches Err(
            x,
        ) && x == m@),
{
    let mut b = SchemaBuilder::new();
    for c in cols.iter() {
        let ty = match c.ty {
            ColumnType::Int32 => DataType::Int32,
            ColumnType::Utf8 => DataType::Utf8,
            ColumnType::Float64 => DataType::Float64,
        };
        b.push(Field::new(c.name.clone(), ty, c.nullable));
    }
    let format = Format::default().with_header(has_header).with_delimiter(delimiter);
    let reader = ReaderBuilder::new(Arc::new(b.finish())).with_format(format).build(Cursor::new(data));
    reader.and_then(|rd| rd.map(|r| r.map(|batch| Batch { batch })).collect()).map_err(|e| e.to_string())
}

/// The value of the decimal digits that `s` starts with, appended to `acc`.
pub open spec fn number_from(s: Seq<char>, acc: u64) -> u64
    decreases s.len(),
{
    if s.len() == 0 || !is_digit(s[0]) {
        acc
    } else {
        number_from(s.drop_first(), append_digit(acc, s[0]))
    }
}

/// The word after which a parser message gives a line number.
pub open spec fn line_word() -> Seq<char> {
    "line "@
}

/// The line number that a message names: the digits right after its first
/// `line `, or `None` where there are none.
pub open spec fn message_line(m: Seq<char>) -> Option<u64> {
    if exists|i: int| first_occurrence(m, line_word(), i) {
        let i = choose|i: int| first_occurrence(m, line_word(), i);
        if i + 5 < m.len() && is_digit(m[i + 5]) {
            Some(number_from(m.skip(i + 5), 0))
        } else {
            None
        }
    } else {
        None
    }
}

/// The line number that a parser message names.
pub fn line_in_message(m: &str) -> (r: Option<u64>)
    ensures
        r == message_line(m@),
{
    proof {
        reveal_strlit("line ");
    }
    let n = m.unicode_len();
    match find(m, "line ") {
        None => None,
        Some(i) => {
            proof {
                let c = choose|c: int| first_occurrence(m@, line_word(), c);
                lemma_first_occurrence_unique(m@, line_word(), c, i as int);
            }
            let start = i + 5;
            if start >= n || !is_digit_char(m.get_char(start)) {
                return None;
            }
            let mut v: u64 = 0;
            let mut k: usize = start;
            while k < n && is_digit_char(m.get_char(k))
                invariant
                    n == m@.len(),
                    start <= k <= n,
                    number_from(m@.skip(start as int), 0) == number_from(m@.skip(k as int), v),
                decreases n - k,
            {
                let c = m.get_char(k);
                assert(m@.skip(k as int)[0] == c);
                assert(m@.skip(k as int).drop_first() =~= m@.skip(k + 1));
                v = push_digit(v, c);
                k = k + 1;
            }
            if k < n {
                assert(m@.skip(k as int)[0] == m@[k as int]);
            } else {
                assert(m@.skip(k as int).len() == 0);
            }
            Some(v)
        },
    }
}

/// What parsing each shard of a table gave, in shard order.
pub type ShardResults = Vec<Result<Vec<Batch>, String>>;

/// The batches of all shards that parsed, one shard after the other.
pub open spec fn concat_batches(p: Seq<Result<Vec<Batch>, String>>) -> Seq<Batch>
    decreases p.len(),
{
    if p.len() == 0 {
        seq![]
    } else {
        concat_batches(p.drop_last()) + match p.last() {
            Ok(v) => v@,
            Err(_) => seq![],
        }
    }
}

/// `i` is the first shard that failed to parse.
pub open spec fn first_failure(p: Seq<Result<Vec<Batch>, String>>, i: int) -> bool {
    0 <= i < p.len() && p[i] is Err && forall|j: int| 0 <= j < i ==> p[j] is Ok
}

/// The abstract value of a materialization result.
pub open spec fn batches_view(r: Result<Vec<Batch>, DbgenError>) -> Result<Seq<Batch>, DbgenError> {
    match r {
        Ok(v) => Ok(v@),
        Err(e) => Err(e),
    }
}

/// `r` is the join of the shard results `p`: the concatenation of every
/// shard's batches where all parsed, else a `RowParseError` naming the first
/// shard that did not.
pub open spec fn merge_outcome(
    table: Table,
    p: Seq<Result<Vec<Batch>, String>>,
    r: Result<Seq<Batch>, DbgenError>,
) -> bool {
    &&& (forall|i: int| 0 <= i < p.len() ==> p[i] is Ok) ==> r == Ok::<Seq<Batch>, DbgenError>(
        concat_batches(p),
    )
    &&& forall|i: int| #[trigger] first_failure(p, i) ==> (r matches Err(
        DbgenError::RowParseError { table: t, file, line },
    ) && t == table && file == i && (p[i] matches Err(m) && line == message_line(m@)))
}

/// Two shards that both parsed join into the first shard's batches followed
/// by the second's: nothing is dropped, repeated or reordered.
pub proof fn lemma_two_shards_concatenate(
    table: Table,
    a: Vec<Batch>,
    b: Vec<Batch>,
    r: Result<Seq<Batch>, DbgenError>,
)
    requires
        merge_outcome(table, seq![Ok(a), Ok(b)], r),
    ensures
        r == Ok::<Seq<Batch>, DbgenError>(a@ + b@),
{
    let p: Seq<Result<Vec<Batch>, String>> = seq![Ok(a), Ok(b)];
    let q: Seq<Result<Vec<Batch>, String>> = seq![Ok(a)];
    assert(p.drop_last() =~= q);
    assert(q.drop_last() =~= seq![]);
    assert(concat_batches(q.drop_last()) =~= seq![]);
    assert(q.last() == Ok::<Vec<Batch>, String>(a));
    assert(concat_batches(q) =~= a@);
    assert(p[0] is Ok && p[1] is Ok);
}

/// Joins the shards of one table into its batch sequence, keeping shard
/// order; a table with a shard that failed to parse is not returned at all.
pub fn merge_shards(table: Table, parsed: ShardResults) -> (r: Result<Vec<Batch>, DbgenError>)
    ensures
        merge_outcome(table, parsed@, batches_view(r)),
{
    let ghost all = parsed@;
    let total = parsed.len();
    let mut rest = parsed;
    let mut out: Vec<Batch> = Vec::new();
    let mut i: usize = 0;
    assert(all.take(0) =~= seq![]);
    while rest.len() > 0
        invariant
            all == parsed@,
            total == all.len(),
            i + rest@.len() == all.len(),
            rest@ == all.skip(i as int),
            forall|j: int| 0 <= j < i ==> all[j] is Ok,
            out@ == concat_batches(all.take(i as int)),
        decreases rest@.len(),
    {
        assert(all.take(i + 1).drop_last() =~= all.take(i as int));
        assert(rest@[0] == all[i as int]);
        match rest.remove(0) {
            Ok(mut v) => {
                out.append(&mut v);
                assert(out@ == concat_batches(all.take(i + 1)));
            },
            Err(e) => {
                let line = line_in_message(e.as_str());
                assert(first_failure(all, i as int));
                assert forall|k: int| #[trigger] first_failure(all, k) implies k == i by {
                    if k < i {
                        assert(all[k] is Ok);
                    } else if k > i {
                        assert(all[i as int] is Ok);
                    }
                }
                return Err(DbgenError::RowParseError { table, file: i, line });
            },
        }
        assert(rest@ =~= all.skip(i + 1));
        i = i + 1;
    }
    assert(all.take(i as int) =~= all);
    Ok(out)
}

/// What reading one shard of `table` gives: the shard, with its record
/// terminators normalized, read under the table's declared schema.
pub open spec fn shard_read(table: Table, shard: Seq<u8>) -> Result<nat, Seq<char>> {
    delimited_read(table_schema(table).unwrap(), false, FIELD_DELIMITER, normalized(shard))
}

/// Whether one shard of `table` parses.
pub open spec fn shard_parses(table: Table, shard: Seq<u8>) -> bool {
    shard_read(table, shard) is Ok
}

/// Every shard of `table` parses.
pub open spec fn all_parse(table: Table, shards: Seq<Vec<u8>>) -> bool {
    forall|i: int| 0 <= i < shards.len() ==> shard_parses(table, #[trigger] shards[i]@)
}

/// `e` reports the first shard of `table` that does not parse, with the line
/// that the parser's message for it names.
pub open spec fn parse_error_for(table: Table, shards: Seq<Vec<u8>>, e: DbgenError) -> bool {
    e matches DbgenError::RowParseError { table: t, file, line } && t == table && file < shards.len()
        && (shard_read(table, shards[file as int]@) matches Err(m) && line == message_line(m))
        && forall|j: int| 0 <= j < file ==> shard_parses(table, #[trigger] shards[j]@)
}

/// `g` is what reading one shard of `table` gave: batches under the table's
/// declared columns that together hold one row per record of the shard.
pub open spec fn shard_batches(table: Table, shard: Seq<u8>, g: Seq<Batch>) -> bool {
    &&& shard_read(table, shard) == Ok::<nat, Seq<char>>(rows_of(g))
    &&& forall|j: int| 0 <= j < g.len() ==> batch_columns(#[trigger] g[j]) == table_schema(table).unwrap()
}

/// The batches `b` are the shards of `table` read one after the other: `b`
/// splits into one consecutive group per shard, in shard order, and group `i`
/// is what reading shard `i` gave.
pub open spec fn joined(table: Table, shards: Seq<Vec<u8>>, b: Seq<Batch>) -> bool {
    exists|p: Seq<Result<Vec<Batch>, String>>|
        p.len() == shards.len() && #[trigger] concat_batches(p) == b && forall|i: int|
            0 <= i < shards.len() ==> (#[trigger] p[i] matches Ok(v) && shard_batches(table, shards[i]@, v@))
}

/// `r` is the materialization of `shards` as `table`.
pub open spec fn table_outcome(table: Table, shards: Seq<Vec<u8>>, r: Result<Vec<Batch>, DbgenError>) -> bool {
    if is_composite(table) {
        r == Err::<Vec<Batch>, DbgenError>(DbgenError::NoSchemaForCompositeTable { table })
    } else {
        &&& r is Ok <==> all_parse(table, shards)
        &&& r matches Ok(b) ==> joined(table, shards, b@)
        &&& r matches Ok(b) ==> forall|j: int|
            0 <= j < b@.len() ==> batch_columns(#[trigger] b@[j]) == table_schema(table).unwrap()
        &&& r matches Err(e) ==> parse_error_for(table, shards, e)
    }
}

/// Where every shard result is a list of batches under the columns `cols`, so
/// is every batch of their concatenation.
proof fn lemma_concat_columns(p: Seq<Result<Vec<Batch>, String>>, cols: Seq<(Seq<char>, ColumnType, bool)>)
    requires
        forall|i: int| 0 <= i < p.len() ==> (#[trigger] p[i] matches Ok(v) && forall|j: int|
            0 <= j < v@.len() ==> batch_columns(#[trigger] v@[j]) == cols),
    ensures
        forall|j: int| 0 <= j < concat_batches(p).len() ==> batch_columns(#[trigger] concat_batches(p)[j]) == cols,
    decreases p.len(),
{
    if p.len() > 0 {
        let q = p.drop_last();
        assert forall|i: int| 0 <= i < q.len() implies (#[trigger] q[i] matches Ok(v) && forall|j: int|
            0 <= j < v@.len() ==> batch_columns(#[trigger] v@[j]) == cols) by {
            assert(q[i] == p[i]);
        }
        lemma_concat_columns(q, cols);
        assert(p[p.len() - 1] is Ok);
        let v = p.last()->Ok_0;
        assert forall|j: int| 0 <= j < concat_batches(p).len() implies batch_columns(
            #[trigger] concat_batches(p)[j],
        ) == cols by {
            if j >= concat_batches(q).len() {
                assert(concat_batches(p)[j] == v@[j - concat_batches(q).len()]);
            } else {
                assert(concat_batches(p)[j] == concat_batches(q)[j]);
            }
        }
    }
}

/// Every batch of a materialized table has exactly the table's declared
/// columns, in order, and none of them is nullable: no column is added for the
/// records' trailing delimiter.
pub proof fn lemma_batches_have_declared_columns(table: Table, shards: Seq<Vec<u8>>, r: Result<Vec<Batch>, DbgenError>)
    requires
        table_outcome(table, shards, r),
        r is Ok,
    ensures
        forall|j: int| 0 <= j < r->Ok_0@.len() ==> (#[trigger] batch_columns(r->Ok_0@[j])) == table_schema(
            table,
        ).unwrap() && forall|i: int| 0 <= i < batch_columns(r->Ok_0@[j]).len() ==> !batch_columns(
            r->Ok_0@[j],
        )[i].2,
{
    crate::schema::lemma_declared_columns_not_null(table);
}

/// `p` is the result of reading one shard of `table`: its batches, or the
/// message of the parser's error.
pub open spec fn shard_result(table: Table, shard: Seq<u8>, p: Result<Vec<Batch>, String>) -> bool {
    match p {
        Ok(v) => shard_batches(table, shard, v@),
        Err(m) => shard_read(table, shard) == Err::<nat, Seq<char>>(m@),
    }
}

/// Parses every shard of `table`, with its record terminators normalized,
/// under the table's declared schema, in the order given, and joins them. A
/// composite selector fails before any shard is parsed. Otherwise the table
/// comes back exactly when every shard parses, and else the error names the
/// first shard that does not.
pub fn materialize_table(table: Table, shards: &Vec<Vec<u8>>) -> (r: Result<Vec<Batch>, DbgenError>)
    ensures
        table_outcome(table, shards@, r),
{
    let columns = match get_schema(table) {
        Ok(c) => c,
        Err(e) => {
            return Err(e);
        },
    };
    let mut parsed: ShardResults = Vec::new();
    let mut i: usize = 0;
    while i < shards.len()
        invariant
            i <= shards@.len(),
            parsed@.len() == i,
            columns_view(columns@) == table_schema(table).unwrap(),
            forall|j: int| 0 <= j < i ==> shard_result(table, shards@[j]@, #[trigger] parsed@[j]),
        decreases shards@.len() - i,
    {
        let data = strip_record_terminators(&shards[i]);
        let ghost before = parsed@;
        parsed.push(read_delimited(&columns, false, FIELD_DELIMITER, data));
        assert forall|j: int| 0 <= j < i + 1 implies shard_result(table, shards@[j]@, #[trigger] parsed@[j]) by {
            if j < i {
                assert(parsed@[j] == before[j]);
            }
        }
        i = i + 1;
    }
    let ghost p = parsed@;
    let r = merge_shards(table, parsed);
    proof {
        if all_parse(table, shards@) {
            assert forall|j: int| 0 <= j < p.len() implies p[j] is Ok by {
                assert(shard_result(table, shards@[j]@, p[j]));
                assert(shard_parses(table, shards@[j]@));
            }
            assert forall|j: int| 0 <= j < shards@.len() implies (#[trigger] p[j] matches Ok(v)
                && shard_batches(table, shards@[j]@, v@)) by {
                assert(shard_result(table, shards@[j]@, p[j]));
                assert(shard_parses(table, shards@[j]@));
            }
            assert(joined(table, shards@, concat_batches(p)));
            lemma_concat_columns(p, table_schema(table).unwrap());
        } else {
            let f = choose|f: int| 0 <= f < shards@.len() && !shard_parses(table, #[trigger] shards@[f]@);
            assert(shard_result(table, shards@[f]@, p[f]));
            assert(p[f] is Err);
            let k = first_err_index(p, f);
            assert(first_failure(p, k));
            assert(shard_result(table, shards@[k]@, p[k]));
            assert forall|j: int| 0 <= j < k implies shard_parses(table, #[trigger] shards@[j]@) by {
                assert(p[j] is Ok);
                assert(shard_result(table, shards@[j]@, p[j]));
            }
        }
    }
    r
}

/// Some shard failed at or before `f`, so there is a first failure.
proof fn first_err_index(p: Seq<Result<Vec<Batch>, String>>, f: int) -> (k: int)
    requires
        0 <= f < p.len(),
        p[f] is Err,
    ensures
        first_failure(p, k),
        k <= f,
    decreases f,
{
    if exists|j: int| 0 <= j < f && p[j] is Err {
        let j = choose|j: int| 0 <= j < f && p[j] is Err;
        first_err_index(p, j)
    } else {
        f
    }
}

/// The files of one table, read into memory, in the order to be joined.
#[derive(Debug)]
pub struct TableInput {
    pub table: String,
    pub shards: Vec<Vec<u8>>,
}

/// One materialized table: its name and its batches.
pub struct TableBatches {
    pub table: String,
    pub batches: Vec<Batch>,
}

/// The name of a real table: one in the catalog that is not composite.
pub open spec fn real_table(name: Seq<char>) -> bool {
    table_of_name(name) matches Some(t) && !is_composite(t)
}

/// An input that materializes: it names a real table and all its shards parse.
pub open spec fn input_ok(input: TableInput) -> bool {
    real_table(input.table@) && all_parse(table_of_name(input.table@).unwrap(), input.shards@)
}

/// `e` is the error that the input `input` fails with: `UnknownTable` for a
/// name outside the catalog, `NoSchemaForCompositeTable` for a composite
/// selector, and else the `RowParseError` of its first shard that does not parse.
pub open spec fn input_error(input: TableInput, e: DbgenError) -> bool {
    match table_of_name(input.table@) {
        None => e == DbgenError::UnknownTable,
        Some(t) => if is_composite(t) {
            e == (DbgenError::NoSchemaForCompositeTable { table: t })
        } else {
            parse_error_for(t, input.shards@, e)
        },
    }
}

/// `out` is the materialization of `input`: the same name, a real table, and
/// the join of its shards' batches.
pub open spec fn materialized(input: TableInput, out: TableBatches) -> bool {
    &&& out.table@ == input.table@
    &&& real_table(input.table@)
    &&& joined(table_of_name(input.table@).unwrap(), input.shards@, out.batches@)
    &&& forall|j: int| 0 <= j < out.batches@.len() ==> batch_columns(#[trigger] out.batches@[j])
        == table_schema(table_of_name(input.table@).unwrap()).unwrap()
}

/// `r` is the outcome of materializing `inputs`: every table, in order, where
/// every input materializes, and else the error of the first input that does not.
pub open spec fn tables_read(inputs: Seq<TableInput>, r: Result<Vec<TableBatches>, DbgenError>) -> bool {
    &&& r is Ok <==> forall|k: int| 0 <= k < inputs.len() ==> input_ok(#[trigger] inputs[k])
    &&& r matches Ok(out) ==> out@.len() == inputs.len() && forall|k: int|
        0 <= k < out@.len() ==> materialized(inputs[k], #[trigger] out@[k])
    &&& r matches Err(e) ==> exists|k: int|
        0 <= k < inputs.len() && (forall|j: int| 0 <= j < k ==> input_ok(#[trigger] inputs[j]))
            && !input_ok(inputs[k]) && #[trigger] input_error(inputs[k], e)
}

/// The names of materialized tables, in order.
pub open spec fn result_names(out: Seq<TableBatches>) -> Seq<Seq<char>> {
    out.map_values(|t: TableBatches| t.table@)
}

/// Materializing the same inputs twice succeeds both times or fails both
/// times, with the same table names in the same order when it succeeds:
/// nothing of one call leaks into the next.
pub proof fn lemma_tables_read_repeatable(
    inputs: Seq<TableInput>,
    r1: Result<Vec<TableBatches>, DbgenError>,
    r2: Result<Vec<TableBatches>, DbgenError>,
)
    requires
        tables_read(inputs, r1),
        tables_read(inputs, r2),
    ensures
        r1 is Ok <==> r2 is Ok,
        r1 is Ok ==> result_names(r1.unwrap()@) == result_names(r2.unwrap()@),
{
    if r1 is Ok {
        let o1 = r1.unwrap()@;
        let o2 = r2.unwrap()@;
        assert forall|k: int| 0 <= k < o1.len() implies result_names(o1)[k] == result_names(o2)[k] by {
            assert(materialized(inputs[k], o1[k]));
            assert(materialized(inputs[k], o2[k]));
        }
        assert(result_names(o1) =~= result_names(o2));
    }
}

/// Materializes every table of a directory listing. Either every table comes
/// back, in the order given and under its own name, or the whole call fails
/// with the error of the first input that does not materialize.
pub fn read_tables(inputs: &Vec<TableInput>) -> (r: Result<Vec<TableBatches>, DbgenError>)
    ensures
        tables_read(inputs@, r),
{
    let mut out: Vec<TableBatches> = Vec::new();
    let mut i: usize = 0;
    while i < inputs.len()
        invariant
            i <= inputs@.len(),
            out@.len() == i,
            forall|k: int| 0 <= k < i ==> materialized(inputs@[k], #[trigger] out@[k]),
            forall|k: int| 0 <= k < i ==> input_ok(#[trigger] inputs@[k]),
        decreases inputs@.len() - i,
    {
        let input = &inputs[i];
        let table = match Table::from_str(input.table.as_str()) {
            Ok(t) => t,
            Err(e) => {
                assert(input_error(inputs@[i as int], e));
                return Err(e);
            },
        };
        let batches = match materialize_table(table, &input.shards) {
            Ok(b) => b,
            Err(e) => {
                assert(input_error(inputs@[i as int], e));
                assert(!input_ok(inputs@[i as int]));
                return Err(e);
            },
        };
        let ghost before = out@;
        out.push(TableBatches { table: input.table.clone(), batches });
        assert forall|k: int| 0 <= k < i + 1 implies materialized(inputs@[k], #[trigger] out@[k]) by {
            if k < i {
                assert(out@[k] == before[k]);
            }
        }
        assert(input_ok(inputs@[i as int]));
        i = i + 1;
    }
    Ok(out)
}

} // verus!
