use vstd::prelude::*;

use crate::error::DbgenError;
use crate::table::{is_composite, Table};

verus! {

/// The semantic type of a column.
#[derive(Debug, Clone, Copy, PartialEq, Eq, Structural)]
pub enum ColumnType {
    Int32,
    Utf8,
    Float64,
}

/// One column of a table: its name, its type and whether it may hold nulls.
#[derive(Debug)]
pub struct ColumnSpec {
    pub name: String,
    pub ty: ColumnType,
    pub nullable: bool,
}

impl View for ColumnSpec {
    type V = (Seq<char>, ColumnType, bool);

    open spec fn view(&self) -> (Seq<char>, ColumnType, bool) {
        (self.name@, self.ty, self.nullable)
    }
}

/// The abstract value of a list of columns.
pub open spec fn columns_view(cols: Seq<ColumnSpec>) -> Seq<(Seq<char>, ColumnType, bool)> {
    cols.map_values(|c: ColumnSpec| c@)
}

/// A column that the generator always fills: it is declared non-nullable.
pub open spec fn req(name: Seq<char>, ty: ColumnType) -> (Seq<char>, ColumnType, bool) {
    (name, ty, false)
}

/// The declared columns of each real table, in the order in which the
/// generator writes them; the composite selectors have none.
pub open spec fn table_schema(t: Table) -> Option<Seq<(Seq<char>, ColumnType, bool)>> {
    match t {
        Table::Part => Some(seq![
            req("p_partkey"@, ColumnType::Int32),
            req("p_name"@, ColumnType::Utf8),
            req("p_mfgr"@, ColumnType::Utf8),
            req("p_brand"@, ColumnType::Utf8),
            req("p_type"@, ColumnType::Utf8),
            req("p_size"@, ColumnType::Int32),
            req("p_container"@, ColumnType::Utf8),
            req("p_retailprice"@, ColumnType::Float64),
            req("p_comment"@, ColumnType::Utf8),
        ]),
        Table::PartSupp => Some(seq![
            req("ps_partkey"@, ColumnType::Int32),
            req("ps_suppkey"@, ColumnType::Int32),
            req("ps_availqty"@, ColumnType::Int32),
            req("ps_supplycost"@, ColumnType::Float64),
            req("ps_comment"@, ColumnType::Utf8),
        ]),
        Table::Supplier => Some(seq![
            req("s_suppkey"@, ColumnType::Int32),
            req("s_name"@, ColumnType::Utf8),
            req("s_address"@, ColumnType::Utf8),
            req("s_nationkey"@, ColumnType::Int32),
            req("s_phone"@, ColumnType::Utf8),
            req("s_acctbal"@, ColumnType::Float64),
            req("s_comment"@, ColumnType::Utf8),
        ]),
        Table::Customer => Some(seq![
            req("c_custkey"@, ColumnType::Int32),
            req("c_name"@, ColumnType::Utf8),
            req("c_address"@, ColumnType::Utf8),
            req("c_nationkey"@, ColumnType::Int32),
            req("c_phone"@, ColumnType::Utf8),
            req("c_acctbal"@, ColumnType::Float64),
            req("c_mktsegment"@, ColumnType::Utf8),
            req("c_comment"@, ColumnType::Utf8),
        ]),
        Table::Orders => Some(seq![
            req("o_orderkey"@, ColumnType::Int32),
            req("o_custkey"@, ColumnType::Int32),
            req("o_orderstatus"@, ColumnType::Utf8),
            req("o_totalprice"@, ColumnType::Float64),
            req("o_orderdate"@, ColumnType::Utf8),
            req("o_orderpriority"@, ColumnType::Utf8),
            req("o_clerk"@, ColumnType::Utf8),
            req("o_shippriority"@, ColumnType::Int32),
            req("o_comment"@, ColumnType::Utf8),
        ]),
        Table::Lineitem => Some(seq![
            req("l_orderkey"@, ColumnType::Int32),
            req("l_partkey"@, ColumnType::Int32),
            req("l_suppkey"@, ColumnType::Int32),
            req("l_linenumber"@, ColumnType::Int32),
            req("l_quantity"@, ColumnType::Float64),
            req("l_extendedprice"@, ColumnType::Float64),
            req("l_discount"@, ColumnType::Float64),
            req("l_tax"@, ColumnType::Float64),
            req("l_returnflag"@, ColumnType::Utf8),
            req("l_linestatus"@, ColumnType::Utf8),
            req("l_shipdate"@, ColumnType::Utf8),
            req("l_commitdate"@, ColumnType::Utf8),
            req("l_receiptdate"@, ColumnType::Utf8),
            req("l_shipinstruct"@, ColumnType::Utf8),
            req("l_shipmode"@, ColumnType::Utf8),
            req("l_comment"@, ColumnType::Utf8),
        ]),
        Table::Nation => Some(seq![
            req("n_nationkey"@, ColumnType::Int32),
            req("n_name"@, ColumnType::Utf8),
            req("n_regionkey"@, ColumnType::Int32),
            req("n_comment"@, ColumnType::Utf8),
        ]),
        Table::Region => Some(seq![
            req("r_regionkey"@, ColumnType::Int32),
            req("r_name"@, ColumnType::Utf8),
            req("r_comment"@, ColumnType::Utf8),
        ]),
        Table::OrderLineitem | Table::PartPartSupp => None,
    }
}

/// Exactly the eight real tables have a declared schema, and every column of
/// it is non-nullable: the generator never leaves a field empty.
pub proof fn lemma_declared_columns_not_null(t: Table)
    ensures
        table_schema(t) is Some <==> !is_composite(t),
        table_schema(t) matches Some(cols) ==> forall|i: int| 0 <= i < cols.len() ==> !(#[trigger] cols[i]).2,
{
}

fn push_column(cols: &mut Vec<ColumnSpec>, name: &str, ty: ColumnType)
    ensures
        columns_view(final(cols)@) == columns_view(old(cols)@).push(req(name@, ty)),
{
    cols.push(ColumnSpec { name: String::from_str(name), ty, nullable: false });
    assert(columns_view(final(cols)@) =~= columns_view(old(cols)@).push(req(name@, ty)));
}

/// The declared schema of a table. Every real table has one; the composite
/// selectors fail with `NoSchemaForCompositeTable`.
pub fn get_schema(table: Table) -> (r: Result<Vec<ColumnSpec>, DbgenError>)
    ensures
        is_composite(table) <==> r is Err,
        r matches Ok(cols) ==> table_schema(table) == Some(columns_view(cols@)),
        r matches Err(e) ==> e == (DbgenError::NoSchemaForCompositeTable { table }),
{
    let mut b: Vec<ColumnSpec> = Vec::new();
    assert(columns_view(b@) =~= seq![]);
    match table {
        Table::Part => {
            push_column(&mut b, "p_partkey", ColumnType::Int32);
            push_column(&mut b, "p_name", ColumnType::Utf8);
            push_column(&mut b, "p_mfgr", ColumnType::Utf8);
            push_column(&mut b, "p_brand", ColumnType::Utf8);
            push_column(&mut b, "p_type", ColumnType::Utf8);
            push_column(&mut b, "p_size", ColumnType::Int32);
            push_column(&mut b, "p_container", ColumnType::Utf8);
            push_column(&mut b, "p_retailprice", ColumnType::Float64);
            push_column(&mut b, "p_comment", ColumnType::Utf8);
        },
        Table::PartSupp => {
            push_column(&mut b, "ps_partkey", ColumnType::Int32);
            push_column(&mut b, "ps_suppkey", ColumnType::Int32);
            push_column(&mut b, "ps_availqty", ColumnType::Int32);
            push_column(&mut b, "ps_supplycost", ColumnType::Float64);
            push_column(&mut b, "ps_comment", ColumnType::Utf8);
        },
        Table::Supplier => {
            push_column(&mut b, "s_suppkey", ColumnType::Int32);
            push_column(&mut b, "s_name", ColumnType::Utf8);
            push_column(&mut b, "s_address", ColumnType::Utf8);
            push_column(&mut b, "s_nationkey", ColumnType::Int32);
            push_column(&mut b, "s_phone", ColumnType::Utf8);
            push_column(&mut b, "s_acctbal", ColumnType::Float64);
            push_column(&mut b, "s_comment", ColumnType::Utf8);
        },
        Table::Customer => {
            push_column(&mut b, "c_custkey", ColumnType::Int32);
            push_column(&mut b, "c_name", ColumnType::Utf8);
            push_column(&mut b, "c_address", ColumnType::Utf8);
            push_column(&mut b, "c_nationkey", ColumnType::Int32);
            push_column(&mut b, "c_phone", ColumnType::Utf8);
            push_column(&mut b, "c_acctbal", ColumnType::Float64);
            push_column(&mut b, "c_mktsegment", ColumnType::Utf8);
            push_column(&mut b, "c_comment", ColumnType::Utf8);
        },
        Table::Orders => {
            push_column(&mut b, "o_orderkey", ColumnType::Int32);
            push_column(&mut b, "o_custkey", ColumnType::Int32);
            push_column(&mut b, "o_orderstatus", ColumnType::Utf8);
            push_column(&mut b, "o_totalprice", ColumnType::Float64);
            push_column(&mut b, "o_orderdate", ColumnType::Utf8);
            push_column(&mut b, "o_orderpriority", ColumnType::Utf8);
            push_column(&mut b, "o_clerk", ColumnType::Utf8);
            push_column(&mut b, "o_shippriority", ColumnType::Int32);
            push_column(&mut b, "o_comment", ColumnType::Utf8);
        },
        Table::Lineitem => {
            push_column(&mut b, "l_orderkey", ColumnType::Int32);
            push_column(&mut b, "l_partkey", ColumnType::Int32);
            push_column(&mut b, "l_suppkey", ColumnType::Int32);
            push_column(&mut b, "l_linenumber", ColumnType::Int32);
            push_column(&mut b, "l_quantity", ColumnType::Float64);
            push_column(&mut b, "l_extendedprice", ColumnType::Float64);
            push_column(&mut b, "l_discount", ColumnType::Float64);
            push_column(&mut b, "l_tax", ColumnType::Float64);
            push_column(&mut b, "l_returnflag", ColumnType::Utf8);
            push_column(&mut b, "l_linestatus", ColumnType::Utf8);
            push_column(&mut b, "l_shipdate", ColumnType::Utf8);
            push_column(&mut b, "l_commitdate", ColumnType::Utf8);
            push_column(&mut b, "l_receiptdate", ColumnType::Utf8);
            push_column(&mut b, "l_shipinstruct", ColumnType::Utf8);
            push_column(&mut b, "l_shipmode", ColumnType::Utf8);
            push_column(&mut b, "l_comment", ColumnType::Utf8);
        },
        Table::OrderLineitem | Table::PartPartSupp => {
            return Err(DbgenError::NoSchemaForCompositeTable { table });
        },
        Table::Nation => {
            push_column(&mut b, "n_nationkey", ColumnType::Int32);
            push_column(&mut b, "n_name", ColumnType::Utf8);
            push_column(&mut b, "n_regionkey", ColumnType::Int32);
            push_column(&mut b, "n_comment", ColumnType::Utf8);
        },
        Table::Region => {
            push_column(&mut b, "r_regionkey", ColumnType::Int32);
            push_column(&mut b, "r_name", ColumnType::Utf8);
            push_column(&mut b, "r_comment", ColumnType::Utf8);
        },
    }
    Ok(b)
}

} // verus!
