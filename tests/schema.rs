use pytpch::error::DbgenError;
use pytpch::schema::{get_schema, ColumnType};
use pytpch::table::Table;

#[test]
fn real_tables_have_declared_columns() {
    let expected = [
        (Table::Part, 9, "p_partkey", "p_comment"),
        (Table::PartSupp, 5, "ps_partkey", "ps_comment"),
        (Table::Supplier, 7, "s_suppkey", "s_comment"),
        (Table::Customer, 8, "c_custkey", "c_comment"),
        (Table::Orders, 9, "o_orderkey", "o_comment"),
        (Table::Lineitem, 16, "l_orderkey", "l_comment"),
        (Table::Nation, 4, "n_nationkey", "n_comment"),
        (Table::Region, 3, "r_regionkey", "r_comment"),
    ];
    for (t, n, first, last) in expected {
        let cols = get_schema(t).unwrap();
        assert_eq!(cols.len(), n);
        assert_eq!(cols[0].name, first);
        assert_eq!(cols[n - 1].name, last);
        assert!(cols.iter().all(|c| !c.nullable));
    }
}

#[test]
fn column_types_follow_declaration() {
    let cols = get_schema(Table::Lineitem).unwrap();
    assert_eq!(cols[0].ty, ColumnType::Int32);
    assert_eq!(cols[4].ty, ColumnType::Float64);
    assert_eq!(cols[8].ty, ColumnType::Utf8);
    assert_eq!(cols[10].name, "l_shipdate");
}

#[test]
fn composite_selectors_have_no_schema() {
    for t in [Table::OrderLineitem, Table::PartPartSupp] {
        assert_eq!(
            get_schema(t).map(|c| c.len()),
            Err(DbgenError::NoSchemaForCompositeTable { table: t })
        );
    }
}
