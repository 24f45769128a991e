use pytpch::error::DbgenError;
use pytpch::table::Table;

const ALL: [(Table, &str, u32); 10] = [
    (Table::Part, "part", 0),
    (Table::PartSupp, "partsupp", 1),
    (Table::Supplier, "supplier", 2),
    (Table::Customer, "customer", 3),
    (Table::Orders, "orders", 4),
    (Table::Lineitem, "lineitem", 5),
    (Table::OrderLineitem, "order-lineitem", 6),
    (Table::PartPartSupp, "part-partsupp", 7),
    (Table::Nation, "nation", 8),
    (Table::Region, "region", 9),
];

#[test]
fn names_round_trip() {
    for (t, name, _) in ALL.iter() {
        let parsed = Table::from_str(name).unwrap();
        assert_eq!(parsed, *t);
        assert_eq!(parsed.to_string(), *name);
    }
}

#[test]
fn codes_are_stable() {
    for (t, _, code) in ALL.iter() {
        assert_eq!(t.code(), *code);
    }
}

#[test]
fn unknown_names_fail() {
    for name in ["", "Part", "parts", "part ", "order", "lineitems", "order_lineitem", "tbl"] {
        assert_eq!(Table::from_str(name), Err(DbgenError::UnknownTable));
    }
}

#[test]
fn composite_selectors() {
    for (t, _, _) in ALL.iter() {
        let composite = *t == Table::OrderLineitem || *t == Table::PartPartSupp;
        assert_eq!(t.is_composite(), composite);
    }
}
