use pytpch::discovery::{discover, file_belongs_to, find, order_shards, shard_index, table_prefix};

fn names(v: &[&str]) -> Vec<String> {
    v.iter().map(|s| s.to_string()).collect()
}

#[test]
fn prefix_is_text_before_marker() {
    assert_eq!(table_prefix("lineitem.tbl.3"), Some("lineitem".to_string()));
    assert_eq!(table_prefix("orders.tbl"), Some("orders".to_string()));
    assert_eq!(table_prefix("dists.dss"), None);
    assert_eq!(table_prefix(".tbl"), Some(String::new()));
}

#[test]
fn find_first_occurrence() {
    assert_eq!(find("abcabc", "bc"), Some(1));
    assert_eq!(find("abc", "abcd"), None);
    assert_eq!(find("abc", ""), Some(0));
    assert_eq!(find("a.tbl.tbl", ".tbl"), Some(1));
}

#[test]
fn membership_by_table_and_marker() {
    assert!(file_belongs_to("lineitem.tbl", "lineitem"));
    assert!(file_belongs_to("lineitem.tbl.3", "lineitem"));
    assert!(!file_belongs_to("partsupp.tbl", "part"));
    assert!(file_belongs_to("partsupp.tbl", "supp"));
    assert!(!file_belongs_to("orders.dat", "orders"));
}

#[test]
fn groups_shards_by_table() {
    let listing = names(&["orders.tbl", "dists.dss", "part.tbl", "orders.tbl.2", "partsupp.tbl"]);
    let groups = discover(&listing);
    let tables: Vec<&str> = groups.iter().map(|g| g.table.as_str()).collect();
    assert_eq!(tables, vec!["orders", "part", "partsupp"]);
    assert_eq!(groups[0].files, names(&["orders.tbl", "orders.tbl.2"]));
    assert_eq!(groups[1].files, names(&["part.tbl"]));
    assert_eq!(groups[2].files, names(&["partsupp.tbl"]));
}

#[test]
fn empty_listing_has_no_tables() {
    assert!(discover(&Vec::new()).is_empty());
    assert!(discover(&names(&["dists.dss"])).is_empty());
}

#[test]
fn shard_index_reads_trailing_digits() {
    assert_eq!(shard_index("orders.tbl"), 0);
    assert_eq!(shard_index("orders.tbl.2"), 2);
    assert_eq!(shard_index("lineitem.tbl.10"), 10);
    assert_eq!(shard_index("x.tbl.99999999999999999999999"), u64::MAX);
}

#[test]
fn shards_are_ordered_by_index() {
    let files = names(&["orders.tbl.10", "orders.tbl.2", "orders.tbl.1"]);
    assert_eq!(order_shards(&files), names(&["orders.tbl.1", "orders.tbl.2", "orders.tbl.10"]));
    let listing = names(&["lineitem.tbl.3", "lineitem.tbl.1", "lineitem.tbl.2"]);
    let groups = discover(&listing);
    assert_eq!(groups.len(), 1);
    assert_eq!(groups[0].files, names(&["lineitem.tbl.1", "lineitem.tbl.2", "lineitem.tbl.3"]));
}
