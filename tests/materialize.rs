use std::sync::Arc;

use arrow::datatypes::{DataType, Field, Schema};
use arrow_array::{Array, Int32Array, RecordBatch};
use pytpch::error::DbgenError;
use pytpch::materialize::{
    line_in_message, materialize_table, merge_shards, read_tables, strip_record_terminators, Batch,
    TableInput,
};
use pytpch::table::Table;

fn batch(n: i32) -> Batch {
    let schema = Arc::new(Schema::new(vec![Field::new("k", DataType::Int32, false)]));
    let column = Arc::new(Int32Array::from(vec![n]));
    Batch { batch: RecordBatch::try_new(schema, vec![column]).unwrap() }
}

fn first_key(b: &Batch) -> i32 {
    b.batch.column(0).as_any().downcast_ref::<Int32Array>().unwrap().value(0)
}

const ORDERS_A: &str = "1|36901|O|173665.47|1996-01-02|5-LOW|Clerk#000000951|0|nstructions sleep furiously among |\n\
2|78002|O|46929.18|1996-12-01|1-URGENT|Clerk#000000880|0| foxes. pending accounts at the pending|\n";
const ORDERS_B: &str = "3|123314|F|193846.25|1993-10-14|5-LOW|Clerk#000000955|0|sly final accounts boost|\n";

#[test]
fn terminator_artifact_is_removed() {
    assert_eq!(strip_record_terminators(&b"a|b|\nc|d|\n".to_vec()), b"a|b\nc|d\n".to_vec());
    assert_eq!(strip_record_terminators(&b"a||\n|".to_vec()), b"a|\n|".to_vec());
    assert_eq!(strip_record_terminators(&Vec::new()), Vec::<u8>::new());
}

#[test]
fn two_shards_are_concatenated() {
    let shards = vec![ORDERS_A.as_bytes().to_vec(), ORDERS_B.as_bytes().to_vec()];
    let batches = materialize_table(Table::Orders, &shards).unwrap();
    let rows: usize = batches.iter().map(|b| b.batch.num_rows()).sum();
    assert_eq!(rows, 3);
    for b in batches.iter() {
        assert_eq!(b.batch.num_columns(), 9);
        for i in 0..9 {
            assert_eq!(b.batch.column(i).null_count(), 0);
        }
    }
    let last = batches.last().unwrap();
    let keys = last.batch.column(0).as_any().downcast_ref::<arrow_array::Int32Array>().unwrap();
    assert_eq!(keys.value(keys.len() - 1), 3);
}

#[test]
fn bad_row_names_the_shard() {
    let bad = b"x|1|O|1.0|1996-01-02|5-LOW|Clerk#1|0|c|\n".to_vec();
    let shards = vec![ORDERS_A.as_bytes().to_vec(), bad];
    assert!(matches!(
        materialize_table(Table::Orders, &shards),
        Err(DbgenError::RowParseError { table: Table::Orders, file: 1, line: Some(_) })
    ));
}

#[test]
fn composite_selector_is_not_parsed() {
    let shards = vec![ORDERS_A.as_bytes().to_vec()];
    assert!(matches!(
        materialize_table(Table::OrderLineitem, &shards),
        Err(DbgenError::NoSchemaForCompositeTable { table: Table::OrderLineitem })
    ));
}

#[test]
fn read_tables_keeps_names_and_order() {
    let inputs = vec![
        TableInput { table: "orders".to_string(), shards: vec![ORDERS_B.as_bytes().to_vec()] },
        TableInput { table: "region".to_string(), shards: vec![b"0|AFRICA|lar deposits|\n".to_vec()] },
    ];
    let out = read_tables(&inputs).unwrap();
    assert_eq!(out.len(), 2);
    assert_eq!(out[0].table, "orders");
    assert_eq!(out[1].table, "region");
    assert_eq!(out[1].batches[0].batch.num_columns(), 3);
}

#[test]
fn read_tables_rejects_unknown_name() {
    let inputs = vec![TableInput { table: "warehouse".to_string(), shards: vec![] }];
    assert!(matches!(read_tables(&inputs), Err(DbgenError::UnknownTable)));
}

#[test]
fn merge_keeps_shard_order() {
    let parsed = vec![Ok(vec![batch(1)]), Ok(vec![]), Ok(vec![batch(2), batch(3)])];
    let merged = merge_shards(Table::Lineitem, parsed).unwrap();
    let keys: Vec<i32> = merged.iter().map(first_key).collect();
    assert_eq!(keys, vec![1, 2, 3]);
}

#[test]
fn merge_reports_first_failed_shard() {
    let parsed = vec![
        Ok(vec![batch(1)]),
        Err("Parser error: bad value at line 7. Row data".to_string()),
        Err("worse".to_string()),
    ];
    assert!(matches!(
        merge_shards(Table::Part, parsed),
        Err(DbgenError::RowParseError { table: Table::Part, file: 1, line: Some(7) })
    ));
    assert!(merge_shards(Table::Part, Vec::new()).unwrap().is_empty());
}

#[test]
fn line_number_from_parser_message() {
    assert_eq!(
        line_in_message("Parser error: Error while parsing value 'x' as type 'Int32' for column 0 at line 12. Row data: '[x]'"),
        Some(12)
    );
    assert_eq!(line_in_message("incorrect number of fields for line 3, expected 9 got 8"), Some(3));
    assert_eq!(line_in_message("no number here"), None);
    assert_eq!(line_in_message("line x then line 4"), None);
    assert_eq!(line_in_message("at line 99999999999999999999999"), Some(u64::MAX));
}

#[test]
fn read_tables_of_nothing_is_empty() {
    assert!(read_tables(&Vec::new()).unwrap().is_empty());
}

#[test]
fn read_tables_rejects_composite_before_parsing() {
    let inputs = vec![TableInput { table: "order-lineitem".to_string(), shards: vec![b"garbage".to_vec()] }];
    assert!(matches!(
        read_tables(&inputs),
        Err(DbgenError::NoSchemaForCompositeTable { table: Table::OrderLineitem })
    ));
}
