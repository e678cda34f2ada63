use four_byte_counts::aggregate::prepare_block_request;
use four_byte_counts::aggregate::prepare_transaction_request;
use four_byte_counts::process_storage_reads;
use four_byte_counts::CollectError;
use four_byte_counts::FourByteCounts;
use four_byte_counts::Schema;
use four_byte_counts::Schemas;
use four_byte_counts::TraceResponse;

fn schema_with_all_columns() -> Schema {
    Schema::all_columns()
}

fn entry(key: &str, count: u64) -> (String, u64) {
    (key.to_owned(), count)
}

/// Two transactions with 3 and 1 encoded-key entries, keys already in
/// lexicographic order within each transaction.
fn synthetic_response() -> TraceResponse {
    TraceResponse {
        block_number: Some(1234),
        transaction_hashes: vec![Some(vec![0x11, 0x22]), Some(vec![0x33, 0x44])],
        counters: vec![
            vec![
                entry("00aa-1", 5),
                entry("11bb-2", 6),
                entry("22cc-3", 7),
            ],
            vec![entry("33dd-4", 8)],
        ],
    }
}

#[test]
fn aggregation_emits_rows_in_transaction_then_key_order() {
    let schemas = Schemas { four_byte_counts: Some(schema_with_all_columns()) };
    let mut table = FourByteCounts::new();
    let response = synthetic_response();

    let result = process_storage_reads(&response, &mut table, &schemas, 10);
    assert!(result.is_ok());

    assert_eq!(table.n_rows, 4);
    assert_eq!(
        table.transaction_index,
        vec![Some(0), Some(0), Some(0), Some(1)]
    );
    assert_eq!(
        table.signature,
        vec![vec![0x00, 0xaa], vec![0x11, 0xbb], vec![0x22, 0xcc], vec![0x33, 0xdd]]
    );
    assert_eq!(table.size, vec![1, 2, 3, 4]);
    assert_eq!(table.count, vec![5, 6, 7, 8]);
    assert_eq!(
        table.block_number,
        vec![Some(1234), Some(1234), Some(1234), Some(1234)]
    );
    assert_eq!(
        table.transaction_hash,
        vec![
            Some(vec![0x11, 0x22]),
            Some(vec![0x11, 0x22]),
            Some(vec![0x11, 0x22]),
            Some(vec![0x33, 0x44]),
        ]
    );
    assert_eq!(table.chain_id, vec![10, 10, 10, 10]);
}

#[test]
fn unrequested_column_stays_empty_while_rows_grow() {
    let mut schema = schema_with_all_columns();
    schema.transaction_hash = false;
    let schemas = Schemas { four_byte_counts: Some(schema) };
    let mut table = FourByteCounts::new();
    let response = synthetic_response();

    let result = process_storage_reads(&response, &mut table, &schemas, 10);
    assert!(result.is_ok());

    assert!(table.n_rows > 0);
    assert_eq!(table.transaction_hash.len(), 0);
    assert_eq!(table.transaction_index.len(), 4);
}

#[test]
fn missing_schema_aborts_before_any_row() {
    let schemas = Schemas { four_byte_counts: None };
    let mut table = FourByteCounts::new();
    let response = synthetic_response();

    let result = process_storage_reads(&response, &mut table, &schemas, 10);
    assert_eq!(result, Err(CollectError::SchemaNotProvided));
    assert_eq!(table.n_rows, 0);
    assert_eq!(table.signature.len(), 0);
}

#[test]
fn one_bad_key_aborts_the_whole_request() {
    let schemas = Schemas { four_byte_counts: Some(schema_with_all_columns()) };
    let mut table = FourByteCounts::new();
    let response = TraceResponse {
        block_number: None,
        transaction_hashes: vec![None, None],
        counters: vec![
            vec![entry("00aa-1", 5)],
            vec![entry("nodash", 6), entry("zz-1", 7)],
        ],
    };

    let result = process_storage_reads(&response, &mut table, &schemas, 0);
    assert_eq!(result, Err(CollectError::MalformedPair));
    assert_eq!(table.n_rows, 0, "a failed request leaves the table untouched");
    assert_eq!(table.signature.len(), 0);
}

#[test]
fn missing_hashes_produce_empty_hash_values() {
    let schemas = Schemas { four_byte_counts: Some(schema_with_all_columns()) };
    let mut table = FourByteCounts::new();
    let response = TraceResponse {
        block_number: None,
        transaction_hashes: vec![None],
        counters: vec![vec![entry("ab-1", 2)]],
    };

    let result = process_storage_reads(&response, &mut table, &schemas, 7);
    assert!(result.is_ok());
    assert_eq!(table.n_rows, 1);
    assert_eq!(table.transaction_hash, vec![None]);
    assert_eq!(table.block_number, vec![None]);
}

#[test]
fn full_signature_keys_aggregate_with_placeholder_size() {
    let schemas = Schemas { four_byte_counts: Some(schema_with_all_columns()) };
    let mut table = FourByteCounts::new();
    let response = TraceResponse {
        block_number: Some(1),
        transaction_hashes: vec![Some(vec![0x01])],
        counters: vec![vec![entry("transfer(address,uint256)", 3)]],
    };

    let result = process_storage_reads(&response, &mut table, &schemas, 1);
    assert!(result.is_ok());
    assert_eq!(table.signature, vec![vec![0xa9, 0x05, 0x9c, 0xbb]]);
    assert_eq!(table.size, vec![0]);
    assert_eq!(table.count, vec![3]);
}

#[test]
fn empty_response_yields_empty_table() {
    let schemas = Schemas { four_byte_counts: Some(schema_with_all_columns()) };
    let mut table = FourByteCounts::new();
    let response = TraceResponse {
        block_number: Some(9),
        transaction_hashes: vec![],
        counters: vec![],
    };

    let result = process_storage_reads(&response, &mut table, &schemas, 9);
    assert!(result.is_ok());
    assert_eq!(table.n_rows, 0);
}

#[test]
fn append_row_honors_each_column_flag() {
    let mut schema = schema_with_all_columns();
    schema.block_number = false;
    schema.chain_id = false;
    let mut table = FourByteCounts::new();

    table.append_row(&schema, Some(5), Some(0), None, vec![0xaa], 1, 2, 3);
    assert_eq!(table.n_rows, 1);
    assert_eq!(table.block_number.len(), 0);
    assert_eq!(table.chain_id.len(), 0);
    assert_eq!(table.transaction_index, vec![Some(0)]);
    assert_eq!(table.signature, vec![vec![0xaa]]);
    assert_eq!(table.size, vec![1]);
    assert_eq!(table.count, vec![2]);
}

#[test]
fn default_table_is_empty() {
    let table = FourByteCounts::default();
    assert_eq!(table.n_rows, 0);
    assert_eq!(table.signature.len(), 0);
    assert_eq!(table.chain_id.len(), 0);
}

#[test]
fn schema_membership_test_reports_requested_columns() {
    let mut schema = schema_with_all_columns();
    schema.size = false;
    assert!(schema.has_column("block_number"));
    assert!(schema.has_column("transaction_hash"));
    assert!(!schema.has_column("size"));
    assert!(!schema.has_column("no_such_column"));
}

#[test]
fn block_driver_reports_whether_hashes_are_needed() {
    let mut schema = schema_with_all_columns();
    schema.transaction_hash = false;
    let schemas = Schemas { four_byte_counts: Some(schema) };
    assert_eq!(prepare_block_request(&schemas), Ok(false));

    schema.transaction_hash = true;
    let schemas = Schemas { four_byte_counts: Some(schema) };
    assert_eq!(prepare_block_request(&schemas), Ok(true));

    let schemas = Schemas { four_byte_counts: None };
    assert_eq!(
        prepare_block_request(&schemas),
        Err(CollectError::SchemaNotProvided)
    );
}

#[test]
fn transaction_driver_reports_whether_block_number_is_needed() {
    let mut schema = schema_with_all_columns();
    schema.block_number = false;
    let schemas = Schemas { four_byte_counts: Some(schema) };
    assert_eq!(prepare_transaction_request(&schemas), Ok(false));

    schema.block_number = true;
    let schemas = Schemas { four_byte_counts: Some(schema) };
    assert_eq!(prepare_transaction_request(&schemas), Ok(true));

    let schemas = Schemas { four_byte_counts: None };
    assert_eq!(
        prepare_transaction_request(&schemas),
        Err(CollectError::SchemaNotProvided)
    );
}

#[test]
fn dataset_alias_is_4byte_counts() {
    assert_eq!(FourByteCounts::aliases(), vec!["4byte_counts"]);
}
