use std::collections::HashMap;

use sql_engine::common::db::{Column, Data, DataType};
use sql_engine::persistence::index::{decode_bucket, decode_index, Index, IndexRow};
use sql_engine::persistence::storage::Storage;

#[test]
fn index_row_int_to_and_from_bytes() {
    let int_column = Column {
        data_type: DataType::INT,
        is_indexed: true,
        name: String::from("id"),
    };
    let value1 = (Data::INT(1), 10);
    let value2 = (Data::INT(8), 5);
    let value3 = (Data::INT(5), 16);
    let index_row = IndexRow {
        hash: 123,
        values: vec![value1, value2, value3],
    };
    assert_eq!(
        index_row,
        IndexRow::from_bytes(index_row.to_bytes(&int_column), &int_column)
    );
}

#[test]
fn index_row_string_to_and_from_bytes() {
    let string_column = Column {
        data_type: DataType::STRING { size: 255 },
        is_indexed: true,
        name: String::from("name"),
    };
    let value1 = (Data::STRING(String::from("Rust")), 10);
    let value2 = (Data::STRING(String::from("is")), 5);
    let value3 = (Data::STRING(String::from("great")), 16);
    let index_row = IndexRow {
        hash: 123,
        values: vec![value1, value2, value3],
    };
    assert_eq!(
        index_row,
        IndexRow::from_bytes(index_row.to_bytes(&string_column), &string_column)
    );
}

fn sample_index() -> Index {
    let index_row1 = IndexRow {
        hash: 123,
        values: vec![
            (Data::STRING(String::from("Rust")), 10),
            (Data::STRING(String::from("is")), 5),
        ],
    };
    let index_row2 = IndexRow {
        hash: 566,
        values: vec![
            (Data::STRING(String::from("just")), 1),
            (Data::STRING(String::from("so")), 12),
        ],
    };
    let index_row3 = IndexRow {
        hash: 99,
        values: vec![
            (Data::STRING(String::from("great")), 99),
            (Data::STRING(String::from("man")), 69),
        ],
    };
    Index {
        rows: HashMap::from([
            (index_row1.hash, index_row1),
            (index_row2.hash, index_row2),
            (index_row3.hash, index_row3),
        ]),
    }
}

#[test]
fn index_to_and_from_bytes() {
    let string_column = Column {
        data_type: DataType::STRING { size: 255 },
        is_indexed: true,
        name: String::from("name"),
    };
    let index = sample_index();
    assert_eq!(
        index,
        Index::from_bytes(index.to_bytes(&string_column), &string_column)
    );
}

#[test]
fn index_creation_and_loading() {
    let string_column = Column {
        data_type: DataType::STRING { size: 255 },
        is_indexed: true,
        name: String::from("name"),
    };
    let index = sample_index();
    let mut storage = Storage::new();
    let file_name = String::from("index1");
    assert!(index
        .write_index_to_file(&mut storage, file_name.clone(), &string_column)
        .is_ok());
    let loaded_index = Index::load(&storage, file_name.clone(), &string_column).unwrap();
    assert_eq!(index, loaded_index);
    assert!(storage.remove("index1"));
    assert!(Index::load(&storage, file_name, &string_column).is_err());
}

#[test]
fn bucket_record_layout() {
    let int_column = Column {
        data_type: DataType::INT,
        is_indexed: true,
        name: String::from("id"),
    };
    let bucket = IndexRow {
        hash: 0x0102,
        values: vec![(Data::INT(7), 3), (Data::NULL, 4)],
    };
    let bytes = bucket.to_bytes(&int_column);
    let expected: Vec<u8> = vec![
        0, 0, 0, 0, 0, 0, 0, 32, // length of the entries
        0, 0, 0, 0, 0, 0, 1, 2, // hash
        0, 0, 0, 0, 0, 0, 0, 7, 0, 0, 0, 0, 0, 0, 0, 3, // 7 in row 3
        1, 0, 0, 0, 0, 0, 0, 0, 0, 0, 0, 0, 0, 0, 0, 4, // NULL in row 4
    ];
    assert_eq!(bytes, expected);
    assert_eq!(IndexRow::parse_u64(&bytes, 8), 0x0102);
    assert_eq!(decode_bucket(&bytes, &int_column), Some(bucket));
    assert_eq!(decode_bucket(&bytes[..40], &int_column), None);
    let mut odd = bytes.clone();
    odd[7] = 31;
    assert_eq!(decode_bucket(&odd, &int_column), None);
    assert_eq!(decode_bucket(&bytes[..10], &int_column), None);
}

#[test]
fn index_file_of_no_buckets_and_of_broken_bytes() {
    let int_column = Column {
        data_type: DataType::INT,
        is_indexed: true,
        name: String::from("id"),
    };
    let empty = Index { rows: HashMap::new() };
    assert!(empty.to_bytes(&int_column).is_empty());
    assert_eq!(decode_index(&[], &int_column), Some(empty));
    assert_eq!(decode_index(&[0, 0, 0], &int_column), None);
    let bucket = IndexRow { hash: 5, values: vec![] };
    let mut bytes = bucket.to_bytes(&int_column);
    assert_eq!(bytes.len(), 16);
    let decoded = decode_index(&bytes, &int_column).unwrap();
    assert_eq!(decoded.rows.len(), 1);
    assert_eq!(decoded.rows.get(&5), Some(&bucket));
    bytes[7] = 1;
    assert_eq!(decode_index(&bytes, &int_column), None);
}
