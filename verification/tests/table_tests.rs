use sql_engine::common::db::{Column, Data, DataType, Row};
use sql_engine::persistence::errors::PersistenceErrors;
use sql_engine::persistence::index::{Index, IndexRow};
use sql_engine::persistence::row::{PersistenceData, PersistenceRow};
use sql_engine::persistence::storage::Storage;
use sql_engine::persistence::table::{build_index, decode_table, Table};
use sql_engine::persistence::table_iterator::RowsIterator;

#[test]
fn table_to_and_from_bytes() {
    let string_data_type = DataType::STRING { size: 255 };
    let column_name = Column {
        name: String::from("Name"),
        data_type: string_data_type,
        is_indexed: false,
    };
    let column_id = Column {
        name: String::from("Id"),
        data_type: DataType::INT,
        is_indexed: false,
    };
    let table = Table {
        name: String::from("Table"),
        columns: vec![column_name, column_id],
    };
    let table_from_bytes = Table::from_bytes(table.to_bytes());

    assert_eq!(table.name, table_from_bytes.name);
    assert_eq!(table_from_bytes.columns.len(), 2usize);
    let column_name_from_bytes = &table_from_bytes.columns[0];
    assert_eq!(column_name_from_bytes.name, String::from("Name"));
    match column_name_from_bytes.data_type {
        DataType::STRING { size } => {
            assert_eq!(size, 255);
        }
        _ => {
            panic!();
        }
    }
    let column_id_from_bytes = &table_from_bytes.columns[1];
    assert_eq!(column_id_from_bytes.name, String::from("Id"));
    match column_id_from_bytes.data_type {
        DataType::INT => {
            assert_eq!(1, 1);
        }
        _ => {
            panic!();
        }
    }
}

#[test]
fn table_create() {
    let mut storage = Storage::new();
    let table = create_table("Table", false);
    assert!(table.create(&mut storage).is_ok());
    assert!(storage.contains(&table.name));
    let table_rows_path = table.table_rows_name();
    assert!(storage.contains(&table_rows_path));
    assert_eq!(storage.read(&table.name).unwrap(), &table.to_bytes());
    assert!(storage.read(&table_rows_path).unwrap().is_empty());
    assert!(table.drop(&mut storage).is_ok())
}

fn create_table(name: &str, indexed: bool) -> Table {
    let string_data_type = DataType::STRING { size: 255 };
    let column_name = Column {
        name: String::from("Name"),
        data_type: string_data_type,
        is_indexed: false,
    };
    let column_id = Column {
        name: String::from("Id"),
        data_type: DataType::INT,
        is_indexed: indexed,
    };
    let table = Table {
        name: String::from(name),
        columns: vec![column_name, column_id],
    };
    table
}

fn expected_id_buckets() -> Vec<IndexRow> {
    let int_data = Data::INT(8);
    let int_data2 = Data::INT(10);
    let int_data3 = Data::INT(1);
    vec![
        IndexRow {
            hash: int_data.calculate_hash(),
            values: vec![(int_data, 0)],
        },
        IndexRow {
            hash: int_data2.calculate_hash(),
            values: vec![(int_data2, 2)],
        },
        IndexRow {
            hash: int_data3.calculate_hash(),
            values: vec![(int_data3, 1)],
        },
    ]
}

#[test]
fn table_indexes() {
    let mut storage = Storage::new();
    let (table, _row) = insert_data(&mut storage, "Table7", true);
    insert_row(
        &mut storage,
        &table,
        String::from("We will surely finish this project."),
        1,
    );
    insert_row(&mut storage, &table, String::from("I am sure about it."), 10);
    let column_id = Column {
        name: String::from("Id"),
        data_type: DataType::INT,
        is_indexed: true,
    };
    let string = table.get_index_file_name(&column_id);
    assert_eq!(string, "Table7Id_index");
    assert!(storage.contains(&string));
    let loaded_index = Index::load(&storage, string, &column_id).unwrap();
    assert!(table.drop(&mut storage).is_ok());
    assert!(storage.file_names().is_empty());
    for index_row in expected_id_buckets() {
        assert!(matches!(loaded_index.rows.get(&index_row.hash), Some(row) if *row == index_row));
    }
}

#[test]
fn table_indexes_added_after_creation() {
    let mut storage = Storage::new();
    let (mut table, _row) = insert_data(&mut storage, "Table9", false);
    insert_row(
        &mut storage,
        &table,
        String::from("We will surely finish this project."),
        1,
    );
    insert_row(&mut storage, &table, String::from("I am sure about it."), 10);
    let index_was_created_successfully = table.add_index(&mut storage, 1).is_ok();
    let column_id = Column {
        name: String::from("Id"),
        data_type: DataType::INT,
        is_indexed: true,
    };
    let loaded_table = Table::load(&storage, String::from("Table9")).unwrap();
    assert_eq!(loaded_table, table);
    let string = table.get_index_file_name(&column_id);
    assert!(storage.contains(&string));
    let loaded_index = Index::load(&storage, string, &column_id).unwrap();
    assert!(table.drop(&mut storage).is_ok());
    assert!(index_was_created_successfully);
    for index_row in expected_id_buckets() {
        assert!(matches!(loaded_index.rows.get(&index_row.hash), Some(row) if *row == index_row));
    }
}

#[test]
fn table_indexes_deletion() {
    let mut storage = Storage::new();
    let (mut table, _row) = insert_data(&mut storage, "Table10", true);
    insert_row(
        &mut storage,
        &table,
        String::from("We will surely finish this project."),
        1,
    );
    assert!(table.remove_index(&mut storage, 1).is_ok());
    let loaded_table = Table::load(&storage, String::from("Table10")).unwrap();
    assert_eq!(table, loaded_table);
    assert!(!storage.contains("Table10Id_index"));
    assert!(table.drop(&mut storage).is_ok());
}

#[test]
fn table_load() {
    let mut storage = Storage::new();
    let name = String::from("Table4");
    let table = create_table(name.clone().as_str(), false);
    assert!(table.create(&mut storage).is_ok());
    let loaded_table = Table::load(&storage, name).unwrap();
    assert!(table.drop(&mut storage).is_ok());
    assert_eq!(loaded_table, table);
}

#[test]
fn table_insert() {
    let mut storage = Storage::new();
    let (table, row) = insert_data(&mut storage, "Table1", false);
    let table_rows_path = table.table_rows_name();
    assert_eq!(
        storage.read(&table_rows_path).unwrap(),
        &row.to_bytes(&table.columns)
    );
    assert!(table.drop(&mut storage).is_ok())
}

#[test]
fn row_seeking() {
    let mut storage = Storage::new();
    let (table, row) = insert_data(&mut storage, "Table6", false);
    let row1 = insert_row(
        &mut storage,
        &table,
        String::from("We will surely finish this project."),
        1,
    );
    let row2 = insert_row(&mut storage, &table, String::from("I am sure about it."), 10);
    assert_eq!(table.seek_row(&storage, 0).unwrap(), row);
    assert_eq!(table.seek_row(&storage, 1).unwrap(), row1);
    assert_eq!(table.seek_row(&storage, 2).unwrap(), row2);
    assert!(table.seek_row(&storage, 3).is_err());
    assert!(table.drop(&mut storage).is_ok())
}

#[test]
fn delete_row() {
    let mut storage = Storage::new();
    let (table, row) = insert_data(&mut storage, "Table8", false);
    insert_row(
        &mut storage,
        &table,
        String::from("We will surely finish this project."),
        1,
    );
    insert_row(&mut storage, &table, String::from("I am sure about it."), 10);
    let row3 = insert_row(
        &mut storage,
        &table,
        String::from("This should not be deleted"),
        11,
    );
    table.delete_rows(&mut storage, vec![1, 2]).unwrap();
    let rows: Vec<Row> = RowsIterator::from_table(&table, &storage)
        .unwrap()
        .into_rows();
    assert!(table.drop(&mut storage).is_ok());
    assert_eq!(rows.len(), 2);
    assert_eq!(rows.get(0).unwrap(), &row);
    assert_eq!(rows.get(1).unwrap(), &row3);
}

#[test]
fn table_iterator() {
    let mut storage = Storage::new();
    let (table, row) = insert_data(&mut storage, "Table2", false);
    let row1 = insert_row(
        &mut storage,
        &table,
        String::from("We will surely finish this project."),
        1,
    );
    let row2 = insert_row(&mut storage, &table, String::from("I am sure about it."), 10);
    let rows_iterator = RowsIterator::from_table(&table, &storage);
    assert!(rows_iterator.is_ok());
    let mut rows_iterator = rows_iterator.unwrap();
    assert_eq!(rows_iterator.count(), 3);
    assert_eq!(rows_iterator.next().unwrap(), row);
    assert_eq!(rows_iterator.next().unwrap(), row1);
    assert_eq!(rows_iterator.next().unwrap(), row2);
    assert!(rows_iterator.next().is_none());
    assert!(table.drop(&mut storage).is_ok())
}

fn insert_data(storage: &mut Storage, name: &str, indexed: bool) -> (Table, Row) {
    let table = create_table(name, indexed);
    table.create(storage).unwrap();
    let row = insert_row(storage, &table, String::from("Best SQL Server"), 8);
    (table, row)
}

fn insert_row(storage: &mut Storage, table: &Table, string: String, int: i32) -> Row {
    let string_value = string;
    let row = Row {
        values: vec![Data::STRING(string_value.clone()), Data::INT(int)],
    };
    assert!(table.insert_row(storage, &row).is_ok());
    row
}

#[test]
fn table_store_errors() {
    let mut storage = Storage::new();
    let mut table = create_table("Missing", true);
    assert_eq!(table.get_row_size(), 263);
    assert!(table.check_row_size());
    assert_eq!(table.drop(&mut storage), Err(PersistenceErrors::TableDrop));
    assert_eq!(
        Table::load(&storage, "Missing".into()),
        Err(PersistenceErrors::TableLoading)
    );
    let row = Row { values: vec![Data::NULL, Data::INT(1)] };
    assert_eq!(table.insert_row(&mut storage, &row), Err(PersistenceErrors::Insert));
    assert_eq!(table.seek_row(&storage, 0), Err(PersistenceErrors::RowSeeking));
    assert_eq!(
        table.generate_indexes(&mut storage),
        Err(PersistenceErrors::TableLoading)
    );
    assert_eq!(
        table.delete_rows(&mut storage, vec![0]),
        Err(PersistenceErrors::TableLoading)
    );
    assert_eq!(table.add_index(&mut storage, 2), Err(PersistenceErrors::IndexCreating));
    assert_eq!(table.remove_index(&mut storage, 2), Err(PersistenceErrors::IndexCreating));
    assert_eq!(table.add_index(&mut storage, 0), Err(PersistenceErrors::TableLoading));
    assert!(RowsIterator::from_table(&table, &storage).is_err());
    assert!(table.get_index(&storage, &table.columns[1]).is_err());
    assert!(storage.file_names().is_empty());
    storage.write("Missing", vec![1, 2, 3]);
    assert_eq!(
        Table::load(&storage, "Missing".into()),
        Err(PersistenceErrors::TableLoading)
    );
    storage.write("Missing_rows", vec![1, 2, 3]);
    assert_eq!(
        table.generate_indexes(&mut storage),
        Err(PersistenceErrors::TableLoading)
    );
    assert_eq!(table.remove_index(&mut storage, 1), Err(PersistenceErrors::TableDrop));
    assert_eq!(decode_table(storage.read("Missing").unwrap()).unwrap(), table);
    assert_eq!(PersistenceErrors::TableDrop.message(), "Table wasn't dropped.");
}

#[test]
fn storage_files() {
    let mut storage = Storage::new();
    assert!(!storage.contains("a"));
    storage.write("a", vec![1]);
    storage.write("b", vec![2]);
    storage.write("a", vec![3]);
    assert_eq!(storage.read("a"), Some(&vec![3]));
    assert!(storage.append("a", &[4, 5]));
    assert!(!storage.append("c", &[4, 5]));
    assert_eq!(storage.read("a"), Some(&vec![3, 4, 5]));
    assert_eq!(storage.file_names(), vec!["a", "b"]);
    assert!(storage.remove("a"));
    assert!(!storage.remove("a"));
    assert_eq!(storage.read("a"), None);
    assert_eq!(storage.read("b"), Some(&vec![2]));
}

#[test]
fn index_groups_rows_by_value() {
    let rows = vec![
        Row { values: vec![Data::INT(2), Data::STRING("a".into())] },
        Row { values: vec![Data::INT(3), Data::STRING("b".into())] },
        Row { values: vec![Data::INT(2), Data::STRING("c".into())] },
    ];
    let index = build_index(&rows, 0);
    assert_eq!(index.rows.len(), 2);
    let two = Data::INT(2);
    assert_eq!(
        index.rows.get(&two.calculate_hash()).unwrap(),
        &IndexRow {
            hash: two.calculate_hash(),
            values: vec![(Data::INT(2), 0), (Data::INT(2), 2)],
        }
    );
    let three = Data::INT(3);
    assert_eq!(
        index.rows.get(&three.calculate_hash()).unwrap().values,
        vec![(Data::INT(3), 1)]
    );
}

#[test]
fn create_makes_empty_index_files() {
    let mut storage = Storage::new();
    let table = create_table("T", true);
    table.create(&mut storage).unwrap();
    assert_eq!(storage.file_names(), vec!["T", "T_rows", "TId_index"]);
    assert!(storage.read("TId_index").unwrap().is_empty());
    assert!(table.drop(&mut storage).is_ok());
    assert!(storage.file_names().is_empty());
}

#[test]
fn index_of_a_missing_file_cannot_be_loaded() {
    let storage = Storage::new();
    let table = create_table("T", true);
    assert_eq!(
        table.get_index(&storage, &table.columns[1]),
        Err(PersistenceErrors::IndexLoading)
    );
    assert_eq!(
        table.read_table_rows_bytes(&storage),
        Err(PersistenceErrors::TableLoading)
    );
}

#[test]
fn inserts_add_one_row_each() {
    let mut storage = Storage::new();
    let (table, first) = insert_data(&mut storage, "Count", true);
    let mut expected = vec![first];
    for number in 0..20 {
        expected.push(insert_row(&mut storage, &table, format!("row {}", number), number));
        let rows = RowsIterator::from_table(&table, &storage).unwrap().into_rows();
        assert_eq!(rows, expected);
    }
    let index = table.get_index(&storage, &table.columns[1]).unwrap();
    let total: usize = index.rows.values().map(|bucket| bucket.values.len()).sum();
    assert_eq!(total, 21);
}
