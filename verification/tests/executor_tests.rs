use sql_engine::common::db::{Column, Data, DataType, Row};
use sql_engine::parser::errors::ParseError;
use sql_engine::parser::expression_tree_eval::{NodeValue, Number, NumberBinOp};
use sql_engine::parser::query_parser::parse;
use sql_engine::persistence::errors::PersistenceErrors;
use sql_engine::persistence::storage::Storage;
use sql_engine::persistence::table::Table;
use sql_engine::transaction_control::errors::QueryError;
use sql_engine::transaction_control::executor::process_query;
use sql_engine::transaction_control::queries::select::QueryResult;
use sql_engine::transaction_control::utils::common::get_columns_definition_map;
use sql_engine::transaction_control::utils::db_info::{
    add_to_info_table, create_info_table, remove_from_info_table,
};

fn read_float(s: &str) -> Option<u64> {
    s.parse::<f64>().ok().map(|f| f.to_bits())
}

fn as_float(n: Number) -> f64 {
    match n {
        Number::Int(i) => i as f64,
        Number::Float(bits) => f64::from_bits(bits),
    }
}

fn float_op(op: NumberBinOp, a: Number, b: Number) -> NodeValue {
    let f1 = as_float(a);
    let f2 = as_float(b);
    match op {
        NumberBinOp::Add => NodeValue::Float((f1 + f2).to_bits()),
        NumberBinOp::Sub => NodeValue::Float((f1 - f2).to_bits()),
        NumberBinOp::Mul => NodeValue::Float((f1 * f2).to_bits()),
        NumberBinOp::Div => NodeValue::Float((f1 / f2).to_bits()),
        NumberBinOp::Mod => NodeValue::Float((f1 % f2).to_bits()),
        NumberBinOp::Greater => NodeValue::Bool(f1 > f2),
        NumberBinOp::Less => NodeValue::Bool(f1 < f2),
        NumberBinOp::GreaterEqual => NodeValue::Bool(f1 >= f2),
        NumberBinOp::LessEqual => NodeValue::Bool(f1 <= f2),
        NumberBinOp::Equal => NodeValue::Bool(f1 == f2),
        NumberBinOp::NotEqual => NodeValue::Bool(f1 != f2),
    }
}

fn run(storage: &mut Storage, query: &str) -> QueryResult {
    process_query(query, storage, &read_float, &float_op)
}

fn storage_with_catalog() -> Storage {
    let mut storage = Storage::new();
    assert!(create_info_table(&mut storage).is_ok());
    storage
}

fn drop_table(storage: &mut Storage, table_name: &str) {
    assert!(
        run(storage, format!("DROP TABLE {}", table_name).as_str()).is_ok(),
        "Table not dropped"
    );
}

fn create_and_fill(storage: &mut Storage, table_name: &str, rows: &[&str]) {
    assert!(
        run(storage, format!("CREATE TABLE {} x int, y varchar", table_name).as_str()).is_ok(),
        "Table not created"
    );
    for row in rows {
        assert!(
            run(storage, format!("INSERT INTO {} VALUES {}", table_name, row).as_str()).is_ok(),
            "Row should be successfully inserted"
        );
    }
}

fn indexed_table(storage: &mut Storage, table_name: &str) -> Table {
    let column1 = Column {
        name: String::from("Id"),
        data_type: DataType::INT,
        is_indexed: true,
    };
    let column2 = Column {
        name: String::from("Name"),
        data_type: DataType::STRING { size: 256 },
        is_indexed: false,
    };
    let table = Table {
        name: String::from(table_name),
        columns: vec![column1, column2],
    };
    assert!(table.create(storage).is_ok());
    table
}

#[test]
fn test_create_and_drop_table() {
    let table_name = "test_create_and_drop_table";
    let mut storage = Storage::new();
    assert!(
        run(
            &mut storage,
            format!(
                "CREATE TABLE {} x int, y varchar, bool_column boolean",
                table_name
            )
            .as_str()
        )
        .is_ok(),
        "Table not created"
    );
    assert!(storage.contains(table_name), "File for table not created");
    assert!(
        run(&mut storage, format!("DROP TABLE {}", table_name).as_str()).is_ok(),
        "Table not dropped"
    );
    assert!(!storage.contains(table_name), "File for table still exists");
}

#[test]
fn test_table_already_exists() {
    let table_name = "test_table_already_exists";
    let mut storage = Storage::new();
    assert!(
        run(
            &mut storage,
            format!("CREATE TABLE {} x int, y varchar", table_name).as_str()
        )
        .is_ok(),
        "Table not created"
    );
    assert!(storage.contains(table_name), "File for table not created");
    assert!(
        run(
            &mut storage,
            format!("CREATE TABLE {} x int, y varchar", table_name).as_str()
        )
        .is_err(),
        "Table should not be created because it already exists"
    );
    drop_table(&mut storage, table_name);
}

#[test]
fn test_insert_row() {
    let table_name = "test_insert_row";
    let mut storage = Storage::new();
    assert!(
        run(
            &mut storage,
            format!("CREATE TABLE {} x int, y int", table_name).as_str()
        )
        .is_ok(),
        "Table not created"
    );
    assert!(
        run(
            &mut storage,
            format!("INSERT INTO {} VALUES 24, 107", table_name).as_str()
        )
        .is_ok(),
        "Row not inserted"
    );

    let result = run(&mut storage, format!("SELECT * FROM {}", table_name).as_str());
    assert!(result.is_ok(), "Select failed");
    let data = result.unwrap().data.unwrap().rows;
    assert!(data.len() == 1, "Table should have only one row");
    assert!(data[0].values.len() == 2, "Row should have two values");
    assert_eq!(data[0].values[0], Data::INT(24));
    assert_eq!(data[0].values[1], Data::INT(107));

    drop_table(&mut storage, table_name);
}

#[test]
fn test_insert_row_only_subset_of_columns() {
    let table_name = "test_insert_row_only_subset_of_columns";
    let mut storage = Storage::new();
    assert!(
        run(
            &mut storage,
            format!(
                "CREATE TABLE {} x int, y int, b boolean, f float",
                table_name
            )
            .as_str()
        )
        .is_ok(),
        "Table not created"
    );
    assert!(
        run(
            &mut storage,
            format!("INSERT INTO {} (x, b) VALUES (24, true)", table_name).as_str()
        )
        .is_ok(),
        "Row not inserted"
    );

    let result = run(&mut storage, format!("SELECT * FROM {}", table_name).as_str());
    assert!(result.is_ok(), "Select failed");
    let data = result.unwrap().data.unwrap().rows;
    assert!(data.len() == 1, "Table should have only one row");
    assert!(data[0].values.len() == 4, "Row should have four values");
    assert_eq!(data[0].values[0], Data::INT(24));
    assert_eq!(data[0].values[1], Data::NULL);
    assert_eq!(data[0].values[2], Data::BOOLEAN(true));
    assert_eq!(data[0].values[3], Data::NULL);

    drop_table(&mut storage, table_name);
}

#[test]
fn test_insert_row_with_wrong_amount_of_values() {
    let table_name = "test_insert_row_with_wrong_amount_of_values";
    let mut storage = Storage::new();
    assert!(
        run(
            &mut storage,
            format!("CREATE TABLE {} x int, y int", table_name).as_str()
        )
        .is_ok(),
        "Table not created"
    );
    assert!(
        run(
            &mut storage,
            format!("INSERT INTO {} VALUES 24, 107, 105", table_name).as_str()
        )
        .is_err(),
        "Inserting row should cause error"
    );
    drop_table(&mut storage, table_name);
}

#[test]
fn test_insert_row_with_wrong_datatype_value() {
    let table_name = "test_insert_row_with_wrong_datatype_value";
    let mut storage = Storage::new();
    assert!(
        run(
            &mut storage,
            format!("CREATE TABLE {} x int, y varchar", table_name).as_str()
        )
        .is_ok(),
        "Table not created"
    );
    assert!(
        run(
            &mut storage,
            format!("INSERT INTO {} VALUES 24, 107", table_name).as_str()
        )
        .is_err(),
        "Inserting row should cause error"
    );
    drop_table(&mut storage, table_name);
}

#[test]
fn test_select_basic() {
    let table_name = "test_select_basic";
    let mut storage = Storage::new();
    create_and_fill(&mut storage, table_name, &["24, 'text'", "25, 'text2'"]);

    let result = run(&mut storage, format!("SELECT * FROM {}", table_name).as_str());
    assert!(result.is_ok(), "Select failed");

    let expected = vec![
        Row {
            values: vec![Data::INT(24), Data::STRING("text".to_string())],
        },
        Row {
            values: vec![Data::INT(25), Data::STRING("text2".to_string())],
        },
    ];
    let data = result.unwrap().data.unwrap().rows;
    assert_eq!(expected, data);

    drop_table(&mut storage, table_name);
}

#[test]
fn tests_test_select_with_where() {
    let table_name = "test_select_with_where";
    let mut storage = Storage::new();
    create_and_fill(
        &mut storage,
        table_name,
        &[
            "24, 'text'",
            "25, 'text2'",
            "25, 'text3'",
            "28, 'text4'",
            "2, 'text5'",
        ],
    );

    let result = run(
        &mut storage,
        format!("SELECT * FROM {} WHERE x = 25", table_name).as_str(),
    );
    assert!(result.is_ok(), "Select failed");

    let expected = vec![
        Row {
            values: vec![Data::INT(25), Data::STRING("text2".to_string())],
        },
        Row {
            values: vec![Data::INT(25), Data::STRING("text3".to_string())],
        },
    ];
    let data = result.unwrap().data.unwrap().rows;
    assert_eq!(expected, data);

    drop_table(&mut storage, table_name);
}

#[test]
fn test_select_with_unknown_column() {
    let table_name = "test_select_with_unknown_column";
    let mut storage = Storage::new();
    create_and_fill(&mut storage, table_name, &[]);
    let result = run(
        &mut storage,
        format!("SELECT * FROM {} WHERE unknown = 25", table_name).as_str(),
    );

    assert!(result.is_err(), "Select failed");
    if let Err(e) = result {
        match e {
            QueryError::ColumnNotExists(_, _) => (),
            _ => assert!(false, "The error should be ColumnNotExists"),
        }
    }

    drop_table(&mut storage, table_name);
}

#[test]
fn test_select_projection_with_star() {
    let table_name = "test_select_projection_with_star";
    let mut storage = Storage::new();
    create_and_fill(&mut storage, table_name, &["24, 'text'"]);

    let result = run(
        &mut storage,
        format!("SELECT *, x, x FROM {}", table_name).as_str(),
    );
    assert!(result.is_ok(), "Select failed");

    let expected = vec![Row {
        values: vec![
            Data::INT(24),
            Data::STRING("text".to_string()),
            Data::INT(24),
            Data::INT(24),
        ],
    }];
    let data = result.unwrap().data.unwrap().rows;
    assert_eq!(expected, data);

    drop_table(&mut storage, table_name);
}

#[test]
fn test_select_with_index() {
    let table_name = "test_select_with_index";
    let mut storage = storage_with_catalog();
    indexed_table(&mut storage, table_name);
    for (message, row) in [
        ("Row1 should be successfully inserted", "1, 'text'"),
        ("Row2 should be successfully inserted", "2, 'text2'"),
        ("Row3 should be successfully inserted", "3, 'text3'"),
        ("Row4 should be successfully inserted", "4, 'text4'"),
    ] {
        assert!(
            run(
                &mut storage,
                format!("INSERT INTO {} VALUES {}", table_name, row).as_str()
            )
            .is_ok(),
            "{}",
            message
        );
    }

    let result = run(
        &mut storage,
        format!("SELECT * FROM {} WHERE Id = 2", table_name).as_str(),
    );
    assert!(result.is_ok(), "Select failed");

    let expected = vec![Row {
        values: vec![Data::INT(2), Data::STRING("text2".to_string())],
    }];
    let data = result.unwrap().data.unwrap().rows;
    assert_eq!(expected, data);

    drop_table(&mut storage, table_name);
}

#[test]
fn test_delete_basic() {
    let table_name = "test_delete_basic";
    let mut storage = Storage::new();
    create_and_fill(
        &mut storage,
        table_name,
        &["1, 'text'", "2, 'text2'", "3, 'text3'", "4, 'text4'"],
    );

    let result = run(
        &mut storage,
        format!("DELETE FROM {} WHERE x >= 3", table_name).as_str(),
    );
    assert!(result.is_ok(), "Select failed");
    assert_eq!(
        result.unwrap().message.unwrap(),
        format!("Deleted 2 rows from table {}.", table_name)
    );
    let rows = run(&mut storage, format!("SELECT * FROM {}", table_name).as_str())
        .unwrap()
        .data
        .unwrap()
        .rows;
    assert_eq!(
        rows,
        vec![
            Row { values: vec![Data::INT(1), Data::STRING("text".to_string())] },
            Row { values: vec![Data::INT(2), Data::STRING("text2".to_string())] },
        ]
    );

    drop_table(&mut storage, table_name);
}

#[test]
fn test_delete_all() {
    let table_name = "test_delete_all";
    let mut storage = Storage::new();
    create_and_fill(
        &mut storage,
        table_name,
        &["1, 'text'", "2, 'text2'", "3, 'text3'", "4, 'text4'"],
    );

    let result = run(&mut storage, format!("DELETE FROM {}", table_name).as_str());
    assert!(result.is_ok(), "Select failed");
    assert_eq!(
        result.unwrap().message.unwrap(),
        format!("Deleted 4 rows from table {}.", table_name)
    );

    drop_table(&mut storage, table_name);
}

#[test]
fn test_delete_based_on_index() {
    let table_name = "test_delete_based_on_index";
    let mut storage = storage_with_catalog();
    indexed_table(&mut storage, table_name);
    for row in ["1, 'text'", "2, 'text2'", "2, 'text21'", "3, 'text3'", "4, 'text4'"] {
        assert!(
            run(
                &mut storage,
                format!("INSERT INTO {} VALUES {}", table_name, row).as_str()
            )
            .is_ok(),
            "Row should be successfully inserted"
        );
    }

    let result = run(
        &mut storage,
        format!("DELETE FROM {} WHERE Id = 2", table_name).as_str(),
    );
    assert!(result.is_ok(), "Select failed");
    assert_eq!(
        result.unwrap().message.unwrap(),
        format!("Deleted 2 rows from table {}.", table_name)
    );

    drop_table(&mut storage, table_name);
}

#[test]
fn test_select_float_with_index() {
    let table_name = "test_select_float_with_index";
    let mut storage = storage_with_catalog();
    let column1 = Column {
        name: String::from("Id"),
        data_type: DataType::INT,
        is_indexed: false,
    };
    let column2 = Column {
        name: String::from("float_column"),
        data_type: DataType::FLOAT,
        is_indexed: true,
    };
    let table = Table {
        name: String::from(table_name),
        columns: vec![column1, column2],
    };
    assert!(table.create(&mut storage).is_ok());

    for row in ["1, 1.11", "2, 2.22", "3, 3.33"] {
        assert!(
            run(
                &mut storage,
                format!("INSERT INTO {} VALUES {}", table_name, row).as_str()
            )
            .is_ok(),
            "Row should be successfully inserted"
        );
    }
    let result = run(
        &mut storage,
        format!("SELECT * FROM {} WHERE float_column = 2.22", table_name).as_str(),
    );
    assert!(result.is_ok(), "Select failed");

    let expected = vec![Row {
        values: vec![Data::INT(2), Data::FLOAT(2.22f64.to_bits())],
    }];
    let data = result.unwrap().data.unwrap().rows;
    assert_eq!(expected, data);

    drop_table(&mut storage, table_name);
}

#[test]
fn test_create_drop_index() {
    let table_name = "test_create_drop_index";
    let mut storage = Storage::new();
    create_and_fill(
        &mut storage,
        table_name,
        &["1, 'text'", "2, 'text2'", "2, 'text21'"],
    );

    assert!(
        run(&mut storage, format!("CREATE INDEX x ON {}", table_name).as_str()).is_ok(),
        "Index on column x should be created"
    );
    let table_after_index_creation = Table::load(&storage, table_name.to_string()).unwrap();
    assert_eq!(
        table_after_index_creation
            .columns
            .get(0)
            .unwrap()
            .is_indexed,
        true
    );

    let result = run(
        &mut storage,
        format!("SELECT * FROM {} WHERE x = 1", table_name).as_str(),
    );
    assert!(result.is_ok(), "Select failed");

    let expected = vec![Row {
        values: vec![Data::INT(1), Data::STRING("text".to_string())],
    }];
    let data = result.unwrap().data.unwrap().rows;
    assert_eq!(expected, data);

    assert!(
        run(&mut storage, format!("DROP INDEX x ON {}", table_name).as_str()).is_ok(),
        "Index on column x should be dropped"
    );

    let table_after_index_drop = Table::load(&storage, table_name.to_string()).unwrap();
    assert_eq!(
        table_after_index_drop.columns.get(0).unwrap().is_indexed,
        false
    );

    drop_table(&mut storage, table_name);
}

#[test]
fn simple_table_creation() {
    let mut storage = Storage::new();
    let created = run(&mut storage, "CREATE TABLE employees name varchar, age int").unwrap();
    assert_eq!(created.message, Some("Table employees created.".to_string()));
    let dropped = run(&mut storage, "DROP TABLE employees").unwrap();
    assert_eq!(dropped.message, Some("Table employees dropped.".to_string()));
}

#[test]
fn insert_data_in_table() {
    let mut storage = Storage::new();
    assert!(run(&mut storage, "CREATE TABLE people name varchar, age int").is_ok());
    assert!(run(&mut storage, "INSERT INTO people VALUES 'John', 30").is_ok());
    assert!(run(&mut storage, "INSERT INTO people VALUES 'Jane', 25").is_ok());
    assert!(run(&mut storage, "DELETE FROM people WHERE age > 10").is_ok());
    assert!(run(&mut storage, "DROP TABLE people").is_ok());
}

#[test]
fn scenario_select_where_age() {
    let mut storage = Storage::new();
    assert!(run(&mut storage, "CREATE TABLE people name varchar, age int").is_ok());
    assert!(run(&mut storage, "INSERT INTO people VALUES 'John', 30").is_ok());
    assert!(run(&mut storage, "INSERT INTO people VALUES 'Jane', 25").is_ok());
    let result = run(&mut storage, "SELECT * FROM people WHERE age > 25").unwrap();
    assert_eq!(result.message.unwrap(), "Retrieved 1 rows from table people.");
    let data = result.data.unwrap();
    assert_eq!(
        data.rows,
        vec![Row { values: vec![Data::STRING("John".into()), Data::INT(30)] }]
    );
    assert_eq!(data.columns.len(), 2);
    assert_eq!(data.columns[0].name, "name");
    assert_eq!(data.columns[0].data_type, DataType::STRING { size: 256 });
    assert_eq!(data.columns[1].data_type, DataType::INT);
    drop_table(&mut storage, "people");
    assert!(storage.file_names().iter().all(|name| name.starts_with("all_tables")));
}

#[test]
fn scenario_index_keeps_physical_order() {
    let mut storage = Storage::new();
    create_and_fill(&mut storage, "t", &["1, 'a'", "2, 'b'", "2, 'c'"]);
    let created = run(&mut storage, "CREATE INDEX x ON t").unwrap();
    assert_eq!(
        created.message.unwrap(),
        "Index on column x at table t created succesfully."
    );
    assert!(storage.contains("tx_index"));
    let rows = run(&mut storage, "SELECT * FROM t WHERE x = 2")
        .unwrap()
        .data
        .unwrap()
        .rows;
    assert_eq!(
        rows,
        vec![
            Row { values: vec![Data::INT(2), Data::STRING("b".into())] },
            Row { values: vec![Data::INT(2), Data::STRING("c".into())] },
        ]
    );
    assert!(run(&mut storage, "INSERT INTO t VALUES 2, 'd'").is_ok());
    let rows = run(&mut storage, "SELECT y FROM t WHERE x = 2")
        .unwrap()
        .data
        .unwrap()
        .rows;
    assert_eq!(rows.len(), 3);
    assert_eq!(rows[2].values, vec![Data::STRING("d".into())]);
    let dropped = run(&mut storage, "DROP INDEX x ON t").unwrap();
    assert_eq!(
        dropped.message.unwrap(),
        "Index on column x at table t dropped succesfully."
    );
    assert!(!storage.contains("tx_index"));
    drop_table(&mut storage, "t");
}

#[test]
fn scenario_insert_named_columns_defaults_to_null() {
    let mut storage = Storage::new();
    assert!(run(&mut storage, "CREATE TABLE t x int, y int").is_ok());
    let inserted = run(&mut storage, "INSERT INTO t (x) VALUES (5)").unwrap();
    assert_eq!(inserted.message.unwrap(), "1 row was succesfully inserted");
    let rows = run(&mut storage, "SELECT * FROM t").unwrap().data.unwrap().rows;
    assert_eq!(rows, vec![Row { values: vec![Data::INT(5), Data::NULL] }]);
    drop_table(&mut storage, "t");
}

#[test]
fn scenario_invalid_data_type() {
    let mut storage = Storage::new();
    assert!(run(&mut storage, "CREATE TABLE t x int").is_ok());
    match run(&mut storage, "INSERT INTO t VALUES 'oops'") {
        Err(QueryError::InvalidDataType(column, declared, given)) => {
            assert_eq!(column, "x");
            assert_eq!(declared, "INT");
            assert_eq!(given, "STRING");
        }
        other => panic!("unexpected result {:?}", other),
    }
    drop_table(&mut storage, "t");
}

#[test]
fn scenario_table_already_exists() {
    let mut storage = Storage::new();
    assert!(run(&mut storage, "CREATE TABLE t x int").is_ok());
    match run(&mut storage, "CREATE TABLE t x int") {
        Err(QueryError::TableAlreadyExists(name)) => assert_eq!(name, "t"),
        other => panic!("unexpected result {:?}", other),
    }
    drop_table(&mut storage, "t");
}

#[test]
fn null_condition_excludes_the_row() {
    let mut storage = Storage::new();
    assert!(run(&mut storage, "CREATE TABLE t x int, y int").is_ok());
    assert!(run(&mut storage, "INSERT INTO t VALUES 1, 10").is_ok());
    assert!(run(&mut storage, "INSERT INTO t (x) VALUES (2)").is_ok());
    assert!(run(&mut storage, "INSERT INTO t VALUES 3, 30").is_ok());
    let rows = run(&mut storage, "SELECT x FROM t WHERE y > 5").unwrap().data.unwrap().rows;
    assert_eq!(
        rows,
        vec![Row { values: vec![Data::INT(1)] }, Row { values: vec![Data::INT(3)] }]
    );
    let rows = run(&mut storage, "SELECT x FROM t WHERE y = NULL").unwrap().data.unwrap().rows;
    assert_eq!(rows, vec![Row { values: vec![Data::INT(2)] }]);
    let rows = run(&mut storage, "SELECT x FROM t WHERE NULL = y").unwrap().data.unwrap().rows;
    assert_eq!(rows, vec![Row { values: vec![Data::INT(2)] }]);
    let rows = run(&mut storage, "SELECT x FROM t WHERE y != 10").unwrap().data.unwrap().rows;
    assert_eq!(rows, vec![Row { values: vec![Data::INT(3)] }]);
    let rows = run(&mut storage, "SELECT x FROM t WHERE y <> 10").unwrap().data.unwrap().rows;
    assert_eq!(
        rows,
        vec![Row { values: vec![Data::INT(2)] }, Row { values: vec![Data::INT(3)] }]
    );
    drop_table(&mut storage, "t");
}

#[test]
fn catalog_follows_create_and_drop() {
    let mut storage = Storage::new();
    assert!(run(&mut storage, "CREATE TABLE a x int").is_ok());
    assert!(run(&mut storage, "CREATE TABLE b x int, y float, z boolean").is_ok());
    let rows = run(&mut storage, "SELECT * FROM all_tables").unwrap().data.unwrap().rows;
    assert_eq!(
        rows,
        vec![
            Row { values: vec![Data::STRING("a".into()), Data::INT(1)] },
            Row { values: vec![Data::STRING("b".into()), Data::INT(3)] },
        ]
    );
    drop_table(&mut storage, "a");
    let rows = run(&mut storage, "SELECT table_name FROM all_tables").unwrap().data.unwrap().rows;
    assert_eq!(rows, vec![Row { values: vec![Data::STRING("b".into())] }]);
    assert!(remove_from_info_table("b".to_string(), &mut storage, &float_op).is_ok());
    assert!(add_to_info_table("c".to_string(), 7, &mut storage).is_ok());
    let rows = run(&mut storage, "SELECT * FROM all_tables").unwrap().data.unwrap().rows;
    assert_eq!(rows, vec![Row { values: vec![Data::STRING("c".into()), Data::INT(7)] }]);
    assert!(matches!(
        add_to_info_table("d".to_string(), usize::MAX, &mut storage),
        Err(QueryError::InvalidDataType(_, _, _))
    ));
}

#[test]
fn executor_errors() {
    let mut storage = Storage::new();
    assert!(matches!(
        run(&mut storage, "SELECT * FROM missing"),
        Err(QueryError::Persistence(PersistenceErrors::TableLoading))
    ));
    assert!(matches!(
        run(&mut storage, "DROP TABLE missing"),
        Err(QueryError::Persistence(PersistenceErrors::TableLoading))
    ));
    assert!(matches!(
        run(&mut storage, "SELECT FROM"),
        Err(QueryError::ParseError(ParseError::UnexpectedToken(_, _)))
    ));
    assert!(run(&mut storage, "CREATE TABLE t x int, y varchar").is_ok());
    assert!(matches!(
        run(&mut storage, "INSERT INTO t VALUES 1"),
        Err(QueryError::IncorrectNumberOfValues(2, 1))
    ));
    assert!(matches!(
        run(&mut storage, "INSERT INTO t (x, x) VALUES (1, 2)"),
        Err(QueryError::DuplicateColumn(name)) if name == "x"
    ));
    assert!(matches!(
        run(&mut storage, "INSERT INTO t (z) VALUES (1)"),
        Err(QueryError::ColumnNotExists(column, table)) if column == "z" && table == "t"
    ));
    assert!(matches!(
        run(&mut storage, "SELECT z FROM t"),
        Err(QueryError::ColumnNotExists(column, table)) if column == "z" && table == "t"
    ));
    assert!(matches!(
        run(&mut storage, "SELECT 1 FROM t"),
        Err(QueryError::ParseError(ParseError::UnexpectedToken(_, _)))
    ));
    assert!(matches!(
        run(&mut storage, "CREATE INDEX z ON t"),
        Err(QueryError::ColumnNotExists(_, _))
    ));
    assert!(matches!(
        run(&mut storage, "DROP INDEX x ON t"),
        Err(QueryError::Persistence(PersistenceErrors::TableDrop))
    ));
    assert!(matches!(
        run(&mut storage, "SELECT * FROM t WHERE x + 1"),
        Ok(_)
    ));
    assert!(run(&mut storage, "INSERT INTO t VALUES 1, 'a'").is_ok());
    assert!(matches!(
        run(&mut storage, "SELECT * FROM t WHERE x + 1"),
        Err(QueryError::ParseError(ParseError::InvalidType(_, NodeValue::Int(2))))
    ));
    assert!(matches!(
        run(&mut storage, "DELETE FROM t WHERE y > 1"),
        Err(QueryError::ParseError(ParseError::InvalidOperator(_, _)))
    ));
    let long = "x".repeat(257);
    assert!(matches!(
        run(&mut storage, format!("INSERT INTO t VALUES 1, '{}'", long).as_str()),
        Err(QueryError::InvalidDataType(column, _, given)) if column == "y" && given == "STRING"
    ));
    let rows = run(&mut storage, "SELECT * FROM t").unwrap().data.unwrap().rows;
    assert_eq!(rows.len(), 1);
}

#[test]
fn float_columns_and_conditions() {
    let mut storage = Storage::new();
    assert!(run(&mut storage, "CREATE TABLE m name varchar, value float, ok boolean").is_ok());
    assert!(run(&mut storage, "INSERT INTO m VALUES 'a', 1.5, true").is_ok());
    assert!(run(&mut storage, "INSERT INTO m VALUES 'b', 2.5, false").is_ok());
    assert!(run(&mut storage, "INSERT INTO m VALUES 'c', 400.25, true").is_ok());
    let rows = run(&mut storage, "SELECT name FROM m WHERE value * 2 > 4 and ok")
        .unwrap()
        .data
        .unwrap()
        .rows;
    assert_eq!(rows, vec![Row { values: vec![Data::STRING("c".into())] }]);
    let rows = run(&mut storage, "SELECT value FROM m WHERE not ok")
        .unwrap()
        .data
        .unwrap()
        .rows;
    assert_eq!(rows, vec![Row { values: vec![Data::FLOAT(2.5f64.to_bits())] }]);
}

#[test]
fn definition_map_takes_the_last_column_of_a_name() {
    let table = Table {
        name: "t".into(),
        columns: vec![
            Column { name: "a".into(), data_type: DataType::INT, is_indexed: false },
            Column { name: "b".into(), data_type: DataType::FLOAT, is_indexed: false },
            Column { name: "a".into(), data_type: DataType::BOOLEAN, is_indexed: false },
        ],
    };
    let map = get_columns_definition_map(&table);
    assert_eq!(map.len(), 2);
    assert_eq!(map.get("a"), Some(&(2, DataType::BOOLEAN)));
    assert_eq!(map.get("b"), Some(&(1, DataType::FLOAT)));
    assert_eq!(map.get("c"), None);
}

#[test]
fn queries_say_which_locks_they_need() {
    let select = parse("SELECT * FROM t", &read_float).unwrap();
    assert_eq!(select.table_name(), "t");
    assert!(!select.writes());
    assert!(!select.changes_catalog());
    let delete = parse("DELETE FROM u WHERE x = 1", &read_float).unwrap();
    assert_eq!(delete.table_name(), "u");
    assert!(delete.writes());
    assert!(!delete.changes_catalog());
    let insert = parse("INSERT INTO v VALUES 1", &read_float).unwrap();
    assert!(insert.writes());
    let create = parse("CREATE TABLE w x int", &read_float).unwrap();
    assert_eq!(create.table_name(), "w");
    assert!(create.writes());
    assert!(create.changes_catalog());
    let drop = parse("DROP TABLE w", &read_float).unwrap();
    assert!(drop.writes() && drop.changes_catalog());
    let index = parse("CREATE INDEX x ON w", &read_float).unwrap();
    assert!(index.writes() && !index.changes_catalog());
    assert_eq!(index.table_name(), "w");
}
