use sql_engine::common::db::{Column, Data, DataType, Row};
use sql_engine::persistence::column::{decode_column, decode_data_type, PersistenceColumn, PersistenceDataType};
use sql_engine::persistence::row::{decode_data, decode_row, PersistenceData, PersistenceRow};

#[test]
fn column_to_and_from_bytes() {
    check_column_to_and_from_bytes(String::from("Name"), DataType::STRING { size: 255 }, true);
    check_column_to_and_from_bytes(String::from("Rust is just so cool"), DataType::INT, false);
    check_column_to_and_from_bytes(String::from("Rust is just so cool"), DataType::BOOLEAN, false);
    check_column_to_and_from_bytes(String::from("Rust is just so cool"), DataType::FLOAT, false);
}

fn check_column_to_and_from_bytes(name: String, data_type: DataType, is_indexed: bool) {
    let column = Column {
        name,
        data_type,
        is_indexed,
    };
    let column_from_bytes = Column::from_bytes(column.to_bytes());
    assert_eq!(column_from_bytes, column);
}

#[test]
fn one_into_bytes() {
    let one = Data::INT(1);
    let data_type = DataType::INT;
    assert_eq!(one.to_bytes(255, &data_type), [0, 0, 0, 0, 0, 0, 0, 1]);
}

#[test]
fn one_from_bytes() {
    let one = Data::int_from_bytes([0, 0, 0, 0, 0, 0, 0, 1].to_vec());
    assert_eq!(Data::INT(1), one)
}

#[test]
fn big_int_into_bytes() {
    let big_int = Data::INT(78456845);
    let data_type = DataType::INT;
    assert_eq!(
        big_int.to_bytes(255, &data_type),
        [0, 0, 0, 0, 4, 173, 40, 13]
    );
}

#[test]
fn big_int_from_bytes() {
    let big_int = Data::int_from_bytes([0, 0, 0, 0, 4, 173, 40, 13].to_vec());
    assert_eq!(Data::INT(78456845), big_int);
}

#[test]
fn string_into_bytes() {
    let hello_world = Data::STRING(String::from("Hello word"));
    let expected_result = [
        72, 101, 108, 108, 111, 32, 119, 111, 114, 100, 0, 0, 0, 0, 0, 0, 0, 0, 0, 0,
    ];
    let data_type = DataType::INT;
    assert_eq!(hello_world.to_bytes(20, &data_type), expected_result);
}

#[test]
fn string_from_bytes() {
    let bytes = [
        72, 101, 108, 108, 111, 32, 119, 111, 114, 100, 0, 0, 0, 0, 0, 0, 0, 0, 0, 0,
    ];
    let hello_world = Data::string_from_bytes(bytes.to_vec());
    assert_eq!(Data::STRING(String::from("Hello word")), hello_world);
}

#[test]
fn int_null_from_bytes() {
    let bytes = [1, 0, 0, 0, 0, 0, 0, 0];
    let column = Column {
        data_type: DataType::INT,
        is_indexed: false,
        name: String::from("abc"),
    };
    let null = Data::from_bytes(bytes.to_vec(), &column);
    assert_eq!(null, Data::NULL)
}

#[test]
fn string_null_from_bytes() {
    let bytes = [0, 0, 0, 0, 0, 0, 0, 0];
    let column = Column {
        data_type: DataType::STRING { size: 256 },
        is_indexed: false,
        name: String::from("abc"),
    };
    let null = Data::from_bytes(bytes.to_vec(), &column);
    assert_eq!(null, Data::NULL)
}

#[test]
fn null_to_bytes() {
    let bytes = vec![0u8; 256];
    let data_type = DataType::STRING { size: 256 };
    assert_eq!(bytes, Data::NULL.to_bytes(256, &data_type));
    let bytes = [1, 0, 0, 0, 0, 0, 0, 0].to_vec();
    let data_type = DataType::INT;
    assert_eq!(bytes, Data::NULL.to_bytes(256, &data_type));
}

#[test]
fn int_data_type_to_bytes() {
    let int_data_type = DataType::INT;
    assert_eq!(int_data_type.to_bytes(), [0, 0, 0, 0, 0, 0, 0, 0]);
}

#[test]
fn int_data_type_from_bytes() {
    let int_data_type = DataType::from_bytes([0, 0, 0, 0, 0, 0, 0, 0].to_vec());
    match int_data_type {
        DataType::INT => {
            assert_eq!(1, 1);
        }
        _ => {
            panic!()
        }
    }
}

#[test]
fn string_data_type_to_bytes() {
    let string_data_type = DataType::STRING { size: 255 };
    assert_eq!(string_data_type.to_bytes(), [1, 0, 0, 0, 0, 0, 0, 255]);
}

#[test]
fn string_data_type_from_bytes() {
    let string_data_type = DataType::from_bytes([1, 0, 0, 0, 0, 0, 0, 255].to_vec());
    match string_data_type {
        DataType::STRING { size } => {
            assert_eq!(size, 255);
        }
        _ => {
            panic!()
        }
    }
}

#[test]
fn row_hash_int() {
    let int = Data::INT(8);
    assert_eq!(int.calculate_hash(), 17499417595158719687);
}

#[test]
fn row_hash_string() {
    let int = Data::STRING(String::from("Rust is just so cool."));
    assert_eq!(int.calculate_hash(), 15568559637832932389);
}

#[test]
fn row_to_and_from_bytes() {
    let string_data_type = DataType::STRING { size: 500 };
    let column_name = Column {
        name: String::from("Name"),
        data_type: string_data_type,
        is_indexed: false,
    };
    let column_id = Column {
        name: String::from("Id"),
        data_type: DataType::INT,
        is_indexed: false,
    };
    let bool_column = Column {
        name: String::from("Bool"),
        data_type: DataType::BOOLEAN,
        is_indexed: false,
    };
    let float_column = Column {
        name: String::from("Float"),
        data_type: DataType::FLOAT,
        is_indexed: false,
    };

    let columns = vec![column_name, column_id, bool_column, float_column];

    let int = Data::INT(8);
    let string_value = String::from("Best SQL Server");
    let string = Data::STRING(string_value.clone());
    let bool_data = Data::BOOLEAN(true);
    let float_data = Data::FLOAT(45.675f64.to_bits());
    let row = Row {
        values: vec![string, int, bool_data, float_data],
    };
    let bytes = row.to_bytes(&columns);
    let loaded_row = Row::from_bytes(bytes, &columns);
    match loaded_row.values.get(0).unwrap() {
        Data::STRING(value) => {
            assert_eq!(&string_value, value);
        }
        _ => {
            panic!();
        }
    }
    match loaded_row.values.get(1).unwrap() {
        Data::INT(value) => {
            assert_eq!(&8, value);
        }
        _ => {
            panic!();
        }
    }
    match loaded_row.values.get(2).unwrap() {
        Data::BOOLEAN(value) => {
            assert_eq!(true, *value);
        }
        _ => panic!(),
    }
    match loaded_row.values.get(3).unwrap() {
        Data::FLOAT(value) => {
            assert_eq!(45.675f64, f64::from_bits(*value));
        }
        _ => panic!(),
    }
}

#[test]
fn data_type_bytes_for_every_type() {
    assert_eq!(DataType::BOOLEAN.to_bytes(), [2, 0, 0, 0, 0, 0, 0, 0]);
    assert_eq!(DataType::FLOAT.to_bytes(), [3, 0, 0, 0, 0, 0, 0, 0]);
    assert_eq!(
        DataType::STRING { size: 0x01020304 }.to_bytes(),
        [1, 0, 0, 0, 1, 2, 3, 4]
    );
    assert_eq!(decode_data_type(&[2, 9, 9, 9]), Some(DataType::BOOLEAN));
    assert_eq!(decode_data_type(&[3]), Some(DataType::FLOAT));
    assert_eq!(decode_data_type(&[4, 0, 0, 0, 0, 0, 0, 0]), None);
    assert_eq!(decode_data_type(&[1, 0, 0, 0]), None);
    assert_eq!(decode_data_type(&[]), None);
    assert_eq!(
        decode_data_type(&DataType::STRING { size: -7 }.to_bytes()),
        Some(DataType::STRING { size: -7 })
    );
}

#[test]
fn column_bytes_layout() {
    let column = Column {
        name: String::from("ab"),
        data_type: DataType::STRING { size: 256 },
        is_indexed: true,
    };
    assert_eq!(
        column.to_bytes(),
        [0, 0, 0, 2, b'a', b'b', 1, 0, 0, 0, 0, 0, 1, 0, 1]
    );
    assert_eq!(column.size(), 256);
    assert_eq!(decode_column(&[0, 0, 0, 2, b'a']), None);
    assert_eq!(
        decode_column(&[0, 0, 0, 1, 0xff, 0, 0, 0, 0, 0, 0, 0, 0, 0]),
        None
    );
    let int_column = Column {
        name: String::from("n"),
        data_type: DataType::INT,
        is_indexed: false,
    };
    assert_eq!(int_column.size(), 8);
}

#[test]
fn data_bytes_for_every_type() {
    assert_eq!(
        Data::BOOLEAN(true).to_bytes(8, &DataType::BOOLEAN),
        [1, 1, 1, 0, 0, 0, 0, 0]
    );
    assert_eq!(
        Data::BOOLEAN(false).to_bytes(8, &DataType::BOOLEAN),
        [1, 1, 0, 0, 0, 0, 0, 0]
    );
    assert_eq!(
        Data::FLOAT(1.5f64.to_bits()).to_bytes(8, &DataType::FLOAT),
        1.5f64.to_be_bytes()
    );
    assert_eq!(
        Data::INT(-2).to_bytes(8, &DataType::INT),
        [0, 0, 0, 0, 0xff, 0xff, 0xff, 0xfe]
    );
    assert_eq!(Data::NULL.to_bytes(8, &DataType::BOOLEAN), [0; 8]);
    assert_eq!(Data::NULL.to_bytes(8, &DataType::FLOAT), [0; 8]);
    assert_eq!(
        decode_data(&[1, 1, 0, 0, 0, 0, 0, 0], &DataType::BOOLEAN),
        Some(Data::BOOLEAN(false))
    );
    assert_eq!(decode_data(&[0; 8], &DataType::BOOLEAN), Some(Data::NULL));
    assert_eq!(decode_data(&[0; 8], &DataType::FLOAT), Some(Data::NULL));
    assert_eq!(
        decode_data(&2.5f64.to_be_bytes(), &DataType::FLOAT),
        Some(Data::FLOAT(2.5f64.to_bits()))
    );
    assert_eq!(decode_data(&[0, 0, 0], &DataType::INT), None);
    assert_eq!(decode_data(&[0xff, 0], &DataType::STRING { size: 2 }), None);
}

#[test]
fn empty_string_and_zero_float_read_back_as_null() {
    let string_type = DataType::STRING { size: 4 };
    let bytes = Data::STRING(String::new()).to_bytes(4, &string_type);
    assert_eq!(bytes, [0, 0, 0, 0]);
    assert_eq!(decode_data(&bytes, &string_type), Some(Data::NULL));
    let bytes = Data::FLOAT(0.0f64.to_bits()).to_bytes(8, &DataType::FLOAT);
    assert_eq!(decode_data(&bytes, &DataType::FLOAT), Some(Data::NULL));
}

#[test]
fn data_equality_is_numeric_for_floats() {
    assert_eq!(Data::FLOAT(0.0f64.to_bits()), Data::FLOAT((-0.0f64).to_bits()));
    assert_ne!(Data::FLOAT(f64::NAN.to_bits()), Data::FLOAT(f64::NAN.to_bits()));
    assert_ne!(Data::INT(1), Data::FLOAT(1.0f64.to_bits()));
    assert_eq!(Data::NULL, Data::NULL);
    assert_eq!(
        Data::FLOAT(0.0f64.to_bits()).calculate_hash(),
        Data::FLOAT((-0.0f64).to_bits()).calculate_hash()
    );
}

#[test]
fn data_types_and_their_names() {
    assert!(Data::INT(1).is_valid_data_for_type(&DataType::INT));
    assert!(!Data::INT(1).is_valid_data_for_type(&DataType::FLOAT));
    assert!(Data::STRING("a".into()).is_valid_data_for_type(&DataType::STRING { size: 1 }));
    assert!(Data::NULL.is_valid_data_for_type(&DataType::BOOLEAN));
    assert!(Data::BOOLEAN(true).is_valid_data_for_type(&DataType::BOOLEAN));
    assert!(Data::FLOAT(0).is_valid_data_for_type(&DataType::FLOAT));
    assert_eq!(Data::INT(1).to_type(), "INT");
    assert_eq!(Data::NULL.to_type(), "UNKNOWN since value was null");
    assert_eq!(DataType::STRING { size: 256 }.to_string(), "STRING { size: 256 }");
    assert_eq!(DataType::STRING { size: -3 }.to_string(), "STRING { size: -3 }");
    assert_eq!(DataType::INT.to_string(), "INT");
}

#[test]
fn row_round_trip_on_concrete_values() {
    let columns = vec![
        Column { name: "a".into(), data_type: DataType::INT, is_indexed: false },
        Column { name: "b".into(), data_type: DataType::STRING { size: 6 }, is_indexed: false },
        Column { name: "c".into(), data_type: DataType::FLOAT, is_indexed: false },
        Column { name: "d".into(), data_type: DataType::BOOLEAN, is_indexed: false },
    ];
    let row = Row {
        values: vec![
            Data::NULL,
            Data::STRING("h\u{e9}llo".into()),
            Data::FLOAT((-2.25f64).to_bits()),
            Data::NULL,
        ],
    };
    let mut bytes = row.to_bytes(&columns);
    assert_eq!(bytes.len(), 8 + 6 + 8 + 8);
    bytes.extend_from_slice(&[7, 7, 7]);
    assert_eq!(decode_row(&bytes, &columns), Some(row));
    assert_eq!(decode_row(&bytes[..29], &columns), None);
}
