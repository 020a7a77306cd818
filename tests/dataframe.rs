use statcore::{Column, ColumnType, DataFrame, DatasetError, Value};

#[test]
fn test_add_binary_column() {
    let mut df: DataFrame<f64> = DataFrame::new();

    assert!(df.add_binary_column("present", vec![true, false, false, true]).is_ok());
    assert_eq!(df.columns[0].name(), "present");

    assert!(df
        .add_numerical_binary_column("was_late", vec![1, 0, 0, 1])
        .is_ok());
    assert_eq!(df.columns[1].name(), "was_late");

    assert_eq!(df.columns.len(), 2);
}

#[test]
fn test_add_numerical_column() {
    let mut df: DataFrame<f64> = DataFrame::new();
    assert!(df.add_numerical_column("salaries", vec![3500.0, 4600.0, 4900.0]).is_ok());
    assert_eq!(df.columns.len(), 1);
    assert_eq!(df.columns[0].name(), "salaries");
}

#[test]
fn test_add_categorical_column() {
    let mut df: DataFrame<f64> = DataFrame::new();
    assert!(df
        .add_categorical_column("departments", vec!["HR".to_string(), "IT".to_string()])
        .is_ok());
    assert_eq!(df.columns.len(), 1);
    assert_eq!(df.columns[0].name(), "departments");
}

#[test]
fn test_freq() {
    let mut df: DataFrame<f64> = DataFrame::new();
    df.add_binary_column("ages", vec![true, true, true, false, false]).unwrap();
    let freq = df.columns[0].freq(&Value::Binary(true));
    assert_eq!(freq, Ok(3));
}

#[test]
fn test_frequency() {
    let mut df: DataFrame<f64> = DataFrame::new();

    df.add_binary_column("is_senior", vec![false, true, false, false]).unwrap();
    df.add_numerical_column("salaries", vec![3500.0, 4600.0, 4900.0, 4900.0]).unwrap();
    df.add_categorical_column(
        "departments",
        vec![
            "HR".to_string(),
            "IT".to_string(),
            "Marketing".to_string(),
            "HR".to_string(),
            "IT".to_string(),
        ],
    )
    .unwrap();

    let is_senior_column = &df.columns[0];
    assert_eq!(is_senior_column.freq(&Value::Binary(true)), Ok(1));
    assert_eq!(is_senior_column.freq(&Value::Binary(false)), Ok(3));

    let salary_column = &df.columns[1];
    assert_eq!(salary_column.freq(&Value::Numerical(3500.0)), Ok(1));
    assert_eq!(salary_column.freq(&Value::Numerical(4600.0)), Ok(1));
    assert_eq!(salary_column.freq(&Value::Numerical(4900.0)), Ok(2));
    assert_eq!(salary_column.freq(&Value::Numerical(6000.0)), Ok(0));

    let department_column = &df.columns[2];
    assert_eq!(department_column.freq(&Value::Categorical("HR".to_string())), Ok(2));
    assert_eq!(department_column.freq(&Value::Categorical("IT".to_string())), Ok(2));
    assert_eq!(department_column.freq(&Value::Categorical("Marketing".to_string())), Ok(1));
    assert_eq!(department_column.freq(&Value::Categorical("Finance".to_string())), Ok(0));
}

#[test]
fn freq_refuses_value_of_other_kind() {
    let mut df: DataFrame<f64> = DataFrame::new();
    df.add_binary_column("flag", vec![true]).unwrap();
    assert_eq!(
        df.columns[0].freq(&Value::Numerical(1.0)),
        Err(DatasetError::ColumnTypeMismatch("flag".to_string(), ColumnType::Numerical))
    );
}

#[test]
fn duplicate_column_name_is_refused() {
    let mut df: DataFrame<f64> = DataFrame::new();
    df.add_numerical_column("x", vec![1.0]).unwrap();
    assert_eq!(
        df.add_categorical_column("x", vec!["a".to_string()]),
        Err(DatasetError::DuplicateColumn("x".to_string()))
    );
    assert_eq!(df.columns.len(), 1);
}

#[test]
fn numerical_binary_column_refuses_other_codes() {
    let mut df: DataFrame<f64> = DataFrame::new();
    assert_eq!(
        df.add_numerical_binary_column("b", vec![1, 0, 2, 7]),
        Err(DatasetError::ValueTypeMismatch("2".to_string(), "b".to_string(), ColumnType::Binary))
    );
    assert_eq!(df.columns.len(), 0);
    df.add_numerical_binary_column("b", vec![1, 0]).unwrap();
    match &df.columns[0] {
        Column::Binary(c) => assert_eq!(c.get_values(), vec![true, false]),
        _ => panic!("expected a binary column"),
    }
}

#[test]
fn values_as_f64_on_categorical_is_type_mismatch() {
    let mut df: DataFrame<f64> = DataFrame::new();
    df.add_categorical_column("group", vec!["a".to_string(), "b".to_string()]).unwrap();
    assert_eq!(
        df.values_as_f64("group"),
        Err(DatasetError::ColumnTypeMismatch("group".to_string(), ColumnType::Numerical))
    );
}

#[test]
fn values_as_f64_on_binary_is_type_mismatch() {
    let mut df: DataFrame<f64> = DataFrame::new();
    df.add_binary_column("flag", vec![true, false]).unwrap();
    assert_eq!(
        df.values_as_f64("flag"),
        Err(DatasetError::ColumnTypeMismatch("flag".to_string(), ColumnType::Numerical))
    );
}

#[test]
fn missing_column_is_not_found() {
    let df: DataFrame<f64> = DataFrame::new();
    assert_eq!(df.values_as_f64("nope"), Err(DatasetError::ColumnNotFound("nope".to_string())));
    assert_eq!(df.column_type("nope"), Err(DatasetError::ColumnNotFound("nope".to_string())));
    assert!(df.get_column("nope").is_err());
}

#[test]
fn column_type_and_names() {
    let mut df: DataFrame<f64> = DataFrame::new();
    df.add_numerical_column("n", vec![1.5]).unwrap();
    df.add_categorical_column("c", vec!["a".to_string()]).unwrap();
    df.add_binary_column("b", vec![false]).unwrap();
    assert_eq!(df.column_type("n"), Ok(ColumnType::Numerical));
    assert_eq!(df.column_type("c"), Ok(ColumnType::Categorical));
    assert_eq!(df.column_type("b"), Ok(ColumnType::Binary));
    assert_eq!(df.column_index("b"), Ok(2));
    assert_eq!(ColumnType::Numerical.as_str(), "Numerical");
    assert_eq!(ColumnType::Categorical.as_str(), "Categorical");
    assert_eq!(ColumnType::Binary.as_str(), "Binary");
}

#[test]
fn add_value_to_column_appends_or_refuses() {
    let mut df: DataFrame<f64> = DataFrame::new();
    df.add_numerical_column("n", vec![1.0]).unwrap();
    assert!(df.add_value_to_column(0, Value::Numerical(2.5)).is_ok());
    assert_eq!(df.values_as_f64("n"), Ok(vec![1.0, 2.5]));
    assert_eq!(
        df.add_value_to_column(0, Value::Categorical("x".to_string())),
        Err(DatasetError::ColumnTypeMismatch("n".to_string(), ColumnType::Categorical))
    );
    assert_eq!(df.add_value_to_column(3, Value::Binary(true)), Err(DatasetError::EmptyValue(3, 1)));
    assert_eq!(df.columns[0].n(), 2);
}

#[test]
fn get_value_past_the_end_is_refused() {
    let mut df: DataFrame<f64> = DataFrame::new();
    df.add_categorical_column("c", vec!["a".to_string(), "b".to_string()]).unwrap();
    match df.columns[0].get_value(1) {
        Ok(Value::Categorical(s)) => assert_eq!(s, "b"),
        _ => panic!("expected a label"),
    }
    assert!(matches!(df.columns[0].get_value(2), Err(DatasetError::EmptyValue(2, 2))));
}

#[test]
fn binary_min_max() {
    let mut df: DataFrame<f64> = DataFrame::new();
    df.add_binary_column("all_true", vec![true, true]).unwrap();
    df.add_binary_column("mixed", vec![true, false]).unwrap();
    df.add_binary_column("empty", vec![]).unwrap();
    let flags: Vec<(Option<bool>, Option<bool>)> = df
        .columns
        .iter()
        .map(|c| match c {
            Column::Binary(b) => (b.min(), b.max()),
            _ => panic!("expected a binary column"),
        })
        .collect();
    assert_eq!(flags, vec![(Some(true), Some(true)), (Some(false), Some(true)), (None, None)]);
}

#[test]
fn group_and_join_numeric_columns() {
    let mut df: DataFrame<f64> = DataFrame::new();
    df.add_numerical_column("a", vec![1.0, 2.0]).unwrap();
    df.add_numerical_column("b", vec![3.0]).unwrap();
    df.add_categorical_column("c", vec!["x".to_string()]).unwrap();
    let items = df.group_numeric_columns(&["b", "a"]).unwrap();
    assert_eq!(items.len(), 2);
    assert_eq!(items[0].name, "b");
    assert_eq!(items[0].value, vec![3.0]);
    assert_eq!(items[1].value, vec![1.0, 2.0]);
    assert_eq!(df.join_numeric_columns(&["a", "b"]), Ok(vec![1.0, 2.0, 3.0]));
    assert_eq!(
        df.join_numeric_columns(&["a", "c"]),
        Err(DatasetError::ColumnTypeMismatch("c".to_string(), ColumnType::Numerical))
    );
    let cats = df.group_categorical_columns(&["c"]).unwrap();
    assert_eq!(cats[0].value, vec!["x".to_string()]);
    assert_eq!(
        df.group_categorical_columns(&["a"]).map(|v| v.len()),
        Err(DatasetError::ColumnTypeMismatch("a".to_string(), ColumnType::Categorical))
    );
}
