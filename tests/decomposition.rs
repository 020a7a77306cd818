use statcore::{
    anova_degrees_of_freedom, check_covariate_lengths, check_design, check_square,
    covariate_degrees_of_freedom, group_levels, transpose, ColumnGroupNumericItem, ColumnType,
    DataFrame, DatasetError, DegreesOfFreedom, LevelGroup,
};

fn two_group_frame() -> DataFrame<f64> {
    let mut df: DataFrame<f64> = DataFrame::new();
    df.add_numerical_column("score", vec![1.0, 2.0, 3.0, 4.0, 5.0, 6.0]).unwrap();
    df.add_categorical_column(
        "condition",
        ["a", "a", "a", "b", "b", "b"].iter().map(|s| s.to_string()).collect(),
    )
    .unwrap();
    df
}

fn find<'a>(groups: &'a [LevelGroup<f64>], factor: &str, level: &str) -> &'a LevelGroup<f64> {
    groups
        .iter()
        .find(|g| g.factor == factor && g.level == level)
        .expect("group missing")
}

#[test]
fn two_groups_of_three() {
    let df = two_group_frame();
    let groups = df.cat_iv_levels(&["condition"], "score").unwrap();
    assert_eq!(groups.len(), 2);
    assert_eq!(find(&groups, "condition", "a").values, vec![1.0, 2.0, 3.0]);
    assert_eq!(find(&groups, "condition", "b").values, vec![4.0, 5.0, 6.0]);

    let dof = anova_degrees_of_freedom(6, groups.len()).unwrap();
    assert_eq!(dof, DegreesOfFreedom { between: 1, within: 4 });

    // The sums of squares built on these groups.
    let grand_mean = 3.5;
    let mut ss_between = 0.0;
    let mut ss_within = 0.0;
    for g in &groups {
        let n = g.values.len() as f64;
        let mean = g.values.iter().sum::<f64>() / n;
        ss_between += n * (mean - grand_mean) * (mean - grand_mean);
        ss_within += g.values.iter().map(|x| (x - mean) * (x - mean)).sum::<f64>();
    }
    assert!((ss_between - 13.5).abs() < 1e-12);
    assert!((ss_within - 4.0).abs() < 1e-12);
    let f = (ss_between / dof.between as f64) / (ss_within / dof.within as f64);
    assert!((f - 13.5).abs() < 1e-12);
}

#[test]
fn interleaved_levels_keep_row_order() {
    let labels: Vec<String> = ["x", "y", "x", "z", "y"].iter().map(|s| s.to_string()).collect();
    let values = vec![10, 20, 30, 40, 50];
    let groups = group_levels(&"f".to_string(), &labels, &values);
    assert_eq!(groups.len(), 3);
    let get = |l: &str| groups.iter().find(|g| g.level == l).unwrap().values.clone();
    assert_eq!(get("x"), vec![10, 30]);
    assert_eq!(get("y"), vec![20, 50]);
    assert_eq!(get("z"), vec![40]);
    assert!(groups.iter().all(|g| g.factor == "f"));
    assert_eq!(groups.iter().map(|g| g.values.len()).sum::<usize>(), values.len());
}

#[test]
fn empty_factor_gives_no_groups() {
    let groups = group_levels::<u8>(&"f".to_string(), &vec![], &vec![]);
    assert!(groups.is_empty());
}

#[test]
fn factors_are_not_crossed_and_repeats_count_once() {
    let mut df = two_group_frame();
    df.add_categorical_column(
        "site",
        ["n", "s", "n", "s", "n", "s"].iter().map(|s| s.to_string()).collect(),
    )
    .unwrap();
    let groups = df.cat_iv_levels(&["condition", "site", "condition"], "score").unwrap();
    assert_eq!(groups.len(), 4);
    assert_eq!(find(&groups, "site", "n").values, vec![1.0, 3.0, 5.0]);
    assert_eq!(find(&groups, "site", "s").values, vec![2.0, 4.0, 6.0]);
}

#[test]
fn level_grouping_errors() {
    let mut df = two_group_frame();
    df.add_categorical_column("short", vec!["a".to_string()]).unwrap();
    assert_eq!(
        df.cat_iv_levels(&["condition"], "condition").map(|g| g.len()),
        Err(DatasetError::ColumnTypeMismatch("condition".to_string(), ColumnType::Numerical))
    );
    assert_eq!(
        df.cat_iv_levels(&["score"], "score").map(|g| g.len()),
        Err(DatasetError::ColumnTypeMismatch("score".to_string(), ColumnType::Categorical))
    );
    assert_eq!(
        df.cat_iv_levels(&["missing"], "score").map(|g| g.len()),
        Err(DatasetError::ColumnNotFound("missing".to_string()))
    );
    assert!(matches!(
        df.cat_iv_levels(&["short"], "score"),
        Err(DatasetError::InvalidData(_))
    ));
    assert_eq!(
        df.cat_iv_levels(&["condition"], "nope").map(|g| g.len()),
        Err(DatasetError::ColumnNotFound("nope".to_string()))
    );
}

#[test]
fn one_way_degrees_of_freedom_add_up() {
    for (n, k) in [(6usize, 2usize), (100, 3), (3, 2)] {
        let d = anova_degrees_of_freedom(n, k).unwrap();
        assert_eq!(d.between + d.within, n - 1);
    }
    assert_eq!(
        anova_degrees_of_freedom(100, 3),
        Ok(DegreesOfFreedom { between: 2, within: 97 })
    );
}

#[test]
fn degenerate_decompositions_are_refused() {
    assert!(matches!(anova_degrees_of_freedom(5, 1), Err(DatasetError::DegenerateGroup(_))));
    assert!(matches!(anova_degrees_of_freedom(3, 3), Err(DatasetError::DegenerateGroup(_))));
    assert!(matches!(anova_degrees_of_freedom(0, 0), Err(DatasetError::DegenerateGroup(_))));
    assert!(matches!(covariate_degrees_of_freedom(5, 3, 2), Err(DatasetError::DegenerateGroup(_))));
    assert!(matches!(covariate_degrees_of_freedom(2, 3, 0), Err(DatasetError::DegenerateGroup(_))));
}

#[test]
fn covariate_degrees_of_freedom_subtract_covariates() {
    assert_eq!(
        covariate_degrees_of_freedom(100, 3, 2),
        Ok(DegreesOfFreedom { between: 1, within: 95 })
    );
}

#[test]
fn covariate_lengths_are_checked() {
    let good = ColumnGroupNumericItem { name: "age".to_string(), value: vec![1.0, 2.0] };
    let bad = ColumnGroupNumericItem { name: "mood".to_string(), value: vec![1.0] };
    assert_eq!(check_covariate_lengths(&vec![good.clone()], 2), Ok(()));
    assert_eq!(
        check_covariate_lengths(&vec![good, bad], 2),
        Err(DatasetError::InvalidData("mood".to_string()))
    );
}

#[test]
fn regression_design_shape() {
    let x = vec![vec![1.0, 1.0], vec![1.0, 2.0], vec![1.0, 3.0]];
    let y = vec![2.0, 4.0, 6.0];
    assert_eq!(check_design(&x, &y), Ok((3, 2)));
    assert!(matches!(check_design(&x, &vec![1.0]), Err(DatasetError::InvalidData(_))));
    assert!(matches!(check_design::<f64>(&vec![], &vec![]), Err(DatasetError::InvalidData(_))));
    assert!(matches!(
        check_design(&vec![vec![], vec![]], &vec![1.0, 2.0]),
        Err(DatasetError::InvalidData(_))
    ));
    assert!(matches!(
        check_design(&vec![vec![1.0, 2.0], vec![1.0]], &vec![1.0, 2.0]),
        Err(DatasetError::InvalidData(_))
    ));
}

#[test]
fn square_check() {
    assert_eq!(check_square(&vec![vec![1.0, 2.0], vec![3.0, 4.0]]), Ok(2));
    assert!(matches!(check_square(&vec![vec![1.0, 2.0]]), Err(DatasetError::InvalidData(_))));
    assert!(matches!(check_square::<f64>(&vec![]), Err(DatasetError::InvalidData(_))));
    assert!(matches!(
        check_square(&vec![vec![1.0, 2.0], vec![3.0]]),
        Err(DatasetError::InvalidData(_))
    ));
}

#[test]
fn transpose_turns_columns_into_rows() {
    let columns = vec![vec![1.0, 1.0, 1.0], vec![1.0, 2.0, 3.0]];
    assert_eq!(
        transpose(&columns),
        Ok(vec![vec![1.0, 1.0], vec![1.0, 2.0], vec![1.0, 3.0]])
    );
    assert!(matches!(transpose::<f64>(&vec![]), Err(DatasetError::InvalidData(_))));
    assert!(matches!(
        transpose(&vec![vec![1.0], vec![1.0, 2.0]]),
        Err(DatasetError::InvalidData(_))
    ));
}
