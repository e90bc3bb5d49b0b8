use mems_lidar::{
    find_column, locate_columns, ColumnLayout, GroupIndex, TableError, COLUMN_H_ANGLE,
    COLUMN_V_ANGLE, COLUMN_V_U3, COLUMN_V_U4,
};

fn header(cells: &[Option<&str>]) -> Vec<Option<String>> {
    cells.iter().map(|c| c.map(|s| s.to_string())).collect()
}

#[test]
fn find_column_trims_cells() {
    let h = header(&[Some("x"), None, Some("  V_U4 "), Some("V_U4")]);
    assert_eq!(find_column(&h, "V_U4"), Some(2));
    assert_eq!(find_column(&h, "V_U3"), None);
}

#[test]
fn locate_columns_finds_all_four() {
    let h = header(&[
        Some("垂直偏转角"),
        Some("V_U3"),
        Some("水平偏转角"),
        None,
        Some("V_U4"),
    ]);
    assert_eq!(
        locate_columns(&Some(h)),
        Ok(ColumnLayout { v_u3: 1, v_u4: 4, h_angle: 2, v_angle: 0 })
    );
}

#[test]
fn locate_columns_reports_first_missing() {
    let h = header(&[Some("V_U3"), Some("水平偏转角")]);
    assert_eq!(
        locate_columns(&Some(h)),
        Err(TableError::MissingColumn(COLUMN_V_U4.to_string()))
    );
    let h = header(&[Some("V_U3"), Some("V_U4"), Some("水平偏转角")]);
    assert_eq!(
        locate_columns(&Some(h)),
        Err(TableError::MissingColumn(COLUMN_V_ANGLE.to_string()))
    );
    assert_eq!(locate_columns(&None), Err(TableError::EmptySheet));
    assert_eq!(COLUMN_V_U3, "V_U3");
    assert_eq!(COLUMN_H_ANGLE, "水平偏转角");
}

#[test]
fn group_index_splits_runs() {
    let keys = [100i64, 100, 100, 250, 250, 300];
    let idx = GroupIndex::build(&keys);
    assert_eq!(idx.run_start_rows(), &vec![0, 3, 5]);
    assert_eq!(idx.get(100), Some((0, 3)));
    assert_eq!(idx.get(250), Some((3, 5)));
    assert_eq!(idx.get(300), Some((5, 6)));
    assert_eq!(idx.get(200), None);
}

#[test]
fn group_index_keeps_last_run_of_a_key() {
    let keys = [7i64, 7, 8, 7];
    let idx = GroupIndex::build(&keys);
    assert_eq!(idx.run_start_rows(), &vec![0, 2, 3]);
    assert_eq!(idx.get(7), Some((3, 4)));
    assert_eq!(idx.get(8), Some((2, 3)));
}

#[test]
fn group_index_of_empty_table() {
    let idx = GroupIndex::build(&[]);
    assert!(idx.run_start_rows().is_empty());
    assert_eq!(idx.get(0), None);
}

#[test]
fn sorted_keys_block_holds_all_rows_of_a_key() {
    let keys = [-5i64, -5, 0, 0, 0, 12, 40, 40];
    let idx = GroupIndex::build(&keys);
    for (i, k) in keys.iter().enumerate() {
        let (s, e) = idx.get(*k).unwrap();
        assert!(s <= i && i < e);
        for j in 0..keys.len() {
            assert_eq!(keys[j] == *k, s <= j && j < e);
        }
    }
}
