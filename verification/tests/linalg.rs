use ctrl_freeq::error::Error;
use ctrl_freeq::analysis::pick;
use ctrl_freeq::linalg::{Mat, check_product, check_same, column_of, hstack, slice_column};

#[test]
fn shape_mismatches_are_errors() {
    let a = Mat::from_vec(2, 3, vec![0.0; 6]).unwrap();
    assert!(matches!(check_product(a.shape(), a.shape()), Err(Error::Dimension(_))));
    assert!(matches!(Mat::from_vec(2, 2, vec![1.0; 3]), Err(Error::Dimension(_))));
    assert_eq!(
        Mat::from_vec(2, 2, vec![1.0; 3]),
        Err(Error::Dimension("3 entries for a 2x2 matrix".to_string()))
    );
    assert_eq!(
        Mat::from_vec(usize::MAX, 2, vec![1u8; 4]),
        Err(Error::Dimension(format!("4 entries for a {}x2 matrix", usize::MAX)))
    );
}

#[test]
fn from_vec_keeps_the_data_row_major() {
    let m = Mat::from_vec(2, 3, vec![1, 2, 3, 4, 5, 6]).unwrap();
    assert_eq!(m.shape(), (2, 3));
    assert_eq!(m.get(0, 2), 3);
    assert_eq!(m.get(1, 0), 4);
    assert_eq!(m.row(1), &[4, 5, 6]);
    assert_eq!(m.col(1), vec![2, 5]);
    assert!(!m.is_square());
}

#[test]
fn from_fn_fills_entry_by_entry() {
    let m = Mat::from_fn(3, 2, |r, c| 10 * r + c);
    assert_eq!(m.data, vec![0, 1, 10, 11, 20, 21]);
    let empty = Mat::from_fn(0, 4, |r, c| r + c);
    assert_eq!(empty.data, Vec::<usize>::new());
}

#[test]
fn transposing_twice_gives_the_matrix_back() {
    let m = Mat::from_fn(2, 3, |r, c| (r * 3 + c) as i64);
    let t = m.transpose();
    assert_eq!(t.shape(), (3, 2));
    assert_eq!(t.data, vec![0, 3, 1, 4, 2, 5]);
    assert_eq!(t.transpose(), m);
}

#[test]
fn set_changes_one_entry() {
    let mut m = Mat::from_vec(2, 2, vec![0.0; 4]).unwrap();
    m.set(1, 0, 2.5);
    assert_eq!(m.data, vec![0.0, 0.0, 2.5, 0.0]);
    assert_eq!(m.get(1, 0), 2.5);
    assert_eq!(m.get(0, 1), 0.0);
}

#[test]
fn map_and_column_keep_the_shape() {
    let c = Mat::column(vec![1, 2, 3]);
    assert_eq!(c.shape(), (3, 1));
    let d = c.map(|v| v as f64 * 0.5);
    assert_eq!(d.shape(), (3, 1));
    assert_eq!(d.data, vec![0.5, 1.0, 1.5]);
    assert!(Mat::from_vec(2, 2, vec![0; 4]).unwrap().is_square());
}

#[test]
fn shape_checks_name_both_shapes() {
    assert_eq!(check_product((2, 3), (3, 4)), Ok(()));
    assert_eq!(
        check_product((2, 3), (2, 3)),
        Err(Error::Dimension("cannot multiply 2x3 by 2x3".to_string()))
    );
    assert_eq!(check_same((2, 2), (2, 2)), Ok(()));
    assert_eq!(
        check_same((2, 3), (3, 2)),
        Err(Error::Dimension("shapes 2x3 and 3x2 differ".to_string()))
    );
}

#[test]
fn setting_an_entry_leaves_the_others() {
    let mut m = Mat::from_fn(3, 3, |r, c| (10 * r + c) as i32);
    m.set(1, 2, -7);
    for r in 0..3 {
        for c in 0..3 {
            let want = if (r, c) == (1, 2) { -7 } else { (10 * r + c) as i32 };
            assert_eq!(m.get(r, c), want);
        }
    }
    let t = m.transpose();
    assert_eq!(t.get(2, 1), -7);
    assert_eq!(t.transpose().data, m.data);
}

#[test]
fn columns_and_rows_of_a_transpose_swap() {
    let m = Mat::from_vec(2, 3, vec!['a', 'b', 'c', 'd', 'e', 'f']).unwrap();
    let t = m.transpose();
    assert_eq!(t.shape(), (3, 2));
    assert_eq!(t.row(0), &['a', 'd']);
    assert_eq!(t.col(1), vec!['d', 'e', 'f']);
    let empty = Mat::from_vec(0, 3, Vec::<u8>::new()).unwrap();
    assert_eq!(empty.transpose().shape(), (3, 0));
    assert_eq!(empty.col(5), Vec::<u8>::new());
}

#[test]
fn picked_components_follow_the_trajectory() {
    let a = Mat::from_fn(2, 2, |r, c| (r * 2 + c) as i32);
    let b = a.map(|v| v * 10);
    let series = pick(&[a, b], &[(0, 0), (1, 0), (1, 1)]);
    assert_eq!(series, vec![vec![0, 0], vec![2, 20], vec![3, 30]]);
    assert_eq!(pick::<i32>(&[], &[(0, 0)]), vec![Vec::<i32>::new()]);
}

#[test]
fn slices_columns_and_stacks_move_entries_only() {
    let v = Mat::column(vec![1, 2, 3, 4, 5, 6]);
    let a = slice_column(&v, 0, 3).unwrap();
    let b = slice_column(&v, 3, 3).unwrap();
    assert_eq!(a.data, vec![1, 2, 3]);
    let m = hstack(&[a, b]).unwrap();
    assert_eq!(m.shape(), (3, 2));
    assert_eq!(m.data, vec![1, 4, 2, 5, 3, 6]);
    assert_eq!(column_of(&m, 1).unwrap().data, vec![4, 5, 6]);
    assert_eq!(
        slice_column(&v, 4, 3),
        Err(Error::Dimension("slice 4..7 of a 6x1 matrix".into()))
    );
    assert_eq!(slice_column(&m, 0, 1), Err(Error::Dimension("slice 0..1 of a 3x2 matrix".into())));
    assert_eq!(column_of(&m, 2), Err(Error::Dimension("column 2 of a 3x2 matrix".into())));
    let short = Mat::column(vec![9]);
    assert_eq!(
        hstack(&[m, short]),
        Err(Error::Dimension("hstack of matrices with different row counts".into()))
    );
    assert_eq!(hstack::<u8>(&[]).unwrap().shape(), (0, 0));
}
