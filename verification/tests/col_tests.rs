use roaring::RoaringBitmap;

use light_tsdb::col_tys::str_col::StrCol;
use light_tsdb::col_tys::tag_col::{get_dummy_tag_col, TagSet};
use light_tsdb::col_tys::ts_col::TsCol;
use light_tsdb::col_tys::val_col::ValCol;
use light_tsdb::interner::intern_agrees;

#[test]
fn str_col_test_filter_with() {
    let mut s_col =
                                  // 0        1        2      3      4      5        6
        StrCol::with_strs(vec!["hello", "world", "how", "are", "you", "world", "doing", "world"]);
    // 7
    s_col.append(&vec!["!"]);
    // 8
    s_col.append(&vec!["hiya", "once", "more"]);

    let mut region_of_interest = RoaringBitmap::new();
    region_of_interest.insert_range(1..6);

    assert_eq!(
        vec![1, 5],
        s_col
            .filter_with(region_of_interest, "world")
            .iter()
            .collect::<Vec<_>>()
    );
}

#[test]
fn str_col_interned_or_not() {
    // The filter's result depends only on the key's characters, not on whether
    // the key was interned before.
    let s_col = StrCol::with_strs(vec!["cpu", "mem", "cpu"]);
    let mut all = RoaringBitmap::new();
    all.insert_range(0..3);
    let first = s_col
        .filter_with(all.clone(), "cpu")
        .iter()
        .collect::<Vec<_>>();
    // "cpu" is interned now; filtering again must give the same rows.
    let second = s_col.filter_with(all, "cpu").iter().collect::<Vec<_>>();
    assert_eq!(first, vec![0, 2]);
    assert_eq!(first, second);
}

#[test]
fn str_col_get_clones_handles() {
    let s_col = StrCol::with_strs(vec!["alpha", "beta", "gamma"]);
    let mut bm = RoaringBitmap::new();
    bm.insert(0);
    bm.insert(2);
    let got = s_col.get(&bm);
    let strs: Vec<&str> = got.iter().map(|h| h.as_str()).collect();
    assert_eq!(strs, vec!["alpha", "gamma"]);
}

#[test]
fn intern_agrees_with_bytes() {
    assert!(intern_agrees("hello", "hello"));
    assert!(!intern_agrees("hello", "world"));
    assert!(intern_agrees("", ""));
}

#[test]
fn ts_col_test_filter_with() {
    let ts_col = TsCol::with_range(0..100);
    let actual = ts_col.filter_with(47..59).iter().collect::<Vec<_>>();
    let expected = (47..59).collect::<Vec<_>>();
    assert_eq!(actual, expected);

    let ts_col = TsCol::with_range(100..200);
    let actual = ts_col.filter_with(147..159).iter().collect::<Vec<_>>();
    let expected = (47..59).collect::<Vec<_>>();
    assert_eq!(actual, expected);
}

#[test]
fn ts_col_reversed_range_is_empty() {
    let ts_col = TsCol::with_range(10..3);
    assert!(ts_col.rows.is_empty());
}

#[test]
fn ts_col_empty_range_filters_nothing() {
    let ts_col = TsCol::with_range(0..10);
    let bm = ts_col.filter_with(5..5);
    assert!(bm.is_empty());
}

#[test]
fn ts_col_put_append_get() {
    let mut ts_col = TsCol::new();
    ts_col.put(3);
    ts_col.put(9);
    let mut more = vec![4, 7];
    ts_col.append(&mut more);
    assert!(more.is_empty());
    assert_eq!(ts_col.rows, vec![3, 9, 4, 7]);

    let mut bm = RoaringBitmap::new();
    bm.insert(1);
    bm.insert(2);
    assert_eq!(ts_col.get(&bm), vec![9, 4]);
}

#[test]
fn val_col_gathers_in_row_order() {
    let vals: Vec<u64> = [1.5f64, -2.0, 0.25, 64.0]
        .iter()
        .map(|v| v.to_bits())
        .collect();
    let val_col = ValCol::with_vals(vals);
    let mut bm = RoaringBitmap::new();
    bm.insert(3);
    bm.insert(1);
    let got: Vec<f64> = val_col.get(&bm).iter().map(|b| f64::from_bits(*b)).collect();
    assert_eq!(got, vec![-2.0, 64.0]);
}

#[test]
fn t_tag_filter() {
    let tag_col = get_dummy_tag_col();
    let mut idxs_to_consider = RoaringBitmap::new();
    idxs_to_consider.insert_range(0..3);
    let mut keys = TagSet::new();
    keys.insert("not_present", &vec!["anything", "doesn't matter"]);
    keys.insert("app", &vec!["postgres", "tomcat"]);

    let m = tag_col.filter_with(idxs_to_consider, &keys);
    let mut mm = RoaringBitmap::new();
    mm.insert(0);
    mm.insert(1);

    assert_eq!(mm, m);
}

#[test]
fn tag_filter_empty_query_matches_no_row() {
    let tag_col = get_dummy_tag_col();
    let mut all = RoaringBitmap::new();
    all.insert_range(0..4);
    let empty = TagSet::new();
    let m = tag_col.filter_with(all, &empty);
    assert!(m.is_empty());
}

#[test]
fn t_filter() {}
