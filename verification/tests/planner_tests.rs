use roaring::RoaringBitmap;

use light_tsdb::col_tys::str_col::StrCol;
use light_tsdb::col_tys::tag_col::{get_dummy_tag_col, TagCol, TagSet};
use light_tsdb::col_tys::ts_col::TsCol;
use light_tsdb::col_tys::val_col::ValCol;
use light_tsdb::errs::ColStoreError;
use light_tsdb::planner::{chunk_time, execute_filters, plan, step_values, PlanStep};
use light_tsdb::qry::{Agg, QMetric, Query};

#[test]
fn t_chunk_time() {
    let x = chunk_time(0, 37, 7);
    assert_eq!(vec![0..7, 7..14, 14..21, 21..28, 28..35, 35..37], x);
    let x = chunk_time(0, 7, 10);
    assert_eq!(vec![0..7], x);
    let x = chunk_time(0, 70, 10);
    assert_eq!(
        vec![0..10, 10..20, 20..30, 30..40, 40..50, 50..60, 60..70],
        x
    );
}

#[test]
fn test_filter_by_time() {
    let ts_col = TsCol::with_range(20..40);
    let tts = ts_col.filter_with(34..45);

    let mut rbm = RoaringBitmap::new();
    rbm.insert_range(14..20);

    assert_eq!(rbm, tts)
}

#[test]
fn test_filter_by_metrics() {
    let metrics_col_strs = vec!["cpu", "memory", "gc", "cache", "gc", "net"];
    let metrics_col = StrCol::with_strs(metrics_col_strs.clone());

    let mut rbm = RoaringBitmap::new();
    rbm.insert(2);
    rbm.insert(1);

    assert_eq!(
        vec!["gc"],
        metrics_col
            .filter_with(rbm, "gc")
            .iter()
            .map(|i| metrics_col_strs[i as usize])
            .collect::<Vec<_>>()
    );
}

#[test]
fn test_filter_by_tags() {
    let mut tags_to_match = TagSet::new();
    tags_to_match.insert("app", &vec!["postgres", "zookeeper"]);

    let tag_col = get_dummy_tag_col();

    let mut rbm = RoaringBitmap::new();
    rbm.insert(1);
    rbm.insert(3);

    let m = tag_col.filter_with(rbm, &tags_to_match);

    assert_eq!(vec![3], m.iter().collect::<Vec<_>>())
}

#[test]
fn plan_rejects_empty_window() {
    let q = Query {
        start_sec: 400,
        end_sec: 345,
        chunk_sz_sec: 10,
        metrics: vec![],
    };
    assert!(matches!(plan(&q), Err(ColStoreError::EmptyWindow)));
    let q = Query {
        start_sec: 345,
        end_sec: 345,
        chunk_sz_sec: 10,
        metrics: vec![],
    };
    assert!(matches!(plan(&q), Err(ColStoreError::EmptyWindow)));
}

#[test]
fn plan_rejects_zero_chunk() {
    let q = Query {
        start_sec: 345,
        end_sec: 400,
        chunk_sz_sec: 0,
        metrics: vec![],
    };
    assert!(matches!(plan(&q), Err(ColStoreError::ZeroChunkSize)));
}

fn apply_agg(agg: Agg, vals: &[f64]) -> Option<f64> {
    match agg {
        Agg::Sum => Some(vals.iter().sum::<f64>()),
        Agg::Min => {
            let x = vals.iter().fold(f64::INFINITY, |a, b| a.min(*b));
            if x == f64::INFINITY {
                None
            } else {
                Some(x)
            }
        }
        Agg::Max => {
            let x = vals.iter().fold(f64::NEG_INFINITY, |a, b| a.max(*b));
            if x == f64::NEG_INFINITY {
                None
            } else {
                Some(x)
            }
        }
        Agg::Avg => {
            if vals.is_empty() {
                None
            } else {
                Some(vals.iter().sum::<f64>() / vals.len() as f64)
            }
        }
        Agg::Median => {
            if vals.is_empty() {
                None
            } else {
                let mut v = vals.to_vec();
                v.sort_by(|a, b| a.partial_cmp(b).unwrap());
                let mid = v.len() / 2;
                if v.len() % 2 == 0 {
                    Some((v[mid - 1] + v[mid]) / 2.0)
                } else {
                    Some(v[mid])
                }
            }
        }
    }
}

fn run_step(
    step: &PlanStep,
    ts_col: &TsCol,
    metrics_col: &StrCol,
    tag_col: &TagCol,
    val_col: &ValCol,
) -> Option<Vec<f64>> {
    let bits = step_values(step, ts_col, metrics_col, tag_col, val_col);
    let vals: Vec<f64> = bits.iter().map(|b| f64::from_bits(*b)).collect();
    step.aggs.iter().map(|a| apply_agg(*a, &vals)).collect()
}

#[test]
fn test_plan() {
    let mut cpu_filters = TagSet::new();
    cpu_filters.insert("server", &vec!["A", "B", "c"]);
    cpu_filters.insert("version", &vec!["9.3", "10.0"]);
    let query = Query {
        start_sec: 345,
        end_sec: 400,
        chunk_sz_sec: 10,
        metrics: vec![
            QMetric {
                name: "cpu".to_string(),
                filters: cpu_filters,
                agg: vec![Agg::Median],
            },
            QMetric {
                name: "mem".to_string(),
                filters: TagSet::new(),
                agg: vec![Agg::Min, Agg::Max, Agg::Avg],
            },
        ],
    };

    let steps = plan(&query).unwrap();
    assert_eq!(12, steps.len());

    let time_range = 300u64..350;

    let ts_col = TsCol::with_range(time_range.clone());

    let metrics_col_strs = vec!["cpu", "memory", "gc", "cache", "gc", "net"];
    let mut metrics_col = StrCol::new();
    time_range
        .clone()
        .step_by(metrics_col_strs.len())
        .for_each(|_| metrics_col.append(&metrics_col_strs));

    let mut tag1 = TagSet::new();
    tag1.insert("shard", &vec!["0", "59"]);
    tag1.insert("version", &vec!["8.4"]);
    tag1.insert("app", &vec!["postgres"]);
    tag1.insert("server", &vec!["A"]);

    let mut tag2 = TagSet::new();
    tag2.insert("shard", &vec!["10", "599"]);
    tag2.insert("version", &vec!["8.234"]);
    tag2.insert("app", &vec!["light-ts"]);

    let mut tag_col = TagCol::new();
    time_range.clone().for_each(|x| {
        if x % 2 == 0 {
            tag_col.append(tag1.clone())
        } else {
            tag_col.append(tag2.clone())
        }
    });

    let mut val_col = ValCol::new();
    let vals: Vec<u64> = time_range.clone().map(|x| (x as f64).to_bits()).collect();
    val_col.append(vals);

    let vals = steps
        .iter()
        .filter_map(|step| run_step(step, &ts_col, &metrics_col, &tag_col, &val_col))
        .collect::<Vec<_>>();
    assert_eq!(vec![vec![348.0]], vals);
}

#[test]
fn step_stages_shrink() {
    // Each stage of a step keeps a subset of the previous stage's rows.
    let ts_col = TsCol::with_range(0..6);
    let metrics_col = StrCol::with_strs(vec!["cpu", "mem", "cpu", "gc", "cpu", "mem"]);
    let tag_col = get_dummy_tag_col();

    let b0 = ts_col.filter_with(1..5);
    let mut keys = TagSet::new();
    keys.insert("app", &vec!["postgres"]);
    let b1 = metrics_col.filter_with(b0.clone(), "cpu");
    // Only four tag rows exist; restrict to them before the tag stage.
    let mut small = RoaringBitmap::new();
    small.insert_range(0..4);
    let b1_small = b1.clone() & small;
    let b2 = tag_col.filter_with(b1_small.clone(), &keys);
    assert!(b1.is_subset(&b0));
    assert!(b2.is_subset(&b1_small));
}

#[test]
fn execute_filters_skips_empty_tag_predicate() {
    let ts_col = TsCol::with_range(0..4);
    let metrics_col = StrCol::with_strs(vec!["cpu", "cpu", "mem", "cpu"]);
    let tag_col = get_dummy_tag_col();
    let step = plan(&Query {
        start_sec: 0,
        end_sec: 4,
        chunk_sz_sec: 10,
        metrics: vec![QMetric {
            name: "cpu".to_string(),
            filters: TagSet::new(),
            agg: vec![Agg::Sum],
        }],
    })
    .unwrap()
    .remove(0);
    let bm = execute_filters(&step, &ts_col, &metrics_col, &tag_col);
    assert_eq!(bm.iter().collect::<Vec<_>>(), vec![0, 1, 3]);
}
