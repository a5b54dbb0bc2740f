use light_tsdb::col_store::ColStore;
use light_tsdb::col_tys::tag_col::TagSet;
use light_tsdb::interner::intern;
use light_tsdb::{tag_set_of, Point, TagTy, TimestampedVals};

fn sample(ts: u64, value: f64, tags: TagSet) -> TimestampedVals {
    TimestampedVals {
        timestamp: ts,
        value: value.to_bits(),
        tags,
    }
}

#[test]
fn put_stream_keeps_columns_aligned() {
    let mut store = ColStore::new();
    let mut tags = TagSet::new();
    tags.insert("app", &vec!["postgres"]);

    let batch = vec![
        Point {
            source: "galaxy".to_string(),
            metric: "cpu".to_string(),
            vals: vec![
                sample(1000, 93.3, tags.clone()),
                sample(2000, 94.1, tags.clone()),
            ],
        },
        Point {
            source: "galaxy".to_string(),
            metric: "mem".to_string(),
            vals: vec![sample(1500, 12.0, TagSet::new())],
        },
    ];
    store.put_stream(&batch).unwrap();

    assert_eq!(store.timestamps.rows.len(), 3);
    assert_eq!(store.metrics.rows.len(), 3);
    assert_eq!(store.values.rows.len(), 3);
    assert_eq!(store.tags.rows.len(), 3);

    // Rows appear point-major, then sample-major.
    assert_eq!(store.timestamps.rows, vec![1000, 2000, 1500]);
    let metrics: Vec<&str> = store.metrics.rows.iter().map(|h| h.as_str()).collect();
    assert_eq!(metrics, vec!["cpu", "cpu", "mem"]);
    let values: Vec<f64> = store
        .values
        .rows
        .iter()
        .map(|b| f64::from_bits(*b))
        .collect();
    assert_eq!(values, vec![93.3, 94.1, 12.0]);

    // A second batch appends; nothing already stored moves.
    let second = vec![Point {
        source: "galaxy".to_string(),
        metric: "mem".to_string(),
        vals: vec![sample(1500, 12.0, TagSet::new())],
    }];
    store.put_stream(&second).unwrap();
    assert_eq!(store.timestamps.rows, vec![1000, 2000, 1500, 1500]);
    assert_eq!(store.metrics.rows.len(), store.tags.rows.len());
}

#[test]
fn put_stream_empty_batch_is_ok() {
    let mut store = ColStore::new();
    store.put_stream(&vec![]).unwrap();
    assert_eq!(store.timestamps.rows.len(), 0);
}

#[test]
fn tag_set_of_folds_pairs_and_lists() {
    let tags = vec![
        TagTy::Str(intern("app"), intern("myDB")),
        TagTy::List(intern("shards"), vec![intern("A"), intern("B")]),
    ];
    let ts = tag_set_of(&tags);
    assert_eq!(ts.entries.len(), 2);
    assert_eq!(ts.entries[0].key.as_str(), "app");
    assert_eq!(ts.entries[0].values.len(), 1);
    assert_eq!(ts.entries[0].values[0].as_str(), "myDB");
    assert_eq!(ts.entries[1].key.as_str(), "shards");
    let shard_vals: Vec<&str> = ts.entries[1].values.iter().map(|h| h.as_str()).collect();
    assert_eq!(shard_vals, vec!["A", "B"]);
}
