//! The query planner: decomposes a query into a flat list of independent
//! per-(metric, time-chunk) plan steps, and runs a step's filter pipeline.
//!
//! Each step carries plain data: one time chunk, one interned metric name, one
//! tag predicate and the aggregates to compute. Executing a step composes the
//! three filter stages in order (time, metric, tags); each stage returns a
//! subset of its input, so the candidate row set only ever shrinks.

use vstd::arithmetic::mul::{
    lemma_mul_basics, lemma_mul_inequality, lemma_mul_is_distributive_add_other_way,
    lemma_mul_nonnegative,
};
use vstd::prelude::*;

use core::ops::Range;
use roaring::RoaringBitmap;

use crate::bitmap::bitmap_seq;
use crate::col_tys::str_col::{str_is, StrCol};
use crate::col_tys::tag_col::{tag_matches_at, tags_match, tags_view, TagCol, TagSet};
use crate::col_tys::ts_col::{ts_in_window, TsCol};
use crate::col_tys::val_col::ValCol;
use crate::col_tys::Str;
use crate::errs::ColStoreError;
use crate::interner::{intern, interned_clone, interned_str, interned_strs};
use crate::qry::{Agg, Query};
use crate::rowsel::{gathered, lemma_filter_elems, lemma_row_idxs_elems, row_idxs};

verus! {

/// The chunk boundaries of the window `[start, end)`: walk from `start` in
/// steps of `sz`, and close the last chunk at `end`.
pub open spec fn chunk_bounds(start: u64, end: u64, sz: u64) -> Seq<(u64, u64)>
    decreases end - start,
{
    if sz == 0 || end - start <= sz {
        seq![(start, end)]
    } else {
        seq![(start, (start + sz) as u64)] + chunk_bounds((start + sz) as u64, end, sz)
    }
}

/// The boundaries a list of ranges stands for.
pub open spec fn range_bounds(rs: Seq<Range<u64>>) -> Seq<(u64, u64)> {
    rs.map_values(|rg: Range<u64>| (rg.start, rg.end))
}

/// The chunks of `[start, end)` are contiguous, they begin at `start` and end
/// at `end`, every chunk except the last has width exactly `sz`, the last has
/// width at most `sz`, and no chunk is empty when the window is not.
pub proof fn lemma_chunks_form(start: u64, end: u64, sz: u64)
    requires
        start <= end,
        sz > 0,
    ensures
        ({
            let b = chunk_bounds(start, end, sz);
            &&& b.len() >= 1
            &&& b[0].0 == start
            &&& b[b.len() - 1].1 == end
            &&& forall|i: int| 0 <= i < b.len() ==> (#[trigger] b[i]).0 <= b[i].1
            &&& forall|i: int| 0 <= i < b.len() ==> start <= (#[trigger] b[i]).0 && b[i].1 <= end
            &&& forall|i: int| 0 <= i < b.len() - 1 ==> (#[trigger] b[i]).1 == b[i + 1].0
            &&& forall|i: int| 0 <= i < b.len() - 1 ==> (#[trigger] b[i]).1 - b[i].0 == sz
            &&& b[b.len() - 1].1 - b[b.len() - 1].0 <= sz
            &&& (start < end ==> forall|i: int| 0 <= i < b.len() ==> (#[trigger] b[i]).0 < b[i].1)
        }),
    decreases end - start,
{
    let b = chunk_bounds(start, end, sz);
    if end - start <= sz {
    } else {
        let nxt = (start + sz) as u64;
        lemma_chunks_form(nxt, end, sz);
        let rest = chunk_bounds(nxt, end, sz);
        assert(b.len() == 1 + rest.len());
        assert(b[0] == (start, nxt));
        assert(forall|i: int| 1 <= i < b.len() ==> b[i] == rest[i - 1]);
    }
}

/// The chunks of `[start, end)` cover exactly the window: a time lies in some
/// chunk precisely when it lies in the window, and distinct chunks never
/// overlap.
pub proof fn lemma_chunks_cover(start: u64, end: u64, sz: u64, t: u64)
    requires
        start <= end,
        sz > 0,
    ensures
        ({
            let b = chunk_bounds(start, end, sz);
            &&& (exists|i: int|
                0 <= i < b.len() && (#[trigger] b[i]).0 <= t && t < b[i].1) <==> (start <= t
                && t < end)
            &&& forall|i: int, j: int|
                0 <= i < j < b.len() ==> (#[trigger] b[i]).1 <= (#[trigger] b[j]).0
        }),
    decreases end - start,
{
    let b = chunk_bounds(start, end, sz);
    lemma_chunks_form(start, end, sz);
    if end - start <= sz {
        if start <= t < end {
            assert(b[0].0 <= t && t < b[0].1);
        }
    } else {
        let nxt = (start + sz) as u64;
        lemma_chunks_cover(nxt, end, sz, t);
        lemma_chunks_form(nxt, end, sz);
        let rest = chunk_bounds(nxt, end, sz);
        assert(b[0] == (start, nxt));
        assert(forall|i: int| 1 <= i < b.len() ==> b[i] == rest[i - 1]);
        if start <= t && t < end {
            if t < nxt {
                assert(b[0].0 <= t && t < b[0].1);
            } else {
                let i = choose|i: int| 0 <= i < rest.len() && (#[trigger] rest[i]).0 <= t && t < rest[i].1;
                assert(b[i + 1].0 <= t && t < b[i + 1].1);
            }
        }
        if exists|i: int| 0 <= i < b.len() && (#[trigger] b[i]).0 <= t && t < b[i].1 {
            let i = choose|i: int| 0 <= i < b.len() && (#[trigger] b[i]).0 <= t && t < b[i].1;
            if i > 0 {
                assert(rest[i - 1].0 <= t && t < rest[i - 1].1);
            }
        }
        assert forall|i: int, j: int| 0 <= i < j < b.len() implies (#[trigger] b[i]).1
            <= (#[trigger] b[j]).0 by {
            if i > 0 {
                assert(rest[i - 1].1 <= rest[j - 1].0);
            } else {
                assert(b[j] == rest[j - 1]);
                assert(nxt <= rest[j - 1].0);
            }
        }
    }
}

/// Splits the window `[start, end)` into chunks of `sz`, the last one closing
/// at `end`.
pub fn chunk_time(start: u64, end: u64, sz: u64) -> (r: Vec<Range<u64>>)
    requires
        start <= end,
        sz > 0,
    ensures
        range_bounds(r@) == chunk_bounds(start, end, sz),
{
    let mut r: Vec<Range<u64>> = Vec::new();
    let mut cur = start;
    proof {
        assert(range_bounds(r@) =~= Seq::<(u64, u64)>::empty());
        assert(chunk_bounds(start, end, sz) =~= range_bounds(r@) + chunk_bounds(cur, end, sz));
    }
    while end - cur > sz
        invariant
            start <= cur <= end,
            sz > 0,
            chunk_bounds(start, end, sz) == range_bounds(r@) + chunk_bounds(cur, end, sz),
        decreases end - cur,
    {
        let ghost prev = r@;
        let nxt = cur + sz;
        r.push(cur..nxt);
        proof {
            assert(range_bounds(r@) =~= range_bounds(prev).push((cur, nxt)));
            assert(chunk_bounds(cur, end, sz) == seq![(cur, nxt)] + chunk_bounds(nxt, end, sz));
            assert(chunk_bounds(start, end, sz) =~= range_bounds(r@) + chunk_bounds(
                nxt,
                end,
                sz,
            ));
        }
        cur = nxt;
    }
    let ghost prev = r@;
    r.push(cur..end);
    proof {
        assert(range_bounds(r@) =~= range_bounds(prev).push((cur, end)));
        assert(chunk_bounds(cur, end, sz) == seq![(cur, end)]);
        assert(chunk_bounds(start, end, sz) =~= range_bounds(r@));
    }
    r
}

/// One unit of independent work: one metric over one time chunk, with the tag
/// predicate and the aggregates the query asked for.
pub struct PlanStep {
    pub range: Range<u64>,
    pub metric: Str,
    pub filters: TagSet,
    pub aggs: Vec<Agg>,
}

/// Where the step of metric `m` and chunk `c` stands in the flat plan.
pub open spec fn plan_idx(l: int, m: int, c: int) -> int {
    m * l + c
}

/// Whether a step carries exactly what the query asks of metric `m` over
/// chunk `c`.
pub open spec fn plan_step_ok(s: PlanStep, q: Query, m: int, c: int) -> bool {
    let bounds = chunk_bounds(q.start_sec, q.end_sec, q.chunk_sz_sec);
    &&& s.range.start == bounds[c].0
    &&& s.range.end == bounds[c].1
    &&& interned_str(s.metric) == q.metrics@[m].name@
    &&& tags_view(s.filters) == tags_view(q.metrics@[m].filters)
    &&& s.aggs@ == q.metrics@[m].agg@
}

/// Whether a plan is the full expansion of a query: one step per metric and
/// chunk, metric-major, chunk-minor.
pub open spec fn plan_ok(steps: Seq<PlanStep>, q: Query) -> bool {
    let bounds = chunk_bounds(q.start_sec, q.end_sec, q.chunk_sz_sec);
    &&& steps.len() == q.metrics@.len() * bounds.len()
    &&& forall|m: int, c: int|
        0 <= m < q.metrics@.len() && 0 <= c < bounds.len() ==> plan_step_ok(
            #[trigger] steps[plan_idx(bounds.len() as int, m, c)],
            q,
            m,
            c,
        )
}

proof fn lemma_plan_idx_bound(l: int, a: int, b: int, m: int)
    requires
        0 <= a < m,
        0 <= b < l,
    ensures
        0 <= plan_idx(l, a, b) < m * l,
{
    lemma_mul_nonnegative(a, l);
    lemma_mul_is_distributive_add_other_way(l, a, 1);
    lemma_mul_basics(l);
    lemma_mul_inequality(a + 1, m, l);
}

fn copy_aggs(v: &Vec<Agg>) -> (r: Vec<Agg>)
    ensures
        r@ == v@,
{
    let mut r: Vec<Agg> = Vec::new();
    let mut i: usize = 0;
    while i < v.len()
        invariant
            i <= v@.len(),
            r@ == v@.subrange(0, i as int),
        decreases v@.len() - i,
    {
        r.push(v[i]);
        proof {
            assert(r@ =~= v@.subrange(0, i + 1));
        }
        i = i + 1;
    }
    proof {
        assert(v@.subrange(0, v@.len() as int) =~= v@);
    }
    r
}

/// Expands a query into its plan: one step per metric and time chunk,
/// metric-major, chunk-minor, `|metrics| * |chunks|` steps in all. A window
/// with `start >= end` or a chunk size of zero is rejected.
pub fn plan(qry: &Query) -> (r: Result<Vec<PlanStep>, ColStoreError>)
    ensures
        qry.end_sec <= qry.start_sec ==> r == Err::<Vec<PlanStep>, ColStoreError>(
            ColStoreError::EmptyWindow,
        ),
        qry.start_sec < qry.end_sec && qry.chunk_sz_sec == 0 ==> r == Err::<
            Vec<PlanStep>,
            ColStoreError,
        >(ColStoreError::ZeroChunkSize),
        qry.start_sec < qry.end_sec && qry.chunk_sz_sec > 0 ==> (r matches Ok(steps) && plan_ok(
            steps@,
            *qry,
        )),
{
    if qry.end_sec <= qry.start_sec {
        return Err(ColStoreError::EmptyWindow);
    }
    if qry.chunk_sz_sec == 0 {
        return Err(ColStoreError::ZeroChunkSize);
    }
    let ghost bounds = chunk_bounds(qry.start_sec, qry.end_sec, qry.chunk_sz_sec);
    let chunks = chunk_time(qry.start_sec, qry.end_sec, qry.chunk_sz_sec);
    let l = chunks.len();
    let mut steps: Vec<PlanStep> = Vec::new();
    let mut m: usize = 0;
    proof {
        lemma_mul_basics(l as int);
    }
    while m < qry.metrics.len()
        invariant
            m <= qry.metrics@.len(),
            bounds == chunk_bounds(qry.start_sec, qry.end_sec, qry.chunk_sz_sec),
            range_bounds(chunks@) == bounds,
            l == chunks@.len(),
            steps@.len() == (m as int) * (l as int),
            forall|a: int, c: int|
                0 <= a < m && 0 <= c < l ==> plan_step_ok(
                    #[trigger] steps@[plan_idx(l as int, a, c)],
                    *qry,
                    a,
                    c,
                ),
        decreases qry.metrics@.len() - m,
    {
        let qm = &qry.metrics[m];
        let name_h = intern(qm.name.as_str());
        let mut c: usize = 0;
        while c < l
            invariant
                m < qry.metrics@.len(),
                c <= l,
                bounds == chunk_bounds(qry.start_sec, qry.end_sec, qry.chunk_sz_sec),
                range_bounds(chunks@) == bounds,
                l == chunks@.len(),
                qm == &qry.metrics@[m as int],
                interned_str(name_h) == qry.metrics@[m as int].name@,
                steps@.len() == (m as int) * (l as int) + c,
                forall|a: int, cc: int|
                    0 <= a < m && 0 <= cc < l ==> plan_step_ok(
                        #[trigger] steps@[plan_idx(l as int, a, cc)],
                        *qry,
                        a,
                        cc,
                    ),
                forall|cc: int|
                    0 <= cc < c ==> plan_step_ok(
                        #[trigger] steps@[plan_idx(l as int, m as int, cc)],
                        *qry,
                        m as int,
                        cc,
                    ),
            decreases l - c,
        {
            let ghost prev = steps@;
            let rg = &chunks[c];
            let step = PlanStep {
                range: rg.start..rg.end,
                metric: interned_clone(&name_h),
                filters: qm.filters.clone(),
                aggs: copy_aggs(&qm.agg),
            };
            steps.push(step);
            proof {
                assert(range_bounds(chunks@)[c as int] == (
                    chunks@[c as int].start,
                    chunks@[c as int].end,
                ));
                assert(plan_idx(l as int, m as int, c as int) == prev.len());
                assert(plan_step_ok(steps@[plan_idx(l as int, m as int, c as int)], *qry, m as int, c as int));
                assert forall|a: int, cc: int| 0 <= a < m && 0 <= cc < l implies plan_step_ok(
                    #[trigger] steps@[plan_idx(l as int, a, cc)],
                    *qry,
                    a,
                    cc,
                ) by {
                    lemma_plan_idx_bound(l as int, a, cc, m as int);
                    assert(steps@[plan_idx(l as int, a, cc)] == prev[plan_idx(l as int, a, cc)]);
                }
                assert forall|cc: int| 0 <= cc < c + 1 implies plan_step_ok(
                    #[trigger] steps@[plan_idx(l as int, m as int, cc)],
                    *qry,
                    m as int,
                    cc,
                ) by {
                    if cc < c {
                        assert(steps@[plan_idx(l as int, m as int, cc)] == prev[plan_idx(
                            l as int,
                            m as int,
                            cc,
                        )]);
                    }
                }
            }
            c = c + 1;
        }
        proof {
            lemma_mul_is_distributive_add_other_way(l as int, m as int, 1);
            lemma_mul_basics(l as int);
            assert(((m + 1) as int) * (l as int) == (m as int) * (l as int) + (l as int));
        }
        m = m + 1;
    }
    Ok(steps)
}

/// The rows the time stage keeps: all rows whose timestamp lies in the window.
pub open spec fn stage_time(ts: Seq<u64>, lo: u64, hi: u64) -> Seq<u32> {
    row_idxs(ts.len()).filter(ts_in_window(ts, lo, hi))
}

/// The rows the metric stage keeps of its candidates: those whose metric name
/// equals the step's.
pub open spec fn stage_metric(cand: Seq<u32>, ms: Seq<Seq<char>>, key: Seq<char>) -> Seq<u32> {
    cand.filter(str_is(ms, key))
}

/// The rows the tag stage keeps of its candidates: all of them when the step
/// carries no tag predicate, else those matching it.
pub open spec fn stage_tags(cand: Seq<u32>, tags: Seq<TagSet>, q: TagSet) -> Seq<u32> {
    if tags_view(q).len() == 0 {
        cand
    } else {
        cand.filter(tag_matches_at(tags, q))
    }
}

/// The rows a step selects: the three filter stages composed in order.
pub open spec fn step_candidates(
    step: PlanStep,
    ts: Seq<u64>,
    ms: Seq<Seq<char>>,
    tags: Seq<TagSet>,
) -> Seq<u32> {
    stage_tags(
        stage_metric(
            stage_time(ts, step.range.start, step.range.end),
            ms,
            interned_str(step.metric),
        ),
        tags,
        step.filters,
    )
}

/// The bitmap subset chain: each stage of a step returns a subset of its
/// input, so over any columns the selections only ever shrink, and the first
/// stage selects row indices of the column alone.
pub proof fn lemma_stage_chain(step: PlanStep, ts: Seq<u64>, ms: Seq<Seq<char>>, tags: Seq<TagSet>)
    ensures
        ({
            let b0 = stage_time(ts, step.range.start, step.range.end);
            let b1 = stage_metric(b0, ms, interned_str(step.metric));
            let b2 = stage_tags(b1, tags, step.filters);
            &&& forall|u: u32| b1.contains(u) ==> b0.contains(u)
            &&& forall|u: u32| b2.contains(u) ==> b1.contains(u)
            &&& forall|u: u32| b0.contains(u) ==> (u as nat) < ts.len()
        }),
{
    let b0 = stage_time(ts, step.range.start, step.range.end);
    let b1 = stage_metric(b0, ms, interned_str(step.metric));
    let b2 = stage_tags(b1, tags, step.filters);
    assert forall|u: u32| b1.contains(u) implies b0.contains(u) by {
        lemma_filter_elems(b0, str_is(ms, interned_str(step.metric)), u);
    }
    assert forall|u: u32| b2.contains(u) implies b1.contains(u) by {
        if tags_view(step.filters).len() != 0 {
            lemma_filter_elems(b1, tag_matches_at(tags, step.filters), u);
        }
    }
    assert forall|u: u32| b0.contains(u) implies (u as nat) < ts.len() by {
        lemma_filter_elems(
            row_idxs(ts.len()),
            ts_in_window(ts, step.range.start, step.range.end),
            u,
        );
        let i = choose|i: int| 0 <= i < row_idxs(ts.len()).len() && row_idxs(ts.len())[i] == u;
        assert(u as nat <= i as nat);
    }
}

/// Runs a step's three filter stages in order over the columns, returning the
/// selected rows. A step with an empty tag predicate skips the tag stage.
pub fn execute_filters(
    step: &PlanStep,
    ts_col: &TsCol,
    metrics_col: &StrCol,
    tag_col: &TagCol,
) -> (r: RoaringBitmap)
    requires
        ts_col.rows@.len() <= u32::MAX + 1,
        metrics_col.rows@.len() == ts_col.rows@.len(),
        tag_col.rows@.len() == ts_col.rows@.len(),
    ensures
        bitmap_seq(r) == step_candidates(
            *step,
            ts_col.rows@,
            interned_strs(metrics_col.rows@),
            tag_col.rows@,
        ),
        forall|v: u32|
            bitmap_seq(r).contains(v) <==> ((v as int) < ts_col.rows@.len()
                && step.range.start <= ts_col.rows@[v as int] && ts_col.rows@[v as int]
                < step.range.end && interned_str(metrics_col.rows@[v as int]) == interned_str(
                step.metric,
            ) && (tags_view(step.filters).len() == 0 || tags_match(
                tags_view(tag_col.rows@[v as int]),
                tags_view(step.filters),
            ))),
{
    let b0 = ts_col.filter_with(step.range.start..step.range.end);
    let b1 = metrics_col.filter_with_handle(b0, &step.metric);
    if step.filters.is_empty() {
        b1
    } else {
        tag_col.filter_with(b1, &step.filters)
    }
}

/// Runs a step's filters and gathers the selected rows' value encodings, in
/// ascending row order.
pub fn step_values(
    step: &PlanStep,
    ts_col: &TsCol,
    metrics_col: &StrCol,
    tag_col: &TagCol,
    val_col: &ValCol,
) -> (r: Vec<u64>)
    requires
        ts_col.rows@.len() <= u32::MAX + 1,
        metrics_col.rows@.len() == ts_col.rows@.len(),
        tag_col.rows@.len() == ts_col.rows@.len(),
        val_col.rows@.len() == ts_col.rows@.len(),
    ensures
        r@ == gathered(
            val_col.rows@,
            step_candidates(*step, ts_col.rows@, interned_strs(metrics_col.rows@), tag_col.rows@),
        ),
{
    let bm = execute_filters(step, ts_col, metrics_col, tag_col);
    val_col.get(&bm)
}

} // verus!
