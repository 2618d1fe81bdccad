//! Grouping job summaries into list rows: one row per batch, one per job
//! outside any batch, newest first.
use vstd::prelude::*;
use crate::models::JobSummary;
use crate::recency::{newest_first, lemma_insert_at};
use crate::text::{text_before, text_less, same_text, owned};

verus! {

/// A row of the job list: a job on its own, or a whole batch.
#[derive(Debug, Clone)]
pub enum JobListRow {
    Single { job: JobSummary },
    Batch { batch_id: i64, jobs: Vec<JobSummary>, created_at: String, status: String },
}

/// The mathematical value of a row.
pub ghost enum RowView {
    Single { job: JobSummary },
    Batch { batch_id: i64, jobs: Seq<JobSummary>, created_at: Seq<char>, status: Seq<char> },
}

impl View for JobListRow {
    type V = RowView;

    open spec fn view(&self) -> RowView {
        match self {
            JobListRow::Single { job } => RowView::Single { job: *job },
            JobListRow::Batch { batch_id, jobs, created_at, status } => RowView::Batch {
                batch_id: *batch_id,
                jobs: jobs@,
                created_at: created_at@,
                status: status@,
            },
        }
    }
}

/// The values of a sequence of rows.
pub open spec fn row_views(rows: Seq<JobListRow>) -> Seq<RowView> {
    rows.map_values(|r: JobListRow| r@)
}

/// The date a job is ordered by.
pub open spec fn job_date() -> spec_fn(JobSummary) -> Seq<char> {
    |j: JobSummary| j.created_at@
}

/// The date a row is ordered by: its job's, or its batch's.
pub open spec fn row_date() -> spec_fn(RowView) -> Seq<char> {
    |r: RowView|
        match r {
            RowView::Single { job } => job.created_at@,
            RowView::Batch { created_at, .. } => created_at,
        }
}

/// Some job of `jobs` has status `status`.
pub open spec fn has_status(jobs: Seq<JobSummary>, status: Seq<char>) -> bool {
    exists|i: int| 0 <= i < jobs.len() && #[trigger] jobs[i].status@ == status
}

/// A batch's status: failed if any job failed, else processing if any is
/// processing, else queued if any is queued, else completed.
pub open spec fn batch_status(jobs: Seq<JobSummary>) -> Seq<char> {
    if has_status(jobs, "failed"@) {
        "failed"@
    } else if has_status(jobs, "processing"@) {
        "processing"@
    } else if has_status(jobs, "queued"@) {
        "queued"@
    } else {
        "completed"@
    }
}

/// The batch ids that occur in `jobs`, each once, in order of first occurrence.
pub open spec fn batch_ids(jobs: Seq<JobSummary>) -> Seq<i64>
    decreases jobs.len(),
{
    if jobs.len() == 0 {
        Seq::empty()
    } else {
        let earlier = batch_ids(jobs.drop_last());
        match jobs.last().batch_id {
            Some(b) => if earlier.contains(b) {
                earlier
            } else {
                earlier.push(b)
            },
            None => earlier,
        }
    }
}

/// Whether a job belongs to batch `b`.
pub open spec fn in_batch(b: i64) -> spec_fn(JobSummary) -> bool {
    |j: JobSummary| j.batch_id == Some(b)
}

/// Whether a job belongs to no batch.
pub open spec fn unbatched() -> spec_fn(JobSummary) -> bool {
    |j: JobSummary| j.batch_id is None
}

/// The row of batch `b`: its jobs newest first, dated by the first of them.
pub open spec fn batch_row(jobs: Seq<JobSummary>, b: i64) -> RowView {
    let members = newest_first(jobs.filter(in_batch(b)), job_date());
    RowView::Batch {
        batch_id: b,
        jobs: members,
        created_at: if members.len() > 0 {
            members[0].created_at@
        } else {
            Seq::empty()
        },
        status: batch_status(members),
    }
}

/// The rows before ordering: the batch rows in order of first occurrence,
/// then one row per unbatched job in input order.
pub open spec fn grouped_rows(jobs: Seq<JobSummary>) -> Seq<RowView> {
    batch_ids(jobs).map_values(|b: i64| batch_row(jobs, b)) + jobs.filter(unbatched()).map_values(
        |j: JobSummary| RowView::Single { job: j },
    )
}

/// The job list: the grouped rows, newest first.
pub open spec fn job_list_rows(jobs: Seq<JobSummary>) -> Seq<RowView> {
    newest_first(grouped_rows(jobs), row_date())
}

/// Whether some job of `jobs` has status `status`.
fn any_with_status(jobs: &[JobSummary], status: &str) -> (r: bool)
    ensures
        r == has_status(jobs@, status@),
{
    let n = jobs.len();
    let mut i: usize = 0;
    while i < n
        invariant
            n == jobs@.len(),
            i <= n,
            forall|k: int| 0 <= k < i ==> jobs@[k].status@ != status@,
        decreases n - i,
    {
        if same_text(jobs[i].status.as_str(), status) {
            assert(jobs@[i as int].status@ == status@);
            return true;
        }
        i = i + 1;
    }
    false
}

/// Batch status: failed > processing > queued > completed.
pub fn summarize_batch_status(jobs: &[JobSummary]) -> (r: String)
    ensures
        r@ == batch_status(jobs@),
{
    if any_with_status(jobs, "failed") {
        return owned("failed");
    }
    if any_with_status(jobs, "processing") {
        return owned("processing");
    }
    if any_with_status(jobs, "queued") {
        return owned("queued");
    }
    owned("completed")
}

/// The date a row is ordered by.
pub fn row_created_at(row: &JobListRow) -> (r: &str)
    ensures
        r@ == (row_date())(row@),
{
    match row {
        JobListRow::Single { job } => job.created_at.as_str(),
        JobListRow::Batch { created_at, .. } => created_at.as_str(),
    }
}

/// `jobs` ordered newest first, stably.
fn sort_jobs_newest_first(jobs: Vec<JobSummary>) -> (r: Vec<JobSummary>)
    ensures
        r@ == newest_first(jobs@, job_date()),
{
    let ghost src = jobs@;
    let mut rest = jobs;
    let mut out: Vec<JobSummary> = Vec::new();
    let ghost mut k: int = 0;
    assert(src.take(0) =~= Seq::<JobSummary>::empty());
    assert(src.skip(0) =~= src);
    while rest.len() > 0
        invariant
            0 <= k <= src.len(),
            rest@ == src.skip(k),
            out@ == newest_first(src.take(k), job_date()),
        decreases rest.len(),
    {
        let x = rest.remove(0);
        let mut p: usize = 0;
        while p < out.len()
            invariant
                p <= out@.len(),
                forall|i: int| 0 <= i < p ==> !text_less(#[trigger] (job_date())(out@[i]), (job_date())(x)),
            ensures
                p <= out@.len(),
                forall|i: int| 0 <= i < p ==> !text_less(#[trigger] (job_date())(out@[i]), (job_date())(x)),
                p < out@.len() ==> text_less((job_date())(out@[p as int]), (job_date())(x)),
            decreases out@.len() - p,
        {
            if text_before(out[p].created_at.as_str(), x.created_at.as_str()) {
                break;
            }
            p = p + 1;
        }
        proof {
            lemma_insert_at(out@, x, job_date(), p as int);
            assert(src.take(k + 1).drop_last() =~= src.take(k));
            assert(src.take(k + 1).last() == x);
            assert(rest@ =~= src.skip(k + 1));
        }
        out.insert(p, x);
        proof {
            k = k + 1;
        }
    }
    assert(src.take(k) =~= src);
    out
}

/// `rows` ordered newest first, stably.
fn sort_rows_newest_first(rows: Vec<JobListRow>) -> (r: Vec<JobListRow>)
    ensures
        row_views(r@) == newest_first(row_views(rows@), row_date()),
{
    let ghost src = rows@;
    let ghost views = row_views(src);
    let mut rest = rows;
    let mut out: Vec<JobListRow> = Vec::new();
    let ghost mut k: int = 0;
    assert(views.take(0) =~= Seq::<RowView>::empty());
    assert(row_views(out@) =~= Seq::<RowView>::empty());
    assert(src.skip(0) =~= src);
    while rest.len() > 0
        invariant
            0 <= k <= src.len(),
            views == row_views(src),
            rest@ == src.skip(k),
            row_views(out@) == newest_first(views.take(k), row_date()),
        decreases rest.len(),
    {
        let x = rest.remove(0);
        let xd = row_created_at(&x);
        let mut p: usize = 0;
        while p < out.len()
            invariant
                p <= out@.len(),
                xd@ == (row_date())(x@),
                forall|i: int| 0 <= i < p ==> !text_less(#[trigger] (row_date())(out@[i]@), (row_date())(x@)),
            ensures
                p <= out@.len(),
                forall|i: int| 0 <= i < p ==> !text_less(#[trigger] (row_date())(out@[i]@), (row_date())(x@)),
                p < out@.len() ==> text_less((row_date())(out@[p as int]@), (row_date())(x@)),
            decreases out@.len() - p,
        {
            if text_before(row_created_at(&out[p]), xd) {
                break;
            }
            p = p + 1;
        }
        proof {
            let ov = row_views(out@);
            assert forall|i: int| 0 <= i < p implies !text_less(#[trigger] (row_date())(ov[i]), (row_date())(x@)) by {
                assert(ov[i] == out@[i]@);
            }
            if p < out@.len() {
                assert(ov[p as int] == out@[p as int]@);
            }
            lemma_insert_at(ov, x@, row_date(), p as int);
            assert(views.take(k + 1).drop_last() =~= views.take(k));
            assert(views.take(k + 1).last() == x@);
            assert(rest@ =~= src.skip(k + 1));
            assert(row_views(out@.insert(p as int, x)) =~= ov.insert(p as int, x@));
        }
        out.insert(p, x);
        proof {
            k = k + 1;
        }
    }
    assert(views.take(k) =~= views);
    out
}

/// The distinct batch ids of `jobs`, in order of first occurrence.
///
/// The batches are collected in a list rather than a `HashMap`: a map's
/// iteration order is unspecified, so batch rows of equal date would come
/// out in an order that no contract could fix. First occurrence is one of
/// the orders a map could give, and the one stated here.
fn batch_ids_of(jobs: &[JobSummary]) -> (r: Vec<i64>)
    ensures
        r@ == batch_ids(jobs@),
{
    let n = jobs.len();
    let mut ids: Vec<i64> = Vec::new();
    let mut i: usize = 0;
    assert(jobs@.take(0) =~= Seq::<JobSummary>::empty());
    while i < n
        invariant
            n == jobs@.len(),
            i <= n,
            ids@ == batch_ids(jobs@.take(i as int)),
        decreases n - i,
    {
        let ghost before = jobs@.take(i as int);
        assert(jobs@.take(i + 1).drop_last() =~= before);
        assert(jobs@.take(i + 1).last() == jobs@[i as int]);
        match jobs[i].batch_id {
            Some(b) => {
                let mut found = false;
                let mut t: usize = 0;
                while t < ids.len()
                    invariant
                        t <= ids@.len(),
                        found == (exists|u: int| 0 <= u < t && ids@[u] == b),
                    decreases ids@.len() - t,
                {
                    if ids[t] == b {
                        found = true;
                    }
                    t = t + 1;
                }
                assert(found == ids@.contains(b));
                if !found {
                    ids.push(b);
                }
            },
            None => {},
        }
        i = i + 1;
    }
    assert(jobs@.take(n as int) =~= jobs@);
    ids
}

/// The jobs of batch `b`, in input order, or, when `b` is `None`, the
/// jobs of no batch.
fn select_jobs(jobs: &[JobSummary], b: Option<i64>) -> (r: Vec<JobSummary>)
    ensures
        b matches Some(id) ==> r@ == jobs@.filter(in_batch(id)),
        b is None ==> r@ == jobs@.filter(unbatched()),
{
    let ghost pred = match b {
        Some(id) => in_batch(id),
        None => unbatched(),
    };
    let n = jobs.len();
    let mut out: Vec<JobSummary> = Vec::new();
    let mut i: usize = 0;
    assert(jobs@.take(0) =~= Seq::<JobSummary>::empty());
    while i < n
        invariant
            n == jobs@.len(),
            i <= n,
            pred == (match b {
                Some(id) => in_batch(id),
                None => unbatched(),
            }),
            out@ == jobs@.take(i as int).filter(pred),
        decreases n - i,
    {
        proof {
            reveal_with_fuel(Seq::filter, 1);
            assert(jobs@.take(i + 1).drop_last() =~= jobs@.take(i as int));
            assert(jobs@.take(i + 1).last() == jobs@[i as int]);
        }
        let keep = match b {
            Some(id) => jobs[i].batch_id == Some(id),
            None => jobs[i].batch_id.is_none(),
        };
        if keep {
            out.push(jobs[i].clone());
        }
        i = i + 1;
    }
    assert(jobs@.take(n as int) =~= jobs@);
    out
}

/// Collapse a flat job list into list rows: one row per batch, one per
/// unbatched job, newest first.
pub fn build_job_list_rows(jobs: &[JobSummary]) -> (rows: Vec<JobListRow>)
    ensures
        row_views(rows@) == job_list_rows(jobs@),
{
    let ids = batch_ids_of(jobs);
    let mut rows: Vec<JobListRow> = Vec::new();
    let mut t: usize = 0;
    let ghost batch_part = batch_ids(jobs@).map_values(|b: i64| batch_row(jobs@, b));
    assert(row_views(rows@) =~= batch_part.take(0));
    while t < ids.len()
        invariant
            t <= ids@.len(),
            ids@ == batch_ids(jobs@),
            batch_part == batch_ids(jobs@).map_values(|b: i64| batch_row(jobs@, b)),
            row_views(rows@) == batch_part.take(t as int),
        decreases ids@.len() - t,
    {
        let b = ids[t];
        let members = sort_jobs_newest_first(select_jobs(jobs, Some(b)));
        let created_at = if members.len() > 0 {
            members[0].created_at.clone()
        } else {
            String::new()
        };
        let status = summarize_batch_status(members.as_slice());
        let row = JobListRow::Batch { batch_id: b, jobs: members, created_at, status };
        assert(row@ == batch_row(jobs@, b));
        let ghost before = rows@;
        rows.push(row);
        assert(rows@ == before.push(row));
        assert(batch_part[t as int] == batch_row(jobs@, b));
        assert(row_views(rows@) =~= row_views(before).push(batch_row(jobs@, b)));
        assert(batch_part.take(t + 1) =~= batch_part.take(t as int).push(batch_part[t as int]));
        t = t + 1;
    }
    assert(batch_part.take(t as int) =~= batch_part);
    let singles = select_jobs(jobs, None);
    let ghost single_part = jobs@.filter(unbatched()).map_values(|j: JobSummary| RowView::Single { job: j });
    let m = singles.len();
    let mut u: usize = 0;
    assert(single_part.take(0) =~= Seq::<RowView>::empty());
    assert(batch_part + single_part.take(0) =~= batch_part);
    while u < m
        invariant
            m == singles@.len(),
            u <= m,
            singles@ == jobs@.filter(unbatched()),
            single_part == jobs@.filter(unbatched()).map_values(|j: JobSummary| RowView::Single { job: j }),
            row_views(rows@) == batch_part + single_part.take(u as int),
        decreases m - u,
    {
        let job = singles[u].clone();
        let ghost before = rows@;
        let row = JobListRow::Single { job };
        rows.push(row);
        assert(rows@ == before.push(row));
        assert(single_part[u as int] == RowView::Single { job: singles@[u as int] });
        assert(row_views(rows@) =~= row_views(before).push(row@));
        assert(single_part.take(u + 1) =~= single_part.take(u as int).push(single_part[u as int]));
        u = u + 1;
    }
    assert(single_part.take(m as int) =~= single_part);
    sort_rows_newest_first(rows)
}

} // verus!

verus! {

/// An item of `b` is an item of any rearrangement `a` of `b`.
proof fn lemma_rearranged_contains<T>(a: Seq<T>, b: Seq<T>, x: T)
    requires
        a.to_multiset() == b.to_multiset(),
        b.contains(x),
    ensures
        a.contains(x),
{
    broadcast use vstd::seq_lib::group_to_multiset_ensures;

    assert(b.to_multiset().count(x) > 0);
    assert(a.to_multiset().count(x) > 0);
}

proof fn lemma_batch_ids_facts(jobs: Seq<JobSummary>)
    ensures
        batch_ids(jobs).no_duplicates(),
        forall|i: int|
            0 <= i < jobs.len() && (#[trigger] jobs[i]).batch_id is Some ==> batch_ids(jobs).contains(
                jobs[i].batch_id->0,
            ),
        forall|b: i64| #[trigger] batch_ids(jobs).contains(b) ==> jobs.filter(in_batch(b)).len() > 0,
    decreases jobs.len(),
{
    if jobs.len() > 0 {
        let prev = jobs.drop_last();
        lemma_batch_ids_facts(prev);
        let before = batch_ids(prev);
        let ids = batch_ids(jobs);
        let last = jobs.last();
        assert forall|x: i64| before.contains(x) implies ids.contains(x) by {
            let k = choose|k: int| 0 <= k < before.len() && before[k] == x;
            assert(ids[k] == x);
        }
        assert(ids.no_duplicates()) by {
            match last.batch_id {
                Some(b) => if !before.contains(b) {
                    assert forall|p: int, q: int| 0 <= p < ids.len() && 0 <= q < ids.len() && p != q implies ids[p] != ids[q] by {
                        if p == before.len() {
                            assert(ids[q] == before[q]);
                        } else if q == before.len() {
                            assert(ids[p] == before[p]);
                        } else {
                            assert(ids[p] == before[p] && ids[q] == before[q]);
                        }
                    }
                },
                None => {},
            }
        }
        assert forall|i: int|
            0 <= i < jobs.len() && (#[trigger] jobs[i]).batch_id is Some implies ids.contains(jobs[i].batch_id->0) by {
            if i < jobs.len() - 1 {
                assert(prev[i] == jobs[i]);
            } else {
                let b = jobs[i].batch_id->0;
                if !before.contains(b) {
                    assert(ids[before.len() as int] == b);
                }
            }
        }
        assert forall|b: i64| #[trigger] ids.contains(b) implies jobs.filter(in_batch(b)).len() > 0 by {
            let p = in_batch(b);
            reveal_with_fuel(Seq::filter, 1);
            assert(jobs.filter(p) == (if p(jobs.last()) {
                jobs.drop_last().filter(p).push(jobs.last())
            } else {
                jobs.drop_last().filter(p)
            }));
            if before.contains(b) {
                assert(prev.filter(in_batch(b)).len() > 0);
            } else {
                let k = choose|k: int| 0 <= k < ids.len() && ids[k] == b;
                assert(k == before.len());
                assert(last.batch_id == Some(b));
            }
        }
    }
}

/// The job list comes newest first.
pub proof fn law_rows_newest_first(jobs: Seq<JobSummary>)
    ensures
        crate::recency::is_newest_first(job_list_rows(jobs), row_date()),
{
    crate::recency::lemma_newest_first_sorted(grouped_rows(jobs), row_date());
}

/// Every job is in exactly the row it belongs to: the rows are the grouped
/// rows rearranged, one for each distinct batch id (no batch has two rows)
/// holding exactly the jobs of that batch, and one for each job of no batch.
pub proof fn law_rows_cover_jobs(jobs: Seq<JobSummary>)
    ensures
        job_list_rows(jobs).len() == batch_ids(jobs).len() + jobs.filter(unbatched()).len(),
        job_list_rows(jobs).to_multiset() == grouped_rows(jobs).to_multiset(),
        batch_ids(jobs).no_duplicates(),
        forall|b: i64|
            #[trigger] batch_ids(jobs).contains(b) ==> job_list_rows(jobs).contains(batch_row(jobs, b)),
        forall|b: i64|
            #[trigger] batch_ids(jobs).contains(b) ==> (batch_row(jobs, b) matches RowView::Batch {
                batch_id,
                jobs: members,
                ..
            } && batch_id == b && members.to_multiset() == jobs.filter(in_batch(b)).to_multiset()),
        forall|i: int|
            0 <= i < jobs.len() ==> match (#[trigger] jobs[i]).batch_id {
                Some(b) => batch_ids(jobs).contains(b) && job_list_rows(jobs).contains(batch_row(jobs, b))
                    && (batch_row(jobs, b) matches RowView::Batch { jobs: members, .. }
                    && members.contains(jobs[i])),
                None => job_list_rows(jobs).contains(RowView::Single { job: jobs[i] }),
            },
{
    let g = grouped_rows(jobs);
    let rows = job_list_rows(jobs);
    let ids = batch_ids(jobs);
    let batch_part = ids.map_values(|b: i64| batch_row(jobs, b));
    let singles = jobs.filter(unbatched());
    let single_part = singles.map_values(|j: JobSummary| RowView::Single { job: j });
    crate::recency::lemma_newest_first_len(g, row_date());
    crate::recency::lemma_newest_first_items(g, row_date());
    lemma_batch_ids_facts(jobs);
    assert forall|b: i64| #[trigger] ids.contains(b) implies rows.contains(batch_row(jobs, b)) by {
        let k = choose|k: int| 0 <= k < ids.len() && ids[k] == b;
        assert(g[k] == batch_part[k]);
        assert(g.contains(batch_row(jobs, b)));
        lemma_rearranged_contains(rows, g, batch_row(jobs, b));
    }
    assert forall|b: i64| #[trigger] ids.contains(b) implies (batch_row(jobs, b) matches RowView::Batch {
        batch_id,
        jobs: members,
        ..
    } && batch_id == b && members.to_multiset() == jobs.filter(in_batch(b)).to_multiset()) by {
        crate::recency::lemma_newest_first_items(jobs.filter(in_batch(b)), job_date());
    }
    assert forall|i: int| 0 <= i < jobs.len() implies match (#[trigger] jobs[i]).batch_id {
        Some(b) => ids.contains(b) && rows.contains(batch_row(jobs, b)) && (batch_row(jobs, b) matches RowView::Batch {
            jobs: members,
            ..
        } && members.contains(jobs[i])),
        None => rows.contains(RowView::Single { job: jobs[i] }),
    } by {
        match jobs[i].batch_id {
            Some(b) => {
                assert(ids.contains(b));
                jobs.lemma_filter_contains(in_batch(b), i);
                let members = jobs.filter(in_batch(b));
                crate::recency::lemma_newest_first_items(members, job_date());
                lemma_rearranged_contains(newest_first(members, job_date()), members, jobs[i]);
            },
            None => {
                jobs.lemma_filter_contains(unbatched(), i);
                let k = choose|k: int| 0 <= k < singles.len() && singles[k] == jobs[i];
                assert(g[ids.len() + k] == single_part[k]);
                assert(g.contains(RowView::Single { job: jobs[i] }));
                lemma_rearranged_contains(rows, g, RowView::Single { job: jobs[i] });
            },
        }
    }
}

/// A batch row is dated by its newest job: its jobs come newest first and
/// none is newer than the row's date.
pub proof fn law_batch_row_dated_by_newest(jobs: Seq<JobSummary>, b: i64)
    requires
        batch_ids(jobs).contains(b),
    ensures
        batch_row(jobs, b) matches RowView::Batch { jobs: members, created_at, .. } && members.len() > 0
            && crate::recency::is_newest_first(members, job_date()) && created_at
            == members[0].created_at@ && forall|k: int|
            0 <= k < members.len() ==> !text_less(created_at, #[trigger] members[k].created_at@),
{
    lemma_batch_ids_facts(jobs);
    let members = newest_first(jobs.filter(in_batch(b)), job_date());
    crate::recency::lemma_newest_first_len(jobs.filter(in_batch(b)), job_date());
    crate::recency::lemma_newest_first_sorted(jobs.filter(in_batch(b)), job_date());
    assert forall|k: int| 0 <= k < members.len() implies !text_less(members[0].created_at@, #[trigger] members[k].created_at@) by {
        if k == 0 {
            crate::text::lemma_text_less_irreflexive(members[0].created_at@);
        } else {
            assert(!text_less((job_date())(members[0]), (job_date())(members[k])));
        }
    }
}

} // verus!

verus! {

/// Rows of equal date keep their grouped order: batches in order of first
/// occurrence, before jobs of no batch, and those in input order.
pub proof fn law_rows_stable(jobs: Seq<JobSummary>, d: Seq<char>)
    ensures
        job_list_rows(jobs).filter(crate::recency::dated(row_date(), d)) == grouped_rows(jobs).filter(
            crate::recency::dated(row_date(), d),
        ),
{
    crate::recency::law_newest_first_stable(grouped_rows(jobs), row_date(), d);
}

} // verus!

verus! {

broadcast use vstd::multiset::group_multiset_axioms;

/// The jobs a row shows.
pub open spec fn row_jobs(r: RowView) -> Seq<JobSummary> {
    match r {
        RowView::Single { job } => seq![job],
        RowView::Batch { jobs, .. } => jobs,
    }
}

/// All the jobs that a list of rows shows, row after row.
pub open spec fn jobs_in_rows(rows: Seq<RowView>) -> Seq<JobSummary>
    decreases rows.len(),
{
    if rows.len() == 0 {
        Seq::empty()
    } else {
        row_jobs(rows[0]) + jobs_in_rows(rows.drop_first())
    }
}

/// The batch a row stands for, if it is a batch row.
pub open spec fn row_batch(r: RowView) -> Option<i64> {
    match r {
        RowView::Batch { batch_id, .. } => Some(batch_id),
        RowView::Single { .. } => None,
    }
}

/// No batch has two rows.
pub open spec fn one_row_per_batch(rows: Seq<RowView>) -> bool {
    forall|i: int, j: int|
        0 <= i < j < rows.len() && #[trigger] row_batch(rows[i]) is Some ==> row_batch(rows[i]) != #[trigger] row_batch(rows[j])
}

proof fn lemma_empty_multiset(s: Seq<JobSummary>)
    requires
        s.len() == 0,
    ensures
        s.to_multiset() =~= vstd::multiset::Multiset::<JobSummary>::empty(),
{
    broadcast use vstd::seq_lib::group_to_multiset_ensures;

    assert forall|x: JobSummary| s.to_multiset().count(x) == 0 by {
        if s.to_multiset().count(x) > 0 {
            assert(s.contains(x));
        }
    }
}

proof fn lemma_jobs_in_rows_concat(a: Seq<RowView>, b: Seq<RowView>)
    ensures
        jobs_in_rows(a + b) == jobs_in_rows(a) + jobs_in_rows(b),
    decreases a.len(),
{
    if a.len() == 0 {
        assert(a + b =~= b);
        assert(jobs_in_rows(a) + jobs_in_rows(b) =~= jobs_in_rows(b));
    } else {
        lemma_jobs_in_rows_concat(a.drop_first(), b);
        assert((a + b).drop_first() =~= a.drop_first() + b);
        assert((a + b)[0] == a[0]);
        assert(row_jobs(a[0]) + (jobs_in_rows(a.drop_first()) + jobs_in_rows(b)) =~= (row_jobs(a[0])
            + jobs_in_rows(a.drop_first())) + jobs_in_rows(b));
    }
}

proof fn lemma_jobs_in_rows_single(r: RowView)
    ensures
        jobs_in_rows(seq![r]) == row_jobs(r),
{
    assert(seq![r].drop_first() =~= Seq::<RowView>::empty());
    assert(jobs_in_rows(Seq::<RowView>::empty()) =~= Seq::<JobSummary>::empty());
    assert(seq![r][0] == r);
    assert(jobs_in_rows(seq![r]) == row_jobs(seq![r][0]) + jobs_in_rows(seq![r].drop_first()));
    assert(row_jobs(r) + Seq::<JobSummary>::empty() =~= row_jobs(r));
}

proof fn lemma_insert_keeps_jobs(sorted: Seq<RowView>, x: RowView)
    ensures
        jobs_in_rows(crate::recency::insert_newest(sorted, x, row_date())).to_multiset()
            == jobs_in_rows(sorted).to_multiset().add(row_jobs(x).to_multiset()),
    decreases sorted.len(),
{
    broadcast use vstd::seq_lib::lemma_multiset_commutative;

    let r = crate::recency::insert_newest(sorted, x, row_date());
    if sorted.len() == 0 {
        lemma_jobs_in_rows_single(x);
        assert(jobs_in_rows(sorted) =~= Seq::<JobSummary>::empty());
        lemma_empty_multiset(jobs_in_rows(sorted));
    } else if text_less((row_date())(sorted[0]), (row_date())(x)) {
        lemma_jobs_in_rows_concat(seq![x], sorted);
        lemma_jobs_in_rows_single(x);
        assert(r == seq![x] + sorted);
    } else {
        let tail = sorted.drop_first();
        lemma_insert_keeps_jobs(tail, x);
        let rt = crate::recency::insert_newest(tail, x, row_date());
        lemma_jobs_in_rows_concat(seq![sorted[0]], rt);
        lemma_jobs_in_rows_concat(seq![sorted[0]], tail);
        lemma_jobs_in_rows_single(sorted[0]);
        assert(seq![sorted[0]] + tail =~= sorted);
        assert(r == seq![sorted[0]] + rt);
    }
}

proof fn lemma_ordering_keeps_jobs(s: Seq<RowView>)
    ensures
        jobs_in_rows(newest_first(s, row_date())).to_multiset() == jobs_in_rows(s).to_multiset(),
    decreases s.len(),
{
    broadcast use vstd::seq_lib::lemma_multiset_commutative;

    if s.len() > 0 {
        let prev = s.drop_last();
        lemma_ordering_keeps_jobs(prev);
        lemma_insert_keeps_jobs(newest_first(prev, row_date()), s.last());
        lemma_jobs_in_rows_concat(prev, seq![s.last()]);
        lemma_jobs_in_rows_single(s.last());
        assert(prev + seq![s.last()] =~= s);
    }
}

/// The jobs of the batches `ids`, batch after batch.
pub open spec fn jobs_of_batches(jobs: Seq<JobSummary>, ids: Seq<i64>) -> Seq<JobSummary>
    decreases ids.len(),
{
    if ids.len() == 0 {
        Seq::empty()
    } else {
        jobs.filter(in_batch(ids[0])) + jobs_of_batches(jobs, ids.drop_first())
    }
}

proof fn lemma_batch_rows_jobs(jobs: Seq<JobSummary>, ids: Seq<i64>)
    ensures
        jobs_in_rows(ids.map_values(|b: i64| batch_row(jobs, b))).to_multiset() == jobs_of_batches(jobs, ids).to_multiset(),
    decreases ids.len(),
{
    broadcast use vstd::seq_lib::lemma_multiset_commutative;

    let rows = ids.map_values(|b: i64| batch_row(jobs, b));
    if ids.len() == 0 {
        assert(jobs_in_rows(rows) =~= Seq::<JobSummary>::empty());
    } else {
        lemma_batch_rows_jobs(jobs, ids.drop_first());
        assert(rows.drop_first() =~= ids.drop_first().map_values(|b: i64| batch_row(jobs, b)));
        assert(rows[0] == batch_row(jobs, ids[0]));
        crate::recency::lemma_newest_first_items(jobs.filter(in_batch(ids[0])), job_date());
    }
}

proof fn lemma_single_rows_jobs(singles: Seq<JobSummary>)
    ensures
        jobs_in_rows(singles.map_values(|j: JobSummary| RowView::Single { job: j })) == singles,
    decreases singles.len(),
{
    let rows = singles.map_values(|j: JobSummary| RowView::Single { job: j });
    if singles.len() == 0 {
        assert(jobs_in_rows(rows) =~= singles);
    } else {
        lemma_single_rows_jobs(singles.drop_first());
        assert(rows.drop_first() =~= singles.drop_first().map_values(|j: JobSummary| RowView::Single { job: j }));
        assert(seq![singles[0]] + singles.drop_first() =~= singles);
    }
}

/// Adding a job to the list adds it once to the batches' jobs when its
/// batch is listed once in `ids`, and not at all when it is not listed.
proof fn lemma_jobs_of_batches_push(jobs: Seq<JobSummary>, x: JobSummary, ids: Seq<i64>)
    requires
        ids.no_duplicates(),
    ensures
        jobs_of_batches(jobs.push(x), ids).to_multiset() == (if x.batch_id is Some && ids.contains(
            x.batch_id->0,
        ) {
            jobs_of_batches(jobs, ids).to_multiset().insert(x)
        } else {
            jobs_of_batches(jobs, ids).to_multiset()
        }),
    decreases ids.len(),
{
    broadcast use vstd::seq_lib::lemma_multiset_commutative;
    broadcast use vstd::seq_lib::group_to_multiset_ensures;

    if ids.len() > 0 {
        let rest = ids.drop_first();
        assert(rest.no_duplicates());
        lemma_jobs_of_batches_push(jobs, x, rest);
        let p = in_batch(ids[0]);
        reveal_with_fuel(Seq::filter, 1);
        assert(jobs.push(x).drop_last() =~= jobs);
        assert(jobs.push(x).filter(p) == (if p(x) {
            jobs.filter(p).push(x)
        } else {
            jobs.filter(p)
        }));
        if x.batch_id is Some && x.batch_id->0 == ids[0] {
            assert(!rest.contains(ids[0]));
        }
        if x.batch_id is Some && ids.contains(x.batch_id->0) && x.batch_id->0 != ids[0] {
            let k = choose|k: int| 0 <= k < ids.len() && ids[k] == x.batch_id->0;
            assert(rest[k - 1] == ids[k]);
        }
        if x.batch_id is Some && rest.contains(x.batch_id->0) {
            let k = choose|k: int| 0 <= k < rest.len() && rest[k] == x.batch_id->0;
            assert(ids[k + 1] == rest[k]);
        }
    }
}

proof fn lemma_jobs_split(jobs: Seq<JobSummary>, ids: Seq<i64>)
    requires
        ids.no_duplicates(),
        forall|i: int| 0 <= i < jobs.len() && (#[trigger] jobs[i]).batch_id is Some ==> ids.contains(jobs[i].batch_id->0),
    ensures
        jobs_of_batches(jobs, ids).to_multiset().add(jobs.filter(unbatched()).to_multiset()) == jobs.to_multiset(),
    decreases jobs.len(),
{
    broadcast use vstd::seq_lib::group_to_multiset_ensures;

    if jobs.len() == 0 {
        lemma_no_jobs_no_batch_jobs(jobs, ids);
        lemma_empty_multiset(jobs_of_batches(jobs, ids));
        reveal_with_fuel(Seq::filter, 1);
        lemma_empty_multiset(jobs.filter(unbatched()));
        lemma_empty_multiset(jobs);
    } else {
        let prev = jobs.drop_last();
        let x = jobs.last();
        assert forall|i: int| 0 <= i < prev.len() && (#[trigger] prev[i]).batch_id is Some implies ids.contains(prev[i].batch_id->0) by {
            assert(prev[i] == jobs[i]);
        }
        lemma_jobs_split(prev, ids);
        assert(prev.push(x) =~= jobs);
        lemma_jobs_of_batches_push(prev, x, ids);
        reveal_with_fuel(Seq::filter, 1);
        assert(jobs.filter(unbatched()) == (if x.batch_id is None {
            prev.filter(unbatched()).push(x)
        } else {
            prev.filter(unbatched())
        }));
        if x.batch_id is Some {
            assert(jobs[jobs.len() - 1] == x);
        }
        assert(jobs_of_batches(jobs, ids).to_multiset().add(jobs.filter(unbatched()).to_multiset())
            =~= jobs.to_multiset());
    }
}

proof fn lemma_no_jobs_no_batch_jobs(jobs: Seq<JobSummary>, ids: Seq<i64>)
    requires
        jobs.len() == 0,
    ensures
        jobs_of_batches(jobs, ids).len() == 0,
    decreases ids.len(),
{
    if ids.len() > 0 {
        lemma_no_jobs_no_batch_jobs(jobs, ids.drop_first());
        reveal_with_fuel(Seq::filter, 1);
        assert(jobs.filter(in_batch(ids[0])).len() == 0);
    }
}

} // verus!

verus! {

proof fn lemma_insert_members(sorted: Seq<RowView>, x: RowView, y: RowView)
    requires
        crate::recency::insert_newest(sorted, x, row_date()).contains(y),
    ensures
        y == x || sorted.contains(y),
{
    broadcast use vstd::seq_lib::group_to_multiset_ensures;

    crate::recency::lemma_insert_newest_items(sorted, x, row_date());
    let r = crate::recency::insert_newest(sorted, x, row_date());
    assert(r.to_multiset().count(y) > 0);
    if y != x {
        assert(sorted.to_multiset().count(y) > 0);
    }
}

proof fn lemma_insert_one_row_per_batch(sorted: Seq<RowView>, x: RowView)
    requires
        one_row_per_batch(sorted),
        row_batch(x) is Some ==> forall|k: int| 0 <= k < sorted.len() ==> row_batch(#[trigger] sorted[k]) != row_batch(x),
    ensures
        one_row_per_batch(crate::recency::insert_newest(sorted, x, row_date())),
    decreases sorted.len(),
{
    let r = crate::recency::insert_newest(sorted, x, row_date());
    crate::recency::lemma_insert_newest_len(sorted, x, row_date());
    if sorted.len() == 0 {
    } else if text_less((row_date())(sorted[0]), (row_date())(x)) {
        assert(r == seq![x] + sorted);
        assert forall|i: int, j: int|
            0 <= i < j < r.len() && #[trigger] row_batch(r[i]) is Some implies row_batch(r[i]) != #[trigger] row_batch(r[j]) by {
            assert(r[j] == sorted[j - 1]);
            if i > 0 {
                assert(r[i] == sorted[i - 1]);
            }
        }
    } else {
        let tail = sorted.drop_first();
        let rt = crate::recency::insert_newest(tail, x, row_date());
        assert forall|i: int, j: int|
            0 <= i < j < tail.len() && #[trigger] row_batch(tail[i]) is Some implies row_batch(tail[i]) != #[trigger] row_batch(tail[j]) by {
            assert(tail[i] == sorted[i + 1] && tail[j] == sorted[j + 1]);
        }
        assert forall|k: int| row_batch(x) is Some && 0 <= k < tail.len() implies row_batch(#[trigger] tail[k]) != row_batch(x) by {
            assert(tail[k] == sorted[k + 1]);
        }
        lemma_insert_one_row_per_batch(tail, x);
        crate::recency::lemma_insert_newest_len(tail, x, row_date());
        assert(r == seq![sorted[0]] + rt);
        assert forall|i: int, j: int|
            0 <= i < j < r.len() && #[trigger] row_batch(r[i]) is Some implies row_batch(r[i]) != #[trigger] row_batch(r[j]) by {
            assert(r[j] == rt[j - 1]);
            if i > 0 {
                assert(r[i] == rt[i - 1]);
            } else {
                assert(rt.contains(rt[j - 1]));
                lemma_insert_members(tail, x, rt[j - 1]);
                if rt[j - 1] != x {
                    let k = choose|k: int| 0 <= k < tail.len() && tail[k] == rt[j - 1];
                    assert(tail[k] == sorted[k + 1]);
                }
            }
        }
    }
}

proof fn lemma_ordering_one_row_per_batch(s: Seq<RowView>)
    requires
        one_row_per_batch(s),
    ensures
        one_row_per_batch(newest_first(s, row_date())),
    decreases s.len(),
{
    if s.len() > 0 {
        let prev = s.drop_last();
        let x = s.last();
        assert forall|i: int, j: int|
            0 <= i < j < prev.len() && #[trigger] row_batch(prev[i]) is Some implies row_batch(prev[i]) != #[trigger] row_batch(prev[j]) by {
            assert(prev[i] == s[i] && prev[j] == s[j]);
        }
        lemma_ordering_one_row_per_batch(prev);
        let sorted = newest_first(prev, row_date());
        crate::recency::lemma_newest_first_items(prev, row_date());
        assert forall|k: int| row_batch(x) is Some && 0 <= k < sorted.len() implies row_batch(#[trigger] sorted[k]) != row_batch(x) by {
            assert(sorted.contains(sorted[k]));
            lemma_rearranged_contains(prev, sorted, sorted[k]);
            let t = choose|t: int| 0 <= t < prev.len() && prev[t] == sorted[k];
            assert(prev[t] == s[t]);
            if row_batch(sorted[k]) is Some {
                assert(row_batch(s[t]) != row_batch(s[s.len() - 1]));
            }
        }
        lemma_insert_one_row_per_batch(sorted, x);
    }
}

/// Every job is shown exactly once: the jobs the rows show are the input
/// jobs, each as often; no batch has two rows; a single row shows a job of
/// no batch; a batch row shows only jobs of its batch.
pub proof fn law_rows_show_each_job_once(jobs: Seq<JobSummary>)
    ensures
        jobs_in_rows(job_list_rows(jobs)).to_multiset() == jobs.to_multiset(),
        one_row_per_batch(job_list_rows(jobs)),
        forall|k: int|
            0 <= k < job_list_rows(jobs).len() ==> match #[trigger] job_list_rows(jobs)[k] {
                RowView::Single { job } => job.batch_id is None,
                RowView::Batch { batch_id, jobs: members, .. } => forall|t: int|
                    0 <= t < members.len() ==> (#[trigger] members[t]).batch_id == Some(batch_id),
            },
{
    broadcast use vstd::seq_lib::lemma_multiset_commutative;

    let g = grouped_rows(jobs);
    let rows = job_list_rows(jobs);
    let ids = batch_ids(jobs);
    let batch_part = ids.map_values(|b: i64| batch_row(jobs, b));
    let singles = jobs.filter(unbatched());
    let single_part = singles.map_values(|j: JobSummary| RowView::Single { job: j });
    lemma_batch_ids_facts(jobs);
    // the jobs shown
    lemma_ordering_keeps_jobs(g);
    lemma_jobs_in_rows_concat(batch_part, single_part);
    lemma_batch_rows_jobs(jobs, ids);
    lemma_single_rows_jobs(singles);
    lemma_jobs_split(jobs, ids);
    // one row per batch
    assert forall|i: int, j: int|
        0 <= i < j < g.len() && #[trigger] row_batch(g[i]) is Some implies row_batch(g[i]) != #[trigger] row_batch(g[j]) by {
        if i >= ids.len() {
            assert(g[i] == single_part[i - ids.len()]);
        } else {
            assert(g[i] == batch_part[i]);
            if j < ids.len() {
                assert(g[j] == batch_part[j]);
            } else {
                assert(g[j] == single_part[j - ids.len()]);
            }
        }
    }
    lemma_ordering_one_row_per_batch(g);
    // what each row shows
    crate::recency::lemma_newest_first_items(g, row_date());
    assert forall|k: int| 0 <= k < rows.len() implies match #[trigger] rows[k] {
        RowView::Single { job } => job.batch_id is None,
        RowView::Batch { batch_id, jobs: members, .. } => forall|t: int|
            0 <= t < members.len() ==> (#[trigger] members[t]).batch_id == Some(batch_id),
    } by {
        assert(rows.contains(rows[k]));
        lemma_rearranged_contains(g, rows, rows[k]);
        let i = choose|i: int| 0 <= i < g.len() && g[i] == rows[k];
        if i < ids.len() {
            let b = ids[i];
            assert(g[i] == batch_part[i]);
            let filtered = jobs.filter(in_batch(b));
            let members = newest_first(filtered, job_date());
            crate::recency::lemma_newest_first_items(filtered, job_date());
            assert forall|t: int| 0 <= t < members.len() implies (#[trigger] members[t]).batch_id == Some(b) by {
                assert(members.contains(members[t]));
                lemma_rearranged_contains(filtered, members, members[t]);
                let u = choose|u: int| 0 <= u < filtered.len() && filtered[u] == members[t];
                jobs.lemma_filter_pred(in_batch(b), u);
            }
        } else {
            let u = i - ids.len();
            assert(g[i] == single_part[u]);
            jobs.lemma_filter_pred(unbatched(), u);
        }
    }
}

} // verus!

verus! {

/// A batch's status goes by priority over its jobs' statuses: failed when
/// some job failed, whatever the others are; else processing when some job
/// is processing; else queued when some job is queued; else completed.
pub proof fn law_batch_status_priority(jobs: Seq<JobSummary>)
    ensures
        (exists|i: int| 0 <= i < jobs.len() && #[trigger] jobs[i].status@ == "failed"@) ==> batch_status(
            jobs,
        ) == "failed"@,
        (forall|i: int| 0 <= i < jobs.len() ==> #[trigger] jobs[i].status@ != "failed"@) && (exists|i: int|
            0 <= i < jobs.len() && #[trigger] jobs[i].status@ == "processing"@) ==> batch_status(jobs)
            == "processing"@,
        (forall|i: int|
            0 <= i < jobs.len() ==> #[trigger] jobs[i].status@ != "failed"@ && jobs[i].status@ != "processing"@)
            && (exists|i: int| 0 <= i < jobs.len() && #[trigger] jobs[i].status@ == "queued"@) ==> batch_status(
            jobs,
        ) == "queued"@,
        (forall|i: int|
            0 <= i < jobs.len() ==> #[trigger] jobs[i].status@ != "failed"@ && jobs[i].status@ != "processing"@
                && jobs[i].status@ != "queued"@) ==> batch_status(jobs) == "completed"@,
{
}

} // verus!
