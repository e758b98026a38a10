use vstd::prelude::*;
use crate::config::Config;
use crate::worker::{start_delay_of, Worker, WorkerState};

verus! {

/// How many workers a run starts: one in report mode, else one per unit of concurrency.
pub open spec fn worker_count(config: Config, report_mode: bool) -> int {
    if report_mode { 1 } else { config.concurrency as int }
}

/// Report mode runs a single worker, whatever concurrency the configuration asks for.
pub proof fn lemma_report_mode_runs_one_worker(config: Config)
    ensures
        worker_count(config, true) == 1,
        config.wf() ==> worker_count(config, false) == config.concurrency,
{
}

/// The workers of a run, in spawn order, each with a client pool of its own
/// that starts empty. In report mode there is exactly one,
/// worker 0, which starts at once; otherwise there are `concurrency` of them,
/// worker `i` starting after `(rampup / concurrency) * i` seconds.
pub fn plan_workers<R>(config: &Config, report_mode: bool) -> (ws: Vec<Worker<R>>)
    requires
        config.wf(),
    ensures
        ws@.len() == worker_count(*config, report_mode),
        forall|i: int|
            0 <= i < ws@.len() ==> {
                &&& (#[trigger] ws@[i]).wf()
                &&& ws@[i].index == i
                &&& ws@[i].delay == start_delay_of(config.rampup as int, config.concurrency as int, i)
                &&& ws@[i].iterations == config.iterations
                &&& ws@[i].state == WorkerState::Pending
                &&& ws@[i].pool.view_destinations().len() == 0
                &&& ws@[i].reports@.len() == 0
            },
{
    let count: i64 = if report_mode { 1 } else { config.concurrency };
    let mut ws: Vec<Worker<R>> = Vec::new();
    let mut index: i64 = 0;
    while index < count
        invariant
            config.wf(),
            count == worker_count(*config, report_mode),
            0 <= index <= count,
            ws@.len() == index,
            forall|i: int|
                0 <= i < ws@.len() ==> {
                    &&& (#[trigger] ws@[i]).wf()
                    &&& ws@[i].index == i
                    &&& ws@[i].delay == start_delay_of(config.rampup as int, config.concurrency as int, i)
                    &&& ws@[i].iterations == config.iterations
                    &&& ws@[i].state == WorkerState::Pending
                    &&& ws@[i].pool.view_destinations().len() == 0
                    &&& ws@[i].reports@.len() == 0
                },
        decreases count - index,
    {
        ws.push(Worker::new(config, index));
        index = index + 1;
    }
    ws
}

/// Gathers the report lists that the workers handed back, in spawn order.
/// `None` stands for a worker whose task failed: then the whole run fails,
/// and no partial results are kept.
pub fn collect_reports<R>(outcomes: Vec<Option<Vec<R>>>) -> (r: Result<Vec<Vec<R>>, Vec<Vec<R>>>)
    ensures
        r is Ok <==> forall|i: int| 0 <= i < outcomes@.len() ==> (#[trigger] outcomes@[i]) is Some,
        r matches Ok(lists) ==> {
            &&& lists@.len() == outcomes@.len()
            &&& forall|i: int| 0 <= i < lists@.len() ==> outcomes@[i] == Some(#[trigger] lists@[i])
        },
        r matches Err(lists) ==> lists@.len() == 0,
{
    let ghost all = outcomes@;
    let mut rest = outcomes;
    let mut lists: Vec<Vec<R>> = Vec::new();
    while rest.len() > 0
        invariant
            all == outcomes@,
            lists@.len() + rest@.len() == all.len(),
            rest@ == all.subrange(lists@.len() as int, all.len() as int),
            forall|i: int| 0 <= i < lists@.len() ==> all[i] == Some(#[trigger] lists@[i]),
        decreases rest@.len(),
    {
        assert(rest@[0] == all[lists@.len() as int]);
        match rest.remove(0) {
            Some(list) => {
                lists.push(list);
            },
            None => {
                assert(!(outcomes@[lists@.len() as int] is Some));
                return Err(Vec::new());
            },
        }
    }
    assert forall|i: int| 0 <= i < outcomes@.len() implies (#[trigger] outcomes@[i]) is Some by {
        assert(all[i] == Some(lists@[i]));
    }
    Ok(lists)
}

/// `parts` joined in order, with `sep` put before each part once something
/// non-empty has been written.
pub open spec fn joined(parts: Seq<Seq<char>>, sep: Seq<char>) -> Seq<char>
    decreases parts.len(),
{
    if parts.len() == 0 {
        Seq::empty()
    } else {
        let head = joined(parts.drop_last(), sep);
        (if head.len() > 0 { head + sep } else { head }) + parts.last()
    }
}

/// Joins the parts in order, with `sep` between a non-empty prefix and the next part.
pub fn join(parts: &Vec<String>, sep: &str) -> (r: String)
    ensures
        r@ == joined(parts@.map_values(|p: String| p@), sep@),
{
    let ghost views = parts@.map_values(|p: String| p@);
    let mut out = String::new();
    let mut i: usize = 0;
    while i < parts.len()
        invariant
            i <= parts@.len(),
            views == parts@.map_values(|p: String| p@),
            out@ == joined(views.subrange(0, i as int), sep@),
        decreases parts@.len() - i,
    {
        assert(views.subrange(0, i + 1).drop_last() =~= views.subrange(0, i as int));
        if !out.as_str().is_empty() {
            out.append(sep);
        }
        out.append(parts[i].as_str());
        i = i + 1;
    }
    assert(views.subrange(0, parts@.len() as int) =~= views);
    out
}

} // verus!
