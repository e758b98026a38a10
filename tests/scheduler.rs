use std::collections::HashMap;

use loadplan::{
    collect_reports, join, plan_workers, start_delay, Config, ConfigError, FieldValue, Pool, Worker,
    WorkerState, WorkerStep,
};

fn config(iterations: i64, concurrency: i64, rampup: i64) -> Config {
    let (c, _) = Config::from_fields(
        &FieldValue::Int(iterations),
        &FieldValue::Int(concurrency),
        &FieldValue::Int(rampup),
        &FieldValue::Text("http://localhost".to_string()),
        false,
        false,
        false,
        false,
    )
    .unwrap();
    c
}

/// Drives a worker to completion; each iteration records the iteration
/// value that its fresh context was seeded with.
fn drive(config: &Config, mut worker: Worker<String>) -> (Vec<WorkerStep>, Vec<String>) {
    let mut steps = Vec::new();
    loop {
        let step = worker.advance();
        steps.push(step);
        match step {
            WorkerStep::Sleep { .. } => {}
            WorkerStep::RunIteration { iteration } => {
                let seed = config.context_seed(iteration);
                let mut context: HashMap<String, String> = HashMap::new();
                context.insert("iteration".to_string(), seed.iteration.to_string());
                context.insert("base".to_string(), seed.base.clone());
                assert!(!context.contains_key("written"));
                let reports = vec![context["iteration"].clone()];
                context.insert("written".to_string(), "yes".to_string());
                worker.record(reports);
            }
            WorkerStep::Finish => break,
        }
    }
    (steps, worker.into_reports())
}

#[test]
fn start_delays_split_rampup() {
    let c = config(6, 3, 10);
    assert_eq!(start_delay(&c, 0), 0);
    assert_eq!(start_delay(&c, 1), 3);
    assert_eq!(start_delay(&c, 2), 6);
}

#[test]
fn start_delays_zero_without_rampup() {
    let c = config(4, 4, 0);
    for i in 0..4 {
        assert_eq!(start_delay(&c, i), 0);
    }
}

#[test]
fn plan_has_one_worker_per_concurrency() {
    let c = config(8, 4, 8);
    let ws: Vec<Worker<String>> = plan_workers(&c, false);
    assert_eq!(ws.len(), 4);
    for (i, w) in ws.iter().enumerate() {
        assert_eq!(w.index, i as i64);
        assert_eq!(w.delay, 2 * i as u64);
        assert_eq!(w.iterations, 8);
        assert_eq!(w.state, WorkerState::Pending);
        assert!(w.reports.is_empty());
    }
}

#[test]
fn report_mode_runs_one_worker() {
    let c = config(5, 5, 20);
    let ws: Vec<Worker<String>> = plan_workers(&c, true);
    assert_eq!(ws.len(), 1);
    assert_eq!(ws[0].index, 0);
    assert_eq!(ws[0].delay, 0);
    let (_, reports) = drive(&c, ws.into_iter().next().unwrap());
    assert_eq!(reports, vec!["0", "1", "2", "3", "4"]);
}

#[test]
fn worker_steps_in_order() {
    let c = config(3, 1, 7);
    let w: Worker<String> = Worker::new(&c, 0);
    let (steps, _) = drive(&c, w);
    assert_eq!(
        steps,
        vec![
            WorkerStep::Sleep { seconds: 0 },
            WorkerStep::RunIteration { iteration: 0 },
            WorkerStep::RunIteration { iteration: 1 },
            WorkerStep::RunIteration { iteration: 2 },
            WorkerStep::Finish,
        ]
    );
}

#[test]
fn finished_worker_stays_done() {
    let c = config(1, 1, 0);
    let mut w: Worker<String> = Worker::new(&c, 0);
    assert_eq!(w.advance(), WorkerStep::Sleep { seconds: 0 });
    assert_eq!(w.advance(), WorkerStep::RunIteration { iteration: 0 });
    assert_eq!(w.advance(), WorkerStep::Finish);
    assert_eq!(w.state, WorkerState::Done);
    assert_eq!(w.advance(), WorkerStep::Finish);
}

#[test]
fn three_workers_three_iterations() {
    let c = config(3, 3, 0);
    let ws: Vec<Worker<String>> = plan_workers(&c, false);
    let outcomes: Vec<Option<Vec<String>>> = ws.into_iter().map(|w| Some(drive(&c, w).1)).collect();
    let lists = collect_reports(outcomes).unwrap();
    assert_eq!(lists.len(), 3);
    let all: Vec<String> = lists.concat();
    assert_eq!(all.len(), 9);
    for list in &lists {
        assert_eq!(list, &vec!["0", "1", "2"]);
    }
}

#[test]
fn context_is_fresh_each_iteration() {
    let c = config(2, 1, 0);
    let first = c.context_seed(0);
    let second = c.context_seed(1);
    assert_eq!(first.iteration, 0);
    assert_eq!(second.iteration, 1);
    assert_eq!(first.base, "http://localhost");
    assert_eq!(second.base, "http://localhost");
}

#[test]
fn record_appends_in_order() {
    let c = config(2, 1, 0);
    let mut w: Worker<u32> = Worker::new(&c, 0);
    w.record(vec![1, 2]);
    w.record(vec![]);
    w.record(vec![3]);
    assert_eq!(w.into_reports(), vec![1, 2, 3]);
}

#[test]
fn collect_keeps_spawn_order() {
    let r = collect_reports(vec![Some(vec![1]), Some(vec![]), Some(vec![2, 3])]);
    assert_eq!(r, Ok(vec![vec![1], vec![], vec![2, 3]]));
}

#[test]
fn collect_fails_on_failed_worker() {
    let r = collect_reports(vec![Some(vec![1]), None, Some(vec![2])]);
    assert_eq!(r, Err(vec![]));
}

#[test]
fn collect_nothing() {
    let r: Result<Vec<Vec<u8>>, Vec<Vec<u8>>> = collect_reports(vec![]);
    assert_eq!(r, Ok(vec![]));
}

#[test]
fn missing_base_starts_no_worker() {
    let r = Config::from_fields(
        &FieldValue::Int(3),
        &FieldValue::Int(3),
        &FieldValue::Other,
        &FieldValue::Other,
        false,
        false,
        false,
        false,
    );
    match r {
        Err(e) => assert_eq!(e, ConfigError::MissingBase),
        Ok(_) => panic!("a configuration without base must be refused"),
    }
}

#[test]
fn join_values() {
    let parts = vec!["a".to_string(), "b".to_string(), "c".to_string()];
    assert_eq!(join(&parts, ", "), "a, b, c");
    assert_eq!(join(&parts, ""), "abc");
    assert_eq!(join(&vec![], ","), "");
    assert_eq!(join(&vec!["".to_string(), "x".to_string()], ","), "x");
    assert_eq!(join(&vec!["x".to_string(), "".to_string(), "y".to_string()], ","), "x,,y");
}

#[test]
fn pool_reuses_client_per_destination() {
    let mut pool = Pool::new();
    assert_eq!(pool.len(), 0);
    let a = pool.get_or_create("example.com", false).unwrap();
    let b = pool.get_or_create("example.com", false).unwrap();
    assert_eq!(a, b);
    assert_eq!(pool.len(), 1);
    let c = pool.get_or_create("other.org", true).unwrap();
    assert_eq!(c, 1);
    assert_eq!(pool.len(), 2);
    assert_eq!(pool.find("other.org"), Some(1));
    assert_eq!(pool.find("missing"), None);
    let _client = pool.client(0);
}

#[test]
fn pools_are_not_shared() {
    let mut first = Pool::new();
    let mut second = Pool::new();
    first.get_or_create("example.com", false).unwrap();
    assert_eq!(second.len(), 0);
    assert_eq!(second.find("example.com"), None);
    second.get_or_create("example.com", false).unwrap();
    assert_eq!(first.len(), 1);
    assert_eq!(second.len(), 1);
    assert_eq!(first.find("example.com"), Some(0));
    assert_eq!(second.find("example.com"), Some(0));
}

#[test]
fn each_worker_owns_an_empty_pool() {
    let c = config(4, 2, 0);
    let mut ws: Vec<Worker<String>> = plan_workers(&c, false);
    assert!(ws.iter().all(|w| w.pool.len() == 0));
    ws[0].pool.get_or_create("example.com", false).unwrap();
    assert_eq!(ws[0].pool.len(), 1);
    assert_eq!(ws[1].pool.len(), 0);
}

#[test]
fn pool_grows_by_one_per_new_destination() {
    let mut pool = Pool::new();
    for (i, d) in ["a.example", "b.example", "c.example"].iter().enumerate() {
        assert_eq!(pool.get_or_create(d, i % 2 == 0).unwrap(), i);
    }
    assert_eq!(pool.get_or_create("b.example", true).unwrap(), 1);
    assert_eq!(pool.len(), 3);
}
