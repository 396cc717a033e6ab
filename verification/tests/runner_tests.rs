//! The fan-out core: configuration, task layout, the concurrency bound,
//! isolation of failures, and termination, driven on concrete runs.

use vita::cleaner::PostProcessor;
use vita::error::Error;
use vita::results::collect;
use vita::runner::Runner;
use vita::runner::Scheduler;
use vita::runner::SourceKind;
use vita::runner::Task;

fn owned(v: &[&str]) -> Vec<String> {
    v.iter().map(|s| s.to_string()).collect()
}

#[test]
fn default_configuration() {
    let runner = Runner::default();
    assert_eq!(runner.max_concurrency(), 200);
    assert_eq!(runner.timeout_seconds(), 15);
    assert_eq!(runner.sources(), vec![SourceKind::AnubisDb, SourceKind::CertSpotter]);
}

#[test]
fn all_sources_selects_the_whole_registry() {
    let runner = Runner::default().concurrency(50).timeout(5).all_sources();
    assert_eq!(runner.max_concurrency(), 50);
    assert_eq!(runner.timeout_seconds(), 5);
    assert_eq!(
        runner.sources(),
        vec![
            SourceKind::AnubisDb,
            SourceKind::CertSpotter,
            SourceKind::Facebook,
            SourceKind::PassiveTotal,
        ]
    );
}

#[test]
fn run_lays_out_one_task_per_host_and_source() {
    let runner = Runner::default().free_sources();
    let hosts = owned(&["example.com", "hackerone.com"]);
    let mut sched = runner.run(&hosts);
    let mut seen: Vec<(String, SourceKind)> = Vec::new();
    loop {
        match sched.try_admit() {
            Some(task) => {
                seen.push((task.host, task.source));
                sched.complete(&Ok(()));
            }
            None => break,
        }
    }
    assert!(sched.is_done());
    assert_eq!(
        seen,
        vec![
            ("example.com".to_string(), SourceKind::AnubisDb),
            ("example.com".to_string(), SourceKind::CertSpotter),
            ("hackerone.com".to_string(), SourceKind::AnubisDb),
            ("hackerone.com".to_string(), SourceKind::CertSpotter),
        ]
    );
}

// Two hosts crossed with three sources under concurrency 2: exactly six
// fetches are issued, never more than two at once, and the six answers
// collect to six names.
#[test]
fn bounded_fan_out_issues_every_fetch_at_most_two_at_a_time() {
    let hosts = ["example.com", "hackerone.com"];
    let kinds = [SourceKind::AnubisDb, SourceKind::CertSpotter, SourceKind::Facebook];
    let mut tasks: Vec<Task> = Vec::new();
    for host in hosts.iter() {
        for kind in kinds.iter() {
            tasks.push(Task { host: host.to_string(), source: *kind });
        }
    }
    let mut sched = Scheduler::new(tasks, 2);

    let mut fetched = 0usize;
    let mut max_in_flight = 0usize;
    let mut batches: Vec<Vec<String>> = Vec::new();
    let mut counter = 0usize;
    while !sched.is_done() {
        let mut admitted: Vec<Task> = Vec::new();
        while let Some(task) = sched.try_admit() {
            if sched.active() > max_in_flight {
                max_in_flight = sched.active();
            }
            admitted.push(task);
        }
        for task in admitted {
            fetched += 1;
            counter += 1;
            batches.push(vec![format!("mock{}.{}", counter, task.host)]);
            sched.complete(&Ok(()));
        }
    }
    assert_eq!(fetched, 6);
    assert!(max_in_flight <= 2);

    let mut pp = PostProcessor::default();
    pp.any_root(owned(&["example.com", "hackerone.com"]));
    let out = collect(&pp, &batches);
    assert_eq!(out.len(), 6);
}

#[test]
fn failures_do_not_disturb_the_other_tasks() {
    let runner = Runner::default().concurrency(1).free_sources();
    let hosts = owned(&["example.com", "hackerone.com"]);
    let mut sched = runner.run(&hosts);
    let mut outcomes = [
        Err(Error::Transport),
        Err(Error::source_error("AnubisDB", "example.com")),
        Ok(()),
        Err(Error::Decode),
    ]
    .into_iter();
    let mut completed = 0usize;
    while let Some(_task) = sched.try_admit() {
        sched.complete(&outcomes.next().unwrap());
        completed += 1;
    }
    assert!(sched.is_done());
    assert_eq!(completed, 4);
    assert_eq!(sched.completed_count(), 4);
}

#[test]
fn cancellation_stops_admission_but_drains_in_flight_fetches() {
    let runner = Runner::default().concurrency(2).free_sources();
    let hosts = owned(&["example.com", "hackerone.com"]);
    let mut sched = runner.run(&hosts);
    let first = sched.try_admit();
    assert!(first.is_some());
    let second = sched.try_admit();
    assert!(second.is_some());
    sched.cancel();
    assert!(sched.try_admit().is_none());
    assert!(!sched.is_done());
    sched.complete(&Ok(()));
    sched.complete(&Err(Error::Transport));
    assert!(sched.is_done());
    assert_eq!(sched.completed_count(), 2);
}

#[test]
fn a_full_window_blocks_admission_until_a_slot_frees() {
    let runner = Runner::default().concurrency(1).free_sources();
    let hosts = owned(&["example.com"]);
    let mut sched = runner.run(&hosts);
    assert!(sched.try_admit().is_some());
    assert!(sched.try_admit().is_none());
    sched.complete(&Ok(()));
    assert!(sched.try_admit().is_some());
    sched.complete(&Ok(()));
    assert!(sched.is_done());
}
