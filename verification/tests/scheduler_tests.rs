use std::collections::VecDeque;

use sugar_upload::cache::{Cache, CacheItem, DataType};
use sugar_upload::run::Outcome;
use sugar_upload::scheduler::{gateway_link, Scheduler, PARALLEL_LIMIT};
use sugar_upload::task::{Completion, FailedUpload, Tag, UploadError, UploadTask};

fn cache_of(n: usize) -> Cache {
    let mut cache = Cache::new();
    for i in 0..n {
        cache.insert(i.to_string(), CacheItem::new());
    }
    cache
}

fn task(id: &str, kind: DataType, extension: &str) -> UploadTask {
    UploadTask {
        asset_id: id.to_string(),
        file_path: format!("assets/{}.{}", id, extension),
        image_link: String::new(),
        animation_link: None,
        data_type: kind,
        tag: vec![Tag { name: "App-Name".to_string(), value: "Sugar 0.1.0".to_string() }],
    }
}

fn tasks_of(n: usize, kind: DataType, extension: &str) -> Vec<UploadTask> {
    (0..n).map(|i| task(&i.to_string(), kind, extension)).collect()
}

/// Runs a whole upload against a transport that answers each task with
/// `answer`, always harvesting the upload that was sent last. Returns the
/// report, the number of checkpoints and the most uploads seen in flight.
fn run(
    cache: Cache,
    tasks: Vec<UploadTask>,
    kind: DataType,
    limit: usize,
    answer: fn(&UploadTask) -> Result<String, String>,
) -> (sugar_upload::scheduler::Report, usize, usize) {
    let started = Scheduler::new(cache, tasks, kind, limit).unwrap();
    let mut scheduler = started.scheduler;
    let mut flying: VecDeque<UploadTask> = started.dispatch.into();
    let mut checkpoints = 0;
    let mut most = flying.len();
    while scheduler.is_running(false) {
        let sent = flying.pop_back().unwrap();
        let result = answer(&sent);
        let refill = scheduler.harvest(Completion { asset_id: sent.asset_id, result }).unwrap();
        if refill.checkpoint {
            checkpoints += 1;
        }
        flying.extend(refill.tasks);
        assert_eq!(flying.len(), scheduler.in_flight_count());
        if flying.len() > most {
            most = flying.len();
        }
    }
    (scheduler.finish(), checkpoints, most)
}

fn always_ok(task: &UploadTask) -> Result<String, String> {
    Ok(format!("id-{}", task.asset_id))
}

fn third_fails(task: &UploadTask) -> Result<String, String> {
    if task.asset_id == "3" {
        Err("connection reset".to_string())
    } else {
        Ok(format!("id-{}", task.asset_id))
    }
}

#[test]
fn ten_images_with_limit_four_all_succeed() {
    let (report, checkpoints, most) =
        run(cache_of(10), tasks_of(10, DataType::Image, "png"), DataType::Image, 4, always_ok);
    assert_eq!(report.outcome, Outcome::Successful);
    for n in 0..10 {
        let item = report.cache.get(&n.to_string()).unwrap();
        assert_eq!(item.image_link, format!("https://arweave.net/id-{}", n));
        assert_eq!(item.metadata_link, "");
        assert_eq!(item.animation_link, None);
    }
    assert!(checkpoints >= 1);
    assert!(most <= 4);
}

#[test]
fn five_metadata_files_with_one_transport_error() {
    let (report, _, _) = run(
        cache_of(5),
        tasks_of(5, DataType::Metadata, "json"),
        DataType::Metadata,
        4,
        third_fails,
    );
    let expected = vec![FailedUpload {
        asset_id: "3".to_string(),
        error: UploadError::SendDataFailed("Bundlr upload error: connection reset".to_string()),
    }];
    assert_eq!(report.outcome, Outcome::Failed(expected));
    for n in [0usize, 1, 2, 4] {
        let item = report.cache.get(&n.to_string()).unwrap();
        assert_eq!(item.metadata_link, format!("https://arweave.net/id-{}", n));
    }
    assert_eq!(report.cache.get("3").unwrap().metadata_link, "");
}

#[test]
fn first_dispatch_takes_the_front_of_the_queue() {
    let started =
        Scheduler::new(cache_of(10), tasks_of(10, DataType::Image, "png"), DataType::Image, 4)
            .unwrap();
    let ids: Vec<&str> = started.dispatch.iter().map(|t| t.asset_id.as_str()).collect();
    assert_eq!(ids, vec!["0", "1", "2", "3"]);
    assert_eq!(started.scheduler.in_flight_count(), 4);
    assert_eq!(started.scheduler.pending_count(), 6);
    assert_eq!(started.scheduler.completed_count(), 0);
}

#[test]
fn first_dispatch_of_a_short_queue_takes_all() {
    assert_eq!(PARALLEL_LIMIT, 45);
    let started = Scheduler::new(
        cache_of(3),
        tasks_of(3, DataType::Image, "png"),
        DataType::Image,
        PARALLEL_LIMIT,
    )
    .unwrap();
    assert_eq!(started.dispatch, tasks_of(3, DataType::Image, "png"));
    assert_eq!(started.scheduler.pending_count(), 0);
}

#[test]
fn refill_waits_until_the_pool_is_below_half() {
    let started =
        Scheduler::new(cache_of(10), tasks_of(10, DataType::Image, "png"), DataType::Image, 4)
            .unwrap();
    let mut scheduler = started.scheduler;
    // 4 in flight -> 3: no refill.
    let refill =
        scheduler.harvest(Completion { asset_id: "2".to_string(), result: Ok("a".to_string()) }).unwrap();
    assert!(!refill.checkpoint);
    assert!(refill.tasks.is_empty());
    // 3 -> 2: two is not below half of four.
    let refill =
        scheduler.harvest(Completion { asset_id: "0".to_string(), result: Ok("b".to_string()) }).unwrap();
    assert!(!refill.checkpoint);
    assert!(refill.tasks.is_empty());
    // 2 -> 1: refill with half of the limit, from the front of the queue.
    let refill =
        scheduler.harvest(Completion { asset_id: "3".to_string(), result: Ok("c".to_string()) }).unwrap();
    assert!(refill.checkpoint);
    let ids: Vec<&str> = refill.tasks.iter().map(|t| t.asset_id.as_str()).collect();
    assert_eq!(ids, vec!["4", "5"]);
    assert_eq!(scheduler.in_flight_count(), 3);
    assert_eq!(scheduler.pending_count(), 4);
    assert_eq!(scheduler.completed_count(), 3);
}

#[test]
fn refill_with_an_odd_limit() {
    let started =
        Scheduler::new(cache_of(10), tasks_of(10, DataType::Image, "png"), DataType::Image, 5)
            .unwrap();
    let mut scheduler = started.scheduler;
    for id in ["0", "1"] {
        let refill = scheduler
            .harvest(Completion { asset_id: id.to_string(), result: Ok("x".to_string()) })
            .unwrap();
        assert!(!refill.checkpoint);
    }
    // 3 -> 2: twice two is below five.
    let refill =
        scheduler.harvest(Completion { asset_id: "2".to_string(), result: Ok("x".to_string()) }).unwrap();
    assert!(refill.checkpoint);
    assert_eq!(refill.tasks.len(), 2);
    assert_eq!(scheduler.in_flight_count(), 4);
}

#[test]
fn the_last_refill_takes_what_is_left() {
    let started =
        Scheduler::new(cache_of(5), tasks_of(5, DataType::Image, "png"), DataType::Image, 4)
            .unwrap();
    let mut scheduler = started.scheduler;
    for id in ["0", "1"] {
        scheduler.harvest(Completion { asset_id: id.to_string(), result: Ok("x".to_string()) }).unwrap();
    }
    let refill =
        scheduler.harvest(Completion { asset_id: "2".to_string(), result: Ok("x".to_string()) }).unwrap();
    assert!(refill.checkpoint);
    assert_eq!(refill.tasks.len(), 1);
    assert_eq!(refill.tasks[0].asset_id, "4");
    // Nothing waits any more: no further checkpoint.
    let refill =
        scheduler.harvest(Completion { asset_id: "3".to_string(), result: Ok("x".to_string()) }).unwrap();
    assert!(!refill.checkpoint);
}

#[test]
fn cancellation_stops_the_run_and_reports_it_aborted() {
    let started =
        Scheduler::new(cache_of(10), tasks_of(10, DataType::Image, "png"), DataType::Image, 4)
            .unwrap();
    let mut scheduler = started.scheduler;
    assert!(scheduler.is_running(false));
    scheduler.harvest(Completion { asset_id: "1".to_string(), result: Ok("one".to_string()) }).unwrap();
    assert!(!scheduler.is_running(true));
    let report = scheduler.finish();
    assert_eq!(
        report.outcome,
        Outcome::Aborted { failures: vec![], not_started: 6, abandoned: 3 }
    );
    // What was harvested before the cancellation is in the cache to flush.
    assert_eq!(report.cache.get("1").unwrap().image_link, "https://arweave.net/one");
    assert_eq!(report.cache.get("0").unwrap().image_link, "");
}

#[test]
fn cancellation_after_a_failure_is_still_aborted() {
    let started =
        Scheduler::new(cache_of(3), tasks_of(3, DataType::Image, "png"), DataType::Image, 2)
            .unwrap();
    let mut scheduler = started.scheduler;
    scheduler.harvest(Completion { asset_id: "0".to_string(), result: Err("boom".to_string()) }).unwrap();
    let report = scheduler.finish();
    match report.outcome {
        Outcome::Aborted { failures, not_started, abandoned } => {
            assert_eq!(failures.len(), 1);
            assert_eq!(failures[0].asset_id, "0");
            assert_eq!(not_started + abandoned, 2);
        }
        other => panic!("unexpected outcome {:?}", other),
    }
}

#[test]
fn cancellation_after_the_last_harvest_is_no_abort() {
    let started =
        Scheduler::new(cache_of(1), tasks_of(1, DataType::Image, "png"), DataType::Image, 4)
            .unwrap();
    let mut scheduler = started.scheduler;
    scheduler.harvest(Completion { asset_id: "0".to_string(), result: Ok("z".to_string()) }).unwrap();
    assert!(!scheduler.is_running(true));
    assert_eq!(scheduler.outcome(), Outcome::Successful);
}

#[test]
fn a_completion_for_an_unknown_upload_changes_nothing() {
    let started =
        Scheduler::new(cache_of(3), tasks_of(3, DataType::Image, "png"), DataType::Image, 2)
            .unwrap();
    let mut scheduler = started.scheduler;
    // "2" waits, "9" does not exist: neither is in flight.
    for id in ["2", "9"] {
        let back = scheduler
            .harvest(Completion { asset_id: id.to_string(), result: Ok("x".to_string()) })
            .unwrap_err();
        assert_eq!(back.asset_id, id);
        assert_eq!(back.result, Ok("x".to_string()));
    }
    assert_eq!(scheduler.in_flight_count(), 2);
    assert_eq!(scheduler.pending_count(), 1);
    assert_eq!(scheduler.completed_count(), 0);
    assert_eq!(scheduler.cache().get("2").unwrap().image_link, "");
    // A second completion for the same upload is turned down too.
    scheduler.harvest(Completion { asset_id: "0".to_string(), result: Ok("x".to_string()) }).unwrap();
    assert!(scheduler
        .harvest(Completion { asset_id: "0".to_string(), result: Ok("y".to_string()) })
        .is_err());
    assert_eq!(scheduler.cache().get("0").unwrap().image_link, "https://arweave.net/x");
}

#[test]
fn animation_links_are_recorded_as_some() {
    let (report, _, _) = run(
        cache_of(2),
        tasks_of(2, DataType::Animation, "mp4"),
        DataType::Animation,
        4,
        always_ok,
    );
    assert_eq!(report.outcome, Outcome::Successful);
    assert_eq!(
        report.cache.get("1").unwrap().animation_link,
        Some("https://arweave.net/id-1".to_string())
    );
    assert_eq!(report.cache.get("1").unwrap().image_link, "");
}

#[test]
fn a_failed_upload_keeps_the_prior_link() {
    let mut cache = cache_of(5);
    cache.set_link("3", DataType::Metadata, "https://arweave.net/old".to_string());
    let (report, _, _) =
        run(cache, tasks_of(5, DataType::Metadata, "json"), DataType::Metadata, 2, third_fails);
    assert_eq!(report.cache.get("3").unwrap().metadata_link, "https://arweave.net/old");
}

#[test]
fn a_plan_with_a_task_of_another_kind_is_rejected() {
    let mut tasks = tasks_of(3, DataType::Image, "png");
    tasks[1].data_type = DataType::Metadata;
    let rejected = Scheduler::new(cache_of(3), tasks, DataType::Image, 4).unwrap_err();
    assert_eq!(rejected.error, UploadError::WrongDataType("1".to_string()));
    assert_eq!(rejected.cache, cache_of(3));
}

#[test]
fn a_plan_with_an_asset_that_the_cache_lacks_is_rejected() {
    let rejected =
        Scheduler::new(cache_of(2), tasks_of(3, DataType::Image, "png"), DataType::Image, 4)
            .unwrap_err();
    assert_eq!(rejected.error, UploadError::MissingCacheItem("2".to_string()));
}

#[test]
fn a_plan_with_an_asset_twice_is_rejected() {
    let mut tasks = tasks_of(3, DataType::Image, "png");
    tasks.push(task("1", DataType::Image, "png"));
    let rejected = Scheduler::new(cache_of(3), tasks, DataType::Image, 4).unwrap_err();
    assert_eq!(rejected.error, UploadError::DuplicateAsset("1".to_string()));
}

#[test]
fn the_first_defect_of_a_plan_is_reported() {
    let mut tasks = tasks_of(3, DataType::Image, "png");
    tasks.push(task("0", DataType::Image, "png"));
    tasks[2].data_type = DataType::Animation;
    let rejected = Scheduler::new(cache_of(3), tasks, DataType::Image, 4).unwrap_err();
    assert_eq!(rejected.error, UploadError::WrongDataType("2".to_string()));
}

#[test]
fn an_empty_plan_is_successful_at_once() {
    let started = Scheduler::new(cache_of(1), vec![], DataType::Image, 4).unwrap();
    assert!(started.dispatch.is_empty());
    assert!(!started.scheduler.is_running(false));
    assert_eq!(started.scheduler.finish().outcome, Outcome::Successful);
}

#[test]
fn a_limit_of_zero_starts_nothing() {
    let started =
        Scheduler::new(cache_of(2), tasks_of(2, DataType::Image, "png"), DataType::Image, 0)
            .unwrap();
    assert!(started.dispatch.is_empty());
    assert!(!started.scheduler.is_running(false));
    assert_eq!(
        started.scheduler.finish().outcome,
        Outcome::Aborted { failures: vec![], not_started: 2, abandoned: 0 }
    );
}

#[test]
fn a_limit_of_one_cannot_refill() {
    let (report, checkpoints, _) =
        run(cache_of(3), tasks_of(3, DataType::Image, "png"), DataType::Image, 1, always_ok);
    assert_eq!(checkpoints, 1);
    assert_eq!(report.outcome, Outcome::Aborted { failures: vec![], not_started: 2, abandoned: 0 });
    assert_eq!(report.cache.get("0").unwrap().image_link, "https://arweave.net/id-0");
}

#[test]
fn failures_are_listed_in_the_order_of_their_harvest() {
    let started =
        Scheduler::new(cache_of(3), tasks_of(3, DataType::Image, "png"), DataType::Image, 3)
            .unwrap();
    let mut scheduler = started.scheduler;
    for id in ["2", "0"] {
        scheduler
            .harvest(Completion { asset_id: id.to_string(), result: Err(format!("e{}", id)) })
            .unwrap();
    }
    let failures = scheduler.failures();
    assert_eq!(failures.len(), 2);
    assert_eq!(failures[0].asset_id, "2");
    assert_eq!(failures[0].error, UploadError::SendDataFailed("Bundlr upload error: e2".to_string()));
    assert_eq!(failures[1].asset_id, "0");
}

#[test]
fn gateway_link_prefixes_the_transaction() {
    assert_eq!(gateway_link("abc"), "https://arweave.net/abc");
    assert_eq!(gateway_link(""), "https://arweave.net/");
}

#[test]
fn each_outcome_has_its_message() {
    assert_eq!(Outcome::Successful.message(), "Upload successful");
    assert_eq!(Outcome::Failed(vec![]).message(), "Upload failed");
    assert_eq!(
        Outcome::Aborted { failures: vec![], not_started: 1, abandoned: 0 }.message(),
        "Upload aborted"
    );
}
