use extension_mirror::downloader::{
    needs_downloading, relative_link_target, Download, Downloader, Outcome, Worker, WorkerAction,
    WorkerEvent, WorkerState, QUEUE_CAPACITY,
};

fn task(force: bool, size: Option<u64>, link: Option<&str>) -> Download {
    Download {
        url: "https://registry.example/extensions/a/1.0.0/download".to_string(),
        size,
        primary_target_path: "out/extensions/a/1.0.0/archive".to_string(),
        symlink_path: link.map(|l| l.to_string()),
        always_download: force,
    }
}

fn target() -> String {
    "out/extensions/a/1.0.0/archive".to_string()
}

fn link() -> String {
    "out/extensions/a/archive".to_string()
}

fn run(dl: &Download, events: Vec<WorkerEvent>) -> (WorkerState, Vec<WorkerAction>) {
    let (mut state, first) = Worker::start(dl);
    let mut actions = vec![first];
    for event in events {
        let (next, action) = Worker::advance(dl, state, event);
        state = next;
        actions.push(action);
    }
    (state, actions)
}

#[test]
fn queue_holds_1024_tasks() {
    assert_eq!(QUEUE_CAPACITY, 1024);
}

#[test]
fn forced_task_is_downloaded_whatever_the_target() {
    let dl = task(true, None, None);
    assert!(needs_downloading(&dl, Some(true)));
    assert!(needs_downloading(&dl, Some(false)));
    assert!(needs_downloading(&dl, None));
}

#[test]
fn unforced_task_is_downloaded_unless_the_target_is_there() {
    let dl = task(false, None, None);
    assert!(!needs_downloading(&dl, Some(true)));
    assert!(needs_downloading(&dl, Some(false)));
    assert!(needs_downloading(&dl, None));
}

#[test]
fn forced_task_starts_without_a_look_at_the_target() {
    let dl = task(true, None, None);
    let (state, action) = Worker::start(&dl);
    assert_eq!(state, WorkerState::MakingDirs);
    assert_eq!(action, WorkerAction::EnsureParentDir { path: target() });
}

#[test]
fn unforced_task_starts_with_a_look_at_the_target() {
    let dl = task(false, None, None);
    let (state, action) = Worker::start(&dl);
    assert_eq!(state, WorkerState::Probing);
    assert_eq!(action, WorkerAction::ProbeTarget { path: target() });
}

#[test]
fn present_target_without_a_link_is_kept_at_once() {
    let dl = task(false, None, None);
    let (state, actions) = run(&dl, vec![WorkerEvent::Exists(true), WorkerEvent::Done]);
    assert_eq!(state, WorkerState::Finished(Outcome::Kept));
    assert_eq!(
        actions,
        vec![
            WorkerAction::ProbeTarget { path: target() },
            WorkerAction::Finish(Outcome::Kept),
            WorkerAction::Finish(Outcome::Kept),
        ]
    );
}

#[test]
fn present_target_is_not_fetched_and_its_link_is_placed_anew() {
    let dl = task(false, None, Some("out/extensions/a/archive"));
    let (state, actions) = run(
        &dl,
        vec![WorkerEvent::Exists(true), WorkerEvent::Done, WorkerEvent::Failed, WorkerEvent::Done],
    );
    assert_eq!(state, WorkerState::Finished(Outcome::Kept));
    assert_eq!(
        actions,
        vec![
            WorkerAction::ProbeTarget { path: target() },
            WorkerAction::EnsureParentDir { path: link() },
            WorkerAction::RemoveFile { path: link() },
            WorkerAction::Link { target: "1.0.0/archive".to_string(), link: link() },
            WorkerAction::Finish(Outcome::Kept),
        ]
    );
}

#[test]
fn kept_task_whose_link_cannot_be_placed_fails() {
    let dl = task(false, None, Some("out/extensions/a/archive"));
    let (state, _) = run(
        &dl,
        vec![WorkerEvent::Exists(true), WorkerEvent::Done, WorkerEvent::Done, WorkerEvent::Failed],
    );
    assert_eq!(state, WorkerState::Finished(Outcome::Failed));
    let (state, _) = run(&dl, vec![WorkerEvent::Exists(true), WorkerEvent::Failed]);
    assert_eq!(state, WorkerState::Finished(Outcome::Failed));
}

#[test]
fn absent_target_is_fetched_and_linked() {
    let dl = task(false, None, Some("out/extensions/a/archive"));
    let (state, actions) = run(
        &dl,
        vec![
            WorkerEvent::Exists(false),
            WorkerEvent::Done,
            WorkerEvent::Done,
            WorkerEvent::Done,
            WorkerEvent::Done,
            WorkerEvent::Failed,
            WorkerEvent::Done,
        ],
    );
    assert_eq!(state, WorkerState::Finished(Outcome::Fetched));
    assert_eq!(
        actions,
        vec![
            WorkerAction::ProbeTarget { path: target() },
            WorkerAction::EnsureParentDir { path: target() },
            WorkerAction::CreateFile { path: target() },
            WorkerAction::Fetch {
                url: "https://registry.example/extensions/a/1.0.0/download".to_string(),
                path: target(),
            },
            WorkerAction::EnsureParentDir { path: link() },
            WorkerAction::RemoveFile { path: link() },
            WorkerAction::Link { target: "1.0.0/archive".to_string(), link: link() },
            WorkerAction::Finish(Outcome::Fetched),
        ]
    );
}

#[test]
fn failed_look_at_the_target_counts_as_absent() {
    let dl = task(false, None, None);
    let (state, action) = Worker::advance(&dl, WorkerState::Probing, WorkerEvent::Failed);
    assert_eq!(state, WorkerState::MakingDirs);
    assert_eq!(action, WorkerAction::EnsureParentDir { path: target() });
}

#[test]
fn source_without_the_file_has_the_target_removed_and_fails() {
    let dl = task(true, None, Some("out/extensions/a/archive"));
    let (state, actions) = run(
        &dl,
        vec![WorkerEvent::Done, WorkerEvent::Done, WorkerEvent::NotFound, WorkerEvent::Done],
    );
    assert_eq!(state, WorkerState::Finished(Outcome::Failed));
    assert_eq!(
        actions,
        vec![
            WorkerAction::EnsureParentDir { path: target() },
            WorkerAction::CreateFile { path: target() },
            WorkerAction::Fetch {
                url: "https://registry.example/extensions/a/1.0.0/download".to_string(),
                path: target(),
            },
            WorkerAction::RemoveFile { path: target() },
            WorkerAction::Finish(Outcome::Failed),
        ]
    );
}

#[test]
fn forced_task_is_fetched_whatever_its_size() {
    for size in [None, Some(0), Some(10)] {
        let dl = task(true, size, None);
        let (state, actions) =
            run(&dl, vec![WorkerEvent::Done, WorkerEvent::Done, WorkerEvent::Done]);
        assert_eq!(state, WorkerState::Finished(Outcome::Fetched));
        assert_eq!(
            actions,
            vec![
                WorkerAction::EnsureParentDir { path: target() },
                WorkerAction::CreateFile { path: target() },
                WorkerAction::Fetch {
                    url: "https://registry.example/extensions/a/1.0.0/download".to_string(),
                    path: target(),
                },
                WorkerAction::Finish(Outcome::Fetched),
            ]
        );
    }
}

#[test]
fn step_with_a_given_link_target_follows_the_target() {
    let dl = task(true, None, Some("out/extensions/a/archive"));
    let (state, action) = Worker::advance_with(
        &dl,
        WorkerState::ClearingLink(Outcome::Fetched),
        WorkerEvent::Failed,
        Some("elsewhere/archive".to_string()),
    );
    assert_eq!(state, WorkerState::Linking(Outcome::Fetched));
    assert_eq!(
        action,
        WorkerAction::Link { target: "elsewhere/archive".to_string(), link: link() }
    );
    let (state, action) = Worker::advance_with(
        &dl,
        WorkerState::MakingLinkDir(Outcome::Kept),
        WorkerEvent::Done,
        None,
    );
    assert_eq!(state, WorkerState::Finished(Outcome::Failed));
    assert_eq!(action, WorkerAction::Finish(Outcome::Failed));
    assert_eq!(Worker::link_target(&dl), Some("1.0.0/archive".to_string()));
    assert_eq!(Worker::link_target(&task(true, None, None)), None);
}

#[test]
fn any_failed_step_fails_the_task() {
    let dl = task(true, None, Some("out/extensions/a/archive"));
    let (state, _) = run(&dl, vec![WorkerEvent::Failed]);
    assert_eq!(state, WorkerState::Finished(Outcome::Failed));
    let (state, _) = run(&dl, vec![WorkerEvent::Done, WorkerEvent::Failed]);
    assert_eq!(state, WorkerState::Finished(Outcome::Failed));
    let (state, _) = run(&dl, vec![WorkerEvent::Done, WorkerEvent::Done, WorkerEvent::Failed]);
    assert_eq!(state, WorkerState::Finished(Outcome::Failed));
    let (state, _) = run(
        &dl,
        vec![WorkerEvent::Done, WorkerEvent::Done, WorkerEvent::Done, WorkerEvent::Failed],
    );
    assert_eq!(state, WorkerState::Finished(Outcome::Failed));
    let (state, _) = run(
        &dl,
        vec![
            WorkerEvent::Done,
            WorkerEvent::Done,
            WorkerEvent::Done,
            WorkerEvent::Done,
            WorkerEvent::Done,
            WorkerEvent::Failed,
        ],
    );
    assert_eq!(state, WorkerState::Finished(Outcome::Failed));
}

#[test]
fn link_without_a_directory_fails_the_task() {
    let dl = task(true, None, Some(""));
    let (state, actions) = run(
        &dl,
        vec![WorkerEvent::Done, WorkerEvent::Done, WorkerEvent::Done, WorkerEvent::Done],
    );
    assert_eq!(state, WorkerState::Finished(Outcome::Failed));
    assert_eq!(actions[4], WorkerAction::Finish(Outcome::Failed));
}

#[test]
fn every_run_is_over_after_eight_events() {
    let events = [
        WorkerEvent::Exists(true),
        WorkerEvent::Exists(false),
        WorkerEvent::Done,
        WorkerEvent::Failed,
        WorkerEvent::NotFound,
    ];
    for force in [false, true] {
        for size in [None, Some(0), Some(5)] {
            for link in [None, Some("out/extensions/a/archive")] {
                let dl = task(force, size, link);
                for seed in 0..2000u32 {
                    let mut n = seed;
                    let mut run_events = Vec::new();
                    for _ in 0..8 {
                        run_events.push(events[(n % 5) as usize]);
                        n /= 5;
                    }
                    let (state, _) = run(&dl, run_events);
                    assert!(matches!(state, WorkerState::Finished(_)));
                }
            }
        }
    }
}

#[test]
fn link_target_is_relative_to_the_directory_of_the_link() {
    assert_eq!(
        relative_link_target("out/extensions/a/1.0.0/archive", "out/extensions/a/archive"),
        Some("1.0.0/archive".to_string())
    );
    assert_eq!(
        relative_link_target("/data/extensions/a/2.0/archive", "/data/extensions/a/archive"),
        Some("2.0/archive".to_string())
    );
    assert_eq!(
        relative_link_target("/data/x/archive", "/data/y/z/link"),
        Some("../../x/archive".to_string())
    );
    assert_eq!(relative_link_target("a/b", ""), None);
    assert_eq!(relative_link_target("a/b", "/"), None);
    assert_eq!(relative_link_target("a/b", "/abs/link"), None);
}

#[test]
fn queuing_announces_one_file_and_the_known_bytes() {
    let mut pool = Downloader::build(8);
    assert_eq!(pool.num_threads, 8);
    pool.queue(&task(false, None, None));
    assert_eq!(pool.progress().files.total(), 1);
    assert_eq!(pool.progress().bytes.total(), 0);
    pool.queue(&task(false, Some(300), None));
    assert_eq!(pool.progress().files.total(), 2);
    assert_eq!(pool.progress().bytes.total(), 300);
}

#[test]
fn outcomes_are_counted_as_success_or_skipped() {
    let mut pool = Downloader::build(2);
    for _ in 0..4 {
        pool.queue(&task(false, None, None));
    }
    pool.download_and_track(Outcome::Fetched);
    pool.download_and_track(Outcome::Kept);
    pool.download_and_track(Outcome::Failed);
    assert_eq!(pool.progress().files.success(), 1);
    assert_eq!(pool.progress().files.skipped(), 2);
    assert_eq!(pool.progress().files.failed(), 0);
    assert_eq!(pool.progress().files.remaining(), 1);
    pool.download_and_track(Outcome::Failed);
    assert_eq!(pool.progress().files.skipped(), 3);
    assert_eq!(pool.progress().files.remaining(), 0);
}

#[test]
fn chunks_of_unknown_size_are_announced_as_they_come() {
    let mut pool = Downloader::build(1);
    pool.queue(&task(false, None, None));
    pool.chunk_received(100);
    assert_eq!(pool.progress().bytes.total(), 100);
    assert_eq!(pool.progress().bytes.success(), 100);
    pool.chunk_received(28);
    assert_eq!(pool.progress().bytes.total(), 128);
    assert_eq!(pool.progress().bytes.success(), 128);
    assert_eq!(pool.progress().bytes.remaining(), 0);
    assert_eq!(pool.progress().files.success(), 0);
}

#[test]
fn chunks_of_known_size_use_up_what_was_announced() {
    let mut pool = Downloader::build(1);
    pool.queue(&task(false, Some(300), None));
    pool.chunk_received(100);
    assert_eq!(pool.progress().bytes.total(), 300);
    assert_eq!(pool.progress().bytes.success(), 100);
    assert_eq!(pool.progress().bytes.remaining(), 200);
    pool.chunk_received(250);
    assert_eq!(pool.progress().bytes.total(), 350);
    assert_eq!(pool.progress().bytes.success(), 350);
    assert_eq!(pool.progress().bytes.remaining(), 0);
}

#[test]
fn byte_counters_stay_consistent_through_a_run() {
    let mut pool = Downloader::build(4);
    let mut n: u64 = 7;
    for round in 0..200u64 {
        let size = if round % 3 == 0 { Some(n % 1000) } else { None };
        pool.queue(&task(false, size, None));
        for _ in 0..(round % 4) {
            n = n.wrapping_mul(6364136223846793005).wrapping_add(1442695040888963407);
            pool.chunk_received(n % 5000);
            let bytes = &pool.progress().bytes;
            assert!(bytes.success() + bytes.skipped() + bytes.failed() <= bytes.total());
        }
        pool.download_and_track(if round % 2 == 0 { Outcome::Fetched } else { Outcome::Failed });
        let files = &pool.progress().files;
        assert!(files.success() + files.skipped() + files.failed() <= files.total());
    }
}
