use extension_mirror::progress::{
    BarUpdate, Progress, ProgressPart, WaitStep, DEFAULT_TOTAL_STEPS, FILES_TEMPLATE,
    NO_SIZE_TEMPLATE, POLL_INTERVAL_MS,
};

#[test]
fn new_part_is_all_zero() {
    let part = ProgressPart::new();
    assert_eq!(part.total(), 0);
    assert_eq!(part.success(), 0);
    assert_eq!(part.skipped(), 0);
    assert_eq!(part.failed(), 0);
    assert_eq!(part.remaining(), 0);
}

#[test]
fn counters_add_up() {
    let mut part = ProgressPart::new();
    part.inc_total(10);
    part.inc_total(5);
    part.inc_success(4);
    part.inc_skipped(3);
    part.inc_success(1);
    assert_eq!(part.total(), 15);
    assert_eq!(part.success(), 5);
    assert_eq!(part.skipped(), 3);
    assert_eq!(part.failed(), 0);
    assert_eq!(part.remaining(), 7);
}

#[test]
fn done_never_exceeds_total_in_an_orderly_run() {
    let mut part = ProgressPart::new();
    for round in 0..50u64 {
        part.inc_total(2);
        assert!(part.success() + part.skipped() + part.failed() <= part.total());
        part.inc_success(1);
        assert!(part.success() + part.skipped() + part.failed() <= part.total());
        part.inc_skipped(1);
        assert!(part.success() + part.skipped() + part.failed() <= part.total());
        assert_eq!(part.remaining(), 0);
        assert_eq!(part.total(), 2 * (round + 1));
    }
}

#[test]
fn remaining_is_total_less_done() {
    let mut part = ProgressPart::new();
    part.inc_total(1000);
    part.inc_success(250);
    part.inc_skipped(50);
    assert_eq!(part.remaining(), 700);
}

#[test]
fn remaining_wraps_when_more_is_done_than_announced() {
    let mut part = ProgressPart::new();
    part.inc_success(1);
    assert_eq!(part.remaining(), u64::MAX);
}

#[test]
fn counters_wrap_at_64_bits() {
    let mut part = ProgressPart::new();
    part.inc_total(u64::MAX);
    part.inc_total(2);
    assert_eq!(part.total(), 1);
}

#[test]
fn reset_returns_to_zero() {
    let mut part = ProgressPart::new();
    part.inc_total(9);
    part.inc_success(2);
    part.inc_skipped(3);
    part.reset();
    assert_eq!(part.total(), 0);
    assert_eq!(part.success(), 0);
    assert_eq!(part.skipped(), 0);
    assert_eq!(part.failed(), 0);
    assert_eq!(part.remaining(), 0);
}

#[test]
fn summary_names_the_three_counts() {
    let mut part = ProgressPart::new();
    part.inc_total(20);
    part.inc_success(12);
    part.inc_skipped(3);
    assert_eq!(part.summary(), "12 succeeded, 3 skipped, 0 failed");
}

#[test]
fn new_progress_announces_four_steps() {
    let progress = Progress::new();
    assert_eq!(progress.step, 0);
    assert_eq!(progress.total_steps, DEFAULT_TOTAL_STEPS);
    assert_eq!(progress.total_steps, 4);
    assert_eq!(progress.step_name, "");
    assert_eq!(progress.total_bytes, 0);
    assert_eq!(progress.create_prefix(), "[0/4] ");
}

#[test]
fn next_step_resets_counters_and_advances() {
    let mut progress = Progress::new();
    progress.set_total_steps(3);
    progress.files.inc_total(5);
    progress.files.inc_success(5);
    progress.bytes.inc_success(1234);
    progress.next_step("Downloading metadata");
    assert_eq!(progress.step, 1);
    assert_eq!(progress.step_name, "Downloading metadata");
    assert_eq!(progress.files.total(), 0);
    assert_eq!(progress.files.success(), 0);
    assert_eq!(progress.bytes.success(), 0);
    assert_eq!(progress.create_prefix(), "[1/3] Downloading metadata");
    progress.next_step("Downloading extensions");
    assert_eq!(progress.create_prefix(), "[2/3] Downloading extensions");
}

#[test]
fn step_number_wraps_at_eight_bits() {
    let mut progress = Progress::new();
    for _ in 0..256 {
        progress.next_step("x");
    }
    assert_eq!(progress.step, 0);
    progress.next_step("y");
    assert_eq!(progress.create_prefix(), "[1/4] y");
}

#[test]
fn bar_update_shows_done_files_and_bytes() {
    let mut progress = Progress::new();
    progress.files.inc_total(10);
    progress.files.inc_success(3);
    progress.files.inc_skipped(1);
    progress.bytes.inc_success(2048);
    assert_eq!(
        progress.update_for_files(),
        BarUpdate { length: 10, position: Some(4), bytes_done: 2048 }
    );
}

#[test]
fn bar_update_leaves_position_when_counters_are_out_of_order() {
    let mut progress = Progress::new();
    progress.files.inc_total(1);
    progress.files.inc_success(2);
    assert_eq!(
        progress.update_for_files(),
        BarUpdate { length: 1, position: None, bytes_done: 0 }
    );
}

#[test]
fn waiting_is_pending_while_files_remain() {
    let mut progress = Progress::new();
    progress.files.inc_total(2);
    progress.files.inc_success(1);
    progress.bytes.inc_success(100);
    assert_eq!(
        progress.wait_for_completion(),
        WaitStep::Pending(BarUpdate { length: 2, position: Some(1), bytes_done: 100 })
    );
    assert_eq!(progress.total_bytes, 0);
}

#[test]
fn waiting_finishes_and_adds_up_bytes() {
    let mut progress = Progress::new();
    progress.total_bytes = 50;
    progress.files.inc_total(2);
    progress.files.inc_success(1);
    progress.files.inc_skipped(1);
    progress.bytes.inc_success(100);
    assert_eq!(
        progress.wait_for_completion(),
        WaitStep::Finished(BarUpdate { length: 2, position: Some(2), bytes_done: 100 })
    );
    assert_eq!(progress.total_bytes, 150);
}

#[test]
fn bar_setups_take_their_length_from_the_series() {
    let mut progress = Progress::new();
    progress.set_total_steps(3);
    progress.next_step("Generating index");
    progress.files.inc_total(7);
    progress.bytes.inc_total(9000);
    let files = progress.create_download_progress_bar();
    assert_eq!(files.length, 7);
    assert_eq!(files.template, FILES_TEMPLATE);
    assert_eq!(files.prefix, "[1/3] Generating index");
    let bytes = progress.create_download_no_size_progress_bar();
    assert_eq!(bytes.length, 9000);
    assert_eq!(bytes.template, NO_SIZE_TEMPLATE);
    assert_eq!(bytes.template, "{prefix} [{elapsed_precise}] [{msg}]");
    assert_eq!(bytes.prefix, "[1/3] Generating index");
}

#[test]
fn polling_interval_is_a_tenth_of_a_second() {
    assert_eq!(POLL_INTERVAL_MS, 100);
}
