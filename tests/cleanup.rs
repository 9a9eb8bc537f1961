use gitlab_cleaner::batch::{Batch, BatchError, EraseOutcome};
use gitlab_cleaner::clock::{cutoff_from, parse_duration, DurationError, Timestamp, SECONDS_PER_DAY};
use gitlab_cleaner::displ::{Displ, DisplayMessage, IncreaseProgress, InitProgressBar};
use gitlab_cleaner::git::{next_page_from_header, resolve_project, GetJobsResponse, GitError, Job, Project};
use gitlab_cleaner::pipeline::{eligible_jobs, Pager};

const NOW: i64 = 1_700_000_000;

fn job(id: u64, created: i64) -> Job {
    Job { id, created_at: Timestamp::new(created, 0), erased_at: None }
}

fn project(id: u64, name: &str) -> Project {
    Project { id, name: name.to_string() }
}

fn page(first_id: u64, count: u64, next_page: Option<u64>) -> GetJobsResponse {
    let jobs = (first_id..first_id + count).map(|i| job(i, NOW - 1000 + i as i64)).collect();
    GetJobsResponse { jobs, next_page }
}

#[test]
fn single_match_resolves_to_its_id() {
    assert_eq!(resolve_project(&vec![project(42, "cleaner")]), Ok(42));
}

#[test]
fn no_match_is_not_found() {
    assert_eq!(resolve_project(&vec![]), Err(GitError::NotFound));
}

#[test]
fn several_matches_are_ambiguous() {
    let found = vec![project(1, "cleaner"), project(2, "cleaner-old")];
    assert_eq!(resolve_project(&found), Err(GitError::Ambiguous));
}

#[test]
fn three_pages_are_loaded_then_pagination_stops() {
    let mut responses = vec![page(1, 50, Some(2)), page(51, 50, Some(3)), page(101, 7, None)].into_iter();
    let mut pager = Pager::new();
    let mut requested = Vec::new();
    while let Some(p) = pager.page_to_load() {
        requested.push(p);
        pager.accept(responses.next().unwrap());
    }
    assert_eq!(requested, vec![1, 2, 3]);
    let jobs = pager.into_jobs();
    assert_eq!(jobs.len(), 107);
    let ids: Vec<u64> = jobs.iter().map(|j| j.id).collect();
    assert_eq!(ids, (1..=107).collect::<Vec<u64>>());
}

#[test]
fn an_empty_last_page_ends_pagination() {
    let mut pager = Pager::new();
    assert_eq!(pager.page_to_load(), Some(1));
    pager.accept(GetJobsResponse { jobs: vec![], next_page: None });
    assert_eq!(pager.page_to_load(), None);
    assert!(pager.into_jobs().is_empty());
}

#[test]
fn only_jobs_older_than_cutoff_are_eligible() {
    let cutoff = Timestamp::new(NOW, 0);
    let day = SECONDS_PER_DAY as i64;
    let jobs = vec![job(1, NOW - day), job(2, NOW + day)];
    let eligible = eligible_jobs(&jobs, cutoff);
    assert_eq!(eligible, vec![job(1, NOW - day)]);
}

#[test]
fn cutoff_is_strict_and_keeps_order() {
    let cutoff = Timestamp::new(NOW, 500);
    let jobs = vec![
        job(1, NOW - 5),
        Job { id: 2, created_at: Timestamp::new(NOW, 500), erased_at: None },
        Job { id: 3, created_at: Timestamp::new(NOW, 499), erased_at: Some(Timestamp::new(NOW, 900)) },
        job(4, NOW + 1),
        job(5, NOW - 9),
    ];
    let ids: Vec<u64> = eligible_jobs(&jobs, cutoff).iter().map(|j| j.id).collect();
    assert_eq!(ids, vec![1, 3, 5]);
}

#[test]
fn no_jobs_means_nothing_eligible() {
    assert!(eligible_jobs(&vec![], Timestamp::new(NOW, 0)).is_empty());
}

#[test]
fn two_failures_out_of_five_still_complete_the_batch() {
    let jobs: Vec<Job> = (1..=5).map(|i| job(i, NOW - 10)).collect();
    let mut batch = Batch::new(&jobs);
    let mut displ = Displ::new();
    displ.init_progress_bar(InitProgressBar { message: "Cleaning the jobs...".to_string(), length: 5 });
    // Completions arrive in an arbitrary order.
    for slot in [4usize, 1, 0, 3, 2] {
        let id = jobs[slot].id;
        let outcome = if id == 2 || id == 4 {
            EraseOutcome::Failed(format!("Could not erase the job {}", id))
        } else {
            EraseOutcome::Erased
        };
        assert_eq!(batch.record(slot, outcome), Ok(id));
        displ.increase_progress(IncreaseProgress { message: format!("Job {} erased.", id) });
    }
    assert!(batch.is_complete());
    assert_eq!(batch.progress(), 5);
    assert_eq!(batch.len(), 5);
    let failures = batch.failures();
    assert_eq!(failures.len(), 2);
    assert_eq!(failures[0], (2, "Could not erase the job 2".to_string()));
    assert_eq!(failures[1], (4, "Could not erase the job 4".to_string()));
    let bar = displ.progress_bar.as_ref().unwrap();
    assert_eq!((bar.position, bar.length), (5, 5));
}

#[test]
fn a_slot_takes_one_outcome_only() {
    let jobs = vec![job(7, NOW), job(8, NOW)];
    let mut batch = Batch::new(&jobs);
    assert_eq!(batch.record(1, EraseOutcome::Failed("timeout".to_string())), Ok(8));
    assert_eq!(batch.record(1, EraseOutcome::Erased), Err(BatchError::AlreadyRecorded));
    assert_eq!(batch.record(2, EraseOutcome::Erased), Err(BatchError::UnknownSlot));
    assert_eq!(batch.progress(), 1);
    assert!(!batch.is_complete());
    assert_eq!(batch.record(0, EraseOutcome::Erased), Ok(7));
    assert!(batch.is_complete());
    assert_eq!(batch.failures(), vec![(8, "timeout".to_string())]);
}

#[test]
fn an_empty_batch_is_complete() {
    let batch = Batch::new(&vec![]);
    assert!(batch.is_complete());
    assert_eq!(batch.progress(), 0);
}

#[test]
fn display_clears_the_bar() {
    let mut displ = Displ::default();
    let (line, cleared) = displ.display(DisplayMessage { message: "Loading jobs from page 1".to_string() });
    assert_eq!(line, "Loading jobs from page 1");
    assert!(!cleared);
    assert!(displ.init_progress_bar(InitProgressBar { message: "a".to_string(), length: 2 }) == false);
    let (_, cleared) = displ.display(DisplayMessage { message: "Done erasing jobs.".to_string() });
    assert!(cleared);
    assert!(displ.progress_bar.is_none());
}

#[test]
fn progress_without_a_bar_does_nothing() {
    let mut displ = Displ::new();
    assert!(!displ.increase_progress(IncreaseProgress { message: "x".to_string() }));
    assert!(displ.progress_bar.is_none());
}

#[test]
fn progress_never_passes_the_length() {
    let mut displ = Displ::new();
    displ.init_progress_bar(InitProgressBar { message: "start".to_string(), length: 1 });
    assert!(displ.increase_progress(IncreaseProgress { message: "one".to_string() }));
    assert!(displ.increase_progress(IncreaseProgress { message: "two".to_string() }));
    let bar = displ.progress_bar.as_ref().unwrap();
    assert_eq!((bar.position, bar.length), (1, 1));
    assert_eq!(bar.message, "two");
}

#[test]
fn a_new_bar_replaces_the_old_one() {
    let mut displ = Displ::new();
    displ.init_progress_bar(InitProgressBar { message: "first".to_string(), length: 3 });
    displ.increase_progress(IncreaseProgress { message: "step".to_string() });
    assert!(displ.init_progress_bar(InitProgressBar { message: "second".to_string(), length: 9 }));
    let bar = displ.progress_bar.as_ref().unwrap();
    assert_eq!((bar.message.as_str(), bar.position, bar.length), ("second", 0, 9));
}

#[test]
fn days_become_seconds() {
    assert_eq!(parse_duration("100"), Ok(8_640_000));
    assert_eq!(parse_duration("0"), Ok(0));
    assert_eq!(parse_duration("+2"), Ok(172_800));
}

#[test]
fn bad_day_counts_are_refused() {
    assert_eq!(parse_duration(""), Err(DurationError::Invalid));
    assert_eq!(parse_duration("-1"), Err(DurationError::Invalid));
    assert_eq!(parse_duration("ten"), Err(DurationError::Invalid));
    assert_eq!(parse_duration(" 5"), Err(DurationError::Invalid));
    assert_eq!(parse_duration("18446744073709551616"), Err(DurationError::Invalid));
    assert_eq!(parse_duration("213503982334601"), Ok(213_503_982_334_601 * 86_400));
    assert_eq!(parse_duration("213503982334602"), Err(DurationError::TooLarge));
}

#[test]
fn next_page_header_is_read_as_a_number() {
    assert_eq!(next_page_from_header(Some("3")), Some(3));
    assert_eq!(next_page_from_header(Some("")), None);
    assert_eq!(next_page_from_header(Some("x")), None);
    assert_eq!(next_page_from_header(None), None);
}

#[test]
fn cutoff_is_now_minus_the_window() {
    let now = Timestamp::new(NOW, 123);
    assert_eq!(cutoff_from(now, 100 * SECONDS_PER_DAY), Some(Timestamp::new(NOW - 8_640_000, 123)));
    assert_eq!(cutoff_from(Timestamp::new(i64::MIN + 5, 0), 6), None);
    assert_eq!(cutoff_from(Timestamp::new(i64::MIN + 5, 0), 5), Some(Timestamp::new(i64::MIN, 0)));
}
