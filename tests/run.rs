use gitlab_cleaner::batch::{BatchError, EraseOutcome};
use gitlab_cleaner::clock::{Timestamp, SECONDS_PER_DAY};
use gitlab_cleaner::git::{EraseJob, GetJobs, GetJobsResponse, Job};
use gitlab_cleaner::run::Cleanup;

const NOW: i64 = 1_700_000_000;

fn job(id: u64, created: i64) -> Job {
    Job { id, created_at: Timestamp::new(created, 0), erased_at: None }
}

#[test]
fn run_loads_three_pages_before_erasing() {
    let cutoff = Timestamp::new(NOW, 0);
    let day = SECONDS_PER_DAY as i64;
    // Odd ids are old, even ids are new.
    let make = |from: u64, count: u64, next_page: Option<u64>| GetJobsResponse {
        jobs: (from..from + count).map(|i| job(i, if i % 2 == 1 { NOW - day } else { NOW + day })).collect(),
        next_page,
    };
    let mut responses = vec![make(1, 50, Some(2)), make(51, 50, Some(3)), make(101, 7, None)].into_iter();
    let mut run = Cleanup::new(9, cutoff);
    let mut pages = Vec::new();
    while let Some(request) = run.next_request() {
        assert_eq!(request, GetJobs { project_id: 9, older_than: cutoff, page: request.page });
        pages.push(request.page);
        run.on_page(responses.next().unwrap());
    }
    assert_eq!(pages, vec![1, 2, 3]);
    let requests = run.erase_requests();
    assert_eq!(requests.len(), 54);
    assert_eq!(requests[0], EraseJob { project_id: 9, job_id: 1 });
    assert_eq!(requests[53], EraseJob { project_id: 9, job_id: 107 });
    assert_eq!(run.progress(), 0);
}

#[test]
fn run_tallies_failures_and_progress() {
    let cutoff = Timestamp::new(NOW, 0);
    let mut run = Cleanup::new(3, cutoff);
    run.on_page(GetJobsResponse { jobs: (1..=5).map(|i| job(i, NOW - 60)).collect(), next_page: None });
    assert!(run.next_request().is_none());
    let requests = run.erase_requests();
    assert_eq!(requests.len(), 5);
    for slot in (0..5).rev() {
        let id = requests[slot].job_id;
        let outcome = if id % 2 == 0 { EraseOutcome::Failed(format!("job {}", id)) } else { EraseOutcome::Erased };
        assert_eq!(run.on_erased(slot, outcome), Ok(id));
    }
    assert_eq!(run.on_erased(0, EraseOutcome::Erased), Err(BatchError::AlreadyRecorded));
    assert_eq!(run.progress(), 5);
    assert_eq!(run.failures(), vec![(2, "job 2".to_string()), (4, "job 4".to_string())]);
}

#[test]
fn run_with_nothing_old_erases_nothing() {
    let mut run = Cleanup::new(3, Timestamp::new(NOW, 0));
    run.on_page(GetJobsResponse { jobs: vec![job(1, NOW + 1)], next_page: None });
    assert!(run.erase_requests().is_empty());
    assert!(run.failures().is_empty());
}
