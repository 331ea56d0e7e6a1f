use dj_cli::app::DownloadError;
use dj_cli::batch::{may_toggle, BatchQueue, BatchRun};

fn urls(n: usize) -> Vec<String> {
    (1..=n)
        .map(|i| format!("https://youtu.be/vid{}", i))
        .collect()
}

#[test]
fn batch_with_second_failing() {
    let queue = urls(3);
    let mut run = BatchRun::new(queue.clone());
    let mut i = 0;
    while let Some(url) = run.next_job() {
        assert_eq!(url, queue[i]);
        assert_eq!(run.progress().current, i + 1);
        run.record(i != 1);
        i += 1;
    }
    let p = run.progress();
    assert_eq!(p.completed, vec![queue[0].clone(), queue[2].clone()]);
    assert_eq!(p.failed, vec![queue[1].clone()]);
    assert_eq!(p.current, 3);
    assert_eq!(p.total, 3);
    assert!(run.is_done());
    assert_eq!(run.summary(), "Batch complete: 2 downloaded, 1 failed");
}

#[test]
fn batch_counts_hold_at_every_step() {
    let mut run = BatchRun::new(urls(4));
    let mut processed = 0;
    loop {
        let p = run.progress();
        assert_eq!(p.completed.len() + p.failed.len(), processed);
        assert!(processed <= p.total);
        match run.next_job() {
            Some(_) => {
                let p = run.progress();
                assert_eq!(p.completed.len() + p.failed.len(), p.current - 1);
                run.record(processed % 2 == 0);
                processed += 1;
            }
            None => break,
        }
    }
    assert_eq!(processed, 4);
    assert_eq!(run.summary(), "Batch complete: 2 downloaded, 2 failed");
}

#[test]
fn empty_batch_is_done_at_once() {
    let mut run = BatchRun::new(Vec::new());
    assert!(run.is_done());
    assert_eq!(run.next_job(), None);
    assert_eq!(run.progress().current, 0);
    assert_eq!(run.summary(), "Batch complete: 0 downloaded, 0 failed");
}

#[test]
fn queue_checks_only_the_host() {
    let mut q = BatchQueue::new();
    assert_eq!(q.confirm("   "), Err(DownloadError::EmptyInput));
    assert_eq!(q.confirm("https://example.com/v"), Err(DownloadError::InvalidHost));
    assert_eq!(q.confirm("  youtube.com/anything at all "), Ok(()));
    assert_eq!(q.confirm("youtu.be"), Ok(()));
    assert_eq!(q.len(), 2);
    let mut run = q.start_run();
    assert_eq!(q.len(), 0);
    assert_eq!(run.next_job(), Some("youtube.com/anything at all".to_string()));
    q.confirm("youtu.be/x").unwrap();
    q.clear();
    assert_eq!(q.len(), 0);
}

#[test]
fn toggle_only_between_runs() {
    assert!(may_toggle(&None));
    let mut run = BatchRun::new(urls(1));
    let _ = run.next_job();
    let open = Some(run);
    assert!(!may_toggle(&open));
    let mut run = open.unwrap();
    run.record(true);
    assert!(may_toggle(&Some(run)));
}
