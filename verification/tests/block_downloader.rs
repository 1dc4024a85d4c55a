use signum_node_rs::models::p2p::CumulativeDifficulty;
use signum_node_rs::models::p2p::PeerAddress;
use signum_node_rs::workers::block_downloader::block_downloader;
use signum_node_rs::workers::block_downloader::consensus_target;
use signum_node_rs::workers::block_downloader::download_candidates;
use signum_node_rs::workers::block_downloader::plan_download_jobs;
use signum_node_rs::workers::block_downloader::process_download_queue;
use signum_node_rs::workers::block_downloader::CumulativeDifficultyObservation;
use signum_node_rs::workers::block_downloader::DownloadQueue;
use signum_node_rs::workers::block_downloader::DownloadStep;

fn obs(host: &str, value: &str) -> CumulativeDifficultyObservation {
    CumulativeDifficultyObservation {
        peer: PeerAddress::parse(host).unwrap(),
        value: CumulativeDifficulty::parse_decimal(value).unwrap(),
    }
}

#[test]
fn consensus_with_tie_yields_no_target() {
    let observations = vec![
        obs("1.1.1.1", "100"),
        obs("2.2.2.2", "100"),
        obs("3.3.3.3", "200"),
        obs("4.4.4.4", "200"),
        obs("5.5.5.5", "300"),
    ];
    assert!(consensus_target(&observations).is_none());
    assert!(block_downloader(&observations, 1000).is_none());
}

#[test]
fn consensus_with_winner_selects_agreeing_peers() {
    let observations = vec![
        obs("1.1.1.1", "500"),
        obs("2.2.2.2", "500"),
        obs("3.3.3.3", "500"),
        obs("4.4.4.4", "600"),
        obs("5.5.5.5", "400"),
    ];
    let target = consensus_target(&observations).unwrap();
    assert_eq!(target, CumulativeDifficulty::parse_decimal("500").unwrap());

    let candidates = download_candidates(&observations, &target);
    assert_eq!(candidates.len(), 3);
    assert_eq!(candidates[0], PeerAddress::parse("1.1.1.1").unwrap());
    assert_eq!(candidates[1], PeerAddress::parse("2.2.2.2").unwrap());
    assert_eq!(candidates[2], PeerAddress::parse("3.3.3.3").unwrap());
}

#[test]
fn consensus_is_empty_for_empty_sample() {
    let observations: Vec<CumulativeDifficultyObservation> = vec![];
    assert!(consensus_target(&observations).is_none());
}

#[test]
fn difficulty_values_compare_by_number_not_by_text() {
    let padded = CumulativeDifficulty::parse_decimal("000500").unwrap();
    let plain = CumulativeDifficulty::parse_decimal("500").unwrap();
    assert_eq!(padded, plain);
    assert!(CumulativeDifficulty::parse_decimal("").is_err());
    assert!(CumulativeDifficulty::parse_decimal("12a").is_err());
}

#[test]
fn planned_jobs_have_consecutive_ascending_heights() {
    let candidates = vec![
        PeerAddress::parse("1.1.1.1").unwrap(),
        PeerAddress::parse("2.2.2.2").unwrap(),
        PeerAddress::parse("3.3.3.3").unwrap(),
    ];
    let jobs = plan_download_jobs(&candidates, 1000, 10);
    assert_eq!(jobs.len(), 3);
    assert_eq!(jobs[0].start_height, 1000);
    assert_eq!(jobs[1].start_height, 1010);
    assert_eq!(jobs[2].start_height, 1020);
    assert_eq!(jobs[0].number_of_blocks, 10);
    assert_eq!(jobs[0].retries, 0);
}

#[test]
fn planned_jobs_are_capped_at_max_inflight() {
    let mut candidates: Vec<PeerAddress> = vec![];
    let mut i = 0;
    while i < 12 {
        candidates.push(PeerAddress::parse(format!("10.0.0.{}", i).as_str()).unwrap());
        i += 1;
    }
    let jobs = plan_download_jobs(&candidates, 0, 10);
    assert_eq!(jobs.len(), 8);
}

#[test]
fn queue_delivers_in_ascending_height_order() {
    let candidates = vec![
        PeerAddress::parse("1.1.1.1").unwrap(),
        PeerAddress::parse("2.2.2.2").unwrap(),
        PeerAddress::parse("3.3.3.3").unwrap(),
    ];
    let jobs = plan_download_jobs(&candidates, 100, 10);
    let mut queue = DownloadQueue::new(jobs);
    // The second job fails twice before succeeding; order is preserved.
    let outcomes = vec![true, false, false, true, true];
    let (delivered, aborted) = process_download_queue(&mut queue, &outcomes);
    assert!(!aborted);
    assert_eq!(delivered.len(), 3);
    assert_eq!(delivered[0].start_height, 100);
    assert_eq!(delivered[1].start_height, 110);
    assert_eq!(delivered[2].start_height, 120);
    assert_eq!(delivered[1].retries, 2);
    assert_eq!(queue.len(), 0);
}

#[test]
fn retry_escalation_aborts_the_tick() {
    let candidates = vec![
        PeerAddress::parse("1.1.1.1").unwrap(),
        PeerAddress::parse("2.2.2.2").unwrap(),
    ];
    let jobs = plan_download_jobs(&candidates, 100, 10);
    let mut queue = DownloadQueue::new(jobs);
    // The front job fails four times: three retries, then the tick aborts
    // and the remaining queued jobs are discarded.
    let outcomes = vec![false, false, false, false, true];
    let (delivered, aborted) = process_download_queue(&mut queue, &outcomes);
    assert!(aborted);
    assert_eq!(delivered.len(), 0);
    assert_eq!(queue.len(), 0);
}

#[test]
fn queue_step_requeues_failures_at_the_front() {
    let candidates = vec![
        PeerAddress::parse("1.1.1.1").unwrap(),
        PeerAddress::parse("2.2.2.2").unwrap(),
    ];
    let jobs = plan_download_jobs(&candidates, 100, 10);
    let mut queue = DownloadQueue::new(jobs);
    match queue.step(false) {
        DownloadStep::Requeued => {}
        _ => panic!("a first failure must requeue"),
    }
    match queue.step(true) {
        DownloadStep::Delivered(j) => {
            assert_eq!(j.start_height, 100);
            assert_eq!(j.retries, 1);
        }
        _ => panic!("a success must deliver the front job"),
    }
}

#[test]
fn block_downloader_plans_from_the_mode() {
    let observations = vec![
        obs("1.1.1.1", "500"),
        obs("2.2.2.2", "500"),
        obs("3.3.3.3", "500"),
        obs("4.4.4.4", "600"),
        obs("5.5.5.5", "400"),
    ];
    let queue = block_downloader(&observations, 1000).unwrap();
    assert_eq!(queue.jobs.len(), 3);
    assert_eq!(queue.jobs[0].start_height, 1000);
    assert_eq!(queue.jobs[1].start_height, 1010);
    assert_eq!(queue.jobs[2].start_height, 1020);
    assert_eq!(queue.jobs[0].peer, PeerAddress::parse("1.1.1.1").unwrap());
}
