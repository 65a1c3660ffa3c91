use disclosures::index::{extract_index, IndexError};
use std::io::Write;
use disclosures::dedup::filter_not_downloaded_reports;
use disclosures::dispatch::Dispatch;
use disclosures::paths::{document_url, storage_path};
use disclosures::fetch::{archive_for, classify_status, Archive};
use disclosures::pool::{WorkerPool, DEFAULT_CONCURRENCY};
use disclosures::record::{parse_jurisdiction, Member};
use disclosures::report::DownloadReport;
use disclosures::retry::{run_retry, Action, Attempt, Outcome, RetryPolicy, RetryState};
use disclosures::run::settle_all;

fn member(doc: u64, year: u16, code: &str, filing_type: &str) -> Member {
    Member {
        prefix: None,
        last: "Doe".to_string(),
        first: "Jane".to_string(),
        suffix: None,
        filing_type: filing_type.to_string(),
        state_dst: code.to_string(),
        year,
        filing_date: "1/2/2023".to_string(),
        document_id: doc,
    }
}

fn ids(ms: &Vec<Member>) -> Vec<u64> {
    ms.iter().map(|m| m.document_id).collect()
}

#[test]
fn scenario_one_present_one_fetched() {
    let records = vec![member(100, 2023, "CA12", "O"), member(101, 2023, "CA12", "O")];
    let present = vec![true, false];
    let (to_fetch, already) = filter_not_downloaded_reports(&records, &present);
    assert_eq!(ids(&to_fetch), vec![101]);
    assert_eq!(ids(&already), vec![100]);
    let policy = RetryPolicy::standard();
    let scripts = vec![vec![Attempt::Fetched; 3]];
    let report = settle_all(policy, &to_fetch, &scripts);
    assert_eq!(report.successful, vec![101]);
    assert!(report.failed.is_empty());
    assert!(report.blocked.is_empty());
    assert!(report.not_found.is_empty());
}

#[test]
fn invalid_codes_are_in_neither_part() {
    let records = vec![
        member(1, 2023, "CA", "O"),
        member(2, 2023, "CAx1", "O"),
        member(3, 2023, "NY03", "O"),
        member(4, 2023, "", "O"),
        member(5, 2023, "TX300", "O"),
        member(6, 2023, "WA1", "O"),
    ];
    let present = vec![false, true, false, false, true, true];
    let (to_fetch, already) = filter_not_downloaded_reports(&records, &present);
    assert_eq!(ids(&to_fetch), vec![3]);
    assert_eq!(ids(&already), vec![5, 6]);
    let report = settle_all(RetryPolicy::standard(), &to_fetch, &vec![vec![Attempt::Missing; 3]]);
    assert_eq!(report.not_found, vec![3]);
    assert_eq!(report.counts(), (0, 0, 0, 1));
}

#[test]
fn second_run_fetches_nothing() {
    let records = vec![
        member(10, 2022, "CA01", "P"),
        member(10, 2023, "CA01", "P"),
        member(11, 2023, "ZZ", "P"),
    ];
    let present = vec![false, true, false];
    let (to_fetch, _) = filter_not_downloaded_reports(&records, &present);
    assert_eq!(to_fetch.len(), 1);
    assert_eq!(to_fetch[0].year, 2022);
    let present_after = vec![true, true, false];
    let (again, already) = filter_not_downloaded_reports(&records, &present_after);
    assert!(again.is_empty());
    assert_eq!(already.len(), 2);
}

#[test]
fn order_is_kept_in_each_part() {
    let records = vec![
        member(5, 2023, "CA12", "O"),
        member(3, 2023, "CA12", "O"),
        member(9, 2023, "CA12", "O"),
        member(1, 2023, "CA12", "O"),
    ];
    let present = vec![false, true, false, true];
    let (to_fetch, already) = filter_not_downloaded_reports(&records, &present);
    assert_eq!(ids(&to_fetch), vec![5, 9]);
    assert_eq!(ids(&already), vec![3, 1]);
}

#[test]
fn jurisdiction_codes() {
    let (r, d) = parse_jurisdiction("CA12").unwrap();
    assert_eq!((r.as_str(), d), ("CA", 12));
    let (r, d) = parse_jurisdiction("AK00").unwrap();
    assert_eq!((r.as_str(), d), ("AK", 0));
    let (r, d) = parse_jurisdiction("WA1").unwrap();
    assert_eq!((r.as_str(), d), ("WA", 1));
    let (_, d) = parse_jurisdiction("XX255").unwrap();
    assert_eq!(d, 255);
    let (_, d) = parse_jurisdiction("CA300").unwrap();
    assert_eq!(d, 300);
    let (_, d) = parse_jurisdiction("CA18446744073709551615").unwrap();
    assert_eq!(d, u64::MAX);
    assert!(parse_jurisdiction("CA18446744073709551616").is_none());
    assert!(parse_jurisdiction("CA99999999999999999999").is_none());
    assert!(parse_jurisdiction("CA184467440737095516150").is_none());
    assert!(parse_jurisdiction("CA").is_none());
    assert!(parse_jurisdiction("").is_none());
    assert!(parse_jurisdiction("CA1x").is_none());
    assert!(parse_jurisdiction("CA-1").is_none());
    assert!(parse_jurisdiction("CA+1").is_none());
}

#[test]
fn storage_key_of_record() {
    let m = member(77, 2024, "NY07", "O");
    let k = m.storage_key().unwrap();
    assert_eq!(k.region, "NY");
    assert_eq!(k.district, 7);
    assert_eq!(k.year, 2024);
    assert_eq!(k.document_id, 77);
    assert!(member(1, 2024, "NY", "O").storage_key().is_none());
    let c = m.duplicate();
    assert_eq!(c.state_dst, "NY07");
    assert_eq!(c.document_id, 77);
}

#[test]
fn transient_failures_use_the_whole_budget() {
    let policy = RetryPolicy::standard();
    let run = run_retry(policy, &vec![Attempt::Transient; 5]);
    assert_eq!(run.outcome, Outcome::Failed);
    assert_eq!(run.fetches, 3);
    assert_eq!(run.rotations, 2);
    let five = RetryPolicy::new(5, 0).unwrap();
    let run = run_retry(five, &vec![Attempt::Transient; 5]);
    assert_eq!((run.outcome, run.fetches, run.rotations), (Outcome::Failed, 5, 4));
}

#[test]
fn not_found_first_is_final() {
    let run = run_retry(RetryPolicy::standard(), &vec![Attempt::Missing, Attempt::Fetched, Attempt::Fetched]);
    assert_eq!(run.outcome, Outcome::NotFound);
    assert_eq!(run.fetches, 1);
    assert_eq!(run.rotations, 0);
}

#[test]
fn blocked_and_late_success() {
    let p = RetryPolicy::standard();
    let run = run_retry(p, &vec![Attempt::Transient, Attempt::Transient, Attempt::Blocked]);
    assert_eq!((run.outcome, run.fetches), (Outcome::Blocked, 3));
    let run = run_retry(p, &vec![Attempt::Blocked, Attempt::Blocked, Attempt::Transient]);
    assert_eq!((run.outcome, run.fetches), (Outcome::Failed, 3));
    let run = run_retry(p, &vec![Attempt::Blocked, Attempt::Fetched, Attempt::Transient]);
    assert_eq!((run.outcome, run.fetches, run.rotations), (Outcome::Success, 2, 1));
    let one = RetryPolicy::new(1, 5).unwrap();
    let run = run_retry(one, &vec![Attempt::Blocked]);
    assert_eq!((run.outcome, run.fetches, run.rotations), (Outcome::Blocked, 1, 0));
}

#[test]
fn retry_policy_bounds() {
    assert!(RetryPolicy::new(0, 5).is_none());
    let p = RetryPolicy::standard();
    assert_eq!(p.max_attempts, 3);
    assert_eq!(p.backoff_secs, 5);
}

#[test]
fn state_machine_steps() {
    let p = RetryPolicy::standard();
    let s = RetryState::new();
    assert_eq!(s.action(), Action::Fetch);
    let s = s.advance(p, Attempt::Transient);
    assert_eq!(s, RetryState::Retryable { attempts: 1 });
    assert_eq!(s.action(), Action::RotateAndWait);
    let s = s.resume();
    assert_eq!(s, RetryState::Start { attempts: 1 });
    let s = s.advance(p, Attempt::Fetched);
    assert_eq!(s.action(), Action::Finish(Outcome::Success));
}

#[test]
fn status_classes() {
    assert_eq!(classify_status(200), Attempt::Fetched);
    assert_eq!(classify_status(204), Attempt::Fetched);
    assert_eq!(classify_status(404), Attempt::Missing);
    assert_eq!(classify_status(403), Attempt::Blocked);
    assert_eq!(classify_status(429), Attempt::Blocked);
    assert_eq!(classify_status(500), Attempt::Transient);
    assert_eq!(classify_status(301), Attempt::Transient);
    assert_eq!(classify_status(199), Attempt::Transient);
}

#[test]
fn archive_by_filing_type() {
    assert_eq!(archive_for("P"), Archive::Transactions);
    assert_eq!(archive_for("O"), Archive::Annual);
    assert_eq!(archive_for("PP"), Archive::Annual);
    assert_eq!(archive_for(""), Archive::Annual);
}

#[test]
fn pool_never_exceeds_limit() {
    let mut pool = WorkerPool::new(4, 100).unwrap();
    let mut running: Vec<usize> = Vec::new();
    let mut started: Vec<usize> = Vec::new();
    let mut peak = 0;
    let mut step = 0usize;
    while !pool.is_done() {
        while let Some(i) = pool.try_start() {
            running.push(i);
            started.push(i);
        }
        peak = peak.max(running.len());
        assert!(pool.in_flight() <= 4);
        // finish one of the running units, not always the oldest
        let k = step % running.len();
        running.remove(k);
        pool.finish();
        step += 1;
    }
    assert_eq!(peak, 4);
    assert_eq!(started, (0..100).collect::<Vec<usize>>());
    assert_eq!(pool.progress(), (100, 100));
}

#[test]
fn pool_edges() {
    assert!(WorkerPool::new(0, 10).is_none());
    let mut empty = WorkerPool::new(DEFAULT_CONCURRENCY, 0).unwrap();
    assert!(empty.is_done());
    assert!(empty.try_start().is_none());
    let mut one = WorkerPool::new(1, 2).unwrap();
    assert_eq!(one.try_start(), Some(0));
    assert_eq!(one.try_start(), None);
    one.finish();
    assert_eq!(one.try_start(), Some(1));
    assert_eq!(one.limit(), 1);
}

#[test]
fn report_records_each_id_once() {
    let mut r = DownloadReport::new();
    r.record(1, Outcome::Success);
    r.record(2, Outcome::Failed);
    r.record(3, Outcome::Blocked);
    r.record(4, Outcome::NotFound);
    r.record(5, Outcome::Success);
    assert_eq!(r.successful, vec![1, 5]);
    assert_eq!(r.failed, vec![2]);
    assert_eq!(r.blocked, vec![3]);
    assert_eq!(r.not_found, vec![4]);
    let e = DownloadReport::from_entries(&vec![(9, Outcome::Failed), (8, Outcome::Failed), (7, Outcome::Success)]);
    assert_eq!(e.failed, vec![9, 8]);
    assert_eq!(e.counts(), (1, 2, 0, 0));
}

#[test]
fn run_over_mixed_results() {
    let to_fetch = vec![member(1, 2023, "CA12", "P"), member(2, 2023, "CA12", "O"), member(3, 2023, "CA12", "O")];
    let scripts = vec![
        vec![Attempt::Transient, Attempt::Fetched, Attempt::Fetched],
        vec![Attempt::Transient, Attempt::Transient, Attempt::Blocked],
        vec![Attempt::Transient; 3],
    ];
    let report = settle_all(RetryPolicy::standard(), &to_fetch, &scripts);
    assert_eq!(report.successful, vec![1]);
    assert_eq!(report.blocked, vec![2]);
    assert_eq!(report.failed, vec![3]);
    assert!(report.not_found.is_empty());
}

fn zipped(entries: &[(&str, &[u8])]) -> Vec<u8> {
    let mut w = zip::ZipWriter::new(std::io::Cursor::new(Vec::new()));
    let opts = zip::write::FileOptions::default().compression_method(zip::CompressionMethod::Deflated);
    for (name, data) in entries {
        w.start_file(*name, opts).unwrap();
        w.write_all(data).unwrap();
    }
    w.finish().unwrap().into_inner()
}

#[test]
fn extract_index_takes_first_xml_entry() {
    let archive = zipped(&[
        ("2023FD.txt", b"not this".as_slice()),
        ("2023FD.xml", b"<FinancialDisclosure/>".as_slice()),
        ("other.xml", b"nor this".as_slice()),
    ]);
    assert_eq!(extract_index(&archive), Ok(b"<FinancialDisclosure/>".to_vec()));
}

#[test]
fn extract_index_errors() {
    let archive = zipped(&[("readme.txt", b"hello".as_slice())]);
    assert_eq!(extract_index(&archive), Err(IndexError::NoIndexDocument));
    assert_eq!(extract_index(&b"not a zip archive".to_vec()), Err(IndexError::Archive));
    assert_eq!(extract_index(&zipped(&[])), Err(IndexError::NoIndexDocument));
    let first_wins = zipped(&[("a.xml", b"one".as_slice()), ("b.xml", b"two".as_slice())]);
    assert_eq!(extract_index(&first_wins), Ok(b"one".to_vec()));
}

#[test]
fn dispatch_records_each_unit_once() {
    let ids: Vec<u64> = (100..110).collect();
    let mut d = Dispatch::new(ids.clone(), 3).unwrap();
    let mut running: Vec<usize> = Vec::new();
    let mut step = 0usize;
    while !d.is_done() {
        while let Some(i) = d.start() {
            running.push(i);
        }
        assert!(running.len() <= 3);
        let i = running.remove(step % running.len());
        let outcome = if i % 2 == 0 { Outcome::Success } else { Outcome::NotFound };
        assert!(d.complete(i, outcome));
        assert!(!d.complete(i, Outcome::Failed));
        step += 1;
    }
    assert_eq!(d.progress(), (10, 10));
    let r = d.into_report();
    let mut all: Vec<u64> = r.successful.iter().chain(r.not_found.iter()).copied().collect();
    all.sort();
    assert_eq!(all, ids);
    assert!(r.successful.iter().all(|id| id % 2 == 0));
    assert!(r.failed.is_empty() && r.blocked.is_empty());
}

#[test]
fn dispatch_refuses_unknown_units() {
    assert!(Dispatch::new(vec![1, 2], 0).is_none());
    let mut d = Dispatch::new(vec![7, 8], 1).unwrap();
    assert!(!d.complete(0, Outcome::Success));
    assert_eq!(d.start(), Some(0));
    assert_eq!(d.start(), None);
    assert!(!d.complete(1, Outcome::Success));
    assert!(!d.complete(5, Outcome::Success));
    assert!(d.complete(0, Outcome::Blocked));
    assert_eq!(d.start(), Some(1));
    assert!(d.complete(1, Outcome::Failed));
    assert!(d.is_done());
    let r = d.into_report();
    assert_eq!(r.blocked, vec![7]);
    assert_eq!(r.failed, vec![8]);
}

#[test]
fn storage_paths_pad_the_district() {
    let k = member(8675309, 2023, "CA7", "O").storage_key().unwrap();
    assert_eq!(storage_path(&k), "CA/07/2023/8675309.pdf");
    let k = member(0, 2022, "TX300", "P").storage_key().unwrap();
    assert_eq!(storage_path(&k), "TX/300/2022/0.pdf");
    let k = member(12, 2024, "NY00", "P").storage_key().unwrap();
    assert_eq!(storage_path(&k), "NY/00/2024/12.pdf");
    let k = member(5, 2024, "WA10", "P").storage_key().unwrap();
    assert_eq!(storage_path(&k), "WA/10/2024/5.pdf");
}

#[test]
fn document_urls() {
    assert_eq!(document_url("https://h/ptr-pdfs", 2023, 20012345), "https://h/ptr-pdfs/2023/20012345.pdf");
    assert_eq!(document_url("", 0, u64::MAX), "/0/18446744073709551615.pdf");
}
