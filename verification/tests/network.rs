use rgis::network::{progress_percent, FetchError, FetchEvent, FetchStep, NetworkFetchJob};

fn job() -> NetworkFetchJob {
    NetworkFetchJob {
        url: "https://example.org/data.geojson".to_string(),
        crs_epsg_code: 4326,
        name: "data.geojson".to_string(),
    }
}

#[test]
fn job_name_quotes_the_file_name() {
    assert_eq!(job().name(), "Fetching 'data.geojson'");
    let empty = NetworkFetchJob { url: String::new(), crs_epsg_code: 0, name: String::new() };
    assert_eq!(empty.name(), "Fetching ''");
}

#[test]
fn progress_is_the_share_received_in_percent() {
    assert_eq!(progress_percent(0, 200), 0);
    assert_eq!(progress_percent(1, 200), 0);
    assert_eq!(progress_percent(2, 200), 1);
    assert_eq!(progress_percent(50, 200), 25);
    assert_eq!(progress_percent(199, 200), 99);
    assert_eq!(progress_percent(200, 200), 100);
    assert_eq!(progress_percent(1, 3), 33);
    assert_eq!(progress_percent(2, 3), 66);
}

#[test]
fn progress_is_zero_when_the_total_is_unknown() {
    assert_eq!(progress_percent(0, 0), 0);
    assert_eq!(progress_percent(12345, 0), 0);
}

#[test]
fn progress_never_exceeds_one_hundred() {
    assert_eq!(progress_percent(201, 200), 100);
    assert_eq!(progress_percent(usize::MAX, 1), 100);
    assert!(progress_percent(usize::MAX, u64::MAX) <= 100);
}

#[test]
fn start_takes_the_announced_size_or_zero() {
    let known = job().start(Some(1000));
    assert_eq!(known.total_size, 1000);
    assert!(known.bytes.is_empty());
    assert_eq!(known.job, job());
    let unknown = job().start(None);
    assert_eq!(unknown.total_size, 0);
}

#[test]
fn chunks_accumulate_and_report_progress() {
    let download = job().start(Some(10));
    let download = match download.step(FetchEvent::Chunk(vec![1, 2, 3])) {
        FetchStep::Continue { download, progress } => {
            assert_eq!(progress, 30);
            assert_eq!(download.bytes, vec![1, 2, 3]);
            assert_eq!(download.total_size, 10);
            assert_eq!(download.job, job());
            download
        }
        other => panic!("unexpected {:?}", other),
    };
    let download = match download.step(FetchEvent::Chunk(vec![])) {
        FetchStep::Continue { download, progress } => {
            assert_eq!(progress, 30);
            download
        }
        other => panic!("unexpected {:?}", other),
    };
    let download = match download.step(FetchEvent::Chunk(vec![4, 5, 6, 7, 8, 9, 10])) {
        FetchStep::Continue { download, progress } => {
            assert_eq!(progress, 100);
            assert_eq!(download.bytes, vec![1, 2, 3, 4, 5, 6, 7, 8, 9, 10]);
            download
        }
        other => panic!("unexpected {:?}", other),
    };
    match download.step(FetchEvent::Finished) {
        FetchStep::Done(Ok(file)) => {
            assert_eq!(file.name, "data.geojson");
            assert_eq!(file.crs_epsg_code, 4326);
            assert_eq!(file.bytes.as_ref(), &[1u8, 2, 3, 4, 5, 6, 7, 8, 9, 10][..]);
            assert_eq!(file.bytes.len(), 10);
        }
        other => panic!("unexpected {:?}", other),
    }
}

#[test]
fn chunks_without_announced_size_report_zero() {
    let download = job().start(None);
    match download.step(FetchEvent::Chunk(vec![7; 64])) {
        FetchStep::Continue { download, progress } => {
            assert_eq!(progress, 0);
            assert_eq!(download.bytes.len(), 64);
        }
        other => panic!("unexpected {:?}", other),
    }
}

#[test]
fn more_than_announced_reports_one_hundred() {
    let download = job().start(Some(2));
    match download.step(FetchEvent::Chunk(vec![1, 2, 3, 4, 5])) {
        FetchStep::Continue { progress, .. } => assert_eq!(progress, 100),
        other => panic!("unexpected {:?}", other),
    }
}

#[test]
fn an_empty_body_gives_an_empty_file() {
    match job().start(Some(0)).step(FetchEvent::Finished) {
        FetchStep::Done(Ok(file)) => assert!(file.bytes.is_empty()),
        other => panic!("unexpected {:?}", other),
    }
}

#[test]
fn an_io_failure_ends_the_fetch_with_that_error() {
    let broken = std::io::Error::new(std::io::ErrorKind::UnexpectedEof, "cut off");
    let download = match job().start(Some(10)).step(FetchEvent::Chunk(vec![1])) {
        FetchStep::Continue { download, .. } => download,
        other => panic!("unexpected {:?}", other),
    };
    match download.step(FetchEvent::Failed(FetchError::from(broken))) {
        FetchStep::Done(Err(FetchError::Io(e))) => {
            assert_eq!(e.kind(), std::io::ErrorKind::UnexpectedEof);
            assert_eq!(e.to_string(), "cut off");
        }
        other => panic!("unexpected {:?}", other),
    }
}

#[test]
fn a_transport_failure_ends_the_fetch_with_that_error() {
    let runtime = tokio::runtime::Builder::new_current_thread().build().unwrap();
    let refused = runtime.block_on(reqwest::get("not a url")).unwrap_err();
    assert!(refused.is_builder());
    let text = refused.to_string();
    match job().start(None).step(FetchEvent::Failed(FetchError::from(refused))) {
        FetchStep::Done(Err(FetchError::Reqwest(e))) => {
            assert!(e.is_builder());
            assert_eq!(e.to_string(), text);
        }
        other => panic!("unexpected {:?}", other),
    }
}
