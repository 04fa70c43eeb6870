use murmure::download::{
    failure_message, part_name, progress_message, range_header, Download, DownloadEvent,
    DownloadStage,
};

fn sizes(file: Option<u64>, part: Option<u64>) -> DownloadEvent {
    DownloadEvent::Sizes { file, part }
}

#[test]
fn complete_files_are_left_alone() {
    let mut d = Download::new(vec![10, 20], vec![false, false]);
    assert_eq!(d.total, 30);
    let step = d.progress(sizes(Some(10), None));
    assert_eq!(step.report, Some((10, 30, false)));
    assert_eq!(step.done, None);
    let step = d.progress(sizes(Some(20), Some(3)));
    assert_eq!(step.report, Some((30, 30, false)));
    assert_eq!(step.done, Some((30, 30, true)));
    assert_eq!(d.stage, DownloadStage::Finished);
}

#[test]
fn local_files_are_copied() {
    let mut d = Download::new(vec![10, 5], vec![true, true]);
    d.progress(sizes(None, None));
    assert_eq!(d.stage, DownloadStage::Copy);
    assert_eq!(d.progress(DownloadEvent::Copied).report, Some((10, 15, false)));
    d.progress(sizes(Some(4), None));
    let step = d.progress(DownloadEvent::CopyFailed {
        url: "/a".to_string(),
        error: "refus".to_string(),
    });
    assert_eq!(step.failure, Some("copie de /a : refus".to_string()));
    assert_eq!(d.stage, DownloadStage::Failed);
}

#[test]
fn transfers_are_resumed() {
    let mut d = Download::new(vec![100], vec![false]);
    d.progress(sizes(None, Some(40)));
    assert_eq!(d.stage, DownloadStage::Request { discard: false, from: 40 });
    d.progress(DownloadEvent::Response { partial: true });
    assert_eq!(d.stage, DownloadStage::Receive { append: true });
    assert_eq!(d.progress(DownloadEvent::Chunk { len: 35, due: true }).report, Some((75, 100, false)));
    assert_eq!(d.progress(DownloadEvent::Chunk { len: 25, due: false }).report, None);
    assert_eq!(d.downloaded, 100);
    let step = d.progress(DownloadEvent::Received);
    assert_eq!((step.report, step.done), (None, Some((100, 100, true))));
}

#[test]
fn a_server_may_start_over() {
    let mut d = Download::new(vec![100, 1], vec![false, false]);
    d.progress(sizes(None, Some(40)));
    d.progress(DownloadEvent::Response { partial: false });
    assert_eq!(d.stage, DownloadStage::Receive { append: false });
    d.progress(DownloadEvent::Chunk { len: 100, due: false });
    assert_eq!(d.progress(DownloadEvent::Received).report, None);
    assert_eq!((d.index, d.downloaded), (1, 100));
}

#[test]
fn too_much_is_discarded() {
    let mut d = Download::new(vec![100, 0], vec![false, false]);
    d.progress(sizes(None, Some(101)));
    assert_eq!(d.stage, DownloadStage::Request { discard: true, from: 0 });
    let mut d = Download::new(vec![0], vec![false]);
    d.progress(sizes(Some(0), Some(5)));
    assert_eq!(d.stage, DownloadStage::Request { discard: true, from: 0 });
}

#[test]
fn transfers_can_break() {
    let mut d = Download::new(vec![100], vec![false]);
    d.progress(sizes(None, None));
    let step = d.progress(DownloadEvent::Broken("réseau".to_string()));
    assert_eq!(step.failure, Some("réseau".to_string()));
    assert_eq!(d.stage, DownloadStage::Failed);
    // Nothing happens behind the end.
    assert_eq!(d.progress(DownloadEvent::Received).report, None);
}

#[test]
fn counts_do_not_overflow() {
    let mut d = Download::new(vec![u64::MAX, 5], vec![false, false]);
    assert_eq!(d.total, u64::MAX);
    d.progress(sizes(Some(u64::MAX), None));
    d.progress(sizes(Some(5), None));
    assert_eq!(d.downloaded, u64::MAX);
}

#[test]
fn nothing_to_download() {
    let d = Download::new(Vec::new(), Vec::new());
    assert_eq!(d.stage, DownloadStage::Finished);
    assert_eq!(d.done_at_once(), Some((0, 0, true)));
    assert_eq!(Download::new(vec![1], vec![false]).done_at_once(), None);
}

#[test]
fn messages_to_the_interface() {
    let m = progress_message("m", (1, 2, false));
    assert_eq!((m.id.as_str(), m.downloaded, m.total, m.done, m.error), ("m", 1, 2, false, None));
    let m = failure_message("m", "panne".to_string());
    assert_eq!((m.downloaded, m.total, m.done, m.error), (0, 0, false, Some("panne".to_string())));
    assert_eq!(part_name("a.gguf"), "a.gguf.part");
    assert_eq!(range_header(0), None);
    assert_eq!(range_header(40), Some("bytes=40-".to_string()));
}
