use zipstream::archive::EncodeError;
use zipstream::pipeline::{Command, EntryRequest, Event, Outcome, Phase, Pipeline, PipelineError};

struct Run {
    bytes: Vec<u8>,
    reports: Vec<String>,
    fetched: Vec<String>,
    pipeline: Pipeline,
}

/// Drives a run against in-memory bodies. `fail_fetch` makes that fetch
/// (counted from zero) fail; `cancel` dismisses the save dialog.
fn drive(entries: &[(&str, Vec<Vec<u8>>)], fail_fetch: Option<usize>, cancel: bool) -> Run {
    let requests: Vec<EntryRequest> = entries
        .iter()
        .enumerate()
        .map(|(i, (name, _))| {
            EntryRequest::new(name.to_string(), format!("https://example.com/{}", i))
        })
        .collect();
    let mut pipeline = Pipeline::new("files.zip".to_string(), requests);
    let mut bytes = Vec::new();
    let mut reports = Vec::new();
    let mut fetched = Vec::new();
    let mut current = 0usize;
    let mut chunk = 0usize;
    let mut step = pipeline.start();
    loop {
        if let Some(name) = step.report.take() {
            reports.push(name);
        }
        bytes.extend_from_slice(&step.write);
        let event = match step.next {
            Command::Acquire { suggested } => {
                assert_eq!(suggested, "files.zip");
                if cancel {
                    Event::NoSelection
                } else {
                    Event::Acquired { filename: "chosen.zip".to_string() }
                }
            }
            Command::Fetch { url } => {
                current = fetched.len();
                chunk = 0;
                fetched.push(url);
                if fail_fetch == Some(current) {
                    Event::FetchFailed { cause: "404".to_string() }
                } else {
                    Event::Fetched
                }
            }
            Command::ReadChunk => {
                let body = &entries[current].1;
                if chunk < body.len() {
                    chunk += 1;
                    Event::Chunk { bytes: body[chunk - 1].clone() }
                } else {
                    Event::BodyEnd
                }
            }
            Command::Continue => Event::Continue,
            Command::CloseSink => Event::SinkClosed,
            Command::Stop => break,
        };
        assert!(pipeline.accepts(&event));
        step = pipeline.step(event);
    }
    Run { bytes, reports, fetched, pipeline }
}

fn u16_at(b: &[u8], at: usize) -> usize {
    b[at] as usize | (b[at + 1] as usize) << 8
}

fn u32_at(b: &[u8], at: usize) -> u32 {
    u32::from_le_bytes([b[at], b[at + 1], b[at + 2], b[at + 3]])
}

struct Listed {
    name: String,
    crc: u32,
    size: u32,
    data: Vec<u8>,
}

/// Reads the archive back through its central directory.
fn read_archive(b: &[u8]) -> Vec<Listed> {
    let end = b.len() - 22;
    assert_eq!(u32_at(b, end), 0x06054b50);
    let count = u16_at(b, end + 10);
    assert_eq!(count, u16_at(b, end + 8));
    let dir_size = u32_at(b, end + 12) as usize;
    let mut at = u32_at(b, end + 16) as usize;
    assert_eq!(at + dir_size, end);
    let mut out = Vec::new();
    for _ in 0..count {
        assert_eq!(u32_at(b, at), 0x02014b50);
        assert_eq!(u16_at(b, at + 8), 0x0808);
        assert_eq!(u16_at(b, at + 10), 0);
        let crc = u32_at(b, at + 16);
        let size = u32_at(b, at + 20);
        assert_eq!(size, u32_at(b, at + 24));
        let name_len = u16_at(b, at + 28);
        let local = u32_at(b, at + 42) as usize;
        let name = String::from_utf8(b[at + 46..at + 46 + name_len].to_vec()).unwrap();
        assert_eq!(u32_at(b, local), 0x04034b50);
        assert_eq!(u16_at(b, local + 6), 0x0808);
        assert_eq!(u16_at(b, local + 8), 0);
        assert_eq!(u16_at(b, local + 26), name_len);
        assert_eq!(&b[local + 30..local + 30 + name_len], name.as_bytes());
        let data_at = local + 30 + name_len;
        let data = b[data_at..data_at + size as usize].to_vec();
        let desc = data_at + size as usize;
        assert_eq!(u32_at(b, desc), 0x08074b50);
        assert_eq!(u32_at(b, desc + 4), crc);
        assert_eq!(u32_at(b, desc + 8), size);
        assert_eq!(u32_at(b, desc + 12), size);
        out.push(Listed { name, crc, size, data });
        at += 46 + name_len;
    }
    out
}

fn three_entries() -> Vec<(&'static str, Vec<Vec<u8>>)> {
    vec![
        ("small.jpg", vec![b"1234".to_vec(), b"56789".to_vec()]),
        ("big.jpg", vec![b"hello".to_vec()]),
        ("dir/medium.jpg", vec![b"The quick brown fox ".to_vec(), b"jumps over the lazy dog".to_vec()]),
    ]
}

#[test]
fn success_reports_each_entry_in_order() {
    let run = drive(&three_entries(), None, false);
    assert_eq!(run.reports, vec!["small.jpg", "big.jpg", "dir/medium.jpg"]);
    assert_eq!(run.pipeline.phase(), Phase::Done);
    match run.pipeline.result() {
        Some(Outcome::Success { filename }) => assert_eq!(filename, "chosen.zip"),
        _ => panic!("run did not succeed"),
    }
}

#[test]
fn central_directory_matches_entries() {
    let entries = three_entries();
    let run = drive(&entries, None, false);
    let listed = read_archive(&run.bytes);
    assert_eq!(listed.len(), 3);
    let crcs = [0xCBF43926u32, 0x3610a686, 0x414FA339];
    for (i, (name, body)) in entries.iter().enumerate() {
        let joined: Vec<u8> = body.concat();
        assert_eq!(listed[i].name, *name);
        assert_eq!(listed[i].data, joined);
        assert_eq!(listed[i].size as usize, joined.len());
        assert_eq!(listed[i].crc, crcs[i]);
        assert_eq!(listed[i].crc, crc32fast::hash(&joined));
    }
}

#[test]
fn no_selection_cancels_without_fetching() {
    let run = drive(&three_entries(), None, true);
    assert!(run.bytes.is_empty());
    assert!(run.fetched.is_empty());
    assert!(run.reports.is_empty());
    assert_eq!(run.pipeline.phase(), Phase::Cancelled);
    assert!(matches!(run.pipeline.result(), Some(Outcome::Cancelled)));
}

#[test]
fn failed_fetch_names_entry_and_leaves_no_directory() {
    let entries = three_entries();
    for n in 0..3 {
        let run = drive(&entries, Some(n), false);
        assert_eq!(run.fetched.len(), n + 1);
        assert_eq!(run.reports.len(), n);
        match run.pipeline.result() {
            Some(Outcome::Failed { error: PipelineError::Fetch { name, url, cause } }) => {
                assert_eq!(name, entries[n].0);
                assert_eq!(url, &format!("https://example.com/{}", n));
                assert_eq!(cause, "404");
            }
            _ => panic!("fetch failure not reported"),
        }
        // Only local sections were written: no central directory record.
        assert!(!run.bytes.windows(4).any(|w| w == [0x50, 0x4b, 0x01, 0x02]));
        assert!(!run.bytes.windows(4).any(|w| w == [0x50, 0x4b, 0x05, 0x06]));
    }
}

#[test]
fn empty_body_gives_header_and_zero_descriptor() {
    let run = drive(&[("empty.txt", vec![])], None, false);
    let b = &run.bytes;
    assert_eq!(u32_at(b, 0), 0x04034b50);
    assert_eq!(&b[30..39], b"empty.txt");
    assert_eq!(&b[39..55], &[0x50, 0x4b, 0x07, 0x08, 0, 0, 0, 0, 0, 0, 0, 0, 0, 0, 0, 0]);
    let listed = read_archive(b);
    assert_eq!(listed.len(), 1);
    assert_eq!(listed[0].crc, 0);
    assert_eq!(listed[0].size, 0);
}

#[test]
fn empty_chunks_change_nothing() {
    let a = drive(&[("a", vec![vec![], b"hello".to_vec(), vec![]])], None, false);
    let b = drive(&[("a", vec![b"hello".to_vec()])], None, false);
    assert_eq!(a.bytes, b.bytes);
}

#[test]
fn two_runs_write_identical_archives() {
    let first = drive(&three_entries(), None, false);
    let second = drive(&three_entries(), None, false);
    assert_eq!(first.bytes, second.bytes);
}

#[test]
fn no_entries_gives_bare_end_record() {
    let run = drive(&[], None, false);
    assert_eq!(run.bytes, vec![0x50, 0x4b, 0x05, 0x06, 0, 0, 0, 0, 0, 0, 0, 0, 0, 0, 0, 0, 0, 0, 0, 0, 0, 0]);
    assert!(run.fetched.is_empty());
    assert_eq!(run.pipeline.phase(), Phase::Done);
}

fn run_until_streaming() -> Pipeline {
    let mut p = Pipeline::new("x.zip".to_string(), vec![EntryRequest::new("a.bin".to_string(), "u".to_string())]);
    p.start();
    p.step(Event::Acquired { filename: "x.zip".to_string() });
    let step = p.step(Event::Fetched);
    assert_eq!(step.write.len(), 35);
    assert!(matches!(step.next, Command::ReadChunk));
    p
}

#[test]
fn body_failure_names_entry_and_url() {
    let mut p = run_until_streaming();
    let step = p.step(Event::BodyFailed { cause: "reset".to_string() });
    assert!(matches!(step.next, Command::Stop));
    match p.result() {
        Some(Outcome::Failed { error: PipelineError::Body { name, url, cause } }) => {
            assert_eq!(name, "a.bin");
            assert_eq!(url, "u");
            assert_eq!(cause, "reset");
        }
        _ => panic!("body failure not reported"),
    }
}

#[test]
fn refused_chunk_is_entry_write_failure() {
    let mut p = run_until_streaming();
    p.step(Event::Chunk { bytes: vec![1, 2, 3] });
    p.step(Event::WriteFailed { cause: "closed".to_string() });
    assert!(matches!(
        p.result(),
        Some(Outcome::Failed { error: PipelineError::EntryWrite { .. } })
    ));
}

#[test]
fn refused_descriptor_is_entry_close_failure() {
    let mut p = run_until_streaming();
    let step = p.step(Event::BodyEnd);
    assert_eq!(step.write.len(), 16);
    p.step(Event::WriteFailed { cause: "closed".to_string() });
    assert!(matches!(
        p.result(),
        Some(Outcome::Failed { error: PipelineError::EntryClose { .. } })
    ));
}

#[test]
fn refused_directory_and_sink_close_fail_the_run() {
    let mut p = run_until_streaming();
    p.step(Event::BodyEnd);
    let step = p.step(Event::Continue);
    assert!(matches!(step.report.as_deref(), Some("a.bin")));
    assert!(matches!(step.next, Command::CloseSink));
    let mut q = run_until_streaming();
    q.step(Event::BodyEnd);
    q.step(Event::Continue);
    p.step(Event::WriteFailed { cause: "full".to_string() });
    assert!(matches!(p.result(), Some(Outcome::Failed { error: PipelineError::ArchiveWrite { .. } })));
    q.step(Event::SinkCloseFailed { cause: "gone".to_string() });
    assert!(matches!(q.result(), Some(Outcome::Failed { error: PipelineError::SinkClose { .. } })));
}

#[test]
fn acquisition_failure_fails_the_run() {
    let mut p = Pipeline::new("x.zip".to_string(), vec![]);
    p.start();
    assert!(!p.accepts(&Event::Fetched));
    p.step(Event::AcquireFailed { cause: "denied".to_string() });
    match p.result() {
        Some(Outcome::Failed { error: PipelineError::Acquire { cause } }) => assert_eq!(cause, "denied"),
        _ => panic!("acquisition failure not reported"),
    }
    assert!(!p.accepts(&Event::SinkClosed));
}

#[test]
fn overlong_name_is_entry_limit() {
    let long = "n".repeat(65536);
    let mut p = Pipeline::new("x.zip".to_string(), vec![EntryRequest::new(long, "u".to_string())]);
    p.start();
    p.step(Event::Acquired { filename: "x.zip".to_string() });
    p.step(Event::Fetched);
    assert!(matches!(
        p.result(),
        Some(Outcome::Failed { error: PipelineError::EntryLimit { error: EncodeError::NameTooLong, .. } })
    ));
}
