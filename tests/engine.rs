use std::collections::BTreeMap;
use std::io::Read;

use flate2::read::GzDecoder;
use stdout_rotator::{
    archive_contents, needs_rotation, next_file, rotation_actions, rotation_step, IngestAction,
    LiveFile, ReadCycle, RotationAction,
};

/// A run of the tee-and-rotate engine against an in-memory directory: the
/// input arrives in reads of the given sizes, the last size repeated.
struct Run {
    stdout: Vec<u8>,
    live: Vec<u8>,
    dir: BTreeMap<String, Vec<u8>>,
    /// The contents of the live file just before each rotation.
    rotated: Vec<Vec<u8>>,
    /// The largest the live file was seen between write cycles.
    max_live_between_cycles: usize,
    /// The number of archives after each rotation.
    archives_after_rotation: Vec<usize>,
}

fn run(input: &[u8], reads: &[usize], max_size: u64, max_history: u32, compress: bool) -> Run {
    let mut r = Run {
        stdout: Vec::new(),
        live: Vec::new(),
        dir: BTreeMap::new(),
        rotated: Vec::new(),
        max_live_between_cycles: 0,
        archives_after_rotation: Vec::new(),
    };
    let mut cycle = ReadCycle::new();
    let mut live = LiveFile::new();
    let mut offset = 0;
    let mut read_index = 0;
    loop {
        assert!(cycle.ready());
        // Reads take the given sizes, the last one repeated.
        let size = reads[read_index.min(reads.len() - 1)];
        read_index += 1;
        let n = size.min(input.len() - offset);
        let buffer = input[offset..offset + n].to_vec();
        offset += n;
        let chunk = match cycle.on_read(&buffer, n) {
            IngestAction::Stop => break,
            IngestAction::Forward(chunk) => chunk,
        };
        // Both relays get their own copy of the chunk.
        r.stdout.extend_from_slice(&chunk.clone());
        cycle.on_ack();
        r.live.extend_from_slice(&chunk);
        let rotate = live.record_write(&chunk, max_size);
        assert_eq!(live.position() as usize, r.live.len());
        assert_eq!(rotate, needs_rotation(live.position(), max_size));
        if rotate {
            let listing: Vec<String> = r.dir.keys().cloned().collect();
            let plan = next_file(compress, "logs/output.log", None, &listing).unwrap();
            r.rotated.push(r.live.clone());
            let step = rotation_step(max_history, &plan);
            let mut truncated = false;
            for action in rotation_actions(&step) {
                assert!(!truncated);
                match action {
                    RotationAction::Remove(path) => {
                        let name = path.strip_prefix("logs/").unwrap();
                        r.dir.remove(name).unwrap();
                    }
                    RotationAction::WriteArchive(path) => {
                        let name = path.strip_prefix("logs/").unwrap().to_string();
                        let bytes = archive_contents(compress, &r.live).unwrap();
                        assert!(r.dir.insert(name, bytes).is_none());
                    }
                    RotationAction::Truncate => truncated = true,
                }
            }
            assert!(truncated);
            r.live.clear();
            live.record_rotation();
            r.archives_after_rotation.push(r.dir.len());
        }
        cycle.on_ack();
        r.max_live_between_cycles = r.max_live_between_cycles.max(r.live.len());
    }
    assert!(cycle.finished());
    r
}

fn gunzip(bytes: &[u8]) -> Vec<u8> {
    let mut out = Vec::new();
    GzDecoder::new(bytes).read_to_end(&mut out).unwrap();
    out
}

const SCENARIO: &[u8] = b"AAAA BBBB CCCC DDDD";

#[test]
fn scenario_with_full_reads() {
    let r = run(SCENARIO, &[4, 4, 4, 4, 4], 8, 2, false);
    assert_eq!(r.stdout, SCENARIO);
    // 4 + 4 = 8 bytes stay; the third read takes the file to 12 and rotates.
    let names: Vec<&str> = r.dir.keys().map(|s| s.as_str()).collect();
    assert_eq!(names, vec!["output.log.1"]);
    assert_eq!(r.dir["output.log.1"], b"AAAA BBBB CC");
    assert_eq!(r.live, b"CC DDDD");
}

#[test]
fn scenario_with_two_rotations() {
    let r = run(SCENARIO, &[4, 4, 1, 4, 4, 1, 1], 8, 2, false);
    assert_eq!(r.stdout, SCENARIO);
    let names: Vec<&str> = r.dir.keys().map(|s| s.as_str()).collect();
    assert_eq!(names, vec!["output.log.1", "output.log.2"]);
    let mut all = r.dir["output.log.1"].clone();
    all.extend_from_slice(&r.dir["output.log.2"]);
    all.extend_from_slice(&r.live);
    assert_eq!(all, SCENARIO);
    assert_eq!(r.live, b"D");
}

#[test]
fn tee_keeps_every_byte_in_order() {
    let input: Vec<u8> = (0..1000u32).map(|i| (i * 7 % 251) as u8).collect();
    for reads in [vec![1], vec![3, 1, 4, 1, 5, 9, 2, 6], vec![4096], vec![0]] {
        let r = run(&input, &reads, 100, 3, false);
        if reads == vec![0] {
            assert!(r.stdout.is_empty());
        } else {
            assert_eq!(r.stdout, input);
        }
    }
}

#[test]
fn file_holds_the_input_when_no_rotation_happens() {
    let r = run(b"hello world", &[3, 3, 3, 3], 11, 2, false);
    assert!(r.dir.is_empty());
    assert!(r.rotated.is_empty());
    assert_eq!(r.live, b"hello world");
}

#[test]
fn rotation_follows_the_write_that_crosses_the_threshold() {
    let input = vec![b'x'; 500];
    let r = run(&input, &[7, 13, 1, 50], 20, 100, false);
    assert!(r.max_live_between_cycles <= 20);
    for before in &r.rotated {
        assert!(before.len() > 20);
    }
}

#[test]
fn archive_numbers_rise_by_one() {
    let input = vec![b'y'; 100];
    let r = run(&input, &[10], 15, 2, false);
    // Ten reads of ten bytes rotate on every second read: five rotations.
    assert_eq!(r.rotated.len(), 5);
    let names: Vec<&str> = r.dir.keys().map(|s| s.as_str()).collect();
    assert_eq!(names, vec!["output.log.4", "output.log.5"]);
}

#[test]
fn retention_bound_holds_after_each_rotation() {
    let input = vec![b'z'; 300];
    for history in [1u32, 2, 3] {
        let r = run(&input, &[10], 15, history, false);
        assert!(!r.archives_after_rotation.is_empty());
        for n in &r.archives_after_rotation {
            assert!(*n <= history as usize);
        }
    }
}

#[test]
fn compressed_archives_decompress_to_the_rotated_bytes() {
    let input: Vec<u8> = b"the quick brown fox jumps over the lazy dog ".repeat(5);
    let r = run(&input, &[16], 40, 10, true);
    assert!(!r.dir.is_empty());
    for (i, before) in r.rotated.iter().enumerate() {
        let name = format!("output.log.{}.gz", i + 1);
        let archived = &r.dir[&name];
        assert_ne!(archived, before);
        assert_eq!(&gunzip(archived), before);
    }
}

#[test]
fn zero_history_discards_rotated_data() {
    let r = run(b"0123456789abcdef", &[5], 8, 0, false);
    assert_eq!(r.rotated.len(), 1);
    assert!(r.dir.is_empty());
    assert_eq!(r.live, b"abcdef");
}

#[test]
fn plain_archive_contents_are_the_bytes() {
    let data = b"some log lines\n".to_vec();
    assert_eq!(archive_contents(false, &data).unwrap(), data);
    assert_eq!(archive_contents(false, &Vec::new()).unwrap(), Vec::<u8>::new());
}

#[test]
fn gzip_archive_contents_round_trip() {
    let data = b"some log lines\n".to_vec();
    let gz = archive_contents(true, &data).unwrap();
    assert_eq!(&gz[..2], &[0x1f, 0x8b]);
    assert_eq!(gunzip(&gz), data);
    assert_eq!(gunzip(&archive_contents(true, &Vec::new()).unwrap()), Vec::<u8>::new());
}

#[test]
fn live_file_tracks_writes_and_rotations() {
    let mut live = LiveFile::new();
    assert_eq!(live.position(), 0);
    assert!(!live.record_write(&b"abc".to_vec(), 5));
    assert!(!live.record_write(&b"de".to_vec(), 5));
    assert!(live.record_write(&b"f".to_vec(), 5));
    assert_eq!(live.position(), 6);
    live.record_rotation();
    assert_eq!(live.position(), 0);
}

#[test]
fn read_cycle_waits_for_two_acknowledgments() {
    let mut cycle = ReadCycle::new();
    assert!(cycle.ready());
    match cycle.on_read(&b"abcdef".to_vec(), 4) {
        IngestAction::Forward(chunk) => assert_eq!(chunk, b"abcd"),
        IngestAction::Stop => panic!("expected a chunk"),
    }
    assert!(!cycle.ready());
    cycle.on_ack();
    assert!(!cycle.ready());
    cycle.on_ack();
    assert!(cycle.ready());
    assert!(matches!(cycle.on_read(&b"abcdef".to_vec(), 0), IngestAction::Stop));
    assert!(!cycle.ready());
    assert!(cycle.finished());
}
