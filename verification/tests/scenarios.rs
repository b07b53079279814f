use std::collections::BTreeMap;

use downloader::batch::{Batch, BatchStatus};
use downloader::fetch::{Fetch, FetchEvent, Instruction, Outcome};
use downloader::report::saved_message;
use downloader::status::{FetchError, IoStep};
use downloader::target::DownloadTarget;

/// A pretend server and disk: what each address answers, and the files
/// written so far.
struct World {
    remote: BTreeMap<String, (u16, Vec<u8>)>,
    files: BTreeMap<String, Vec<u8>>,
    directories: Vec<String>,
    body: Vec<u8>,
    fault: Option<Fault>,
}

/// A local operation that goes wrong, for the path it concerns.
enum Fault {
    Directory(String),
    File(String),
    CopyAfter(String, usize),
}

fn world(resources: &[(&str, u16, usize)]) -> World {
    let mut remote = BTreeMap::new();
    for (address, status, length) in resources {
        remote.insert(address.to_string(), (*status, vec![0x5a; *length]));
    }
    World {
        remote,
        files: BTreeMap::new(),
        directories: Vec::new(),
        body: Vec::new(),
        fault: None,
    }
}

fn perform(world: &mut World, instruction: Instruction) -> Option<FetchEvent> {
    match instruction {
        Instruction::Get { address } => match world.remote.get(&address) {
            Some((status, body)) => {
                world.body = body.clone();
                Some(FetchEvent::Responded { status: *status })
            }
            None => Some(FetchEvent::TransportFailed),
        },
        Instruction::CreateDirectory { path } => {
            if matches!(&world.fault, Some(Fault::Directory(broken)) if *broken == path) {
                return Some(FetchEvent::IoFailed);
            }
            world.directories.push(path);
            Some(FetchEvent::DirectoryReady)
        }
        Instruction::CreateFile { path } => {
            if matches!(&world.fault, Some(Fault::File(broken)) if *broken == path) {
                return Some(FetchEvent::IoFailed);
            }
            world.files.insert(path, Vec::new());
            Some(FetchEvent::FileCreated)
        }
        Instruction::CopyBody { path } => {
            let body = world.body.clone();
            let limit = match &world.fault {
                Some(Fault::CopyAfter(broken, limit)) if *broken == path => Some(*limit),
                _ => None,
            };
            match (world.files.get_mut(&path), limit) {
                (Some(file), Some(limit)) => {
                    file.extend_from_slice(&body[..limit]);
                    Some(FetchEvent::IoFailed)
                }
                (Some(file), None) => {
                    file.extend_from_slice(&body);
                    Some(FetchEvent::Copied { bytes: body.len() as u64 })
                }
                (None, _) => Some(FetchEvent::IoFailed),
            }
        }
        Instruction::Stop => None,
    }
}

fn fetch_in(world: &mut World, target: DownloadTarget) -> Outcome {
    let mut fetch = Fetch::start(target);
    let mut instruction = fetch.instruction();
    while let Some(event) = perform(world, instruction) {
        instruction = fetch.advance(event);
    }
    match fetch.outcome() {
        Some(outcome) => outcome,
        None => panic!("the fetch stopped before it was over"),
    }
}

fn run_batch(world: &mut World, base: &str, list: &[&str]) -> (Batch, Vec<String>) {
    let identifiers = list.iter().map(|name| name.to_string()).collect();
    let mut batch = Batch::new(base, identifiers);
    let mut lines = Vec::new();
    while let Some(target) = batch.next_target() {
        let outcome = fetch_in(world, target.clone());
        if let Ok(bytes) = outcome {
            lines.push(saved_message(&target, bytes));
        }
        batch.record(outcome);
    }
    (batch, lines)
}

#[test]
fn two_files_of_ten_and_twenty_bytes() {
    let mut world = world(&[
        ("http://example.test/a.jpg", 200, 10),
        ("http://example.test/b.jpg", 200, 20),
    ]);
    let (batch, lines) = run_batch(&mut world, "http://example.test", &["a.jpg", "b.jpg"]);
    assert_eq!(batch.status(), BatchStatus::Done);
    assert_eq!(batch.completed(), 2);
    assert_eq!(world.files.len(), 2);
    assert_eq!(world.files["downloads/a.jpg"].len(), 10);
    assert_eq!(world.files["downloads/b.jpg"].len(), 20);
    assert_eq!(world.directories, vec!["downloads".to_string(), "downloads".to_string()]);
    assert_eq!(
        lines,
        vec![
            "Download do arquivo 'a.jpg' para 'downloads/a.jpg' (10 bytes) concluído com sucesso!"
                .to_string(),
            "Download do arquivo 'b.jpg' para 'downloads/b.jpg' (20 bytes) concluído com sucesso!"
                .to_string(),
        ]
    );
}

#[test]
fn every_saved_file_has_the_length_of_its_resource() {
    let lengths = [0usize, 1, 10, 4096, 70000];
    let names = ["f0", "f1", "f2", "f3", "f4"];
    let mut resources = Vec::new();
    let addresses: Vec<String> =
        names.iter().map(|name| format!("http://example.test/{}", name)).collect();
    for (address, length) in addresses.iter().zip(lengths) {
        resources.push((address.as_str(), 200u16, length));
    }
    let mut world = world(&resources);
    let (batch, _) = run_batch(&mut world, "http://example.test", &names);
    assert_eq!(batch.status(), BatchStatus::Done);
    assert_eq!(world.files.len(), names.len());
    for (name, length) in names.iter().zip(lengths) {
        assert_eq!(world.files[&format!("downloads/{}", name)].len(), length);
    }
}

#[test]
fn not_found_aborts_before_writing_that_file() {
    let mut world = world(&[
        ("http://example.test/a.jpg", 200, 10),
        ("http://example.test/b.jpg", 404, 9),
        ("http://example.test/c.jpg", 200, 30),
    ]);
    let (batch, lines) =
        run_batch(&mut world, "http://example.test", &["a.jpg", "b.jpg", "c.jpg"]);
    assert_eq!(batch.status(), BatchStatus::Aborted { error: FetchError::NotFound });
    assert_eq!(batch.completed(), 1);
    assert_eq!(lines.len(), 1);
    assert_eq!(world.files.len(), 1);
    assert_eq!(world.files["downloads/a.jpg"].len(), 10);
    assert!(!world.files.contains_key("downloads/b.jpg"));
    assert!(!world.files.contains_key("downloads/c.jpg"));
}

#[test]
fn server_error_aborts_like_any_other_failure() {
    let mut world = world(&[
        ("http://example.test/a.jpg", 503, 10),
        ("http://example.test/b.jpg", 200, 20),
    ]);
    let (batch, _) = run_batch(&mut world, "http://example.test", &["a.jpg", "b.jpg"]);
    assert_eq!(
        batch.status(),
        BatchStatus::Aborted { error: FetchError::HttpStatus { status: 503 } }
    );
    assert!(world.files.is_empty());
    assert!(world.directories.is_empty());
}

#[test]
fn unreachable_base_writes_no_file() {
    let mut world = world(&[("http://example.test/a.jpg", 200, 10)]);
    let (batch, lines) = run_batch(&mut world, "http://unreachable.test", &["a.jpg", "b.jpg"]);
    assert_eq!(batch.status(), BatchStatus::Aborted { error: FetchError::Transport });
    assert_eq!(batch.completed(), 0);
    assert!(lines.is_empty());
    assert!(world.files.is_empty());
    assert!(world.directories.is_empty());
}

#[test]
fn second_run_overwrites_and_does_not_append() {
    let mut world = world(&[
        ("http://example.test/a.jpg", 200, 10),
        ("http://example.test/b.jpg", 200, 20),
    ]);
    let (first, _) = run_batch(&mut world, "http://example.test", &["a.jpg", "b.jpg"]);
    assert_eq!(first.status(), BatchStatus::Done);
    world.remote.insert("http://example.test/a.jpg".to_string(), (200, vec![0x11; 4]));
    let (second, _) = run_batch(&mut world, "http://example.test", &["a.jpg", "b.jpg"]);
    assert_eq!(second.status(), BatchStatus::Done);
    assert_eq!(world.files.len(), 2);
    assert_eq!(world.files["downloads/a.jpg"], vec![0x11; 4]);
    assert_eq!(world.files["downloads/b.jpg"].len(), 20);
}

#[test]
fn subdirectories_of_the_identifier_are_created() {
    let mut world = world(&[("https://jsonplaceholder.typicode.com/todos/1", 200, 83)]);
    let (batch, _) = run_batch(&mut world, "https://jsonplaceholder.typicode.com", &["todos/1"]);
    assert_eq!(batch.status(), BatchStatus::Done);
    assert_eq!(world.directories, vec!["downloads/todos".to_string()]);
    assert_eq!(world.files["downloads/todos/1"].len(), 83);
}

#[test]
fn repeated_identifier_is_fetched_again_into_the_same_file() {
    let mut world = world(&[("http://example.test/a.jpg", 200, 10)]);
    let (batch, lines) = run_batch(&mut world, "http://example.test", &["a.jpg", "a.jpg"]);
    assert_eq!(batch.status(), BatchStatus::Done);
    assert_eq!(batch.completed(), 2);
    assert_eq!(lines.len(), 2);
    assert_eq!(world.files.len(), 1);
    assert_eq!(world.files["downloads/a.jpg"].len(), 10);
}

#[test]
fn failed_directory_aborts_with_no_file() {
    let mut world = world(&[("http://example.test/todos/1", 200, 83)]);
    world.fault = Some(Fault::Directory("downloads/todos".to_string()));
    let (batch, _) = run_batch(&mut world, "http://example.test", &["todos/1"]);
    assert_eq!(
        batch.status(),
        BatchStatus::Aborted { error: FetchError::LocalIo { step: IoStep::CreateDirectory } }
    );
    assert!(world.files.is_empty());
}

#[test]
fn failed_file_creation_aborts_and_keeps_earlier_files() {
    let mut world = world(&[
        ("http://example.test/a.jpg", 200, 10),
        ("http://example.test/b.jpg", 200, 20),
    ]);
    world.fault = Some(Fault::File("downloads/b.jpg".to_string()));
    let (batch, _) = run_batch(&mut world, "http://example.test", &["a.jpg", "b.jpg"]);
    assert_eq!(
        batch.status(),
        BatchStatus::Aborted { error: FetchError::LocalIo { step: IoStep::CreateFile } }
    );
    assert_eq!(batch.completed(), 1);
    assert_eq!(world.files.len(), 1);
    assert_eq!(world.files["downloads/a.jpg"].len(), 10);
}

#[test]
fn failed_copy_leaves_the_truncated_file() {
    let mut world = world(&[
        ("http://example.test/a.jpg", 200, 10),
        ("http://example.test/b.jpg", 200, 20),
        ("http://example.test/c.jpg", 200, 30),
    ]);
    world.fault = Some(Fault::CopyAfter("downloads/b.jpg".to_string(), 7));
    let (batch, lines) =
        run_batch(&mut world, "http://example.test", &["a.jpg", "b.jpg", "c.jpg"]);
    assert_eq!(
        batch.status(),
        BatchStatus::Aborted { error: FetchError::LocalIo { step: IoStep::CopyBody } }
    );
    assert_eq!(batch.completed(), 1);
    assert_eq!(lines.len(), 1);
    assert_eq!(world.files.len(), 2);
    assert_eq!(world.files["downloads/a.jpg"].len(), 10);
    assert_eq!(world.files["downloads/b.jpg"].len(), 7);
    assert!(!world.files.contains_key("downloads/c.jpg"));
}
