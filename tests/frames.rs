use std::cell::Cell;

use frm::cmd::Command;
use frm::error::ErrorKind;
use frm::frame::{Frame, ImageData};
use frm::path::Error as PathError;
use frm::proc::OutputError;

fn strs(v: &[&str]) -> Vec<String> {
    v.iter().map(|s| s.to_string()).collect()
}

#[test]
fn new_clamps_timecode_to_one() {
    let f = Frame::new(".", 0).unwrap();
    assert_eq!(f.timecode(), 1);
    assert!(!f.has_data());
    assert_eq!(Frame::new(".", 2500).unwrap().timecode(), 2500);
}

#[test]
fn new_refuses_missing_source() {
    assert_eq!(
        Frame::new("/no/such/source.mp4", 10).unwrap_err(),
        ErrorKind::Io("entity not found".to_string())
    );
    assert!(Frame::located("x".to_string(), 5, false).is_err());
    assert_eq!(Frame::located("x".to_string(), 5, true).unwrap().timecode(), 5);
}

#[test]
fn single_frame_command() {
    let f = Frame::new(".", 1500).unwrap();
    assert_eq!(
        f.build(),
        strs(&[
            "-loglevel", "error", "-ss", "1.500", "-i", ".", "-vframes", "1", "-vf", "scale=640:-1",
            "-f", "apng", "-"
        ])
    );
}

#[test]
fn read_twice_extracts_once() {
    let mut f = Frame::new(".", 40).unwrap();
    let calls = Cell::new(0);
    let extract = |_: Vec<String>| {
        calls.set(calls.get() + 1);
        Ok(vec![1u8, 2, 3])
    };
    assert_eq!(f.read(extract), Ok(()));
    let first = f.payload();
    let extract_again = |_: Vec<String>| {
        calls.set(calls.get() + 1);
        Ok(vec![9u8])
    };
    assert_eq!(f.read(extract_again), Ok(()));
    assert_eq!(f.payload(), first);
    assert_eq!(f.payload(), Some(vec![1u8, 2, 3]));
    assert_eq!(calls.get(), 1);
}

#[test]
fn read_hands_the_frame_arguments_to_the_extractor() {
    let mut f = Frame::new(".", 3000).unwrap();
    let expected = f.build();
    let seen = Cell::new(false);
    let r = f.read(|args: Vec<String>| {
        seen.set(args == expected);
        Ok(vec![7u8])
    });
    assert_eq!(r, Ok(()));
    assert!(seen.get());
}

#[test]
fn read_failure_leaves_frame_empty() {
    let mut f = Frame::new(".", 40).unwrap();
    let r = f.read(|_: Vec<String>| Err(OutputError::SigTerm));
    assert_eq!(r, Err(ErrorKind::Output(OutputError::SigTerm)));
    assert!(!f.has_data());
}

#[test]
fn write_returns_payload() {
    let mut f = Frame::new(".", 40).unwrap();
    assert_eq!(f.write(|_: Vec<String>| Ok(vec![4u8, 5])), Ok(vec![4u8, 5]));
    f.set_data(vec![6u8]);
    assert_eq!(f.write(|_: Vec<String>| Ok(vec![0u8])), Ok(vec![6u8]));
}

#[test]
fn write_file_refuses_existing_output() {
    let mut f = Frame::new(".", 40).unwrap();
    let r = f.write_file(
        ".".to_string(),
        |_: Vec<String>| Ok(vec![1u8]),
        |_: String, _: Vec<u8>| Ok(()),
    );
    assert_eq!(r, Err(ErrorKind::Path(PathError::FileAlreadyExists(".".to_string()))));
    assert!(!f.has_data());
}

#[test]
fn write_file_saves_payload() {
    let mut f = Frame::new(".", 40).unwrap();
    let saved = Cell::new(false);
    let r = f.write_file(
        "/no/such/dir/out.png".to_string(),
        |_: Vec<String>| Ok(vec![1u8, 2]),
        |p: String, b: Vec<u8>| {
            saved.set(p == "/no/such/dir/out.png" && b == vec![1u8, 2]);
            Ok(())
        },
    );
    assert_eq!(r, Ok(()));
    assert!(saved.get());
}

#[test]
fn image_data_wraps_bytes() {
    let d = ImageData::new(vec![1u8]);
    let _ = d.clone();
}
