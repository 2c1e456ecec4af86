use frm::path::Error as PathError;
use frm::cmd::Command;
use frm::error::ErrorKind;
use frm::frame_range::{cached_path_for, sampling_rate, FrameAt, FrameRange};
use frm::cmd::{Destination, FormatKind};

fn strs(v: &[&str]) -> Vec<String> {
    v.iter().map(|s| s.to_string()).collect()
}

#[test]
fn sampling_rate_below_one_second() {
    assert_eq!(sampling_rate(500), "2");
    assert_eq!(sampling_rate(400), "3");
    assert_eq!(sampling_rate(100), "10");
    assert_eq!(sampling_rate(1), "1000");
}

#[test]
fn sampling_rate_one_second_and_above() {
    assert_eq!(sampling_rate(1000), "1/1");
    assert_eq!(sampling_rate(2000), "1/2");
    assert_eq!(sampling_rate(1500), "1/2");
    assert_eq!(sampling_rate(1499), "1/1");
}

#[test]
fn range_yields_n_minus_one_timecodes() {
    let r = FrameRange::new(".", ".", 0, 4, 2000).unwrap();
    assert_eq!(r.frame_count(), 3);
    assert_eq!(r.timecodes(), vec![0, 2000, 4000]);
}

#[test]
fn range_reconciles_when_all_files_present() {
    let r = FrameRange::planned("in.mp4".to_string(), "cache".to_string(), 0, 4, 2000).unwrap();
    assert_eq!(r.reconcile(&vec![true, true, true]), Ok(vec![0, 2000, 4000]));
}

#[test]
fn range_fails_on_missing_third_file() {
    let r = FrameRange::planned("in.mp4".to_string(), "cache".to_string(), 0, 4, 2000).unwrap();
    assert_eq!(
        r.reconcile(&vec![true, true, false]),
        Err(ErrorKind::Unhandled(
            "expected all range files to exist, missing cache/0003.png".to_string()
        ))
    );
    assert_eq!(
        r.reconcile(&vec![false, true, false]),
        Err(ErrorKind::Unhandled(
            "expected all range files to exist, missing cache/0001.png".to_string()
        ))
    );
}

#[test]
fn range_file_names() {
    let r = FrameRange::planned("in.mp4".to_string(), "cache/".to_string(), 500, 3, 250).unwrap();
    assert_eq!(r.sequence_path(0), "cache/0001.png");
    assert_eq!(r.sequence_path(1), "cache/0002.png");
    assert_eq!(r.timecode_path(1), "cache/750.png");
    assert_eq!(r.timecode_at(1), 750);
    assert_eq!(cached_path_for("root", 42), "root/42.png");
}

#[test]
fn range_batch_command() {
    let r = FrameRange::planned("in.mp4".to_string(), "cache".to_string(), 1500, 4, 500).unwrap();
    assert_eq!(
        r.build(),
        strs(&[
            "-loglevel",
            "error",
            "-ss",
            "1.500",
            "-t",
            "1.500",
            "-i",
            "in.mp4",
            "-vf",
            "fps=2,scale=640:-1",
            "cache/%04d.png"
        ])
    );
}

#[test]
fn range_refuses_bad_arguments() {
    assert_eq!(
        FrameRange::planned("a".to_string(), "b".to_string(), 0, 0, 100).unwrap_err(),
        ErrorKind::ArgumentError
    );
    assert_eq!(
        FrameRange::planned("a".to_string(), "b".to_string(), 0, 3, 0).unwrap_err(),
        ErrorKind::ArgumentError
    );
    assert_eq!(
        FrameRange::planned("a".to_string(), "b".to_string(), usize::MAX, 2, 1).unwrap_err(),
        ErrorKind::ArgumentError
    );
    assert!(FrameRange::planned("a".to_string(), "b".to_string(), usize::MAX, 1, 1).is_ok());
}

#[test]
fn range_refuses_missing_paths() {
    assert!(matches!(
        FrameRange::new("/no/such/in.mp4", ".", 0, 2, 10),
        Err(ErrorKind::Path(_))
    ));
}

#[test]
fn range_exit_codes() {
    let r = FrameRange::planned("a".to_string(), "b".to_string(), 0, 2, 10).unwrap();
    assert_eq!(r.exit_outcome(Some(0)), Ok(()));
    assert_eq!(
        r.exit_outcome(Some(3)),
        Err(ErrorKind::Unhandled("Non-zero exit code 3".to_string()))
    );
    assert_eq!(
        r.exit_outcome(None),
        Err(ErrorKind::Unhandled("Failed without exit code".to_string()))
    );
}

#[test]
fn frame_at_cache_file() {
    let f = FrameAt {
        timecode: 1200,
        origin: "in.mp4".to_string(),
        encoding: FormatKind::Png,
        cache_root: "c".to_string(),
    };
    assert_eq!(f.cache_path(), Destination::Path("c/1200.png".to_string()));
    assert_eq!(
        f.args(),
        strs(&[
            "-ss", "1.200", "-i", "in.mp4", "-vframes", "1", "-vf", "scale=640:-1", "-f", "apng",
            "c/1200.png"
        ])
    );
}

#[test]
fn range_names_missing_origin_first() {
    let e = FrameRange::located("o".to_string(), "c".to_string(), false, false, 0, 4, 2000);
    assert_eq!(e.unwrap_err(), ErrorKind::Path(PathError::FileDoesNotExist("o".to_string())));
    let e = FrameRange::located("o".to_string(), "c".to_string(), true, false, 0, 4, 2000);
    assert_eq!(e.unwrap_err(), ErrorKind::Path(PathError::FileDoesNotExist("c".to_string())));
    let e = FrameRange::located("o".to_string(), "c".to_string(), true, true, 0, 0, 2000);
    assert_eq!(e.unwrap_err(), ErrorKind::ArgumentError);
    assert_eq!(
        FrameRange::new("/no/such/in.mp4", "/no/such/cache", 0, 2, 10).unwrap_err(),
        ErrorKind::Path(PathError::FileDoesNotExist("/no/such/in.mp4".to_string()))
    );
    assert_eq!(
        FrameRange::new(".", "/no/such/cache", 0, 2, 10).unwrap_err(),
        ErrorKind::Path(PathError::FileDoesNotExist("/no/such/cache".to_string()))
    );
}
