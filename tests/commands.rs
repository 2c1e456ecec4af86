use frm::cmd::{render_options, Command, CommandOption, Destination, Dim, FormatKind, Level};
use frm::probe::duration_args;
use frm::sequence::Sequence;
use frm::text::{decimal_string, join_path, seconds_string, signed_decimal_string};

fn strs(v: &[&str]) -> Vec<String> {
    v.iter().map(|s| s.to_string()).collect()
}

#[test]
fn scale_by_width_renders_filter() {
    assert_eq!(CommandOption::Scale(Dim::W(640)).process_option(), strs(&["-vf", "scale=640:-1"]));
}

#[test]
fn scale_by_height_renders_filter() {
    assert_eq!(CommandOption::Scale(Dim::H(480)).process_option(), strs(&["-vf", "scale=-1:480"]));
}

#[test]
fn seek_position_renders_seconds() {
    assert_eq!(CommandOption::Position(1500).process_option(), strs(&["-ss", "1.500"]));
}

#[test]
fn clip_duration_renders_seconds() {
    assert_eq!(CommandOption::Duration(6000).process_option(), strs(&["-t", "6.000"]));
    assert_eq!(CommandOption::Duration(7).process_option(), strs(&["-t", "0.007"]));
    assert_eq!(CommandOption::Duration(123456).process_option(), strs(&["-t", "123.456"]));
}

#[test]
fn other_options_render() {
    assert_eq!(CommandOption::LogLevel(Level::Error).process_option(), strs(&["-loglevel", "error"]));
    assert_eq!(CommandOption::Input("a.mp4".to_string()).process_option(), strs(&["-i", "a.mp4"]));
    assert_eq!(CommandOption::Frames(1).process_option(), strs(&["-vframes", "1"]));
    assert_eq!(CommandOption::Output(Destination::Stdout).process_option(), strs(&["-"]));
    assert_eq!(
        CommandOption::Output(Destination::Path("out/x.png".to_string())).process_option(),
        strs(&["out/x.png"])
    );
    assert_eq!(CommandOption::Positional("-y".to_string()).process_option(), strs(&["-y"]));
    assert_eq!(
        CommandOption::Named("-c:s".to_string(), "copy".to_string()).process_option(),
        strs(&["-c:s", "copy"])
    );
}

#[test]
fn format_names() {
    assert_eq!(CommandOption::Format(FormatKind::Png).process_option(), strs(&["-f", "apng"]));
    assert_eq!(CommandOption::Format(FormatKind::Gif).process_option(), strs(&["-f", "gif"]));
    assert_eq!(CommandOption::Format(FormatKind::Jpeg).process_option(), strs(&["-f", "singlejpeg"]));
    assert_eq!(CommandOption::Format(FormatKind::Srt).process_option(), strs(&["-f", "srt"]));
}

#[test]
fn options_render_in_order() {
    let opts = vec![
        CommandOption::Position(2000),
        CommandOption::Output(Destination::Stdout),
        CommandOption::Frames(3),
    ];
    assert_eq!(render_options(opts), strs(&["-ss", "2.000", "-", "-vframes", "3"]));
    assert_eq!(render_options(Vec::new()), Vec::<String>::new());
}

#[test]
fn decimal_rendering() {
    assert_eq!(decimal_string(0), "0");
    assert_eq!(decimal_string(9), "9");
    assert_eq!(decimal_string(10), "10");
    assert_eq!(decimal_string(1234567), "1234567");
    assert_eq!(signed_decimal_string(-17), "-17");
    assert_eq!(signed_decimal_string(i32::MIN), "-2147483648");
    assert_eq!(seconds_string(0), "0.000");
    assert_eq!(seconds_string(1050), "1.050");
}

#[test]
fn path_joining() {
    assert_eq!(join_path("cache", "1.png"), "cache/1.png");
    assert_eq!(join_path("cache/", "1.png"), "cache/1.png");
    assert_eq!(join_path("", "1.png"), "1.png");
}

#[test]
fn subtitle_command() {
    let s = Sequence::subtitles("movie.mkv".to_string(), 1000, 4500);
    assert_eq!(
        s.build(),
        strs(&[
            "-loglevel", "error", "-ss", "1.000", "-i", "movie.mkv", "-t", "3.500", "-c:s", "copy",
            "-f", "srt", "-"
        ])
    );
}

#[test]
fn probe_arguments() {
    let args = duration_args(".").unwrap();
    assert_eq!(
        args,
        strs(&[
            "-v",
            "error",
            "-show_entries",
            "format=duration",
            "-of",
            "default=noprint_wrappers=1:nokey=1",
            "."
        ])
    );
    assert!(duration_args("/no/such/file/anywhere.mp4").is_err());
}
