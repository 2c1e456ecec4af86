//! A stretch of the source to extract as a whole, such as its subtitles.
use vstd::prelude::*;

use crate::cmd::{render, render_options, Command, CommandOption, Destination, FormatKind, Level};
use crate::text::seconds_text;

verus! {

/// What kind of stream a sequence extracts.
#[derive(Debug, Clone, Copy, PartialEq, Eq)]
pub enum OutputKind {
    Text,
    Video,
    Audio,
}

/// The stretch of `path` from `start` to `end` milliseconds.
#[derive(Debug, Clone)]
pub struct Sequence {
    path: String,
    output: OutputKind,
    start: usize,
    end: usize,
}

/// The subtitle extraction of the stretch from `start` to `end` of `path`.
pub open spec fn subtitle_args(path: Seq<char>, start: nat, end: nat) -> Seq<Seq<char>> {
    seq![
        "-loglevel"@, "error"@,
        "-ss"@, seconds_text(start),
        "-i"@, path,
        "-t"@, seconds_text((end - start) as nat),
        "-c:s"@, "copy"@,
        "-f"@, "srt"@,
        "-"@,
    ]
}

impl Sequence {
    /// The subtitles of `path` between `start` and `end` milliseconds.
    pub fn subtitles(path: String, start: usize, end: usize) -> (r: Self)
        ensures
            r.path() == path@,
            r.kind() == OutputKind::Text,
            r.start() == start,
            r.end() == end,
    {
        Sequence { path, output: OutputKind::Text, start, end }
    }

    /// The source path.
    pub closed spec fn path(&self) -> Seq<char> {
        self.path@
    }

    /// The kind of stream extracted.
    pub closed spec fn kind(&self) -> OutputKind {
        self.output
    }

    /// The start, in milliseconds.
    pub closed spec fn start(&self) -> nat {
        self.start as nat
    }

    /// The end, in milliseconds.
    pub closed spec fn end(&self) -> nat {
        self.end as nat
    }
}

impl Command for Sequence {
    open spec fn spec_args(&self) -> Seq<Seq<char>> {
        subtitle_args(self.path(), self.start(), self.end())
    }

    /// Only subtitle text can be extracted, over a stretch that does not end before it starts.
    open spec fn buildable(&self) -> bool {
        self.kind() == OutputKind::Text && self.start() <= self.end()
    }

    fn build(&self) -> (r: Vec<String>) {
        let span = self.end - self.start;
        let opts = vec![
            CommandOption::LogLevel(Level::Error),
            CommandOption::Position(self.start),
            CommandOption::Input(self.path.clone()),
            CommandOption::Duration(span),
            CommandOption::Named(String::from_str("-c:s"), String::from_str("copy")),
            CommandOption::Format(FormatKind::Srt),
            CommandOption::Output(Destination::Stdout),
        ];
        let ghost o = opts@;
        let r = render_options(opts);
        proof {
            reveal_with_fuel(render, 8);
            assert(render(o) =~= subtitle_args(self.path(), self.start(), self.end()));
        }
        r
    }
}

} // verus!
