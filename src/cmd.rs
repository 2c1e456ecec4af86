//! The closed vocabulary of extractor options and their rendering as arguments.
use vstd::prelude::*;

use crate::text::{decimal, decimal_string, seconds_string, seconds_text};

verus! {

/// Log verbosity of the extractor.
#[derive(Debug, Clone, Copy, PartialEq, Eq)]
pub enum Level {
    Error,
}

/// Where the extractor writes its output.
#[derive(Debug, Clone, PartialEq, Eq)]
pub enum Destination {
    Stdout,
    Path(String),
}

/// Output encodings: still image, animated image, single-frame image, subtitle text.
#[derive(Debug, Clone, Copy, PartialEq, Eq)]
pub enum FormatKind {
    Png,
    Gif,
    Jpeg,
    Srt,
}

/// A scale target: height or width in pixels, the other side keeping the ratio.
#[derive(Debug, Clone, Copy, PartialEq, Eq)]
pub enum Dim {
    H(u32),
    W(u32),
}

/// One extractor option.
#[derive(Debug, Clone, PartialEq, Eq)]
pub enum CommandOption {
    Positional(String),
    Named(String, String),
    LogLevel(Level),
    Position(usize),
    Duration(usize),
    Input(String),
    Scale(Dim),
    Frames(usize),
    Format(FormatKind),
    Output(Destination),
}

/// The views of a list of strings.
pub open spec fn texts(v: Seq<String>) -> Seq<Seq<char>> {
    v.map_values(|s: String| s@)
}

/// The extractor's name of a log level.
pub open spec fn level_text(l: Level) -> Seq<char> {
    match l {
        Level::Error => "error"@,
    }
}

/// The extractor's name of an output format.
pub open spec fn format_text(f: FormatKind) -> Seq<char> {
    match f {
        FormatKind::Png => "apng"@,
        FormatKind::Gif => "gif"@,
        FormatKind::Jpeg => "singlejpeg"@,
        FormatKind::Srt => "srt"@,
    }
}

/// The filter expression of a scale target.
pub open spec fn scale_text(d: Dim) -> Seq<char> {
    match d {
        Dim::W(n) => "scale="@ + decimal(n as nat) + ":-1"@,
        Dim::H(n) => "scale=-1:"@ + decimal(n as nat),
    }
}

/// The argument tokens of one option: an optional flag, then one value.
pub open spec fn option_tokens(o: CommandOption) -> Seq<Seq<char>> {
    match o {
        CommandOption::LogLevel(l) => seq!["-loglevel"@, level_text(l)],
        CommandOption::Position(ms) => seq!["-ss"@, seconds_text(ms as nat)],
        CommandOption::Duration(ms) => seq!["-t"@, seconds_text(ms as nat)],
        CommandOption::Input(p) => seq!["-i"@, p@],
        CommandOption::Frames(n) => seq!["-vframes"@, decimal(n as nat)],
        CommandOption::Scale(d) => seq!["-vf"@, scale_text(d)],
        CommandOption::Format(f) => seq!["-f"@, format_text(f)],
        CommandOption::Output(Destination::Stdout) => seq!["-"@],
        CommandOption::Output(Destination::Path(p)) => seq![p@],
        CommandOption::Positional(a) => seq![a@],
        CommandOption::Named(k, v) => seq![k@, v@],
    }
}

/// The argument vector of a list of options, in order.
pub open spec fn render(opts: Seq<CommandOption>) -> Seq<Seq<char>>
    decreases opts.len(),
{
    if opts.len() == 0 {
        Seq::empty()
    } else {
        render(opts.drop_last()) + option_tokens(opts.last())
    }
}

/// Something the extractor can be run on.
pub trait Command {
    /// The arguments that `build` returns.
    spec fn spec_args(&self) -> Seq<Seq<char>>;

    /// Whether the value can be turned into arguments.
    spec fn buildable(&self) -> bool;

    /// The ordered argument vector handed to the extractor.
    fn build(&self) -> (r: Vec<String>)
        requires
            self.buildable(),
        ensures
            texts(r@) == self.spec_args(),
    ;
}

impl Level {
    /// The extractor's name of the level.
    pub fn name(&self) -> (r: String)
        ensures
            r@ == level_text(*self),
    {
        match self {
            Level::Error => String::from_str("error"),
        }
    }
}

impl FormatKind {
    /// The extractor's name of the format.
    pub fn name(&self) -> (r: String)
        ensures
            r@ == format_text(*self),
    {
        match self {
            FormatKind::Png => String::from_str("apng"),
            FormatKind::Gif => String::from_str("gif"),
            FormatKind::Jpeg => String::from_str("singlejpeg"),
            FormatKind::Srt => String::from_str("srt"),
        }
    }
}

fn scale_string(d: Dim) -> (r: String)
    ensures
        r@ == scale_text(d),
{
    match d {
        Dim::W(n) => {
            let mut s = String::from_str("scale=");
            s.append(decimal_string(n as usize).as_str());
            s.append(":-1");
            s
        },
        Dim::H(n) => {
            let mut s = String::from_str("scale=-1:");
            s.append(decimal_string(n as usize).as_str());
            s
        },
    }
}

fn flag_and_value(flag: &str, value: String) -> (r: Vec<String>)
    ensures
        texts(r@) == seq![flag@, value@],
{
    let mut out = Vec::new();
    out.push(String::from_str(flag));
    out.push(value);
    proof {
        assert(texts(out@) =~= seq![flag@, value@]);
    }
    out
}

fn single(value: String) -> (r: Vec<String>)
    ensures
        texts(r@) == seq![value@],
{
    let mut out = Vec::new();
    out.push(value);
    proof {
        assert(texts(out@) =~= seq![value@]);
    }
    out
}

impl CommandOption {
    /// The argument tokens of the option: its flag, if it has one, then its value.
    pub fn process_option(self) -> (r: Vec<String>)
        ensures
            texts(r@) == option_tokens(self),
    {
        match self {
            CommandOption::LogLevel(level) => flag_and_value("-loglevel", level.name()),
            CommandOption::Position(ms) => flag_and_value("-ss", seconds_string(ms)),
            CommandOption::Duration(ms) => flag_and_value("-t", seconds_string(ms)),
            CommandOption::Input(p) => flag_and_value("-i", p),
            CommandOption::Frames(n) => flag_and_value("-vframes", decimal_string(n)),
            CommandOption::Scale(d) => flag_and_value("-vf", scale_string(d)),
            CommandOption::Format(f) => flag_and_value("-f", f.name()),
            CommandOption::Output(Destination::Stdout) => single(String::from_str("-")),
            CommandOption::Output(Destination::Path(p)) => single(p),
            CommandOption::Positional(a) => single(a),
            CommandOption::Named(k, v) => {
                let mut out = Vec::new();
                out.push(k);
                out.push(v);
                proof {
                    assert(texts(out@) =~= option_tokens(CommandOption::Named(k, v)));
                }
                out
            },
        }
    }
}

/// Concatenates the tokens of each option, in order.
pub fn render_options(opts: Vec<CommandOption>) -> (r: Vec<String>)
    ensures
        texts(r@) == render(opts@),
{
    let total = opts.len();
    let mut rest = opts;
    let mut out: Vec<String> = Vec::new();
    let ghost all = opts@;
    let mut i: usize = 0;
    while rest.len() > 0
        invariant
            i + rest@.len() == all.len(),
            all.len() == total,
            rest@ == all.skip(i as int),
            texts(out@) == render(all.take(i as int)),
        decreases rest@.len(),
    {
        let o = rest.remove(0);
        let mut toks = o.process_option();
        let ghost before = out@;
        out.append(&mut toks);
        proof {
            assert(all.take(i + 1).drop_last() =~= all.take(i as int));
            assert(all.take(i + 1).last() == o);
            assert(texts(out@) =~= texts(before) + option_tokens(o));
            assert(rest@ =~= all.skip(i + 1));
        }
        i = i + 1;
    }
    proof {
        assert(all.take(i as int) =~= all);
    }
    out
}

} // verus!
