//! A single frame of the source: its identity and its write-once image payload.
use vstd::prelude::*;

use crate::cmd::{
    render, render_options, texts, Command, CommandOption, Destination, Dim, FormatKind, Level,
    format_text,
};
use crate::error::ErrorKind;
use crate::path::{non_existing_path, path_exists, Error as PathError};
use crate::proc::OutputError;
use crate::text::{seconds_text, decimal};

verus! {

/// Width, in pixels, that extracted frames are scaled to.
pub const FRAME_WIDTH: u32 = 640;

/// Encoded image bytes.
#[derive(Debug, Clone)]
pub struct ImageData {
    data: Vec<u8>,
}

impl ImageData {
    /// Wraps encoded bytes.
    pub fn new(data: Vec<u8>) -> (r: ImageData)
        ensures
            r.bytes() == data@,
    {
        ImageData { data }
    }

    /// The encoded bytes.
    pub closed spec fn bytes(&self) -> Seq<u8> {
        self.data@
    }
}

/// The abstract value of a frame.
pub struct FrameView {
    pub timecode: nat,
    pub origin: Seq<char>,
    pub encoding: FormatKind,
    pub payload: Option<Seq<u8>>,
}

/// One frame of a source file, at a timecode in milliseconds.
#[derive(Debug, Clone)]
pub struct Frame {
    timecode: usize,
    data: Option<ImageData>,
    origin: String,
    encoding: FormatKind,
}

impl View for Frame {
    type V = FrameView;

    closed spec fn view(&self) -> FrameView {
        FrameView {
            timecode: self.timecode as nat,
            origin: self.origin@,
            encoding: self.encoding,
            payload: match self.data {
                Some(d) => Some(d.bytes()),
                None => None,
            },
        }
    }
}

/// The single-frame extraction of `f`: seek, decode one frame, scale, encode, to stdout.
pub open spec fn frame_args(f: FrameView) -> Seq<Seq<char>> {
    seq![
        "-loglevel"@, "error"@,
        "-ss"@, seconds_text(f.timecode),
        "-i"@, f.origin,
        "-vframes"@, decimal(1),
        "-vf"@, "scale="@ + decimal(FRAME_WIDTH as nat) + ":-1"@,
        "-f"@, format_text(f.encoding),
        "-"@,
    ]
}

/// The timecode a frame keeps: the requested one, but at least 1.
pub open spec fn clamped(timecode: nat) -> nat {
    if timecode < 1 {
        1
    } else {
        timecode
    }
}

/// A new frame of `origin` at `timecode`: clamped, still image, no payload.
pub open spec fn fresh(origin: Seq<char>, timecode: nat) -> FrameView {
    FrameView {
        timecode: clamped(timecode),
        origin,
        encoding: FormatKind::Png,
        payload: None,
    }
}

/// `after` is `before` with the payload `bytes`.
pub open spec fn loaded_with(before: FrameView, after: FrameView, bytes: Seq<u8>) -> bool {
    after == FrameView { payload: Some(bytes), ..before }
}

/// What `read` did to a frame, given the extractor `extract`.
pub open spec fn read_effect<F: FnOnce(Vec<String>) -> Result<Vec<u8>, OutputError>>(
    extract: F,
    before: FrameView,
    after: FrameView,
    r: Result<(), ErrorKind>,
) -> bool {
    if before.payload is Some {
        after == before && r is Ok
    } else {
        exists|a: Vec<String>, out: Result<Vec<u8>, OutputError>|
            #![trigger extract.ensures((a,), out)]
            texts(a@) == frame_args(before) && extract.ensures((a,), out) && match out {
                Ok(b) => loaded_with(before, after, b@) && r is Ok,
                Err(e) => after == before && r == Err::<(), ErrorKind>(ErrorKind::Output(e)),
            }
    }
}

/// The outcome `r` without its value.
pub open spec fn discarded<T>(r: Result<T, ErrorKind>) -> Result<(), ErrorKind> {
    match r {
        Ok(_) => Ok(()),
        Err(e) => Err(e),
    }
}

/// The description of a missing source file.
pub open spec fn not_found_text() -> Seq<char> {
    "entity not found"@
}

impl Command for Frame {
    open spec fn spec_args(&self) -> Seq<Seq<char>> {
        frame_args(self@)
    }

    open spec fn buildable(&self) -> bool {
        true
    }

    fn build(&self) -> (r: Vec<String>) {
        let opts = vec![
            CommandOption::LogLevel(Level::Error),
            CommandOption::Position(self.timecode),
            CommandOption::Input(self.origin.clone()),
            CommandOption::Frames(1),
            CommandOption::Scale(Dim::W(FRAME_WIDTH)),
            CommandOption::Format(self.encoding),
            CommandOption::Output(Destination::Stdout),
        ];
        let ghost o = opts@;
        let r = render_options(opts);
        proof {
            reveal_with_fuel(render, 8);
            reveal_strlit("scale=");
            assert(render(o) =~= frame_args(self@));
        }
        r
    }
}

impl Frame {
    /// A frame of `input` at `timecode`, given whether `input` exists.
    pub fn located(input: String, timecode: usize, exists: bool) -> (r: Result<Self, ErrorKind>)
        ensures
            exists ==> (r matches Ok(f) && f@ == fresh(input@, timecode as nat)),
            !exists ==> (r matches Err(ErrorKind::Io(t)) && t@ == not_found_text()),
    {
        if exists {
            let tc = if timecode < 1 {
                1
            } else {
                timecode
            };
            Ok(Frame { timecode: tc, data: None, origin: input, encoding: FormatKind::Png })
        } else {
            Err(ErrorKind::Io(String::from_str("entity not found")))
        }
    }

    /// A frame of the existing file `input` at `timecode` (at least 1), without payload.
    pub fn new(input: &str, timecode: usize) -> (r: Result<Self, ErrorKind>)
        ensures
            r matches Ok(f) ==> f@ == fresh(input@, timecode as nat),
            r matches Err(e) ==> (e matches ErrorKind::Io(t) && t@ == not_found_text()),
    {
        let exists = path_exists(input);
        Frame::located(String::from_str(input), timecode, exists)
    }

    /// The frame's timecode in milliseconds.
    pub fn timecode(&self) -> (r: usize)
        ensures
            r == self@.timecode,
    {
        self.timecode
    }

    /// Sets the payload to `data`.
    pub fn set_data(&mut self, data: Vec<u8>)
        ensures
            loaded_with(old(self)@, final(self)@, data@),
    {
        self.data = Some(ImageData::new(data))
    }

    /// Whether the payload is present.
    pub fn has_data(&self) -> (r: bool)
        ensures
            r == self@.payload is Some,
    {
        self.data.is_some()
    }

    /// A copy of the payload, if present.
    pub fn payload(&self) -> (r: Option<Vec<u8>>)
        ensures
            match self@.payload {
                Some(b) => r matches Some(v) && v@ == b,
                None => r is None,
            },
    {
        match &self.data {
            Some(d) => Some(d.data.clone()),
            None => None,
        }
    }

    /// Fills the payload by one run of `extract` on the frame's arguments, unless
    /// it is already present: a present payload is never fetched again.
    pub fn read<F>(&mut self, extract: F) -> (r: Result<(), ErrorKind>) where
        F: FnOnce(Vec<String>) -> Result<Vec<u8>, OutputError>,

        requires
            forall|a: Vec<String>| #[trigger] extract.requires((a,)),
        ensures
            read_effect(extract, old(self)@, final(self)@, r),
    {
        if self.has_data() {
            return Ok(());
        }
        let args = self.build();
        let out = extract(args);
        match out {
            Ok(data) => {
                self.data = Some(ImageData::new(data));
                Ok(())
            },
            Err(e) => Err(ErrorKind::Output(e)),
        }
    }

    /// The payload, read first if it is not present yet.
    pub fn write<F>(&mut self, extract: F) -> (r: Result<Vec<u8>, ErrorKind>) where
        F: FnOnce(Vec<String>) -> Result<Vec<u8>, OutputError>,

        requires
            forall|a: Vec<String>| #[trigger] extract.requires((a,)),
        ensures
            read_effect(extract, old(self)@, final(self)@, discarded(r)),
            r matches Ok(b) ==> final(self)@.payload == Some(b@),
    {
        match self.read(extract) {
            Ok(()) => {},
            Err(e) => {
                return Err(e);
            },
        }
        match self.payload() {
            Some(b) => Ok(b),
            None => {
                proof {
                    assert(false);
                }
                Err(ErrorKind::Unhandled(String::new()))
            },
        }
    }

    /// Saves the payload to the new file `output` through `save`, reading it first
    /// if needed; `output` must not exist yet, else the frame is left untouched.
    pub fn write_file<F, S>(&mut self, output: String, extract: F, save: S) -> (r: Result<(), ErrorKind>) where
        F: FnOnce(Vec<String>) -> Result<Vec<u8>, OutputError>,
        S: FnOnce(String, Vec<u8>) -> Result<(), OutputError>,

        requires
            forall|a: Vec<String>| #[trigger] extract.requires((a,)),
            forall|p: String, b: Vec<u8>| #[trigger] save.requires((p, b)),
        ensures
            r matches Err(e) ==> e is Path || e is Output,
            r matches Err(ErrorKind::Path(e)) ==> final(self)@ == old(self)@ && (e matches PathError::FileAlreadyExists(p) && p@ == output@),
            !(r matches Err(ErrorKind::Path(_))) ==> exists|r2: Result<(), ErrorKind>|
                read_effect(extract, old(self)@, final(self)@, r2),
            !(r matches Err(ErrorKind::Path(_))) && final(self)@.payload is Some ==> exists|
                p: String,
                b: Vec<u8>,
                out: Result<(), OutputError>,
            |
                #![trigger save.ensures((p, b), out)]
                save.ensures((p, b), out) && p@ == output@ && final(self)@.payload == Some(b@)
                    && match out {
                    Ok(_) => r is Ok,
                    Err(e) => r == Err::<(), ErrorKind>(ErrorKind::Output(e)),
                },
    {
        let path = match non_existing_path(&output) {
            Ok(p) => p,
            Err(e) => {
                return Err(ErrorKind::Path(e));
            },
        };
        let bytes = match self.write(extract) {
            Ok(b) => b,
            Err(e) => {
                return Err(e);
            },
        };
        let ghost saved = (path, bytes);
        let res = save(path, bytes);
        proof {
            assert(save.ensures((saved.0, saved.1), res));
        }
        match res {
            Ok(()) => Ok(()),
            Err(e) => Err(ErrorKind::Output(e)),
        }
    }
}

/// Reading a frame twice: the first successful read leaves a payload; the second
/// read then succeeds and changes nothing, whatever extractor it is given, so both
/// reads leave the same bytes and only the first can have run an extraction.
pub proof fn lemma_read_twice<F1, G>(
    first: F1,
    f0: FrameView,
    f1: FrameView,
    f2: FrameView,
    r2: Result<(), ErrorKind>,
    second: G,
) where
    F1: FnOnce(Vec<String>) -> Result<Vec<u8>, OutputError>,
    G: FnOnce(Vec<String>) -> Result<Vec<u8>, OutputError>,

    requires
        read_effect(first, f0, f1, Ok(())),
        read_effect(second, f1, f2, r2),
    ensures
        f1.payload is Some,
        f2 == f1,
        r2 is Ok,
        f0.payload is Some ==> f1 == f0,
{
}

} // verus!
