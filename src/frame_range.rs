//! Planning of one batched extraction of evenly spaced frames, and the
//! reconciliation of its numbered output files into timecode-named ones.
use vstd::prelude::*;

use crate::cmd::{
    render, render_options, texts, Command, CommandOption, Destination, Dim, FormatKind, Level,
    format_text,
};
use crate::error::ErrorKind;
use crate::frame::FRAME_WIDTH;
use crate::path::{expect_existing, path_exists, Error as PathError};
use crate::text::{
    decimal, decimal_string, join_path, joined, push_decimal, push_padded, seconds_text,
    signed_decimal, signed_decimal_string, zero_padded,
};

verus! {

/// The abstract value of a planned batch.
pub struct RangeView {
    pub origin: Seq<char>,
    pub cache_root: Seq<char>,
    pub start: nat,
    pub n: nat,
    pub step: nat,
}

/// A batch of `n - 1` frames of `origin`, `step` milliseconds apart from `start`,
/// staged in the directory `cache_root`.
#[derive(Debug, Clone)]
pub struct FrameRange {
    origin: String,
    cache_root: String,
    start: usize,
    n: usize,
    step: usize,
}

impl View for FrameRange {
    type V = RangeView;

    closed spec fn view(&self) -> RangeView {
        RangeView {
            origin: self.origin@,
            cache_root: self.cache_root@,
            start: self.start as nat,
            n: self.n as nat,
            step: self.step as nat,
        }
    }
}

/// At least one frame, a positive step, and every timecode fits in a `usize`.
pub open spec fn range_ok(start: nat, n: nat, step: nat) -> bool {
    n >= 1 && step > 0 && start + (n - 1) * step <= usize::MAX
}

/// The sampling rate for frames `step` milliseconds apart: with `r = step / 1000`
/// seconds, `round(1 / r)` frames a second when `r < 1`, else `1/round(r)`.
pub open spec fn rate_text(step: nat) -> Seq<char>
    recommends
        step > 0,
{
    if step < 1000 {
        decimal((2000 + step) / (2 * step))
    } else {
        "1/"@ + decimal((step + 500) / 1000)
    }
}

/// The filter of a batch: sample at the rate, then scale to the frame width.
pub open spec fn filter_text(step: nat) -> Seq<char> {
    "fps="@ + rate_text(step) + ",scale="@ + decimal(FRAME_WIDTH as nat) + ":-1"@
}

/// The name of a timecode's file.
pub open spec fn timecode_name(timecode: nat) -> Seq<char> {
    decimal(timecode) + ".png"@
}

/// The name of the `k`-th numbered output file (from 1).
pub open spec fn sequence_name(k: nat) -> Seq<char> {
    zero_padded(decimal(k), 4) + ".png"@
}

/// The timecode of the `i`-th frame of a batch.
pub open spec fn timecode_at(r: RangeView, i: nat) -> nat {
    r.start + i * r.step
}

/// The timecodes a batch yields, in order: `n - 1` of them.
pub open spec fn range_timecodes(r: RangeView) -> Seq<nat> {
    Seq::new((r.n - 1) as nat, |i: int| timecode_at(r, i as nat))
}

/// The arguments of the batch extraction.
pub open spec fn range_args(r: RangeView) -> Seq<Seq<char>> {
    seq![
        "-loglevel"@, "error"@,
        "-ss"@, seconds_text(r.start),
        "-t"@, seconds_text(((r.n - 1) * r.step) as nat),
        "-i"@, r.origin,
        "-vf"@, filter_text(r.step),
        joined(r.cache_root, "%04d.png"@),
    ]
}

/// The description of the first missing output file.
pub open spec fn missing_text(path: Seq<char>) -> Seq<char> {
    "expected all range files to exist, missing "@ + path
}

/// What a batch run's exit code means.
pub open spec fn exit_text(code: Option<i32>) -> Option<Seq<char>> {
    match code {
        Some(c) => if c == 0 {
            None
        } else {
            Some("Non-zero exit code "@ + signed_decimal(c as int))
        },
        None => Some("Failed without exit code"@),
    }
}

/// The sampling rate argument for frames `step` milliseconds apart.
pub fn sampling_rate(step: usize) -> (r: String)
    requires
        step > 0,
    ensures
        r@ == rate_text(step as nat),
{
    if step < 1000 {
        let per_second = (2000 + step) / (2 * step);
        decimal_string(per_second)
    } else {
        let secs = step / 1000 + if step % 1000 >= 500 {
            1
        } else {
            0
        };
        assert(secs == (step + 500) / 1000);
        let mut s = String::from_str("1/");
        push_decimal(&mut s, secs);
        s
    }
}

/// The file of a timecode under `root`.
pub fn cached_path_for(root: &str, i: usize) -> (r: String)
    ensures
        r@ == joined(root@, timecode_name(i as nat)),
{
    let mut name = decimal_string(i);
    name.append(".png");
    join_path(root, name.as_str())
}

impl FrameRange {
    /// Whether the batch is well formed.
    pub open spec fn wf(&self) -> bool {
        range_ok(self@.start, self@.n, self@.step)
    }

    /// A batch over the given paths, if `n`, `step` and `start` are in range.
    pub fn planned(origin: String, cache_root: String, start: usize, n: usize, step: usize) -> (r:
        Result<Self, ErrorKind>)
        ensures
            range_ok(start as nat, n as nat, step as nat) ==> (r matches Ok(f) && f.wf() && f@
                == (RangeView {
                origin: origin@,
                cache_root: cache_root@,
                start: start as nat,
                n: n as nat,
                step: step as nat,
            })),
            !range_ok(start as nat, n as nat, step as nat) ==> r == Err::<Self, ErrorKind>(
                ErrorKind::ArgumentError,
            ),
    {
        if n == 0 || step == 0 {
            return Err(ErrorKind::ArgumentError);
        }
        if (n - 1) > (usize::MAX - start) / step {
            proof {
                assert((n - 1) * step > usize::MAX - start) by (nonlinear_arith)
                    requires
                        (n - 1) > (usize::MAX - start) / step as int,
                        step > 0,
                ;
            }
            return Err(ErrorKind::ArgumentError);
        }
        proof {
            assert((n - 1) * step <= usize::MAX - start) by (nonlinear_arith)
                requires
                    (n - 1) <= (usize::MAX - start) / step as int,
                    step > 0,
            ;
        }
        Ok(FrameRange { origin, cache_root, start, n, step })
    }

    /// A batch of `origin` staged in `cache_root`, given whether each exists: a
    /// missing origin is named first, then a missing cache root.
    pub fn located(
        origin: String,
        cache_root: String,
        origin_exists: bool,
        root_exists: bool,
        start: usize,
        n: usize,
        step: usize,
    ) -> (r: Result<Self, ErrorKind>)
        ensures
            !origin_exists ==> r == Err::<Self, ErrorKind>(
                ErrorKind::Path(PathError::FileDoesNotExist(origin)),
            ),
            origin_exists && !root_exists ==> r == Err::<Self, ErrorKind>(
                ErrorKind::Path(PathError::FileDoesNotExist(cache_root)),
            ),
            origin_exists && root_exists && !range_ok(start as nat, n as nat, step as nat) ==> r
                == Err::<Self, ErrorKind>(ErrorKind::ArgumentError),
            origin_exists && root_exists && range_ok(start as nat, n as nat, step as nat) ==> (r matches Ok(
                f,
            ) && f.wf() && f@ == (RangeView {
                origin: origin@,
                cache_root: cache_root@,
                start: start as nat,
                n: n as nat,
                step: step as nat,
            })),
    {
        let o = match expect_existing(origin, origin_exists) {
            Ok(p) => p,
            Err(e) => {
                return Err(ErrorKind::Path(e));
            },
        };
        let c = match expect_existing(cache_root, root_exists) {
            Ok(p) => p,
            Err(e) => {
                return Err(ErrorKind::Path(e));
            },
        };
        FrameRange::planned(o, c, start, n, step)
    }

    /// A batch of existing `origin` staged in the existing directory `cache_root`.
    pub fn new(origin: &str, cache_root: &str, start: usize, n: usize, step: usize) -> (r: Result<
        Self,
        ErrorKind,
    >)
        ensures
            r matches Ok(f) ==> f.wf() && f@ == (RangeView {
                origin: origin@,
                cache_root: cache_root@,
                start: start as nat,
                n: n as nat,
                step: step as nat,
            }),
            r matches Err(e) ==> (e matches ErrorKind::Path(PathError::FileDoesNotExist(p)) && (p@
                == origin@ || p@ == cache_root@)) || (e is ArgumentError && !range_ok(
                start as nat,
                n as nat,
                step as nat,
            )),
    {
        let o = String::from_str(origin);
        let origin_exists = path_exists(origin);
        if !origin_exists {
            return FrameRange::located(o, String::from_str(cache_root), false, false, start, n, step);
        }
        let root_exists = path_exists(cache_root);
        FrameRange::located(o, String::from_str(cache_root), true, root_exists, start, n, step)
    }

    /// The number of files the batch yields: `n - 1`.
    pub fn frame_count(&self) -> (r: usize)
        requires
            self.wf(),
        ensures
            r == self@.n - 1,
    {
        self.n - 1
    }

    /// The timecode of the `i`-th frame.
    pub fn timecode_at(&self, i: usize) -> (r: usize)
        requires
            self.wf(),
            i < self@.n - 1,
        ensures
            r == timecode_at(self@, i as nat),
    {
        proof {
            assert(i * self.step <= (self.n - 1) * self.step) by (nonlinear_arith)
                requires
                    i < self.n - 1,
            ;
        }
        self.start + i * self.step
    }

    /// The path of the `i`-th numbered output file.
    pub fn sequence_path(&self, i: usize) -> (r: String)
        requires
            self.wf(),
            i < self@.n - 1,
        ensures
            r@ == joined(self@.cache_root, sequence_name(i as nat + 1)),
    {
        let mut name = String::new();
        push_padded(&mut name, i + 1, 4);
        name.append(".png");
        join_path(self.cache_root.as_str(), name.as_str())
    }

    /// The path the `i`-th numbered output file is renamed to.
    pub fn timecode_path(&self, i: usize) -> (r: String)
        requires
            self.wf(),
            i < self@.n - 1,
        ensures
            r@ == joined(self@.cache_root, timecode_name(timecode_at(self@, i as nat))),
    {
        let t = self.timecode_at(i);
        cached_path_for(self.cache_root.as_str(), t)
    }

    /// The timecodes of the batch, in order.
    pub fn timecodes(&self) -> (r: Vec<usize>)
        requires
            self.wf(),
        ensures
            r@.map_values(|t: usize| t as nat) == range_timecodes(self@),
    {
        let count = self.frame_count();
        let mut out: Vec<usize> = Vec::new();
        let mut i: usize = 0;
        while i < count
            invariant
                self.wf(),
                count == self@.n - 1,
                i <= count,
                out@.len() == i,
                forall|j: int| 0 <= j < i ==> out@[j] == timecode_at(self@, j as nat),
            decreases count - i,
        {
            let t = self.timecode_at(i);
            out.push(t);
            i = i + 1;
        }
        proof {
            assert(out@.map_values(|t: usize| t as nat) =~= range_timecodes(self@));
        }
        out
    }

    /// The verdict on the batch run's exit code: only 0 is success.
    pub fn exit_outcome(&self, code: Option<i32>) -> (r: Result<(), ErrorKind>)
        ensures
            match exit_text(code) {
                None => r is Ok,
                Some(t) => r matches Err(ErrorKind::Unhandled(m)) && m@ == t,
            },
    {
        match code {
            Some(0) => Ok(()),
            Some(c) => {
                let mut m = String::from_str("Non-zero exit code ");
                m.append(signed_decimal_string(c).as_str());
                Err(ErrorKind::Unhandled(m))
            },
            None => Err(ErrorKind::Unhandled(String::from_str("Failed without exit code"))),
        }
    }

    /// The timecodes of the batch when every numbered output file is present
    /// (`present[i]` for the `i`-th); otherwise the error naming the first missing one.
    pub fn reconcile(&self, present: &Vec<bool>) -> (r: Result<Vec<usize>, ErrorKind>)
        requires
            self.wf(),
            present@.len() == self@.n - 1,
        ensures
            (forall|i: int| 0 <= i < present@.len() ==> present@[i]) ==> (r matches Ok(v)
                && v@.map_values(|t: usize| t as nat) == range_timecodes(self@)),
            forall|i: int|
                0 <= i < present@.len() && !present@[i] && (forall|j: int|
                    0 <= j < i ==> present@[j]) ==> (r matches Err(ErrorKind::Unhandled(m)) && m@
                    == missing_text(joined(self@.cache_root, sequence_name(i as nat + 1)))),
    {
        let count = self.frame_count();
        let mut i: usize = 0;
        while i < count
            invariant
                self.wf(),
                count == self@.n - 1,
                present@.len() == count,
                i <= count,
                forall|j: int| 0 <= j < i ==> present@[j],
            decreases count - i,
        {
            if !present[i] {
                let mut m = String::from_str("expected all range files to exist, missing ");
                m.append(self.sequence_path(i).as_str());
                return Err(ErrorKind::Unhandled(m));
            }
            i = i + 1;
        }
        Ok(self.timecodes())
    }
}

impl Command for FrameRange {
    open spec fn spec_args(&self) -> Seq<Seq<char>> {
        range_args(self@)
    }

    open spec fn buildable(&self) -> bool {
        self.wf()
    }

    fn build(&self) -> (r: Vec<String>) {
        proof {
            assert((self.n - 1) * self.step <= self.start + (self.n - 1) * self.step)
                by (nonlinear_arith)
                requires
                    self.n >= 1,
            ;
        }
        let total_duration = (self.n - 1) * self.step;
        let mut filter = String::from_str("fps=");
        filter.append(sampling_rate(self.step).as_str());
        filter.append(",scale=");
        push_decimal(&mut filter, FRAME_WIDTH as usize);
        filter.append(":-1");
        let opts = vec![
            CommandOption::LogLevel(Level::Error),
            CommandOption::Position(self.start),
            CommandOption::Duration(total_duration),
            CommandOption::Input(self.origin.clone()),
            CommandOption::Named(String::from_str("-vf"), filter),
            CommandOption::Output(Destination::Path(join_path(self.cache_root.as_str(), "%04d.png"))),
        ];
        let ghost o = opts@;
        let r = render_options(opts);
        proof {
            reveal_with_fuel(render, 7);
            assert(render(o) =~= range_args(self@));
        }
        r
    }
}

/// A single frame extracted straight into the cache directory.
#[derive(Debug, Clone)]
pub struct FrameAt {
    pub timecode: usize,
    pub origin: String,
    pub encoding: FormatKind,
    pub cache_root: String,
}

impl FrameAt {
    /// The frame's file in the cache directory.
    pub fn cache_path(&self) -> (r: Destination)
        ensures
            r matches Destination::Path(p) && p@ == joined(self.cache_root@, timecode_name(
                self.timecode as nat,
            )),
    {
        Destination::Path(cached_path_for(self.cache_root.as_str(), self.timecode))
    }

    /// The arguments of a single-frame extraction into the cache directory.
    pub fn args(self) -> (r: Vec<String>)
        ensures
            texts(r@) == seq![
                "-ss"@, seconds_text(self.timecode as nat),
                "-i"@, self.origin@,
                "-vframes"@, decimal(1),
                "-vf"@, "scale="@ + decimal(FRAME_WIDTH as nat) + ":-1"@,
                "-f"@, format_text(self.encoding),
                joined(self.cache_root@, timecode_name(self.timecode as nat)),
            ],
    {
        let output = self.cache_path();
        let opts = vec![
            CommandOption::Position(self.timecode),
            CommandOption::Input(self.origin),
            CommandOption::Frames(1),
            CommandOption::Scale(Dim::W(FRAME_WIDTH)),
            CommandOption::Format(self.encoding),
            CommandOption::Output(output),
        ];
        let ghost o = opts@;
        let r = render_options(opts);
        proof {
            reveal_with_fuel(render, 7);
            reveal_strlit("scale=");
        }
        r
    }
}

} // verus!
