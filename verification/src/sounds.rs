//! Notification sounds: which sound an event plays, and how a decoded sound
//! is laid out for an output device.
use vstd::prelude::*;

verus! {

/// Sound event emitted by the recording workflow.
#[derive(Debug, Clone, Copy, PartialEq, Eq, Structural)]
pub enum SoundKind {
    Start,
    Stop,
    Error,
}

/// The file name of a sound's embedded WAV asset.
pub fn sound_asset_name(kind: SoundKind) -> (r: &'static str)
    ensures
        kind is Start ==> r@ == "record-start.wav"@,
        kind is Stop ==> r@ == "record-stop.wav"@,
        kind is Error ==> r@ == "record-error.wav"@,
{
    match kind {
        SoundKind::Start => "record-start.wav",
        SoundKind::Stop => "record-stop.wav",
        SoundKind::Error => "record-error.wav",
    }
}


/// How samples are laid out: frames per second and interleaved channels.
#[derive(Debug, Clone, Copy, PartialEq, Eq, Structural)]
pub struct SampleLayout {
    pub sample_rate: u32,
    pub channels: usize,
}

/// Where an output sample comes from.
#[derive(Debug, Clone, Copy, PartialEq, Eq, Structural)]
pub enum OutputSource {
    /// The source sample at this index.
    Sample(usize),
    /// The average of `count` source samples from `start` on.
    Average { start: usize, count: usize },
}

/// Why a sound cannot be laid out for an output device.
#[derive(Debug, Clone, Copy, PartialEq, Eq, Structural)]
pub enum SoundLayoutError {
    ZeroSourceRate,
    NoSourceChannels,
    ZeroTargetRate,
    NoTargetChannels,
}

/// The number of whole frames in `len` interleaved samples.
pub open spec fn frames_in(len: int, channels: int) -> int {
    len / channels
}

/// The number of output frames: the source duration at the target rate.
pub open spec fn target_frame_count(len: int, source: SampleLayout, target: SampleLayout) -> int {
    frames_in(len, source.channels as int) * target.sample_rate / (source.sample_rate as int)
}

/// The first source sample of the frame that output frame `f` plays: the
/// nearest earlier source frame in time, at most the last one.
pub open spec fn source_frame_start(f: int, len: int, source: SampleLayout, target: SampleLayout) -> int {
    let frames = frames_in(len, source.channels as int);
    let sf = f * source.sample_rate / (target.sample_rate as int);
    let last = if frames > 0 {
        frames - 1
    } else {
        0
    };
    (if sf < last {
        sf
    } else {
        last
    }) * source.channels
}

/// Where channel `c` of output frame `f` comes from: the same channel when
/// the channel counts agree, the only channel of a mono source, the average
/// of all channels for a mono output, else the same channel or the source's
/// last one.
pub open spec fn output_source(f: int, c: int, len: int, source: SampleLayout, target: SampleLayout) -> OutputSource {
    let start = source_frame_start(f, len, source, target);
    if source.channels == target.channels {
        OutputSource::Sample((start + c) as usize)
    } else if source.channels == 1 {
        OutputSource::Sample(start as usize)
    } else if target.channels == 1 {
        OutputSource::Average { start: start as usize, count: source.channels }
    } else {
        OutputSource::Sample(
            (start + if c < source.channels - 1 {
                c
            } else {
                source.channels - 1
            }) as usize,
        )
    }
}

/// Where each output sample of a sound with `len` samples in layout `source`
/// comes from, for an output device with layout `target`: frames are picked
/// by time (nearest earlier source frame), channels copied, spread or mixed.
pub fn output_plan(len: usize, source: SampleLayout, target: SampleLayout) -> (r: Result<
    Vec<OutputSource>,
    SoundLayoutError,
>)
    requires
        len * target.sample_rate <= usize::MAX,
        len * target.sample_rate * target.channels <= usize::MAX,
    ensures
        source.sample_rate == 0 ==> r == Err::<Vec<OutputSource>, SoundLayoutError>(SoundLayoutError::ZeroSourceRate),
        source.sample_rate != 0 && source.channels == 0 ==> r == Err::<Vec<OutputSource>, SoundLayoutError>(SoundLayoutError::NoSourceChannels),
        source.sample_rate != 0 && source.channels != 0 && target.sample_rate == 0 ==> r == Err::<Vec<OutputSource>, SoundLayoutError>(SoundLayoutError::ZeroTargetRate),
        source.sample_rate != 0 && source.channels != 0 && target.sample_rate != 0 && target.channels == 0 ==> r == Err::<Vec<OutputSource>, SoundLayoutError>(SoundLayoutError::NoTargetChannels),
        source.sample_rate != 0 && source.channels != 0 && target.sample_rate != 0 && target.channels != 0 ==> (r matches Ok(plan) && {
            let n = target_frame_count(len as int, source, target);
            &&& plan.len() == n * target.channels
            &&& forall|f: int, c: int|
                0 <= f < n && 0 <= c < target.channels ==> #[trigger] plan@[f * target.channels + c]
                    == output_source(f, c, len as int, source, target)
        }),
        r matches Ok(plan) ==> forall|i: int| 0 <= i < plan.len() ==> match #[trigger] plan@[i] {
            OutputSource::Sample(k) => k < len,
            OutputSource::Average { start, count } => start + count <= len,
        },
{
    if source.sample_rate == 0 {
        return Err(SoundLayoutError::ZeroSourceRate);
    }
    if source.channels == 0 {
        return Err(SoundLayoutError::NoSourceChannels);
    }
    if target.sample_rate == 0 {
        return Err(SoundLayoutError::ZeroTargetRate);
    }
    if target.channels == 0 {
        return Err(SoundLayoutError::NoTargetChannels);
    }
    let sc = source.channels;
    let tch = target.channels;
    let sr = source.sample_rate as usize;
    let tr = target.sample_rate as usize;
    let frames = len / sc;
    proof {
        assert(frames * sc <= len) by (nonlinear_arith)
            requires
                frames == len / sc,
                sc > 0,
        ;
        assert(frames * tr <= len * tr) by (nonlinear_arith)
            requires
                frames * sc <= len,
                sc >= 1,
                tr >= 0,
        ;
    }
    let n = frames * tr / sr;
    proof {
        assert(n * sr <= frames * tr) by (nonlinear_arith)
            requires
                n == frames * tr / (sr as int),
                sr > 0,
        ;
        assert(n <= frames * tr) by (nonlinear_arith)
            requires
                n * sr <= frames * tr,
                sr >= 1,
                n >= 0,
        ;
        assert(n * tch <= len * tr * tch) by (nonlinear_arith)
            requires
                n <= frames * tr,
                frames * tr <= len * tr,
                tch >= 0,
        ;
    }
    let last = if frames > 0 {
        frames - 1
    } else {
        0
    };
    let mut plan: Vec<OutputSource> = Vec::new();
    let mut f: usize = 0;
    while f < n
        invariant
            sc == source.channels,
            tch == target.channels,
            sr == source.sample_rate,
            tr == target.sample_rate,
            sc > 0,
            tch > 0,
            sr > 0,
            tr > 0,
            frames == frames_in(len as int, sc as int),
            frames * sc <= len,
            n == target_frame_count(len as int, source, target),
            n * sr <= frames * tr,
            frames * tr <= usize::MAX,
            n * tch <= usize::MAX,
            last == (if frames > 0 {
                frames - 1
            } else {
                0
            }),
            0 <= f <= n,
            plan.len() == f * tch,
            forall|ff: int, c: int|
                0 <= ff < f && 0 <= c < tch ==> #[trigger] plan@[ff * tch + c] == output_source(
                    ff,
                    c,
                    len as int,
                    source,
                    target,
                ),
            forall|i: int| 0 <= i < plan.len() ==> match #[trigger] plan@[i] {
                OutputSource::Sample(k) => k < len,
                OutputSource::Average { start, count } => start + count <= len,
            },
        decreases n - f,
    {
        proof {
            assert(f * sr <= frames * tr) by (nonlinear_arith)
                requires
                    f < n,
                    n * sr <= frames * tr,
                    sr > 0,
            ;
        }
        let sf = f * sr / tr;
        let clamped = if sf < last {
            sf
        } else {
            last
        };
        proof {
            assert(frames > 0) by (nonlinear_arith)
                requires
                    f < n,
                    n * sr <= frames * tr,
                    sr > 0,
                    tr > 0,
                    frames >= 0,
            ;
            assert(clamped * sc + sc <= len) by (nonlinear_arith)
                requires
                    clamped <= frames - 1,
                    frames * sc <= len,
                    sc > 0,
            ;
        }
        let start = clamped * sc;
        proof {
            assert(start as int == source_frame_start(f as int, len as int, source, target));
            assert(f * tch + tch <= n * tch) by (nonlinear_arith)
                requires
                    f < n,
                    tch > 0,
            ;
        }
        let mut c: usize = 0;
        while c < tch
            invariant
                sc == source.channels,
                tch == target.channels,
                sc > 0,
                tch > 0,
                start as int == source_frame_start(f as int, len as int, source, target),
                start + sc <= len,
                f < n,
                f * tch + tch <= n * tch,
                n * tch <= usize::MAX,
                0 <= c <= tch,
                plan.len() == f * tch + c,
                forall|ff: int, cc: int|
                    0 <= ff < f && 0 <= cc < tch ==> #[trigger] plan@[ff * tch + cc] == output_source(
                        ff,
                        cc,
                        len as int,
                        source,
                        target,
                    ),
                forall|cc: int|
                    0 <= cc < c ==> #[trigger] plan@[f * tch + cc] == output_source(
                        f as int,
                        cc,
                        len as int,
                        source,
                        target,
                    ),
                forall|i: int| 0 <= i < plan.len() ==> match #[trigger] plan@[i] {
                    OutputSource::Sample(k) => k < len,
                    OutputSource::Average { start, count } => start + count <= len,
                },
            decreases tch - c,
        {
            let pick = if sc == tch {
                OutputSource::Sample(start + c)
            } else if sc == 1 {
                OutputSource::Sample(start)
            } else if tch == 1 {
                OutputSource::Average { start, count: sc }
            } else {
                let channel = if c < sc - 1 {
                    c
                } else {
                    sc - 1
                };
                OutputSource::Sample(start + channel)
            };
            let ghost before = plan@;
            plan.push(pick);
            proof {
                assert(pick == output_source(f as int, c as int, len as int, source, target));
                assert forall|ff: int, cc: int|
                    0 <= ff < f && 0 <= cc < tch implies #[trigger] plan@[ff * tch + cc] == output_source(
                        ff,
                        cc,
                        len as int,
                        source,
                        target,
                    ) by {
                    assert(ff * tch + cc < f * tch) by (nonlinear_arith)
                        requires
                            ff < f,
                            0 <= cc < tch,
                    ;
                    assert(plan@[ff * tch + cc] == before[ff * tch + cc]);
                }
                assert forall|cc: int| 0 <= cc < c + 1 implies #[trigger] plan@[f * tch + cc] == output_source(
                    f as int,
                    cc,
                    len as int,
                    source,
                    target,
                ) by {
                    if cc < c {
                        assert(plan@[f * tch + cc] == before[f * tch + cc]);
                    }
                }
                assert forall|i: int| 0 <= i < plan.len() implies match #[trigger] plan@[i] {
                    OutputSource::Sample(k) => k < len,
                    OutputSource::Average { start, count } => start + count <= len,
                } by {
                    if i < before.len() {
                        assert(plan@[i] == before[i]);
                    }
                }
            }
            c = c + 1;
        }
        proof {
            assert forall|ff: int, cc: int|
                0 <= ff < f + 1 && 0 <= cc < tch implies #[trigger] plan@[ff * tch + cc] == output_source(
                    ff,
                    cc,
                    len as int,
                    source,
                    target,
                ) by {
                if ff == f {
                    assert(plan@[f * tch + cc] == output_source(f as int, cc, len as int, source, target));
                }
            }
            assert((f + 1) * tch == f * tch + tch) by (nonlinear_arith);
        }
        f = f + 1;
    }
    Ok(plan)
}

} // verus!
