//! The numbers by which codecs and outcomes are known from outside.

use vstd::prelude::*;
use crate::api::{AacProfile, AudioCodec, FrameRate, SubtitleCodec, VideoCodec};
use crate::handle::{self, ArgumentFault, MuxfinStatus};

verus! {

/// The numbers of the outcomes: all different, with 0 for success alone.
pub proof fn numbers_of_the_outcomes(a: MuxfinStatus, b: MuxfinStatus)
    ensures
        a.number() == b.number() ==> a == b,
        a.number() == 0 <==> a == MuxfinStatus::Success,
        a.number() == 1 <==> a == MuxfinStatus::NullArgument,
        a.number() == 2 <==> a == MuxfinStatus::InvalidArgument,
        a.number() == 3 <==> a == MuxfinStatus::BuildFailed,
        a.number() == 4 <==> a == MuxfinStatus::WriteFailed,
        a.number() == 5 <==> a == MuxfinStatus::FinishFailed,
{
}

/// The numbers of the codecs.
pub proof fn numbers_of_the_codecs(code: u32)
    ensures
        handle::video_with_code(code) == Some(VideoCodec::H264) <==> code == 0,
        handle::video_with_code(code) == Some(VideoCodec::H265) <==> code == 1,
        handle::video_with_code(code) == Some(VideoCodec::Av1) <==> code == 2,
        handle::video_with_code(code) == Some(VideoCodec::Vp9) <==> code == 3,
        handle::video_with_code(code) is None <==> code > 3,
        handle::audio_with_code(code) == Some(AudioCodec::Aac(AacProfile::Lc)) <==> code == 0,
        handle::audio_with_code(code) == Some(AudioCodec::Aac(AacProfile::Main)) <==> code == 1,
        handle::audio_with_code(code) == Some(AudioCodec::Aac(AacProfile::Ssr)) <==> code == 2,
        handle::audio_with_code(code) == Some(AudioCodec::Aac(AacProfile::Ltp)) <==> code == 3,
        handle::audio_with_code(code) == Some(AudioCodec::Aac(AacProfile::He)) <==> code == 4,
        handle::audio_with_code(code) == Some(AudioCodec::Aac(AacProfile::Hev2)) <==> code == 5,
        handle::audio_with_code(code) == Some(AudioCodec::Opus) <==> code == 10,
        handle::audio_with_code(code) == Some(AudioCodec::Flac) <==> code == 11,
        handle::audio_with_code(code) is None <==> 6 <= code <= 9 || code > 11,
        handle::subtitle_with_code(code) == Some(SubtitleCodec::MovText) <==> code == 0,
        handle::subtitle_with_code(code) == Some(SubtitleCodec::WebVtt) <==> code == 1,
        handle::subtitle_with_code(code) == Some(SubtitleCodec::Ssa) <==> code == 2,
        handle::subtitle_with_code(code) == Some(SubtitleCodec::Ass) <==> code == 3,
        handle::subtitle_with_code(code) is None <==> code > 3,
{
}

/// Which arguments are taken: codecs that there are, video with a size and a
/// rate that is finite and above zero, audio with a rate and channels.
pub proof fn arguments_are_taken_when_they_must(
    code: u32,
    width: u32,
    height: u32,
    framerate: FrameRate,
    sample_rate: u32,
    channels: u16,
)
    ensures
        handle::video_fault(code, width, height, framerate) is None <==> code <= 3 && width > 0
            && height > 0 && 0 < framerate.bits < 0x7FF0_0000_0000_0000,
        code > 3 ==> handle::video_fault(code, width, height, framerate) == Some(
            ArgumentFault::UnknownVideoCodec(code),
        ),
        handle::audio_fault(code, sample_rate, channels) is None <==> (code <= 5 || code == 10
            || code == 11) && sample_rate > 0 && channels > 0,
        6 <= code <= 9 || code > 11 ==> handle::audio_fault(code, sample_rate, channels) == Some(
            ArgumentFault::UnknownAudioCodec(code),
        ),
{
}

/// Samples are there and not empty.
pub proof fn samples_are_there(len: Option<usize>)
    ensures
        handle::sample_fault(len) is None <==> (len matches Some(n) && n > 0),
        len is None ==> handle::sample_fault(len) == Some(ArgumentFault::NullSample),
        len == Some(0usize) ==> handle::sample_fault(len) == Some(ArgumentFault::EmptySample),
{
}

/// Arguments that are missing have an outcome of their own.
pub proof fn missing_arguments_are_told(fault: ArgumentFault)
    ensures
        fault.outcome() == MuxfinStatus::NullArgument <==> fault == ArgumentFault::NullBuilder
            || fault == ArgumentFault::NullMuxer || fault == ArgumentFault::NullSample,
        fault.outcome() != MuxfinStatus::NullArgument ==> fault.outcome()
            == MuxfinStatus::InvalidArgument,
{
}

} // verus!
