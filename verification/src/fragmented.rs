//! Configuration of fragmented MP4 output.

use vstd::prelude::*;
use crate::api::SegmentBoundary;
use crate::codec::vp9::Vp9Config;

verus! {

/// Ticks per second of fragmented video.
pub const FRAGMENT_TIMESCALE: u32 = 90_000;

/// Length of a fragment in milliseconds, where nothing else is said.
pub const FRAGMENT_DURATION_MS: u32 = 2_000;

/// Length of a fragment in ticks, where nothing else is said.
pub const FRAGMENT_DURATION_TICKS: u64 = 180_000;

/// How fragments are made.
#[derive(Debug, Clone)]
pub struct FragmentConfig {
    pub width: u32,
    pub height: u32,
    /// Ticks per second.
    pub timescale: u32,
    /// Length of a fragment.
    pub fragment_duration_ms: u32,
    /// Where fragments end.
    pub boundary: SegmentBoundary,
    /// Sequence parameter set.
    pub sps: Vec<u8>,
    /// Picture parameter set.
    pub pps: Vec<u8>,
    /// Video parameter set of H.265.
    pub vps: Option<Vec<u8>>,
    /// Sequence header of AV1.
    pub av1_sequence_header: Option<Vec<u8>>,
    /// Configuration of VP9.
    pub vp9_config: Option<Vp9Config>,
}

impl Default for FragmentConfig {
    /// Full HD H.264 in fragments of two seconds.
    fn default() -> (config: Self)
        ensures
            config.width == 1920,
            config.height == 1080,
            config.timescale == FRAGMENT_TIMESCALE,
            config.fragment_duration_ms == FRAGMENT_DURATION_MS,
            config.boundary == (SegmentBoundary::Duration {
                target: FRAGMENT_DURATION_TICKS,
                require_sync_sample: true,
            }),
            config.sps@ == seq![0x67u8, 0x42, 0x00, 0x1E, 0xDA, 0x02, 0x80, 0x2D, 0x8B, 0x11],
            config.pps@ == seq![0x68u8, 0xCE, 0x38, 0x80],
            config.vps is None,
            config.av1_sequence_header is None,
            config.vp9_config is None,
    {
        let sps: Vec<u8> = vec![0x67, 0x42, 0x00, 0x1E, 0xDA, 0x02, 0x80, 0x2D, 0x8B, 0x11];
        let pps: Vec<u8> = vec![0x68, 0xCE, 0x38, 0x80];
        assert(sps@ =~= seq![0x67u8, 0x42, 0x00, 0x1E, 0xDA, 0x02, 0x80, 0x2D, 0x8B, 0x11]);
        assert(pps@ =~= seq![0x68u8, 0xCE, 0x38, 0x80]);
        FragmentConfig {
            width: 1920,
            height: 1080,
            timescale: FRAGMENT_TIMESCALE,
            fragment_duration_ms: FRAGMENT_DURATION_MS,
            boundary: SegmentBoundary::Duration {
                target: FRAGMENT_DURATION_TICKS,
                require_sync_sample: true,
            },
            sps,
            pps,
            vps: None,
            av1_sequence_header: None,
            vp9_config: None,
        }
    }
}

} // verus!
