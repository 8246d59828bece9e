//! CMAF media profiles and segment headers.

use vstd::prelude::*;
use vstd::string::StringExecFns;
use crate::api::AudioCodec;
use crate::fragmented::FragmentConfig;
use crate::text::{self, push_decimal};
use crate::wire::{self, put_be32, put_slice};

verus! {

/// Shortest fragment in milliseconds.
pub const MIN_FRAGMENT_MS: u32 = 250;

/// Longest fragment in milliseconds.
pub const MAX_FRAGMENT_MS: u32 = 30_000;

/// Ticks per second that video profiles need.
pub const VIDEO_PROFILE_TIMESCALE: u32 = 90_000;

/// A media profile.
#[derive(Debug, Clone, Copy, PartialEq, Eq, Hash, Structural)]
pub enum CmafProfile {
    /// AVC up to 720x576.
    AvcSd,
    /// AVC up to 1920x1080.
    AvcHd,
    /// AVC up to 3840x2160.
    AvcUhd,
    /// HEVC up to 1920x1080.
    HevcHd,
    /// HEVC up to 3840x2160.
    HevcUhd,
    /// AV1 up to 1920x1080.
    Av1Hd,
    /// AAC.
    Aac,
    /// FLAC.
    Flac,
}

impl CmafProfile {
    /// The four bytes of the profile's brand.
    pub open spec fn brand_bytes(self) -> Seq<u8> {
        match self {
            CmafProfile::AvcSd => seq![0x63u8, 0x66, 0x73, 0x64],
            CmafProfile::AvcHd => seq![0x63u8, 0x66, 0x68, 0x64],
            CmafProfile::AvcUhd => seq![0x63u8, 0x75, 0x64, 0x31],
            CmafProfile::HevcHd => seq![0x63u8, 0x68, 0x64, 0x31],
            CmafProfile::HevcUhd => seq![0x63u8, 0x75, 0x64, 0x31],
            CmafProfile::Av1Hd => seq![0x63u8, 0x61, 0x76, 0x31],
            CmafProfile::Aac => seq![0x63u8, 0x61, 0x61, 0x63],
            CmafProfile::Flac => seq![0x63u8, 0x66, 0x6C, 0x61],
        }
    }

    /// The brand as text.
    pub open spec fn brand_name(self) -> &'static str {
        match self {
            CmafProfile::AvcSd => "cfsd",
            CmafProfile::AvcHd => "cfhd",
            CmafProfile::AvcUhd => "cud1",
            CmafProfile::HevcHd => "chd1",
            CmafProfile::HevcUhd => "cud1",
            CmafProfile::Av1Hd => "cav1",
            CmafProfile::Aac => "caac",
            CmafProfile::Flac => "cfla",
        }
    }

    /// The profile's brand.
    pub fn brand(self) -> (brand: [u8; 4])
        ensures
            brand@ == self.brand_bytes(),
    {
        let brand: [u8; 4] = match self {
            CmafProfile::AvcSd => [0x63, 0x66, 0x73, 0x64],
            CmafProfile::AvcHd => [0x63, 0x66, 0x68, 0x64],
            CmafProfile::AvcUhd => [0x63, 0x75, 0x64, 0x31],
            CmafProfile::HevcHd => [0x63, 0x68, 0x64, 0x31],
            CmafProfile::HevcUhd => [0x63, 0x75, 0x64, 0x31],
            CmafProfile::Av1Hd => [0x63, 0x61, 0x76, 0x31],
            CmafProfile::Aac => [0x63, 0x61, 0x61, 0x63],
            CmafProfile::Flac => [0x63, 0x66, 0x6C, 0x61],
        };
        assert(brand@ =~= self.brand_bytes());
        brand
    }

    /// The brand as text, for manifests and logs.
    pub fn brand_str(self) -> (name: &'static str)
        ensures
            name == self.brand_name(),
    {
        match self {
            CmafProfile::AvcSd => "cfsd",
            CmafProfile::AvcHd => "cfhd",
            CmafProfile::AvcUhd => "cud1",
            CmafProfile::HevcHd => "chd1",
            CmafProfile::HevcUhd => "cud1",
            CmafProfile::Av1Hd => "cav1",
            CmafProfile::Aac => "caac",
            CmafProfile::Flac => "cfla",
        }
    }

    /// Whether the profile is one of video.
    pub open spec fn for_video(self) -> bool {
        !(self is Aac || self is Flac)
    }

    /// Whether the profile is one of video.
    pub fn is_video(self) -> (video: bool)
        ensures
            video == self.for_video(),
    {
        match self {
            CmafProfile::Aac => false,
            CmafProfile::Flac => false,
            _ => true,
        }
    }

    /// The largest picture of a video profile.
    pub open spec fn picture_cap(self) -> Option<(u32, u32)> {
        match self {
            CmafProfile::AvcSd => Some((720, 576)),
            CmafProfile::AvcHd => Some((1920, 1080)),
            CmafProfile::HevcHd => Some((1920, 1080)),
            CmafProfile::Av1Hd => Some((1920, 1080)),
            CmafProfile::AvcUhd => Some((3840, 2160)),
            CmafProfile::HevcUhd => Some((3840, 2160)),
            CmafProfile::Aac => None,
            CmafProfile::Flac => None,
        }
    }

    /// The largest width and height of a video profile.
    pub fn max_resolution(self) -> (cap: Option<(u32, u32)>)
        ensures
            cap == self.picture_cap(),
    {
        match self {
            CmafProfile::AvcSd => Some((720, 576)),
            CmafProfile::AvcHd => Some((1920, 1080)),
            CmafProfile::HevcHd => Some((1920, 1080)),
            CmafProfile::Av1Hd => Some((1920, 1080)),
            CmafProfile::AvcUhd => Some((3840, 2160)),
            CmafProfile::HevcUhd => Some((3840, 2160)),
            CmafProfile::Aac => None,
            CmafProfile::Flac => None,
        }
    }

    /// The compatible brands of an initialisation segment: the base brand and
    /// that of the profile.
    pub fn init_compatible_brands(self) -> (brands: Vec<[u8; 4]>)
        ensures
            brands@.len() == 2,
            brands@[0]@ == cmf2(),
            brands@[1]@ == self.brand_bytes(),
    {
        let base: [u8; 4] = [0x63, 0x6D, 0x66, 0x32];
        assert(base@ =~= cmf2());
        let mut brands: Vec<[u8; 4]> = Vec::new();
        brands.push(base);
        brands.push(self.brand());
        brands
    }

    /// Whether the parameter sets that the profile's codec needs are there.
    pub open spec fn has_parameter_sets(self, config: FragmentConfig) -> bool {
        match self {
            CmafProfile::AvcSd => has_avc_sets(config),
            CmafProfile::AvcHd => has_avc_sets(config),
            CmafProfile::AvcUhd => has_avc_sets(config),
            CmafProfile::HevcHd => has_avc_sets(config) && is_filled(config.vps),
            CmafProfile::HevcUhd => has_avc_sets(config) && is_filled(config.vps),
            CmafProfile::Av1Hd => is_filled(config.av1_sequence_header),
            CmafProfile::Aac => true,
            CmafProfile::Flac => true,
        }
    }

    /// What keeps a configuration from the profile, if anything.
    pub open spec fn violation(self, config: FragmentConfig, audio: Option<AudioCodec>) -> Option<
        CmafError,
    > {
        if self.for_video() {
            let (max_width, max_height) = self.picture_cap()->0;
            if config.timescale != VIDEO_PROFILE_TIMESCALE {
                Some(
                    CmafError::BadTimescale {
                        expected: VIDEO_PROFILE_TIMESCALE,
                        actual: config.timescale,
                    },
                )
            } else if config.width > max_width || config.height > max_height {
                Some(
                    CmafError::ResolutionTooLarge {
                        profile: self.brand_name(),
                        width: config.width,
                        height: config.height,
                        max_width,
                        max_height,
                    },
                )
            } else if !(MIN_FRAGMENT_MS <= config.fragment_duration_ms <= MAX_FRAGMENT_MS) {
                Some(
                    CmafError::FragmentDurationOutOfRange {
                        duration_ms: config.fragment_duration_ms,
                    },
                )
            } else if !self.has_parameter_sets(config) {
                Some(CmafError::MissingParameterSets { profile: self.brand_name() })
            } else {
                None
            }
        } else {
            match (self, audio) {
                (CmafProfile::Aac, Some(codec)) => if !(codec is Aac) {
                    Some(
                        CmafError::CodecMismatch {
                            profile: self.brand_name(),
                            detail: "caac requires an AAC codec",
                        },
                    )
                } else {
                    None
                },
                (CmafProfile::Flac, Some(codec)) => if codec != AudioCodec::Flac {
                    Some(
                        CmafError::CodecMismatch {
                            profile: self.brand_name(),
                            detail: "cfla requires FLAC",
                        },
                    )
                } else {
                    None
                },
                _ => None,
            }
        }
    }

    /// Checks a configuration against the profile: the timescale, the picture
    /// size, the fragment length and the parameter sets of video, the codec
    /// of audio.
    pub fn check_config(self, config: &FragmentConfig, audio: Option<AudioCodec>) -> (result:
        Result<(), CmafError>)
        ensures
            match self.violation(*config, audio) {
                Some(error) => result == Err::<(), CmafError>(error),
                None => result is Ok,
            },
    {
        if self.is_video() {
            if config.timescale != VIDEO_PROFILE_TIMESCALE {
                return Err(
                    CmafError::BadTimescale {
                        expected: VIDEO_PROFILE_TIMESCALE,
                        actual: config.timescale,
                    },
                );
            }
            if let Some((max_width, max_height)) = self.max_resolution() {
                if config.width > max_width || config.height > max_height {
                    return Err(
                        CmafError::ResolutionTooLarge {
                            profile: self.brand_str(),
                            width: config.width,
                            height: config.height,
                            max_width,
                            max_height,
                        },
                    );
                }
            }
            if config.fragment_duration_ms < MIN_FRAGMENT_MS || config.fragment_duration_ms
                > MAX_FRAGMENT_MS {
                return Err(
                    CmafError::FragmentDurationOutOfRange {
                        duration_ms: config.fragment_duration_ms,
                    },
                );
            }
            let complete = match self {
                CmafProfile::HevcHd => holds(&config.vps) && config.sps.len() > 0
                    && config.pps.len() > 0,
                CmafProfile::HevcUhd => holds(&config.vps) && config.sps.len() > 0
                    && config.pps.len() > 0,
                CmafProfile::Av1Hd => holds(&config.av1_sequence_header),
                _ => config.sps.len() > 0 && config.pps.len() > 0,
            };
            if !complete {
                return Err(CmafError::MissingParameterSets { profile: self.brand_str() });
            }
        }
        match (self, audio) {
            (CmafProfile::Aac, Some(codec)) => match codec {
                AudioCodec::Aac(_) => Ok(()),
                _ => Err(
                    CmafError::CodecMismatch {
                        profile: self.brand_str(),
                        detail: "caac requires an AAC codec",
                    },
                ),
            },
            (CmafProfile::Flac, Some(codec)) => if codec != AudioCodec::Flac {
                Err(
                    CmafError::CodecMismatch {
                        profile: self.brand_str(),
                        detail: "cfla requires FLAC",
                    },
                )
            } else {
                Ok(())
            },
            _ => Ok(()),
        }
    }
}

/// The base brand.
pub open spec fn cmf2() -> Seq<u8> {
    seq![0x63u8, 0x6D, 0x66, 0x32]
}

/// Whether there are sequence and picture parameter sets.
pub open spec fn has_avc_sets(config: FragmentConfig) -> bool {
    config.sps@.len() > 0 && config.pps@.len() > 0
}

/// Whether an optional blob is there and not empty.
pub open spec fn is_filled(blob: Option<Vec<u8>>) -> bool {
    blob matches Some(bytes) && bytes@.len() > 0
}

/// Whether an optional blob is there and not empty.
fn holds(blob: &Option<Vec<u8>>) -> (filled: bool)
    ensures
        filled == is_filled(*blob),
{
    match blob {
        Some(bytes) => bytes.len() > 0,
        None => false,
    }
}

/// What keeps a configuration from a profile.
#[derive(Debug, Clone, Copy, PartialEq, Eq)]
pub enum CmafError {
    /// Video needs another timescale.
    BadTimescale { expected: u32, actual: u32 },
    /// The picture is larger than the profile allows.
    ResolutionTooLarge {
        profile: &'static str,
        width: u32,
        height: u32,
        max_width: u32,
        max_height: u32,
    },
    /// Fragments are too short or too long.
    FragmentDurationOutOfRange { duration_ms: u32 },
    /// Parameter sets are missing.
    MissingParameterSets { profile: &'static str },
    /// The audio codec is not that of the profile.
    CodecMismatch { profile: &'static str, detail: &'static str },
}

impl CmafError {
    /// The message text.
    pub open spec fn text(self) -> Seq<char> {
        match self {
            CmafError::BadTimescale { expected, actual } => "CMAF video profiles require a "@
                + text::decimal(expected as int) + " Hz timescale, got "@ + text::decimal(
                actual as int,
            ) + " Hz"@,
            CmafError::ResolutionTooLarge { profile, width, height, max_width, max_height } =>
                "CMAF profile "@ + profile@ + " caps resolution at "@ + text::decimal(
                max_width as int,
            ) + "x"@ + text::decimal(max_height as int) + ", got "@ + text::decimal(width as int)
                + "x"@ + text::decimal(height as int),
            CmafError::FragmentDurationOutOfRange { duration_ms } => "CMAF fragment duration "@
                + text::decimal(duration_ms as int) + " ms is outside 250 ms..30 s"@,
            CmafError::MissingParameterSets { profile } => "CMAF profile "@ + profile@
                + " requires decoder parameter sets (SPS/PPS, VPS for HEVC, sequence header for AV1)"@,
            CmafError::CodecMismatch { profile, detail } => "CMAF profile "@ + profile@ + ": "@
                + detail@,
        }
    }

    /// The error as a message.
    pub fn message(&self) -> (message: String)
        ensures
            message@ == self.text(),
    {
        match *self {
            CmafError::BadTimescale { expected, actual } => {
                let mut out = String::from_str("CMAF video profiles require a ");
                push_decimal(&mut out, expected as u64);
                out.append(" Hz timescale, got ");
                push_decimal(&mut out, actual as u64);
                out.append(" Hz");
                out
            },
            CmafError::ResolutionTooLarge { profile, width, height, max_width, max_height } => {
                let mut out = String::from_str("CMAF profile ");
                out.append(profile);
                out.append(" caps resolution at ");
                push_decimal(&mut out, max_width as u64);
                out.append("x");
                push_decimal(&mut out, max_height as u64);
                out.append(", got ");
                push_decimal(&mut out, width as u64);
                out.append("x");
                push_decimal(&mut out, height as u64);
                out
            },
            CmafError::FragmentDurationOutOfRange { duration_ms } => {
                let mut out = String::from_str("CMAF fragment duration ");
                push_decimal(&mut out, duration_ms as u64);
                out.append(" ms is outside 250 ms..30 s");
                out
            },
            CmafError::MissingParameterSets { profile } => {
                let mut out = String::from_str("CMAF profile ");
                out.append(profile);
                out.append(
                    " requires decoder parameter sets (SPS/PPS, VPS for HEVC, sequence header for AV1)",
                );
                out
            },
            CmafError::CodecMismatch { profile, detail } => {
                let mut out = String::from_str("CMAF profile ");
                out.append(profile);
                out.append(": ");
                out.append(detail);
                out
            },
        }
    }
}

/// A brand box: its length, its type, a major brand, a minor version of zero
/// and two compatible brands.
pub open spec fn brand_box(
    box_type: Seq<u8>,
    major: Seq<u8>,
    first: Seq<u8>,
    second: Seq<u8>,
) -> Seq<u8> {
    wire::be32(24) + box_type + major + wire::be32(0) + first + second
}

/// Builds a brand box.
fn build_brand_box(
    box_type: [u8; 4],
    major: [u8; 4],
    first: [u8; 4],
    second: [u8; 4],
) -> (out: Vec<u8>)
    ensures
        out@ == brand_box(box_type@, major@, first@, second@),
{
    let mut out: Vec<u8> = Vec::new();
    put_be32(&mut out, 24);
    put_slice(&mut out, &box_type);
    put_slice(&mut out, &major);
    put_be32(&mut out, 0);
    put_slice(&mut out, &first);
    put_slice(&mut out, &second);
    out
}

/// The box type `styp`.
pub open spec fn styp() -> Seq<u8> {
    seq![0x73u8, 0x74, 0x79, 0x70]
}

/// The box type `ftyp`.
pub open spec fn ftyp() -> Seq<u8> {
    seq![0x66u8, 0x74, 0x79, 0x70]
}

/// The brand `msdh`.
pub open spec fn msdh() -> Seq<u8> {
    seq![0x6Du8, 0x73, 0x64, 0x68]
}

/// The brand `msix`.
pub open spec fn msix() -> Seq<u8> {
    seq![0x6Du8, 0x73, 0x69, 0x78]
}

/// The header of a segment.
pub fn cmaf_styp() -> (header: Vec<u8>)
    ensures
        header@ == brand_box(styp(), msdh(), msdh(), msix()),
{
    let box_type: [u8; 4] = [0x73, 0x74, 0x79, 0x70];
    let base: [u8; 4] = [0x6D, 0x73, 0x64, 0x68];
    let indexed: [u8; 4] = [0x6D, 0x73, 0x69, 0x78];
    assert(box_type@ =~= styp());
    assert(base@ =~= msdh());
    assert(indexed@ =~= msix());
    build_brand_box(box_type, base, base, indexed)
}

/// The header of an initialisation segment.
pub fn cmaf_init_ftyp(profile: CmafProfile) -> (header: Vec<u8>)
    ensures
        header@ == brand_box(ftyp(), cmf2(), cmf2(), profile.brand_bytes()),
{
    let box_type: [u8; 4] = [0x66, 0x74, 0x79, 0x70];
    let major: [u8; 4] = [0x63, 0x6D, 0x66, 0x32];
    assert(box_type@ =~= ftyp());
    assert(major@ =~= cmf2());
    let brands = profile.init_compatible_brands();
    build_brand_box(box_type, major, brands[0], brands[1])
}

} // verus!
