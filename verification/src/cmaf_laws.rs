//! What CMAF profiles ask for, and the boxes that name them.

use vstd::prelude::*;
use crate::api::AudioCodec;
use crate::cmaf::{self, CmafError, CmafProfile};
use crate::fragmented::FragmentConfig;
use crate::wire;

verus! {

/// The brands of the profiles, in letters.
pub proof fn brands_of_the_profiles()
    ensures
        CmafProfile::AvcSd.brand_bytes() == seq![0x63u8, 0x66, 0x73, 0x64],
        CmafProfile::AvcHd.brand_bytes() == seq![0x63u8, 0x66, 0x68, 0x64],
        CmafProfile::AvcUhd.brand_bytes() == seq![0x63u8, 0x75, 0x64, 0x31],
        CmafProfile::HevcHd.brand_bytes() == seq![0x63u8, 0x68, 0x64, 0x31],
        CmafProfile::HevcUhd.brand_bytes() == seq![0x63u8, 0x75, 0x64, 0x31],
        CmafProfile::Av1Hd.brand_bytes() == seq![0x63u8, 0x61, 0x76, 0x31],
        CmafProfile::Aac.brand_bytes() == seq![0x63u8, 0x61, 0x61, 0x63],
        CmafProfile::Flac.brand_bytes() == seq![0x63u8, 0x66, 0x6C, 0x61],
{
}

/// The name of a profile spells the bytes of its brand.
pub proof fn names_spell_the_brands(profile: CmafProfile)
    ensures
        profile.brand_name()@.len() == 4,
        forall|i: int|
            0 <= i < 4 ==> #[trigger] profile.brand_name()@[i] as int
                == profile.brand_bytes()[i],
{
    reveal_strlit("cfsd");
    reveal_strlit("cfhd");
    reveal_strlit("cud1");
    reveal_strlit("chd1");
    reveal_strlit("cav1");
    reveal_strlit("caac");
    reveal_strlit("cfla");
}

/// The largest pictures of the profiles.
pub proof fn largest_pictures()
    ensures
        CmafProfile::AvcSd.picture_cap() == Some((720u32, 576u32)),
        CmafProfile::AvcHd.picture_cap() == Some((1920u32, 1080u32)),
        CmafProfile::AvcUhd.picture_cap() == Some((3840u32, 2160u32)),
        CmafProfile::HevcHd.picture_cap() == Some((1920u32, 1080u32)),
        CmafProfile::HevcUhd.picture_cap() == Some((3840u32, 2160u32)),
        CmafProfile::Av1Hd.picture_cap() == Some((1920u32, 1080u32)),
        CmafProfile::Aac.picture_cap() is None,
        CmafProfile::Flac.picture_cap() is None,
{
}

/// A configuration is that of a profile if and only if, for video, it counts in
/// 1/90000 s, its picture is no larger than allowed, its fragments last from
/// 250 ms to 30 s and its parameter sets are there; and, for audio, the codec,
/// where one is told, is that of the profile.
pub proof fn profiles_ask_for_what_they_must(
    profile: CmafProfile,
    config: FragmentConfig,
    audio: Option<AudioCodec>,
)
    ensures
        profile == CmafProfile::Aac ==> (profile.violation(config, audio) is None <==> (
        audio matches Some(codec) ==> codec is Aac)),
        profile == CmafProfile::Flac ==> (profile.violation(config, audio) is None <==> (
        audio matches Some(codec) ==> codec is Flac)),
        profile != CmafProfile::Aac && profile != CmafProfile::Flac ==> (profile.violation(
            config,
            audio,
        ) is None <==> {
            let (width, height) = profile.picture_cap()->0;
            &&& config.timescale == 90_000
            &&& config.width <= width && config.height <= height
            &&& 250 <= config.fragment_duration_ms <= 30_000
            &&& profile.has_parameter_sets(config)
        }),
        profile != CmafProfile::Aac && profile != CmafProfile::Flac && config.timescale != 90_000
            ==> profile.violation(config, audio) == Some(
            CmafError::BadTimescale { expected: 90_000, actual: config.timescale },
        ),
        profile != CmafProfile::Aac && profile != CmafProfile::Flac && config.timescale == 90_000
            && ({
            let (width, height) = profile.picture_cap()->0;
            config.width > width || config.height > height
        }) ==> (profile.violation(config, audio) matches Some(error)
            && error is ResolutionTooLarge),
{
}

/// Which parameter sets a profile needs: SPS and PPS for AVC, VPS too for HEVC,
/// a sequence header for AV1, none for audio.
pub proof fn parameter_sets_of_the_profiles(profile: CmafProfile, config: FragmentConfig)
    ensures
        ({
            let sets = config.sps@.len() > 0 && config.pps@.len() > 0;
            let vps = config.vps matches Some(bytes) && bytes@.len() > 0;
            let header = config.av1_sequence_header matches Some(bytes) && bytes@.len() > 0;
            profile.has_parameter_sets(config) <==> match profile {
                CmafProfile::AvcSd => sets,
                CmafProfile::AvcHd => sets,
                CmafProfile::AvcUhd => sets,
                CmafProfile::HevcHd => sets && vps,
                CmafProfile::HevcUhd => sets && vps,
                CmafProfile::Av1Hd => header,
                CmafProfile::Aac => true,
                CmafProfile::Flac => true,
            }
        }),
{
}

/// A box of brands: a length of 24, the kind, the major brand, a version of 0,
/// and two brands that it is compatible with.
pub proof fn brand_boxes_are_laid_out(
    kind: Seq<u8>,
    major: Seq<u8>,
    first: Seq<u8>,
    second: Seq<u8>,
)
    requires
        kind.len() == 4 && major.len() == 4 && first.len() == 4 && second.len() == 4,
    ensures
        ({
            let b = cmaf::brand_box(kind, major, first, second);
            &&& b.len() == 24
            &&& 256 * (256 * (256 * b[0] + b[1]) + b[2]) + b[3] == 24
            &&& b.subrange(4, 8) == kind
            &&& b.subrange(8, 12) == major
            &&& b[12] == 0 && b[13] == 0 && b[14] == 0 && b[15] == 0
            &&& b.subrange(16, 20) == first
            &&& b.subrange(20, 24) == second
        }),
{
    let b = cmaf::brand_box(kind, major, first, second);
    wire::big_endian_bytes(0, 0, 24, 0);
    wire::big_endian_bytes(0, 0, 0, 0);
    assert(b.subrange(4, 8) =~= kind);
    assert(b.subrange(8, 12) =~= major);
    assert(b.subrange(16, 20) =~= first);
    assert(b.subrange(20, 24) =~= second);
    assert(b[12] == wire::be32(0)[0] && b[13] == wire::be32(0)[1] && b[14] == wire::be32(0)[2]
        && b[15] == wire::be32(0)[3]);
}

/// The kinds and the brands of the boxes, in letters.
pub proof fn kinds_and_brands_of_the_boxes()
    ensures
        cmaf::styp() == seq![0x73u8, 0x74, 0x79, 0x70],
        cmaf::ftyp() == seq![0x66u8, 0x74, 0x79, 0x70],
        cmaf::msdh() == seq![0x6Du8, 0x73, 0x64, 0x68],
        cmaf::msix() == seq![0x6Du8, 0x73, 0x69, 0x78],
        cmaf::cmf2() == seq![0x63u8, 0x6D, 0x66, 0x32],
{
}

} // verus!
