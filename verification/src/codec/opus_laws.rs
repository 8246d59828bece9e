//! What Opus packets and layouts stand for.

use vstd::prelude::*;
use crate::codec::opus::{self, OpusConfigError, OpusFrameDuration, OpusLayout};

verus! {

/// The samples in one frame at 48 kHz, by the upper five bits of the first
/// byte: 10, 20, 40 and 60 ms for speech, 10 and 20 ms for the mixed modes, and
/// 2.5, 5, 10 and 20 ms for music.
pub open spec fn samples_in_frame(configuration: int) -> int {
    if configuration == 0 || configuration == 4 || configuration == 8 || configuration == 12
        || configuration == 14 || configuration == 18 || configuration == 22 || configuration == 26
        || configuration == 30 {
        480
    } else if configuration == 1 || configuration == 5 || configuration == 9 || configuration == 13
        || configuration == 15 || configuration == 19 || configuration == 23 || configuration == 27
        || configuration == 31 {
        960
    } else if configuration == 2 || configuration == 6 || configuration == 10 {
        1920
    } else if configuration == 3 || configuration == 7 || configuration == 11 {
        2880
    } else if configuration == 16 || configuration == 20 || configuration == 24 || configuration
        == 28 {
        120
    } else {
        240
    }
}

/// The durations of the modes.
pub proof fn durations_of_the_modes(toc: u8)
    ensures
        ({
            let samples = samples_in_frame(toc as int / 8);
            let duration = opus::toc_duration(toc);
            &&& samples == 120 <==> duration == OpusFrameDuration::Ms2_5
            &&& samples == 240 <==> duration == OpusFrameDuration::Ms5
            &&& samples == 480 <==> duration == OpusFrameDuration::Ms10
            &&& samples == 960 <==> duration == OpusFrameDuration::Ms20
            &&& samples == 1920 <==> duration == OpusFrameDuration::Ms40
            &&& samples == 2880 <==> duration == OpusFrameDuration::Ms60
            &&& 24 * duration.half_ms() == samples
        }),
{
}

/// How many frames a packet holds: one, two alike, two of their own lengths, or
/// as many as the low six bits of the second byte say, whose top bit tells
/// whether their lengths differ.
pub proof fn frames_of_a_packet(packet: Seq<u8>)
    ensures
        opus::frame_count(packet) is None <==> packet.len() == 0 || (packet[0] % 4 == 3 && (
        packet.len() == 1 || packet[1] % 64 == 0)),
        packet.len() > 0 && packet[0] % 4 == 0 ==> opus::frame_count(packet) == Some((1u8, false)),
        packet.len() > 0 && packet[0] % 4 == 1 ==> opus::frame_count(packet) == Some((2u8, false)),
        packet.len() > 0 && packet[0] % 4 == 2 ==> opus::frame_count(packet) == Some((2u8, true)),
        packet.len() > 1 && packet[0] % 4 == 3 && packet[1] % 64 > 0 ==> {
            let (count, varies) = opus::frame_count(packet)->0;
            count == packet[1] % 64 && (varies <==> packet[1] / 128 == 1)
        },
{
}

/// The samples of a packet are those of one frame, as often as it has frames.
pub proof fn samples_of_a_packet(packet: Seq<u8>)
    ensures
        packet.len() > 0 && packet[0] % 4 == 0 ==> opus::packet_samples(packet) == Some(
            samples_in_frame(packet[0] as int / 8) as u32,
        ),
        packet.len() > 0 && (packet[0] % 4 == 1 || packet[0] % 4 == 2) ==> opus::packet_samples(
            packet,
        ) == Some((2 * samples_in_frame(packet[0] as int / 8)) as u32),
        packet.len() > 1 && packet[0] % 4 == 3 && packet[1] % 64 > 0 ==> opus::packet_samples(
            packet,
        ) == Some((packet[1] as int % 64 * samples_in_frame(packet[0] as int / 8)) as u32),
        opus::packet_samples(packet) is None <==> packet.len() == 0 || (packet[0] % 4 == 3 && (
        packet.len() == 1 || packet[1] % 64 == 0)),
{
    if packet.len() > 0 {
        durations_of_the_modes(packet[0]);
    }
    frames_of_a_packet(packet);
}

/// The layouts for one to six channels. Every channel has a decoded channel of
/// its own; with three and more, the front pair and the rear pair are coupled,
/// and the centre and the low frequencies are streams of their own.
pub proof fn layouts_of_the_channel_counts(channels: u8)
    ensures
        opus::predefined_layout(channels) is Some <==> 1 <= channels <= 6,
        opus::predefined_layout(channels) matches Some(layout) ==> {
            &&& layout.version == 0
            &&& layout.output_channel_count == channels
            &&& layout.pre_skip == 312
            &&& layout.input_sample_rate == 48000
            &&& layout.output_gain == 0
            &&& channels <= 2 ==> layout.channel_mapping_family == 0 && layout.stream_count is None
                && layout.coupled_count is None && layout.channel_mapping is None
            &&& channels >= 3 ==> layout.channel_mapping_family == 1 && layout.stream_count->0
                + layout.coupled_count->0 == channels && layout.channel_mapping->0.len() == channels
            &&& channels == 3 ==> layout.stream_count == Some(2u8) && layout.coupled_count == Some(
                1u8,
            ) && layout.channel_mapping == Some(seq![0u8, 2, 1])
            &&& channels == 4 ==> layout.stream_count == Some(2u8) && layout.coupled_count == Some(
                2u8,
            ) && layout.channel_mapping == Some(seq![0u8, 1, 2, 3])
            &&& channels == 5 ==> layout.stream_count == Some(3u8) && layout.coupled_count == Some(
                2u8,
            ) && layout.channel_mapping == Some(seq![0u8, 4, 1, 2, 3])
            &&& channels == 6 ==> layout.stream_count == Some(4u8) && layout.coupled_count == Some(
                2u8,
            ) && layout.channel_mapping == Some(seq![0u8, 4, 1, 2, 3, 5])
        },
{
}

proof fn lemma_bad_entry(table: Seq<u8>, decoded: int)
    ensures
        opus::first_bad_entry(table, decoded) is None <==> forall|i: int|
            0 <= i < table.len() ==> (#[trigger] table[i] == 255 || table[i] < decoded),
        opus::first_bad_entry(table, decoded) matches Some(entry) ==> entry != 255 && entry
            >= decoded && table.contains(entry),
    decreases table.len(),
{
    if table.len() > 0 {
        let rest = table.drop_first();
        lemma_bad_entry(rest, decoded);
        if opus::entry_in_range(table[0], decoded) {
            if opus::first_bad_entry(table, decoded) is None {
                assert forall|i: int| 0 <= i < table.len() implies (#[trigger] table[i] == 255
                    || table[i] < decoded) by {
                    if i > 0 {
                        assert(rest[i - 1] == table[i]);
                    }
                }
            } else {
                let entry = opus::first_bad_entry(table, decoded)->0;
                let i = choose|i: int| 0 <= i < rest.len() && rest[i] == entry;
                assert(table[i + 1] == entry);
            }
        } else {
            assert(table[0] != 255 && table[0] >= decoded);
        }
    }
}

/// A layout is in order if and only if its version is 0, it has channels, and
/// either it is of family 0 with one or two channels and nothing more, or it has
/// no more coupled streams than streams and a table with one entry for each
/// channel, each of them 255 or below the sum of the two.
pub proof fn layouts_are_in_order_when_they_must(layout: OpusLayout)
    ensures
        layout.defect() is None <==> {
            &&& layout.version == 0
            &&& layout.output_channel_count >= 1
            &&& layout.channel_mapping_family == 0 ==> layout.output_channel_count <= 2
                && layout.stream_count is None && layout.coupled_count is None
                && layout.channel_mapping is None
            &&& layout.channel_mapping_family >= 1 ==> {
                &&& layout.stream_count is Some
                &&& layout.coupled_count is Some
                &&& layout.channel_mapping is Some
                &&& layout.coupled_count->0 <= layout.stream_count->0
                &&& layout.channel_mapping->0.len() == layout.output_channel_count
                &&& forall|i: int|
                    0 <= i < layout.output_channel_count ==> (
                    #[trigger] layout.channel_mapping->0[i] == 255 || layout.channel_mapping->0[i]
                        < layout.stream_count->0 + layout.coupled_count->0)
            }
        },
{
    if layout.channel_mapping_family >= 1 && layout.stream_count is Some && layout.coupled_count
        is Some && layout.channel_mapping is Some {
        lemma_bad_entry(
            layout.channel_mapping->0,
            layout.stream_count->0 + layout.coupled_count->0,
        );
    }
}

/// What is wrong with a layout is told as it is: the version where it is not
/// 0; else that there are no channels; in family 0 too many channels, else what
/// does not belong there; in the others counts that are missing or do not fit,
/// a table that is missing or has another length, and an entry of the table
/// that leads nowhere.
pub proof fn defects_tell_what_is_wrong(layout: OpusLayout)
    ensures
        layout.defect() matches Some(error) ==> match error {
            OpusConfigError::UnsupportedVersion(v) => v == layout.version && v != 0,
            OpusConfigError::UnsupportedChannelCount(n) => n == 0 && layout.output_channel_count
                == 0 && layout.version == 0,
            OpusConfigError::FamilyZeroTooManyChannels(n) => n == layout.output_channel_count && n
                >= 3 && layout.channel_mapping_family == 0,
            OpusConfigError::FamilyZeroWithMapping => layout.channel_mapping_family == 0 && (
            layout.stream_count is Some || layout.coupled_count is Some
                || layout.channel_mapping is Some),
            OpusConfigError::MissingStreamCounts => layout.channel_mapping_family >= 1 && (
            layout.stream_count is None || layout.coupled_count is None),
            OpusConfigError::CoupledExceedsStreams { streams, coupled } => coupled > streams
                && layout.stream_count == Some(streams) && layout.coupled_count == Some(coupled)
                && layout.channel_mapping_family >= 1,
            OpusConfigError::MissingMapping => layout.channel_mapping is None
                && layout.channel_mapping_family >= 1,
            OpusConfigError::MappingLength { channels, entries } => channels
                == layout.output_channel_count && layout.channel_mapping is Some
                && layout.channel_mapping->0.len() != channels && layout.channel_mapping_family
                >= 1,
            OpusConfigError::MappingEntryOutOfRange { entry, decoded } => entry != 255 && entry
                >= decoded && decoded == layout.stream_count->0 + layout.coupled_count->0
                && layout.channel_mapping is Some && layout.channel_mapping->0.contains(entry)
                && layout.channel_mapping_family >= 1,
        },
{
    if layout.channel_mapping_family >= 1 && layout.stream_count is Some && layout.coupled_count
        is Some && layout.channel_mapping is Some {
        lemma_bad_entry(
            layout.channel_mapping->0,
            layout.stream_count->0 + layout.coupled_count->0,
        );
    }
}

} // verus!
