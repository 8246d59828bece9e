//! Opus packet timing and decoder configuration.
//!
//! Opus always runs on a 48 kHz clock. A packet starts with a TOC byte that
//! gives the duration of its frames and, together with at most one more
//! byte, their number; nothing else is needed to time it. The decoder
//! configuration describes channels, encoder delay and, beyond stereo, the
//! way decoded streams map to output channels.

use vstd::prelude::*;
use vstd::string::StringExecFns;
use crate::text::{self, push_decimal};
use crate::seconds::Seconds;

verus! {

/// Opus sample rate in Hz.
pub const OPUS_SAMPLE_RATE: u32 = 48000;

/// Opus decoder configuration.
#[derive(Debug)]
pub struct OpusConfig {
    /// Configuration version; only 0 is defined.
    pub version: u8,
    /// Number of output channels.
    pub output_channel_count: u8,
    /// Samples to discard at the start.
    pub pre_skip: u16,
    /// Sample rate of the original input, for information only.
    pub input_sample_rate: u32,
    /// Output gain in 1/256 dB.
    pub output_gain: i16,
    /// Channel mapping family: 0 for mono and stereo, 1 for Vorbis order.
    pub channel_mapping_family: u8,
    /// Number of streams, for families other than 0.
    pub stream_count: Option<u8>,
    /// Number of coupled streams, for families other than 0.
    pub coupled_count: Option<u8>,
    /// Channel mapping table, for families other than 0.
    pub channel_mapping: Option<Vec<u8>>,
}

/// The contents of an [`OpusConfig`].
#[verifier::ext_equal]
pub struct OpusLayout {
    pub version: u8,
    pub output_channel_count: u8,
    pub pre_skip: u16,
    pub input_sample_rate: u32,
    pub output_gain: i16,
    pub channel_mapping_family: u8,
    pub stream_count: Option<u8>,
    pub coupled_count: Option<u8>,
    pub channel_mapping: Option<Seq<u8>>,
}

impl View for OpusConfig {
    type V = OpusLayout;

    open spec fn view(&self) -> OpusLayout {
        OpusLayout {
            version: self.version,
            output_channel_count: self.output_channel_count,
            pre_skip: self.pre_skip,
            input_sample_rate: self.input_sample_rate,
            output_gain: self.output_gain,
            channel_mapping_family: self.channel_mapping_family,
            stream_count: self.stream_count,
            coupled_count: self.coupled_count,
            channel_mapping: match self.channel_mapping {
                Some(table) => Some(table@),
                None => None,
            },
        }
    }
}

/// Structural errors of a configuration.
#[derive(Debug, Clone, Copy, PartialEq, Eq, Structural)]
pub enum OpusConfigError {
    /// Only version 0 is defined.
    UnsupportedVersion(u8),
    /// There is no predefined layout for this many channels.
    UnsupportedChannelCount(u8),
    /// Mapping family 0 is mono and stereo only.
    FamilyZeroTooManyChannels(u8),
    /// Mapping family 0 carries neither stream counts nor a table.
    FamilyZeroWithMapping,
    /// Other families carry stream and coupled counts.
    MissingStreamCounts,
    /// More coupled streams than streams.
    CoupledExceedsStreams { streams: u8, coupled: u8 },
    /// Other families carry a mapping table.
    MissingMapping,
    /// The mapping table has one entry per channel.
    MappingLength { channels: u8, entries: usize },
    /// A mapped entry is neither silent (255) nor a decoded channel.
    MappingEntryOutOfRange { entry: u8, decoded: u16 },
}

impl OpusConfigError {
    /// The message text of the error.
    pub open spec fn text(self) -> Seq<char> {
        match self {
            OpusConfigError::UnsupportedVersion(v) => "unsupported Opus dOps version "@ + text::decimal(
                v as int,
            ) + " (only 0 is defined)"@,
            OpusConfigError::UnsupportedChannelCount(n) => "no predefined channel mapping for "@
                + text::decimal(n as int) + " channels (use with_channel_mapping)"@,
            OpusConfigError::FamilyZeroTooManyChannels(
                n,
            ) => "mapping family 0 supports at most 2 channels, got "@ + text::decimal(n as int),
            OpusConfigError::FamilyZeroWithMapping =>
                "mapping family 0 must not carry stream counts or a mapping table"@,
            OpusConfigError::MissingStreamCounts =>
                "mapping family >= 1 requires stream and coupled counts"@,
            OpusConfigError::CoupledExceedsStreams { streams, coupled } => "coupled count "@
                + text::decimal(coupled as int) + " exceeds stream count "@ + text::decimal(streams as int),
            OpusConfigError::MissingMapping =>
                "mapping family >= 1 requires a channel mapping table"@,
            OpusConfigError::MappingLength { channels, entries } => "mapping table has "@ + text::decimal(
                entries as int,
            ) + " entries for "@ + text::decimal(channels as int) + " channels"@,
            OpusConfigError::MappingEntryOutOfRange { entry, decoded } => "mapping entry "@
                + text::decimal(entry as int) + " is outside 0.."@ + text::decimal(decoded as int)
                + " (or 255 for silent)"@,
        }
    }

    /// The error as a message.
    pub fn message(&self) -> (text: String)
        ensures
            text@ == self.text(),
    {
        match *self {
            OpusConfigError::UnsupportedVersion(v) => {
                let mut text = String::from_str("unsupported Opus dOps version ");
                push_decimal(&mut text, v as u64);
                text.append(" (only 0 is defined)");
                text
            },
            OpusConfigError::UnsupportedChannelCount(n) => {
                let mut text = String::from_str("no predefined channel mapping for ");
                push_decimal(&mut text, n as u64);
                text.append(" channels (use with_channel_mapping)");
                text
            },
            OpusConfigError::FamilyZeroTooManyChannels(n) => {
                let mut text = String::from_str(
                    "mapping family 0 supports at most 2 channels, got ",
                );
                push_decimal(&mut text, n as u64);
                text
            },
            OpusConfigError::FamilyZeroWithMapping => String::from_str(
                "mapping family 0 must not carry stream counts or a mapping table",
            ),
            OpusConfigError::MissingStreamCounts => String::from_str(
                "mapping family >= 1 requires stream and coupled counts",
            ),
            OpusConfigError::CoupledExceedsStreams { streams, coupled } => {
                let mut text = String::from_str("coupled count ");
                push_decimal(&mut text, coupled as u64);
                text.append(" exceeds stream count ");
                push_decimal(&mut text, streams as u64);
                text
            },
            OpusConfigError::MissingMapping => String::from_str(
                "mapping family >= 1 requires a channel mapping table",
            ),
            OpusConfigError::MappingLength { channels, entries } => {
                let mut text = String::from_str("mapping table has ");
                push_decimal(&mut text, entries as u64);
                text.append(" entries for ");
                push_decimal(&mut text, channels as u64);
                text.append(" channels");
                text
            },
            OpusConfigError::MappingEntryOutOfRange { entry, decoded } => {
                let mut text = String::from_str("mapping entry ");
                push_decimal(&mut text, entry as u64);
                text.append(" is outside 0..");
                push_decimal(&mut text, decoded as u64);
                text.append(" (or 255 for silent)");
                text
            },
        }
    }
}

/// The configuration of a plain stereo stream with the usual encoder delay.
pub open spec fn default_layout() -> OpusLayout {
    OpusLayout {
        version: 0,
        output_channel_count: 2,
        pre_skip: 312,
        input_sample_rate: 48000,
        output_gain: 0,
        channel_mapping_family: 0,
        stream_count: None,
        coupled_count: None,
        channel_mapping: None,
    }
}

/// The predefined layout for `channels` channels: none and one to two for
/// mapping family 0, three to six in Vorbis order.
pub open spec fn predefined_layout(channels: u8) -> Option<OpusLayout> {
    let base = OpusLayout { output_channel_count: channels, ..default_layout() };
    if channels == 1 || channels == 2 {
        Some(base)
    } else if channels == 3 {
        Some(family_one(base, 2, 1, seq![0u8, 2, 1]))
    } else if channels == 4 {
        Some(family_one(base, 2, 2, seq![0u8, 1, 2, 3]))
    } else if channels == 5 {
        Some(family_one(base, 3, 2, seq![0u8, 4, 1, 2, 3]))
    } else if channels == 6 {
        Some(family_one(base, 4, 2, seq![0u8, 4, 1, 2, 3, 5]))
    } else {
        None
    }
}

/// `base` with an explicit mapping of family 1.
pub open spec fn family_one(
    base: OpusLayout,
    streams: u8,
    coupled: u8,
    table: Seq<u8>,
) -> OpusLayout {
    OpusLayout {
        channel_mapping_family: 1,
        stream_count: Some(streams),
        coupled_count: Some(coupled),
        channel_mapping: Some(table),
        ..base
    }
}

/// Whether a mapping entry is silent or names one of `decoded` channels.
pub open spec fn entry_in_range(entry: u8, decoded: int) -> bool {
    entry == 255 || entry < decoded
}

/// The first entry of `table` that is out of range.
pub open spec fn first_bad_entry(table: Seq<u8>, decoded: int) -> Option<u8>
    decreases table.len(),
{
    if table.len() == 0 {
        None
    } else if !entry_in_range(table[0], decoded) {
        Some(table[0])
    } else {
        first_bad_entry(table.drop_first(), decoded)
    }
}

impl OpusLayout {
    /// What is structurally wrong with the configuration, if anything.
    pub open spec fn defect(self) -> Option<OpusConfigError> {
        if self.version != 0 {
            Some(OpusConfigError::UnsupportedVersion(self.version))
        } else if self.output_channel_count == 0 {
            Some(OpusConfigError::UnsupportedChannelCount(0))
        } else if self.channel_mapping_family == 0 {
            if self.output_channel_count > 2 {
                Some(OpusConfigError::FamilyZeroTooManyChannels(self.output_channel_count))
            } else if self.stream_count is Some || self.coupled_count is Some
                || self.channel_mapping is Some {
                Some(OpusConfigError::FamilyZeroWithMapping)
            } else {
                None
            }
        } else {
            match (self.stream_count, self.coupled_count, self.channel_mapping) {
                (Some(streams), Some(coupled), mapping) => if coupled > streams {
                    Some(OpusConfigError::CoupledExceedsStreams { streams, coupled })
                } else {
                    match mapping {
                        None => Some(OpusConfigError::MissingMapping),
                        Some(table) => mapping_defect(
                            table,
                            self.output_channel_count,
                            (streams + coupled) as u16,
                        ),
                    }
                },
                _ => Some(OpusConfigError::MissingStreamCounts),
            }
        }
    }
}

/// What is wrong with a mapping table for `channels` channels, if anything.
pub open spec fn mapping_defect(table: Seq<u8>, channels: u8, decoded: u16) -> Option<
    OpusConfigError,
> {
    if table.len() != channels {
        Some(OpusConfigError::MappingLength { channels, entries: table.len() as usize })
    } else {
        match first_bad_entry(table, decoded as int) {
            Some(entry) => Some(OpusConfigError::MappingEntryOutOfRange { entry, decoded }),
            None => None,
        }
    }
}

impl Default for OpusConfig {
    fn default() -> (config: Self)
        ensures
            config@ == default_layout(),
    {
        OpusConfig {
            version: 0,
            output_channel_count: 2,
            pre_skip: 312,
            input_sample_rate: 48000,
            output_gain: 0,
            channel_mapping_family: 0,
            stream_count: None,
            coupled_count: None,
            channel_mapping: None,
        }
    }
}

impl Clone for OpusConfig {
    fn clone(&self) -> (copy: Self)
        ensures
            copy@ == self@,
    {
        let channel_mapping = match &self.channel_mapping {
            Some(table) => Some(vstd::slice::slice_to_vec(table.as_slice())),
            None => None,
        };
        OpusConfig {
            version: self.version,
            output_channel_count: self.output_channel_count,
            pre_skip: self.pre_skip,
            input_sample_rate: self.input_sample_rate,
            output_gain: self.output_gain,
            channel_mapping_family: self.channel_mapping_family,
            stream_count: self.stream_count,
            coupled_count: self.coupled_count,
            channel_mapping,
        }
    }
}

impl OpusConfig {
    /// A mono configuration.
    pub fn mono() -> (config: Self)
        ensures
            config@ == (OpusLayout { output_channel_count: 1, ..default_layout() }),
    {
        let mut config = OpusConfig::default();
        config.output_channel_count = 1;
        config
    }

    /// A stereo configuration.
    pub fn stereo() -> (config: Self)
        ensures
            config@ == default_layout(),
    {
        OpusConfig::default()
    }

    /// The configuration with another encoder delay.
    pub fn with_pre_skip(self, pre_skip: u16) -> (config: Self)
        ensures
            config@ == (OpusLayout { pre_skip, ..self@ }),
    {
        let mut config = self;
        config.pre_skip = pre_skip;
        config
    }

    /// The configuration for a channel count: the predefined layout where
    /// there is one, which keeps only the encoder delay of `self`; otherwise
    /// `self` with that count, and family 1 above two channels.
    pub fn with_channels(self, channels: u8) -> (config: Self)
        ensures
            config@ == (match predefined_layout(channels) {
                Some(full) => OpusLayout { pre_skip: self@.pre_skip, ..full },
                None => OpusLayout {
                    output_channel_count: channels,
                    channel_mapping_family: if channels > 2 {
                        1
                    } else {
                        self@.channel_mapping_family
                    },
                    ..self@
                },
            }),
    {
        match OpusConfig::from_channel_count(channels) {
            Ok(full) => full.with_pre_skip(self.pre_skip),
            Err(_) => {
                let mut config = self;
                config.output_channel_count = channels;
                if channels > 2 {
                    config.channel_mapping_family = 1;
                }
                config
            },
        }
    }

    /// Three channels (left, centre, right).
    pub fn three() -> (config: Self)
        ensures
            Some(config@) == predefined_layout(3),
    {
        OpusConfig::family_one(3, 2, 1, vec![0, 2, 1])
    }

    /// Four channels (quadraphonic).
    pub fn quad() -> (config: Self)
        ensures
            Some(config@) == predefined_layout(4),
    {
        OpusConfig::family_one(4, 2, 2, vec![0, 1, 2, 3])
    }

    /// Five channels.
    pub fn five() -> (config: Self)
        ensures
            Some(config@) == predefined_layout(5),
    {
        OpusConfig::family_one(5, 3, 2, vec![0, 4, 1, 2, 3])
    }

    /// Six channels (5.1).
    pub fn surround_51() -> (config: Self)
        ensures
            Some(config@) == predefined_layout(6),
    {
        OpusConfig::family_one(6, 4, 2, vec![0, 4, 1, 2, 3, 5])
    }

    /// A configuration of family 1 with default delay, rate and gain.
    fn family_one(channels: u8, streams: u8, coupled: u8, table: Vec<u8>) -> (config: Self)
        ensures
            config@ == family_one(
                (OpusLayout { output_channel_count: channels, ..default_layout() }),
                streams,
                coupled,
                table@,
            ),
    {
        let mut config = OpusConfig::default();
        config.output_channel_count = channels;
        config.with_channel_mapping(1, streams, coupled, table)
    }

    /// The predefined layout for one to six channels.
    ///
    /// | channels | streams | coupled | mapping |
    /// |----------|---------|---------|---------|
    /// | 1, 2 | family 0 | | |
    /// | 3 | 2 | 1 | `[0, 2, 1]` |
    /// | 4 | 2 | 2 | `[0, 1, 2, 3]` |
    /// | 5 | 3 | 2 | `[0, 4, 1, 2, 3]` |
    /// | 6 | 4 | 2 | `[0, 4, 1, 2, 3, 5]` |
    pub fn from_channel_count(channels: u8) -> (result: Result<Self, OpusConfigError>)
        ensures
            match result {
                Ok(config) => Some(config@) == predefined_layout(channels),
                Err(error) => predefined_layout(channels) is None && error
                    == OpusConfigError::UnsupportedChannelCount(channels),
            },
    {
        match channels {
            1 => Ok(OpusConfig::mono()),
            2 => Ok(OpusConfig::stereo()),
            3 => Ok(OpusConfig::three()),
            4 => Ok(OpusConfig::quad()),
            5 => Ok(OpusConfig::five()),
            6 => Ok(OpusConfig::surround_51()),
            _ => Err(OpusConfigError::UnsupportedChannelCount(channels)),
        }
    }

    /// The configuration with an explicit channel mapping.
    pub fn with_channel_mapping(
        self,
        family: u8,
        stream_count: u8,
        coupled_count: u8,
        mapping: Vec<u8>,
    ) -> (config: Self)
        ensures
            config@ == (OpusLayout {
                channel_mapping_family: family,
                stream_count: Some(stream_count),
                coupled_count: Some(coupled_count),
                channel_mapping: Some(mapping@),
                ..self@
            }),
    {
        let mut config = self;
        config.channel_mapping_family = family;
        config.stream_count = Some(stream_count);
        config.coupled_count = Some(coupled_count);
        config.channel_mapping = Some(mapping);
        config
    }

    /// Checks the structure: version 0; at least one channel; in family 0 at
    /// most two channels and no mapping; in other families stream counts with
    /// no more coupled streams than streams, and one mapping entry per
    /// channel, each silent (255) or below `streams + coupled`.
    pub fn validate(&self) -> (result: Result<(), OpusConfigError>)
        ensures
            match result {
                Ok(_) => self@.defect() is None,
                Err(error) => self@.defect() == Some(error),
            },
    {
        if self.version != 0 {
            return Err(OpusConfigError::UnsupportedVersion(self.version));
        }
        if self.output_channel_count == 0 {
            return Err(OpusConfigError::UnsupportedChannelCount(0));
        }
        if self.channel_mapping_family == 0 {
            if self.output_channel_count > 2 {
                return Err(
                    OpusConfigError::FamilyZeroTooManyChannels(self.output_channel_count),
                );
            }
            if self.stream_count.is_some() || self.coupled_count.is_some()
                || self.channel_mapping.is_some() {
                return Err(OpusConfigError::FamilyZeroWithMapping);
            }
            return Ok(());
        }
        let streams: u8 = match self.stream_count {
            Some(streams) => streams,
            None => return Err(OpusConfigError::MissingStreamCounts),
        };
        let coupled: u8 = match self.coupled_count {
            Some(coupled) => coupled,
            None => return Err(OpusConfigError::MissingStreamCounts),
        };
        if coupled > streams {
            return Err(OpusConfigError::CoupledExceedsStreams { streams, coupled });
        }
        let mapping = match &self.channel_mapping {
            Some(mapping) => mapping,
            None => return Err(OpusConfigError::MissingMapping),
        };
        if mapping.len() != self.output_channel_count as usize {
            return Err(
                OpusConfigError::MappingLength {
                    channels: self.output_channel_count,
                    entries: mapping.len(),
                },
            );
        }
        let decoded: u16 = streams as u16 + coupled as u16;
        let mut i: usize = 0;
        assert(mapping@.skip(0) =~= mapping@);
        while i < mapping.len()
            invariant
                i <= mapping@.len(),
                first_bad_entry(mapping@, decoded as int) == first_bad_entry(
                    mapping@.skip(i as int),
                    decoded as int,
                ),
                mapping@.len() == self.output_channel_count,
                self@.defect() == mapping_defect(mapping@, self.output_channel_count, decoded),
            decreases mapping@.len() - i,
        {
            let entry: u8 = mapping[i];
            if entry != 255 && entry as u16 >= decoded {
                return Err(OpusConfigError::MappingEntryOutOfRange { entry, decoded });
            }
            assert(mapping@.skip(i as int).drop_first() =~= mapping@.skip(i + 1));
            i += 1;
        }
        Ok(())
    }
}

/// Every predefined layout is structurally valid.
pub proof fn predefined_layouts_are_valid(channels: u8)
    ensures
        predefined_layout(channels) matches Some(layout) ==> layout.defect() is None,
        predefined_layout(channels) is Some <==> 1 <= channels <= 6,
{
    reveal_with_fuel(first_bad_entry, 7);
}

/// A valid configuration has exactly one in-range mapping entry per channel,
/// or is mono or stereo without a mapping.
pub proof fn valid_layout_maps_every_channel(layout: OpusLayout)
    requires
        layout.defect() is None,
    ensures
        layout.output_channel_count > 0,
        layout.channel_mapping_family == 0 ==> layout.output_channel_count <= 2
            && layout.channel_mapping is None,
        layout.channel_mapping_family != 0 ==> {
            &&& layout.stream_count is Some
            &&& layout.coupled_count is Some
            &&& layout.channel_mapping is Some
            &&& layout.channel_mapping->0.len() == layout.output_channel_count
            &&& forall|i: int|
                0 <= i < layout.output_channel_count ==> entry_in_range(
                    #[trigger] layout.channel_mapping->0[i],
                    layout.stream_count->0 + layout.coupled_count->0,
                )
        },
{
    if layout.channel_mapping_family != 0 {
        lemma_no_bad_entry(
            layout.channel_mapping->0,
            layout.stream_count->0 + layout.coupled_count->0,
        );
    }
}

proof fn lemma_no_bad_entry(table: Seq<u8>, decoded: int)
    requires
        first_bad_entry(table, decoded) is None,
    ensures
        forall|i: int| 0 <= i < table.len() ==> entry_in_range(#[trigger] table[i], decoded),
    decreases table.len(),
{
    if table.len() > 0 {
        lemma_no_bad_entry(table.drop_first(), decoded);
        assert forall|i: int| 0 <= i < table.len() implies entry_in_range(
            #[trigger] table[i],
            decoded,
        ) by {
            if i > 0 {
                assert(table[i] == table.drop_first()[i - 1]);
            }
        }
    }
}

/// Duration of one Opus frame.
#[derive(Debug, Clone, Copy, PartialEq, Eq, Structural)]
pub enum OpusFrameDuration {
    /// 2.5 ms.
    Ms2_5,
    /// 5 ms.
    Ms5,
    /// 10 ms.
    Ms10,
    /// 20 ms.
    Ms20,
    /// 40 ms.
    Ms40,
    /// 60 ms.
    Ms60,
}

impl OpusFrameDuration {
    /// Twice the duration in milliseconds.
    pub open spec fn half_ms(self) -> int {
        match self {
            OpusFrameDuration::Ms2_5 => 5,
            OpusFrameDuration::Ms5 => 10,
            OpusFrameDuration::Ms10 => 20,
            OpusFrameDuration::Ms20 => 40,
            OpusFrameDuration::Ms40 => 80,
            OpusFrameDuration::Ms60 => 120,
        }
    }

    /// The duration in 48 kHz samples.
    pub fn samples(self) -> (samples: u32)
        ensures
            samples == self.half_ms() * OPUS_SAMPLE_RATE / 2000,
            120 <= samples <= 2880,
    {
        match self {
            OpusFrameDuration::Ms2_5 => 120,
            OpusFrameDuration::Ms5 => 240,
            OpusFrameDuration::Ms10 => 480,
            OpusFrameDuration::Ms20 => 960,
            OpusFrameDuration::Ms40 => 1920,
            OpusFrameDuration::Ms60 => 2880,
        }
    }

    /// The duration in seconds.
    pub fn seconds(self) -> (time: Seconds)
        ensures
            time == Seconds::of_ratio(24 * self.half_ms(), 48_000),
    {
        Seconds::from_count(self.samples() as u64, 48_000)
    }
}

/// The frame duration that a TOC byte announces: its upper five bits select
/// SILK (0 to 11), hybrid (12 to 15) or CELT (16 to 31) and, within those,
/// the duration.
pub open spec fn toc_duration(toc: u8) -> OpusFrameDuration {
    let config = toc as int / 8;
    if config < 12 {
        if config % 4 == 0 {
            OpusFrameDuration::Ms10
        } else if config % 4 == 1 {
            OpusFrameDuration::Ms20
        } else if config % 4 == 2 {
            OpusFrameDuration::Ms40
        } else {
            OpusFrameDuration::Ms60
        }
    } else if config < 16 {
        if config % 2 == 0 {
            OpusFrameDuration::Ms10
        } else {
            OpusFrameDuration::Ms20
        }
    } else {
        if config % 4 == 0 {
            OpusFrameDuration::Ms2_5
        } else if config % 4 == 1 {
            OpusFrameDuration::Ms5
        } else if config % 4 == 2 {
            OpusFrameDuration::Ms10
        } else {
            OpusFrameDuration::Ms20
        }
    }
}

/// The number of frames of a packet and whether their sizes vary: the low
/// two bits of the TOC byte say one frame, two equal, two of any size, or a
/// count in the second byte (six bits, not zero, with the top bit for
/// variable sizes).
pub open spec fn frame_count(packet: Seq<u8>) -> Option<(u8, bool)> {
    if packet.len() == 0 {
        None
    } else if packet[0] % 4 == 0 {
        Some((1u8, false))
    } else if packet[0] % 4 == 1 {
        Some((2u8, false))
    } else if packet[0] % 4 == 2 {
        Some((2u8, true))
    } else if packet.len() < 2 || packet[1] % 64 == 0 {
        None
    } else {
        Some((packet[1] % 64, packet[1] >= 128))
    }
}

/// The duration of a packet in 48 kHz samples, where its header gives one.
pub open spec fn packet_samples(packet: Seq<u8>) -> Option<u32> {
    match frame_count(packet) {
        Some((count, _)) => Some(
            (count * (toc_duration(packet[0]).half_ms() * OPUS_SAMPLE_RATE / 2000)) as u32,
        ),
        None => None,
    }
}

/// A packet with a decodable header lasts from 120 samples (one 2.5 ms frame)
/// to 63 frames of 60 ms.
pub proof fn packet_samples_bounds(packet: Seq<u8>)
    ensures
        packet_samples(packet) matches Some(samples) ==> packet.len() > 0 && 120 <= samples
            <= 181440,
{
    if let Some((count, _)) = frame_count(packet) {
        let each = toc_duration(packet[0]).half_ms() * OPUS_SAMPLE_RATE / 2000;
        assert(120 <= each <= 2880);
        assert(1 <= count <= 63);
        assert(120 <= count * each <= 63 * 2880) by (nonlinear_arith)
            requires
                120 <= each <= 2880,
                1 <= count <= 63,
        ;
    }
}

/// The frame duration that a TOC byte announces. Every byte announces one.
pub fn opus_frame_duration_from_toc(toc: u8) -> (duration: Option<OpusFrameDuration>)
    ensures
        duration == Some(toc_duration(toc)),
{
    let config: u8 = toc / 8;
    if config < 12 {
        match config % 4 {
            0 => Some(OpusFrameDuration::Ms10),
            1 => Some(OpusFrameDuration::Ms20),
            2 => Some(OpusFrameDuration::Ms40),
            _ => Some(OpusFrameDuration::Ms60),
        }
    } else if config < 16 {
        match config % 2 {
            0 => Some(OpusFrameDuration::Ms10),
            _ => Some(OpusFrameDuration::Ms20),
        }
    } else {
        match config % 4 {
            0 => Some(OpusFrameDuration::Ms2_5),
            1 => Some(OpusFrameDuration::Ms5),
            2 => Some(OpusFrameDuration::Ms10),
            _ => Some(OpusFrameDuration::Ms20),
        }
    }
}

/// The number of frames of a packet and whether their sizes vary.
pub fn opus_frame_count(packet: &[u8]) -> (count: Option<(u8, bool)>)
    ensures
        count == frame_count(packet@),
{
    if packet.len() == 0 {
        return None;
    }
    match packet[0] % 4 {
        0 => Some((1, false)),
        1 => Some((2, false)),
        2 => Some((2, true)),
        _ => {
            if packet.len() < 2 {
                return None;
            }
            let second: u8 = packet[1];
            let count: u8 = second % 64;
            if count == 0 {
                return None;
            }
            Some((count, second >= 128))
        },
    }
}

/// The duration of a packet in 48 kHz samples.
pub fn opus_packet_samples(packet: &[u8]) -> (samples: Option<u32>)
    ensures
        samples == packet_samples(packet@),
{
    if packet.len() == 0 {
        return None;
    }
    let duration = match opus_frame_duration_from_toc(packet[0]) {
        Some(duration) => duration,
        None => return None,
    };
    match opus_frame_count(packet) {
        Some((count, _)) => {
            let each: u32 = duration.samples();
            assert(count * each <= 63 * 2880) by (nonlinear_arith)
                requires
                    each <= 2880,
                    count <= 63,
            ;
            Some(count as u32 * each)
        },
        None => None,
    }
}

/// Whether the header of a packet can be decoded.
pub fn is_valid_opus_packet(packet: &[u8]) -> (valid: bool)
    ensures
        valid == packet_samples(packet@) is Some,
{
    opus_packet_samples(packet).is_some()
}

} // verus!
