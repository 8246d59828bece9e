# muxfin

A library that muxes encoded audio and video, with every function proved
against its contract by Verus.

- `api`: the builder and the muxers, with the rules they apply to samples.
- `muxer`: the writers behind them: Matroska and WebM, Ogg Opus, native FLAC,
  and the seekable MP4 stream.
- `demux`: readers of Ogg Opus and native FLAC.
- `codec`: Opus, FLAC, VP9, ASS, and the split of a byte stream into access
  units.
- `cmaf`, `fragmented`, `handle`: profiles, fragment settings and the rules of
  the C interface.
- `tool`: the decisions of the command line tool.
- `seconds`, `decimals`, `time`, `wire`, `crc`, `polynomial`, `text`: times,
  integers, bytes, checksums and strings.

Contracts speak of sequences, integers and spec functions of the module that
holds the function. Times in seconds are 64-bit floating-point numbers in
memory; `seconds` gives their arithmetic over integers, rounding included.
Each public proof function states a property of the library as a whole: that a
written Ogg or FLAC file demuxes to what was muxed, that a seek point leads to
the cluster of its block, that ticks survive the way through seconds.

What Matroska elements look like in bytes is stated in `muxer/ebml.rs`, next
to the calls of `mkv-element` that write them. These calls, and those listed
with `external_body` or `assume_specification` elsewhere, are what the proofs
rest on.

`app` holds the command line tool and the C and WebAssembly entry points. They
read options, files and pointers, call the library, and write what it returns.
