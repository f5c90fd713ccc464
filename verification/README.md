# wedeo

A media framework in Rust whose logic is verified with Verus: the functions in
`src/` have contracts, and Verus proves them. Whether a buffer is the only one
on its storage (`Buffer::is_writable`) depends on the rest of the program, so
nothing is stated of that.

## Layout

- `src/common/`: values that everything shares. Rational numbers and rescaling,
  byte buffers, packets, frames, channel layouts, formats and their names,
  metadata, and numbers as text.
- `src/codec/`: what codecs are described, opened and chosen by; their options;
  Exponential-Golomb codes.
- `src/format/`: buffered reading and writing, numbers as bytes, the choice of
  a container format or a protocol, and open files.
- `src/filter/`: filters and graphs of filters.
- `src/scale.rs`: conversion between pixel formats.
- `src/resample.rs`: the pieces in which audio is resampled.
- `src/vp9/`: the VP9 decoder, from the bits of a frame header to the filtered
  picture. The statistical tables of the format (default coefficient
  probabilities, token probabilities, key frame probabilities, scans and
  interpolation filters) are given to the decoder as a value of
  `vp9::data::Tables`.
- `app/`: files, registries and the floating-point resampling engine around the
  library. It is ordinary Rust.
- `tests/`: tests of the compiled library.

## How contracts are written

A type with an inner state has a view: a `Seq`, or a struct of sequences and
numbers. Contracts speak of views. A function that reads symbols from a stream
is stated by a spec function from the state of the reader to the value and the
state behind it; the executable function is proved to compute that value and to
leave that state. Public proof functions whose names begin with `law_` state
what holds across functions.

## What is trusted

Calls into other crates stand behind small functions whose contracts Verus
takes as given; each says in its doc comment what it claims.

- `common::buffer`: `aligned_vec::AVec`, and the reference counting of
  `std::sync::Arc`.
- `codec::bitstream`: the big-endian reader of `av_bitstream`.
- `scale`: `get_buffers_size` and `convert_image` of `dcv_color_primitives`.

The traits `IoContext`, `Demuxer` and `Muxer` are there for users to implement.
An `IoContext` keeps, in its spec function `calls`, every call made of it with
its answer, and the contracts of `BufferedIo` are stated over these calls; a
`Demuxer` or `Muxer` states a relation for each of its operations. Of an
implementation that Verus does not see, these contracts are taken as given.
