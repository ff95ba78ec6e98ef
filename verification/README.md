# photo

The verified core of a photo viewer and editor, written in Verus.

`src/` is the library. Every function in it carries a contract, and Verus
proves each one, except the trusted wrappers described further down. It
covers the collection store, directory navigation and natural ordering,
the library file, the command-line and harness-client argument parsers, the
on-disk formats of the decoded-image cache and the baked local-edit cache,
the load and repair decisions around them, the session image cache, the
bake and cache-warm queues, run ids and UTC time stamps, the harness
channel's own answers, request step and control list, the integer side of
the pixel statistics, and the key bindings and gestures of the viewer.
Public proof functions named `law_*` state the properties that hold across
calls (round trips, invariants kept by every operation, orderings).

Decoding image bytes happens in `src/raster.rs`: the choice of decoder by
extension, raster images through `image`, and JPEG thumbnails through
`jpeg-decoder` with the conversion of their samples to RGBA.

Calls into outside crates (`natord`, `image`, `jpeg-decoder`, `quick-xml`,
`serde_json`, std's hasher and clock) are made from small wrapper functions
whose contracts are trusted; each names the outside function it wraps.

`app/` is the unverified program around the library: reading and writing
files, the RAW (`rawler`), SVG (`resvg`) and EXIF (`kamadak-exif`) readers,
serialization with `serde`, and floating-point image arithmetic (resizing
and the float statistics). It passes plain values to the library and acts
on what comes back.

`tests/` exercises the library through its public interface.
