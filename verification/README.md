# lightbox-render

The decision core of a photo develop engine, written in Verus: geometry and
tiling, pixel buffers, the develop nodes and how a recipe becomes a chain of
them, parameter blocks, node registration, latest-wins render scheduling, the
canvas and histogram rings, and device-loss recovery.

- `src/` is the verified library. A function's contract states what it returns.
  Where a clock or an embedder's look resolver decides, the contract states what
  it is asked and what is done with its answer. Functions named `law_*` state what
  holds of several functions together.
- `app/` is ordinary Rust around it: floating-point pixel math, GPU dispatch,
  the scheduler's thread and the serialized forms.
- `tests/` runs the library on concrete values.

The library computes no floating point. Numbers of that kind travel through it
as their bit patterns (`ieee::Single`, `ieee::Double`); what it needs to have
computed from them is handed to it ready-made (`nodes::global::node::Prepared`).
Colour science and the plane filters come from the embedding engine, through
`app/math.rs`, and so does the source of every GPU kernel.

## Trusted

- `node::blake3_hash`: BLAKE3 of a byte string, named and not described.
- `String::push`: appends a character.
- `std::time::Instant`: an opaque clock reading; nothing is claimed of it.
