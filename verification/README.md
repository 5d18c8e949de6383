# kvm_video

The video core of a KVM-over-IP device: capture from V4L2 devices and CSI/HDMI
bridges, pixel-format conversion, H.264/H.265 bitstream handling, encoder
selection with hardware preferred and software as the fallback, and the
decisions of the shared capture-and-encode pipeline.

## Layout

- `src/` is the library, verified with Verus. Each function states in its
  contract what it returns or changes; laws that relate several functions
  are public proof functions (`lemma_*`).
  - Bitstreams: `annexb`, `h264_bitstream`, `h265_bitstream`, `pipeline`.
  - Pixel data: `format`, `convert`, `planes`, `decoded`, `compaction`,
    `dmabuf_layout`, `frame`, `jpeg`.
  - Encoders: `encoder`, `registry`, `encoder_selection`, `codec_constraints`,
    `self_check`.
  - Capture: `capture`, `capture_status`, `capture_limits`, `signal`,
    `bridge`, `device`, `windows`.
  - Pipelines and streaming: `shared_pipeline`, `h264_pipeline`,
    `stream_manager`, `pacer`, `mediacodec`, `ordering`.
  - Strings: `text`.
- `app/` is ordinary Rust around the library: device I/O, threads, clocks,
  the async runtime and the libyuv calls. Its loops perform the library's
  step functions (state and event in, next state and action out).
- `tests/` runs the library on concrete values.

The hardware encoders themselves (an FFmpeg wrapper) are not part of this
crate; the library decides which encoder to use, how frames reach it and what
becomes of its output.
