use vstd::prelude::*;

pub mod annexb;
pub mod capture;
pub mod bridge;
pub mod capture_limits;
pub mod capture_status;
pub mod codec_constraints;
pub mod compaction;
pub mod convert;
pub mod decoded;
pub mod device;
pub mod dmabuf_layout;
pub mod encoder;
pub mod format;
pub mod frame;
pub mod h264_bitstream;
pub mod h265_bitstream;
pub mod ordering;
pub mod pacer;
pub mod pipeline;
pub mod planes;
pub mod registry;
pub mod self_check;
pub mod signal;
pub mod text;
pub mod windows;
pub mod stream_manager;
pub mod h264_pipeline;
pub mod shared_pipeline;
pub mod mediacodec;
pub mod jpeg;
pub mod encoder_selection;
