//! Playback core of a multi-output song player.

pub mod audio_align;
pub mod encoder_args;
pub mod engine;
pub mod genlock;
pub mod letterbox;
pub mod pacer_sink;
pub mod pacing_stats;
pub mod pipeline;
pub mod pipeline_audio;
pub mod pipeline_heartbeat;
pub mod pipeline_paced;
pub mod pipeline_types;
pub mod preview;
pub mod preview_audio_hold;
pub mod preview_encoder;
pub mod preview_stream;
pub mod program_bus;
pub mod program_delivery;
pub mod program_laws;
pub mod program_output;
pub mod proc_mem;
pub mod startup_senders;
pub mod state;
pub mod submit_handoff;
pub mod text;
