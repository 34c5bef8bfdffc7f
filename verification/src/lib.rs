//! Verified core of an audio source separator: the index arithmetic, the
//! planning and the decisions around decoding, resampling, spectral
//! framing, model inference chunking, model lookup and the separation
//! pipeline. Sample values are carried through generically; the numeric
//! signal processing itself lives with the application.
pub mod text;
pub mod stage;
pub mod i18n;
pub mod audio_io;
pub mod resample_plan;
pub mod spectral;
pub mod inference_plan;
pub mod model_lookup;
pub mod pipeline;
pub mod runtime_locate;
pub mod paths;
pub mod gui_state;
