use vstd::prelude::*;

pub mod app_notifications;
pub mod asr_models;
pub mod audio_convert;
pub mod commands;
pub mod config;
pub mod context_capture;
pub mod context_inference;
pub mod context_manifest;
pub mod context_recorder;
pub mod context_records;
pub mod corrector_cmd;
pub mod corrector_probe;
pub mod corrector_svc;
pub mod detection_stats;
pub mod dictation;
pub mod dictation_phase;
pub mod dictation_retry;
pub mod dictation_run;
pub mod edit_attribution;
pub mod edit_learning_runtime;
pub mod engine;
pub mod headless;
pub mod hotkey;
pub mod hotkey_validate;
pub mod inject_cmd;
pub mod learning;
pub mod meeting_apps;
pub mod meeting_asr;
pub mod meeting_output;
pub mod meeting_process;
pub mod model_message;
pub mod order;
pub mod outside;
pub mod paths;
pub mod pipeline;
pub mod platform;
pub mod runtime;
pub mod session_artifacts;
pub mod text;

verus! {

} // verus!
