//! The verified core of a video translator.
pub mod asr;
pub mod audio_post_process;
pub mod batch;
pub mod cfm_decoder;
pub mod checkpoint;
pub mod clock;
pub mod cloning;
pub mod config;
pub mod config_validation;
pub mod diarization;
pub mod dpo;
pub mod error;
pub mod g2pw;
pub mod gender_detect;
pub mod golden_master;
pub mod ieee;
pub mod json;
pub mod meanflow_design;
pub mod media;
pub mod order;
pub mod pinyin_tables;
pub mod segment;
pub mod text;
