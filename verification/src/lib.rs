//! Backend domain logic of the Ginger Code editor: policies, registries,
//! parsers and state machines, with their behaviour stated as contracts.

pub mod ipc;
pub mod text;
pub mod reconcile;
pub mod diff;
pub mod patch_reread;
pub mod cleanup;
pub mod error;
pub mod compat;
pub mod keybinding;
pub mod clock;
pub mod nameset;
pub mod concurrency;
pub mod locking;
pub mod flags;
pub mod cache;
pub mod events;
pub mod jobs;
pub mod apply;
pub mod environment;
pub mod process;
pub mod review;
pub mod scheduler;
pub mod settings;
pub mod agent_adapter;
pub mod detection;
pub mod progress;
pub mod serialization;
pub mod correlation;
pub mod digest;
pub mod integrity;
pub mod ollama;
pub mod package_plan;
pub mod ginger_config;
pub mod stabilization;
pub mod diagnostics;
pub mod paths;
pub mod path;
pub mod timestamps;
pub mod agent;
pub mod recovery;
pub mod package;
pub mod git;
pub mod editor;
pub mod command_detect;
pub mod recommend;
pub mod search;
pub mod presence;
pub mod action;
pub mod persistence;
pub mod packaging;
pub mod platform;
pub mod atomic;
pub mod language_servers;
pub mod frames;
