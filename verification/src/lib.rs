//! Decisions of the Entangled desktop manager and of its virtual machine host,
//! as verified functions on plain values.
pub mod actions;
pub mod app;
pub mod backend;
pub mod cards;
pub mod console;
pub mod diagnose;
pub mod dialogs;
pub mod discovery;
pub mod disk;
pub mod editor;
pub mod forms;
pub mod host;
pub mod hostcheck;
pub mod installing;
pub mod launcher;
pub mod launching;
pub mod laws;
pub mod metrics;
pub mod mock;
pub mod mocking;
pub mod moving;
pub mod paths;
pub mod picker;
pub mod process;
pub mod profile;
pub mod run_vm;
pub mod settings;
pub mod snapshots;
pub mod sorting;
pub mod startup;
pub mod state;
pub mod storage;
pub mod surfaces;
pub mod table;
pub mod text;
pub mod update;
pub mod wording;
pub mod wslengine;
