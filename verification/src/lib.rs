pub mod app;
pub mod archive;
pub mod assets;
pub mod browse;
pub mod codewalker;
pub mod compose;
pub mod config;
pub mod drafts;
pub mod filesystem;
pub mod hashes;
pub mod helper;
pub mod job_laws;
pub mod jobs;
pub mod launcher;
pub mod layout_laws;
pub mod listing;
pub mod nesting;
pub mod operations;
pub mod order;
pub mod outputs;
pub mod paths;
pub mod preview;
pub mod programs;
pub mod queue;
pub mod saving;
pub mod sections;
pub mod setup;
pub mod staging;
pub mod text;
pub mod textures;
pub mod views;
pub mod workspace;
