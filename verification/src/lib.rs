pub mod batch_laws;
pub mod batches;
pub mod cli;
pub mod cli_laws;
pub mod config;
pub mod config_laws;
pub mod engine;
pub mod engine_laws;
pub mod failure;
pub mod form;
pub mod form_laws;
pub mod git;
pub mod git_laws;
pub mod key_laws;
pub mod keys;
pub mod messages;
pub mod model;
pub mod paint;
pub mod path;
pub mod path_laws;
pub mod plan;
pub mod plan_courses;
pub mod plan_laws;
pub mod process;
pub mod process_laws;
pub mod rows;
pub mod screen;
pub mod screen_laws;
pub mod text;
pub mod text_laws;
pub mod tui;
pub mod tui_laws;
pub mod update_courses;
