//! A proxy that speaks the Anthropic, OpenAI and Gemini HTTP dialects in front of
//! Google Cloud Code, and the terminal dashboard that watches it: the decisions, the
//! parsers and the state machines, each with a contract that is proved.

pub mod text;
pub mod json;
pub mod reply;
pub mod errors;
pub mod messages;
pub mod frames;
pub mod chat;
pub mod responses;
pub mod routes;
pub mod counter;
pub mod stats;
pub mod order;
pub mod clock;
pub mod logs;
pub mod usage;
pub mod log_reader;
pub mod provider;
pub mod multipart;
pub mod forms;
pub mod images;
pub mod audio;
pub mod legacy;
pub mod sse;
pub mod serving;
pub mod models;
pub mod gemini;
pub mod log_stream;
pub mod comments;
pub mod setup;
pub mod codex;
pub mod tabs;
pub mod config_editor;
pub mod warnings;
pub mod log_pane;
pub mod config_pane;
pub mod app;
pub mod updates;
pub mod keys;
pub mod mouse;
pub mod spans;
pub mod highlight;
pub mod log_view;
pub mod panels;
pub mod about_view;
pub mod lists;
pub mod mappings_view;
pub mod screen;
pub mod quota_view;
pub mod popups;
