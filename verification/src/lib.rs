//! Core logic of a multi-repository Git source-control panel: commit-graph
//! lane layout, branch segmentation and collapsing, graph search, remote URL
//! handling, repository list and dialog state, and small text utilities.
pub mod text;
pub mod oid;
pub mod graph;
pub mod segments;
pub mod remote;
pub mod paths;
pub mod status;
pub mod config;
pub mod repo;
pub mod ui;
pub mod input;
pub mod dialogs;
pub mod render;
pub mod view;
pub mod graph_view;
pub mod menu;
pub mod helpers;
pub mod sort;
pub mod file_list;
pub mod control;
pub mod routing;
pub mod refs;
pub mod rows;
pub mod laws;
