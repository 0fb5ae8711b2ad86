//! Verified core of the Nodera desktop workspace: the calendar behind the
//! Today view, keyboard and dialog decisions, the sidebar's visible tree,
//! the graph view's order, edges, drawing, search and colours, note
//! properties and tags, and the counts and labels the views show.

pub mod calendar;
pub mod citations;
pub mod date;
pub mod dialogs;
pub mod editor;
pub mod file_tree;
pub mod files;
pub mod graph;
pub mod graph_colors;
pub mod graph_style;
pub mod keys;
pub mod labels;
pub mod links;
pub mod menus;
pub mod outline;
pub mod properties;
pub mod search;
pub mod settings;
pub mod shortcuts;
pub mod startup;
pub mod symbols;
pub mod text;
pub mod today;
