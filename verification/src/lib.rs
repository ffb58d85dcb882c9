//! Reading, checking and drawing CABIDL architecture documents, installing
//! the cabidl skill for AI assistants, and creating projects from
//! templates.
pub mod text;
pub mod path;
pub mod markdown;
pub mod yaml;
pub mod model;
pub mod parser;
pub mod document;
pub mod filesystem;
pub mod resolver;
pub mod parser_impl;
pub mod diagram_provider;
pub mod graphviz;
pub mod graphviz_nodes;
pub mod mermaid;
pub mod diagram;
pub mod diagram_output;
pub mod assistant;
pub mod init;
pub mod listing;
pub mod simple_ls;
