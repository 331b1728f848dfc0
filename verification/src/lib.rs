//! A local-first personal knowledge base: document text extraction, knowledge-block
//! chunking, evidence-aware search and the workbench rules around them.
pub mod text;
pub mod error;
pub mod models;
pub mod locator;
pub mod chunking;
pub mod search;
pub mod agent;
pub mod runtime;
pub mod reconcile;
pub mod workbench;
pub mod scanner;
pub mod xml;
pub mod sheet;
pub mod pdf;
pub mod archive;
pub mod parser;
pub mod sidecar;
pub mod ocr;
pub mod settings;
pub mod vision;
pub mod jobs;
pub mod vector;
pub mod backup;
pub mod restore;
