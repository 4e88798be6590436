//! A verified core for a static magazine generator.
pub mod cmd;
pub mod code_blocks;
pub mod context;
pub mod data;
pub mod date;
pub mod engine;
pub mod entity;
pub mod error;
pub mod helpers;
pub mod html;
pub mod keyed;
pub mod i18n;
pub mod lint;
pub mod markdown;
pub mod meta;
pub mod mode;
pub mod options;
pub mod parser;
pub mod serve;
pub mod sort;
pub mod text;
