//! Plugin scaffolding logic for ts-native projects: type inference for FFI
//! signatures, detection of plugin APIs in TypeScript call sites, grouping of
//! declared FFI functions into plugins, and the text of every generated file.

pub mod text;
pub mod files;
pub mod scaffold;
pub mod declarations;
pub mod grouping;
pub mod detect;
pub mod codegen;
pub mod prepare;
pub mod publish;
pub mod upload;
