//! Core engine of a multi-language runtime version manager: version-spec
//! parsing, layered toolset merging, config-file discovery, version
//! resolution against plugin catalogs, and plugin lifecycle decisions.
pub mod commands;
pub mod discovery;
pub mod errors;
pub mod index_map;
pub mod plugin;
pub mod resolver;
pub mod runtime_arg;
pub mod strutil;
pub mod tool_source;
pub mod tool_version;
pub mod tool_version_list;
pub mod tool_versions_file;
pub mod toolset;
