//! Verified core of the Geode command-line utilities: version strings,
//! platform naming, colour parsing, resource naming, template and profile
//! bookkeeping, dependency resolution decisions and the resource cache.

pub mod text;
pub mod version;
pub mod platform;
pub mod color;
pub mod naming;
pub mod templates;
pub mod deps;
pub mod order;
pub mod cache;
pub mod paths;
pub mod bundles;
pub mod profiles;
pub mod info;
pub mod commands;
pub mod index;
pub mod sdk;
pub mod fonts;
pub mod glyphs;
pub mod sheets;
pub mod resources;
pub mod devs;
pub mod packaging;
pub mod update;
pub mod install;
pub mod modfile;
pub mod project_build;
pub mod json;
pub mod modinfo;
pub mod auth;
pub mod freshness;
pub mod fnt;
pub mod project_files;
