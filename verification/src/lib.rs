//! Minecraft Mods, Easy: installs curated profiles of mods, shaders and resource packs.
pub mod backup;
pub mod cache;
pub mod clock;
pub mod data;
pub mod decimal;
pub mod identify;
pub mod install;
pub mod iris;
pub mod items;
pub mod java;
pub mod json;
pub mod launch;
pub mod launcher_profiles;
pub mod lines;
pub mod loader;
pub mod loader_setup;
pub mod modpack;
pub mod modrinth;
pub mod neoforge;
pub mod options;
pub mod order;
pub mod places;
pub mod priming;
pub mod processes;
pub mod profile;
pub mod server_pack;
pub mod state;
pub mod text;
pub mod updates;
pub mod web;
