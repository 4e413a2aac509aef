//! Decision logic of a desktop shell for Proton Drive.

pub mod captcha;
pub mod claude;
pub mod device;
pub mod downloads;
pub mod json;
pub mod letter_case;
pub mod mcp_server;
pub mod named_map;
pub mod navigation;
pub mod numeral;
pub mod path_text;
pub mod paths;
pub mod percent;
pub mod proton_navigation;
pub mod proxy;
pub mod sync_command;
pub mod sync_file;
pub mod sync_root;
pub mod text;
pub mod trimming;
pub mod web_url;
pub mod workers;
