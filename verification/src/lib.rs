//! Path translation at the boundary between a WSL distribution and the Windows
//! host, with the request and message rewriting that depends on it.
use vstd::prelude::*;

pub mod desktop_image_media;
pub mod error;
pub mod installed_listing;
pub mod json;
pub mod project_paths;
pub mod rollout_path_cache;
pub mod path_uri;
pub mod sandbox;
pub mod text;
pub mod wsl_paths;
