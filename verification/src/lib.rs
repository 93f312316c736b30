//! The logic of the WallCraft wallpaper manager: file and directory naming,
//! the wallpaper library index, transcoding plans, the local media server's
//! request handling and the settings model.
pub mod text;
pub mod paths;
pub mod external;
pub mod names;
pub mod media;
pub mod layout;
pub mod models;
pub mod transcode;
pub mod order;
pub mod index;
pub mod scan;
pub mod http;
pub mod policy;
pub mod thumbs;
pub mod probe;
pub mod database;
