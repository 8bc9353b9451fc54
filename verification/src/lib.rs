pub mod text;
pub mod view;
pub mod timefmt;
pub mod framing;
pub mod config;
pub mod client;
pub mod data;
pub mod escape;
pub mod state;
pub mod entry;
pub mod sorted;
pub mod scenario;
pub mod span;
pub mod json;
pub mod pulse;
pub mod level;
pub mod decode;
pub mod numfmt;
pub mod topic;
pub mod lens_pin;
pub mod export;
pub mod fbb;
