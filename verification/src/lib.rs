pub mod blocks;
pub mod config;
pub mod dmhy;
pub mod epnum;
pub mod lang;
pub mod linking;
pub mod magnet;
pub mod mikan;
pub mod name;
pub mod notify;
pub mod numbers;
pub mod parser;
pub mod record;
pub mod season;
pub mod split;
pub mod tags;
pub mod text;
