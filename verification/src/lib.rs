pub mod alias;
pub mod classify;
pub mod config;
pub mod consts;
pub mod deserialization;
pub mod family;
pub mod merge;
pub mod node;
pub mod range;
pub mod strutil;
pub mod table;
pub mod xml;

pub use alias::Alias;
pub use config::{Config, SyncError};
pub use deserialization::{parse_or_default, roster_from_names, synchronize};
pub use family::Family;
pub use node::Node;
pub use range::Range;
pub use table::{unicode_blocks, unicode_scripts};
