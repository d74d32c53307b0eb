pub mod dispatch;
pub mod encoding;
pub mod frame;
pub mod rencode;
pub mod rpc;
pub mod text;
pub mod types;

pub use rencode::value::Value;
pub use types::enums::{AuthLevel, FilePriority, FilterKey, TorrentState};
pub use types::event::{Event, EventKind};
pub use types::info_hash::InfoHash;
pub use types::message::Message;
pub use types::rpc_error::add_torrent::Error as AddTorrentError;
pub use types::rpc_error::{Dict, GenericError as GenericRpcError, RpcError};
pub use types::{Error, List, PassThroughBuildHasher, Result};
