pub mod enums;
pub mod event;
pub mod info_hash;
pub mod message;
pub mod rpc_error;

use vstd::prelude::*;
use crate::rencode;
use info_hash::InfoHash;
use rpc_error::RpcError;

verus! {

#[verifier::external_type_specification]
#[verifier::external_body]
pub struct ExIoError(std::io::Error);

#[verifier::external_type_specification]
#[verifier::external_body]
pub struct ExPassThroughHasher(hashers::null::PassThroughHasher);

/// The state of a pass-through hasher: the number that its `finish` gives,
/// which each byte written shifts in from the right.
pub uninterp spec fn pass_through_state(h: hashers::null::PassThroughHasher) -> u64;

/// Calls `<hashers::null::PassThroughHasher as Default>::default`, which the
/// crate defines as the hasher whose state is zero.
#[verifier::external_body]
fn pass_through_hasher() -> (h: hashers::null::PassThroughHasher)
    ensures
        pass_through_state(h) == 0,
{
    hashers::null::PassThroughHasher::default()
}

/// Builds hashers that hand infohashes through unchanged: infohashes are
/// SHA-1 digests, so they are already high-entropy.
#[derive(Default, Clone, Copy, Debug)]
pub struct PassThroughBuildHasher;

impl std::hash::BuildHasher for PassThroughBuildHasher {
    type Hasher = hashers::null::PassThroughHasher;

    fn build_hasher(&self) -> (h: hashers::null::PassThroughHasher)
        ensures
            pass_through_state(h) == 0,
    {
        pass_through_hasher()
    }
}

/// Everything that can go wrong in a session.
#[derive(Debug)]
pub enum Error {
    Network(std::io::Error),
    Rpc(RpcError),
    BadResponse(rencode::error::Error),
    /// A channel between the session and its receiver closed unexpectedly;
    /// the text names the channel.
    ChannelClosed(&'static str),
}

impl Error {
    /// The infohash of a torrent that the daemon refused to add because it
    /// already had it or was already adding it; any other error as it was.
    pub fn ok_if_added(self) -> (r: Result<InfoHash>)
        ensures
            match self {
                Error::Rpc(RpcError::AddTorrent(rpc_error::add_torrent::Error::AlreadyInSession(h))) => r
                    == Ok::<InfoHash, Error>(h),
                Error::Rpc(RpcError::AddTorrent(rpc_error::add_torrent::Error::AlreadyBeingAdded(h))) => r
                    == Ok::<InfoHash, Error>(h),
                Error::Rpc(e) => r == Err::<InfoHash, Error>(Error::Rpc(e)),
                _ => r == Err::<InfoHash, Error>(self),
            },
    {
        match self {
            Error::Rpc(RpcError::AddTorrent(e)) => match e.ok_if_added() {
                Ok(h) => Ok(h),
                Err(e) => Err(Error::Rpc(RpcError::AddTorrent(e))),
            },
            e => Err(e),
        }
    }
}

pub type Result<T> = core::result::Result<T, Error>;

/// A list of values, as the daemon sends them.
pub type List = Vec<rencode::value::Value>;

} // verus!
