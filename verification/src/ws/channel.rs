//! The channels of `tokio` and the stream map of `tokio_stream`, as far as
//! the lobby and the registry handle them: they are created, stored, handed
//! on and dropped here, never polled.

use crate::ws::protocol::ClientMessage;
use tokio::sync::mpsc::{Receiver, Sender};
use tokio_stream::wrappers::ReceiverStream;
use tokio_stream::StreamMap;
use vstd::multiset::Multiset;
use vstd::prelude::*;

verus! {

/// `tokio::sync::mpsc::Sender`, carried as an opaque value.
#[verifier::external_type_specification]
#[verifier::external_body]
#[verifier::reject_recursive_types(T)]
pub struct ExSender<T>(tokio::sync::mpsc::Sender<T>);

/// `tokio::sync::mpsc::Receiver`, carried as an opaque value.
#[verifier::external_type_specification]
#[verifier::external_body]
#[verifier::reject_recursive_types(T)]
pub struct ExReceiver<T>(tokio::sync::mpsc::Receiver<T>);

/// `tokio_stream::wrappers::ReceiverStream`, carried as an opaque value.
#[verifier::external_type_specification]
#[verifier::external_body]
#[verifier::reject_recursive_types(T)]
pub struct ExReceiverStream<T>(tokio_stream::wrappers::ReceiverStream<T>);

/// `tokio_stream::StreamMap`: a map from keys to streams.
#[verifier::external_type_specification]
#[verifier::external_body]
#[verifier::reject_recursive_types(K)]
#[verifier::reject_recursive_types(V)]
pub struct ExStreamMap<K, V>(tokio_stream::StreamMap<K, V>);

/// The action streams of a lobby's members, keyed by player.
pub type ActionStreams = StreamMap<String, ReceiverStream<ClientMessage>>;

/// The keys of a stream map's entries, each as often as an entry has it. A
/// stream map does not itself keep a key from occurring twice.
pub uninterp spec fn stream_keys(
    streams: StreamMap<String, ReceiverStream<ClientMessage>>,
) -> Multiset<Seq<char>>;

/// Calls `tokio::sync::mpsc::channel`, which panics on a capacity of zero.
/// Nothing is claimed of the two halves.
#[verifier::external_body]
pub(crate) fn bounded_channel<T>(capacity: u16) -> (halves: (Sender<T>, Receiver<T>))
    requires
        capacity > 0,
{
    tokio::sync::mpsc::channel(capacity as usize)
}

/// Calls `Sender::clone`: one more handle on the same channel. Nothing is
/// claimed of it.
#[verifier::external_body]
pub(crate) fn share_sender<T>(sender: &Sender<T>) -> (shared: Sender<T>) {
    sender.clone()
}

/// Calls `ReceiverStream::new`, which wraps the receiver.
#[verifier::external_body]
pub(crate) fn into_stream(receiver: Receiver<ClientMessage>) -> (stream: ReceiverStream<
    ClientMessage,
>) {
    ReceiverStream::new(receiver)
}

/// Calls `StreamMap::new`: a map without entries.
#[verifier::external_body]
pub(crate) fn new_streams() -> (streams: ActionStreams)
    ensures
        stream_keys(streams) == Multiset::<Seq<char>>::empty(),
{
    StreamMap::new()
}

/// Calls `StreamMap::insert`, which takes out the first entry under an
/// equal key, if there is one, and then adds the new entry: afterwards
/// the keys are the old ones, less one `key` if there was any, and `key`.
#[verifier::external_body]
pub(crate) fn insert_stream(
    streams: &mut ActionStreams,
    key: String,
    stream: ReceiverStream<ClientMessage>,
)
    ensures
        stream_keys(*final(streams)) == stream_keys(*old(streams)).remove(key@).insert(key@),
{
    streams.insert(key, stream);
}

/// Calls `StreamMap::remove`, which takes out the first entry under an
/// equal key, if there is one, and hands back its stream: one `key` fewer
/// among the keys, and `None` exactly if there was none.
#[verifier::external_body]
pub(crate) fn remove_stream(streams: &mut ActionStreams, key: &String) -> (removed: Option<
    ReceiverStream<ClientMessage>,
>)
    ensures
        removed is Some <==> stream_keys(*old(streams)).count(key@) > 0,
        stream_keys(*final(streams)) == stream_keys(*old(streams)).remove(key@),
{
    streams.remove(key)
}

/// Calls `StreamMap::len`: the number of entries.
#[verifier::external_body]
pub(crate) fn count_streams(streams: &ActionStreams) -> (count: usize)
    ensures
        count == stream_keys(*streams).len(),
{
    streams.len()
}

/// Calls `StreamMap::contains_key`: whether some entry has an equal key.
#[verifier::external_body]
pub(crate) fn holds_stream(streams: &ActionStreams, key: &String) -> (held: bool)
    ensures
        held == (stream_keys(*streams).count(key@) > 0),
{
    streams.contains_key(key)
}

} // verus!
