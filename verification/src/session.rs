//! The bridge session: one owned object holding the execution-engine slot,
//! the client slot and the three resource registries, with every state
//! transition of the bridge's operations.
//!
//! The caller owns the session and passes it to every bridge call; the
//! network work itself (connecting, handshaking, reading and writing) happens
//! outside, between the decision methods of this module. Each method says
//! exactly which part of the session it changes and that it leaves the rest
//! alone.

use std::sync::Arc;
use vstd::prelude::*;

use crate::errors::BridgeError;
use crate::ident::{make_stream_ident, stream_ident};
use crate::registry::Registry;
use vstd::utf8::encode_utf8;

verus! {

broadcast use vstd::slice::group_slice_axioms;

/// A secure stream together with the thread that created it. The secure
/// registry is scoped to the creating thread: a lookup from any other thread
/// behaves as if the identifier were unknown.
pub struct ThreadBound<T> {
    /// The creating thread, as the caller's thread token.
    pub owner: u64,
    /// The held stream.
    pub stream: T,
}

/// Whether a lookup of `id` by the thread `caller` sees an entry of the
/// secure-stream registry `m`.
pub open spec fn tls_visible<T>(
    m: Map<Seq<char>, ThreadBound<T>>,
    id: Seq<char>,
    caller: u64,
) -> bool {
    m.contains_key(id) && m[id].owner == caller
}

/// Whether an identifier generated from `circuit` and `millis`, terminator
/// included, fits a caller buffer of `capacity` bytes.
pub open spec fn ident_fits(circuit: Seq<char>, millis: nat, capacity: nat) -> bool {
    encode_utf8(stream_ident(circuit, millis)).len() + 1 <= capacity
}

/// Relies on `std::sync::Arc::clone`: the returned handle shares the
/// original's allocation, so it holds the very value of the original.
#[verifier::external_body]
fn share<T>(handle: &Arc<T>) -> (r: Arc<T>)
    ensures
        r == *handle,
{
    Arc::clone(handle)
}

/// The state behind every bridge call.
///
/// `R` is the asynchronous execution engine, `C` the bootstrapped network
/// client, `S` a plain byte stream, `T` a secure byte stream. The session
/// only stores and hands out these resources; all work on them is the
/// caller's.
pub struct Session<R, C, S, T> {
    runtime: Option<R>,
    client: Option<Arc<C>>,
    circuits: Registry<Arc<C>>,
    streams: Registry<S>,
    tls_streams: Registry<ThreadBound<T>>,
}

impl<R, C, S, T> Session<R, C, S, T> {
    /// The execution-engine slot.
    pub closed spec fn runtime_slot(&self) -> Option<R> {
        self.runtime
    }

    /// The stored client, if one is stored.
    pub closed spec fn client_handle(&self) -> Option<Arc<C>> {
        self.client
    }

    /// The circuit registry: identifiers mapped to client snapshots.
    pub closed spec fn circuit_map(&self) -> Map<Seq<char>, Arc<C>> {
        self.circuits@
    }

    /// The plain-stream registry.
    pub closed spec fn stream_map(&self) -> Map<Seq<char>, S> {
        self.streams@
    }

    /// The secure-stream registry, entries bound to their creating thread.
    pub closed spec fn tls_map(&self) -> Map<Seq<char>, ThreadBound<T>> {
        self.tls_streams@
    }

    /// Validity of the session: each registry holds unique identifiers.
    pub closed spec fn wf(&self) -> bool {
        self.circuits.wf() && self.streams.wf() && self.tls_streams.wf()
    }

    /// A fresh session: no engine, no client, every registry empty.
    pub fn new() -> (s: Session<R, C, S, T>)
        ensures
            s.wf(),
            s.runtime_slot() is None,
            s.client_handle() is None,
            s.circuit_map() == Map::<Seq<char>, Arc<C>>::empty(),
            s.stream_map() == Map::<Seq<char>, S>::empty(),
            s.tls_map() == Map::<Seq<char>, ThreadBound<T>>::empty(),
    {
        Session {
            runtime: None,
            client: None,
            circuits: Registry::new(),
            streams: Registry::new(),
            tls_streams: Registry::new(),
        }
    }

    /// The shared execution engine, if one was installed.
    pub fn runtime_ref(&self) -> (r: Option<&R>)
        ensures
            match r {
                Some(rt) => self.runtime_slot() matches Some(x) && *rt == x,
                None => self.runtime_slot() is None,
            },
    {
        self.runtime.as_ref()
    }

    /// Install the lazily created execution engine. The engine is created on
    /// first need and reused by every later call.
    pub fn install_runtime(&mut self, rt: R)
        requires
            old(self).wf(),
        ensures
            final(self).wf(),
            final(self).runtime_slot() matches Some(x) && x == rt,
            final(self).client_handle() == old(self).client_handle(),
            final(self).circuit_map() == old(self).circuit_map(),
            final(self).stream_map() == old(self).stream_map(),
            final(self).tls_map() == old(self).tls_map(),
    {
        self.runtime = Some(rt);
    }

    /// Store the bootstrapped client. Installing over a previous client
    /// replaces it; circuits created from the previous client keep their own
    /// snapshot and keep working until destroyed.
    pub fn install_client(&mut self, client: Arc<C>)
        requires
            old(self).wf(),
        ensures
            final(self).wf(),
            final(self).client_handle() == Some(client),
            final(self).runtime_slot() == old(self).runtime_slot(),
            final(self).circuit_map() == old(self).circuit_map(),
            final(self).stream_map() == old(self).stream_map(),
            final(self).tls_map() == old(self).tls_map(),
    {
        self.client = Some(client);
    }

    /// Whether a client is currently stored. No liveness probe is made.
    pub fn is_connected(&self) -> (r: bool)
        ensures
            r == (self.client_handle() is Some),
    {
        self.client.is_some()
    }

    /// Confirm that the stored client is ready. The client bootstraps when it
    /// is created, so this only checks that one is stored.
    pub fn bootstrap_tor(&self) -> (r: Result<(), BridgeError>)
        ensures
            self.client_handle() is Some ==> r == Ok::<(), BridgeError>(()),
            self.client_handle() is None ==> r == Err::<(), BridgeError>(
                BridgeError::NotInitialized,
            ),
    {
        if self.client.is_some() {
            Ok(())
        } else {
            Err(BridgeError::NotInitialized)
        }
    }

    /// Disconnect: drop every circuit snapshot, then the client. Idempotent;
    /// always succeeds. Streams already open are left in their registries.
    pub fn shutdown_tor(&mut self) -> (r: Result<(), BridgeError>)
        requires
            old(self).wf(),
        ensures
            final(self).wf(),
            r == Ok::<(), BridgeError>(()),
            final(self).client_handle() is None,
            final(self).circuit_map() == Map::<Seq<char>, Arc<C>>::empty(),
            final(self).runtime_slot() == old(self).runtime_slot(),
            final(self).stream_map() == old(self).stream_map(),
            final(self).tls_map() == old(self).tls_map(),
    {
        self.circuits.clear();
        self.client = None;
        Ok(())
    }

    /// Create (or overwrite) a circuit: the identifier is mapped to a
    /// snapshot of the stored client. Fails when no client is stored.
    pub fn create_circuit(&mut self, circuit_id: String) -> (r: Result<(), BridgeError>)
        requires
            old(self).wf(),
        ensures
            final(self).wf(),
            old(self).client_handle() is None ==> r == Err::<(), BridgeError>(
                BridgeError::NotInitialized,
            ) && *final(self) == *old(self),
            old(self).client_handle() matches Some(c) ==> r == Ok::<(), BridgeError>(()) && final(self).circuit_map() == old(self).circuit_map().insert(circuit_id@, c),
            final(self).runtime_slot() == old(self).runtime_slot(),
            final(self).client_handle() == old(self).client_handle(),
            final(self).stream_map() == old(self).stream_map(),
            final(self).tls_map() == old(self).tls_map(),
    {
        match self.client.as_ref() {
            Some(client) => {
                let snapshot = share(client);
                self.circuits.insert(circuit_id, snapshot);
                Ok(())
            },
            None => Err(BridgeError::NotInitialized),
        }
    }

    /// Destroy a circuit. Fails when the identifier is unknown.
    pub fn destroy_circuit(&mut self, circuit_id: String) -> (r: Result<(), BridgeError>)
        requires
            old(self).wf(),
        ensures
            final(self).wf(),
            old(self).circuit_map().contains_key(circuit_id@) ==> r == Ok::<(), BridgeError>(())
                && final(self).circuit_map() == old(self).circuit_map().remove(circuit_id@),
            !old(self).circuit_map().contains_key(circuit_id@) ==> r == Err::<(), BridgeError>(
                BridgeError::NotFound,
            ) && final(self).circuit_map() == old(self).circuit_map(),
            final(self).runtime_slot() == old(self).runtime_slot(),
            final(self).client_handle() == old(self).client_handle(),
            final(self).stream_map() == old(self).stream_map(),
            final(self).tls_map() == old(self).tls_map(),
    {
        match self.circuits.remove(&circuit_id) {
            Some(_) => Ok(()),
            None => Err(BridgeError::NotFound),
        }
    }

    /// The client snapshot a circuit holds, if the circuit exists.
    pub fn get_tor_client_by_circuit(&self, circuit_id: &String) -> (r: Option<Arc<C>>)
        requires
            self.wf(),
        ensures
            match r {
                Some(c) => self.circuit_map().contains_key(circuit_id@) && c
                    == self.circuit_map()[circuit_id@],
                None => !self.circuit_map().contains_key(circuit_id@),
            },
    {
        match self.circuits.get(circuit_id) {
            Some(c) => Some(share(c)),
            None => None,
        }
    }

    /// Decide a plain-stream connect: validate the port, generate the stream
    /// identifier from the circuit and the clock reading `millis`, check that
    /// it fits the caller's buffer of `capacity` bytes (terminator included),
    /// and resolve the circuit. Nothing is stored yet: the caller performs
    /// the connect and then stores the stream under the returned identifier,
    /// so on failure no entry and no connection exists.
    pub fn connect_stream_request(
        &self,
        circuit_id: &String,
        port: i32,
        capacity: usize,
        millis: u64,
    ) -> (r: Result<(String, Arc<C>), BridgeError>)
        requires
            self.wf(),
        ensures
            port <= 0 ==> r == Err::<(String, Arc<C>), BridgeError>(BridgeError::InvalidParams),
            port > 0 && !ident_fits(circuit_id@, millis as nat, capacity as nat) ==> r == Err::<
                (String, Arc<C>),
                BridgeError,
            >(BridgeError::BufferTooSmall),
            port > 0 && ident_fits(circuit_id@, millis as nat, capacity as nat) && !self.circuit_map().contains_key(circuit_id@)
                ==> r == Err::<(String, Arc<C>), BridgeError>(BridgeError::NotFound),
            port > 0 && ident_fits(circuit_id@, millis as nat, capacity as nat) && self.circuit_map().contains_key(circuit_id@)
                ==> (r matches Ok(p) && p.0@ == stream_ident(circuit_id@, millis as nat) && p.1
                == self.circuit_map()[circuit_id@]),
    {
        if port <= 0 {
            return Err(BridgeError::InvalidParams);
        }
        let stream_id = make_stream_ident(circuit_id.as_str(), millis);
        let ident_bytes = stream_id.as_str().as_bytes().len();
        if ident_bytes >= capacity {
            return Err(BridgeError::BufferTooSmall);
        }
        match self.get_tor_client_by_circuit(circuit_id) {
            Some(client) => Ok((stream_id, client)),
            None => Err(BridgeError::NotFound),
        }
    }

    /// Store an open plain stream under its identifier, replacing whatever
    /// the registry held there. Used when a connect completes, and to hand a
    /// stream back after reading, writing or flushing on it.
    pub fn store_stream(&mut self, stream_id: String, stream: S)
        requires
            old(self).wf(),
        ensures
            final(self).wf(),
            final(self).stream_map() == old(self).stream_map().insert(stream_id@, stream),
            final(self).runtime_slot() == old(self).runtime_slot(),
            final(self).client_handle() == old(self).client_handle(),
            final(self).circuit_map() == old(self).circuit_map(),
            final(self).tls_map() == old(self).tls_map(),
    {
        self.streams.insert(stream_id, stream);
    }

    /// Whether a plain stream is held under the identifier.
    pub fn has_stream(&self, stream_id: &String) -> (r: bool)
        requires
            self.wf(),
        ensures
            r == self.stream_map().contains_key(stream_id@),
    {
        self.streams.contains(stream_id)
    }

    /// Withdraw a plain stream for one read, write or flush. The caller does
    /// the work on it and stores it back, whether the work succeeded or not;
    /// withdrawing models the exclusive hold the operation keeps on the
    /// stream. Fails when the identifier is unknown.
    pub fn take_stream(&mut self, stream_id: &String) -> (r: Result<S, BridgeError>)
        requires
            old(self).wf(),
        ensures
            final(self).wf(),
            match r {
                Ok(s) => old(self).stream_map().contains_key(stream_id@) && s == old(self).stream_map()[stream_id@] && final(self).stream_map() == old(self).stream_map().remove(stream_id@),
                Err(e) => e == BridgeError::NotFound && !old(self).stream_map().contains_key(
                    stream_id@,
                ) && *final(self) == *old(self),
            },
            final(self).runtime_slot() == old(self).runtime_slot(),
            final(self).client_handle() == old(self).client_handle(),
            final(self).circuit_map() == old(self).circuit_map(),
            final(self).tls_map() == old(self).tls_map(),
    {
        match self.streams.remove(stream_id) {
            Some(s) => Ok(s),
            None => Err(BridgeError::NotFound),
        }
    }

    /// Close a plain stream: remove and drop the entry. Dropping the stream
    /// tears the underlying connection down. Fails when the identifier is
    /// unknown.
    pub fn close_stream(&mut self, stream_id: &String) -> (r: Result<(), BridgeError>)
        requires
            old(self).wf(),
        ensures
            final(self).wf(),
            old(self).stream_map().contains_key(stream_id@) ==> r == Ok::<(), BridgeError>(())
                && final(self).stream_map() == old(self).stream_map().remove(stream_id@),
            !old(self).stream_map().contains_key(stream_id@) ==> r == Err::<(), BridgeError>(
                BridgeError::NotFound,
            ) && final(self).stream_map() == old(self).stream_map(),
            final(self).runtime_slot() == old(self).runtime_slot(),
            final(self).client_handle() == old(self).client_handle(),
            final(self).circuit_map() == old(self).circuit_map(),
            final(self).tls_map() == old(self).tls_map(),
    {
        match self.streams.remove(stream_id) {
            Some(_) => Ok(()),
            None => Err(BridgeError::NotFound),
        }
    }

    /// Decide a secure-stream connect: validate the port range and resolve
    /// the circuit. The caller performs the connect and the handshake, then
    /// stores the stream under the caller-chosen identifier.
    pub fn connect_tls_request(&self, circuit_id: &String, port: i32) -> (r: Result<
        Arc<C>,
        BridgeError,
    >)
        requires
            self.wf(),
        ensures
            (port <= 0 || port > 65535) ==> r == Err::<Arc<C>, BridgeError>(
                BridgeError::InvalidParams,
            ),
            0 < port <= 65535 && !self.circuit_map().contains_key(circuit_id@) ==> r == Err::<
                Arc<C>,
                BridgeError,
            >(BridgeError::NotFound),
            0 < port <= 65535 && self.circuit_map().contains_key(circuit_id@) ==> (r matches Ok(
                c,
            ) && c == self.circuit_map()[circuit_id@]),
    {
        if port <= 0 || port > 65535 {
            return Err(BridgeError::InvalidParams);
        }
        match self.get_tor_client_by_circuit(circuit_id) {
            Some(client) => Ok(client),
            None => Err(BridgeError::NotFound),
        }
    }

    /// Store an open secure stream under its identifier, bound to the thread
    /// token of its creator. Only that thread's lookups will see it.
    pub fn store_tls_stream(&mut self, stream_id: String, owner: u64, stream: T)
        requires
            old(self).wf(),
        ensures
            final(self).wf(),
            final(self).tls_map() == old(self).tls_map().insert(
                stream_id@,
                (ThreadBound { owner, stream }),
            ),
            final(self).runtime_slot() == old(self).runtime_slot(),
            final(self).client_handle() == old(self).client_handle(),
            final(self).circuit_map() == old(self).circuit_map(),
            final(self).stream_map() == old(self).stream_map(),
    {
        self.tls_streams.insert(stream_id, ThreadBound { owner, stream });
    }

    /// Whether a lookup of the identifier by the thread `caller` sees a
    /// secure stream.
    pub fn has_tls_stream(&self, stream_id: &String, caller: u64) -> (r: bool)
        requires
            self.wf(),
        ensures
            r == tls_visible(self.tls_map(), stream_id@, caller),
    {
        match self.tls_streams.get(stream_id) {
            Some(entry) => entry.owner == caller,
            None => false,
        }
    }

    /// Withdraw a secure stream for one read, write or flush by the thread
    /// `caller`. An entry created by any other thread is out of the caller's
    /// scope: the lookup fails as if the identifier were unknown, and the
    /// entry stays. The caller stores a withdrawn stream back afterwards.
    pub fn take_tls_stream(&mut self, stream_id: &String, caller: u64) -> (r: Result<
        T,
        BridgeError,
    >)
        requires
            old(self).wf(),
        ensures
            final(self).wf(),
            match r {
                Ok(t) => tls_visible(old(self).tls_map(), stream_id@, caller) && t == old(self).tls_map()[stream_id@].stream && final(self).tls_map() == old(self).tls_map().remove(stream_id@),
                Err(e) => e == BridgeError::NotFound && !tls_visible(
                    old(self).tls_map(),
                    stream_id@,
                    caller,
                ) && *final(self) == *old(self),
            },
            final(self).runtime_slot() == old(self).runtime_slot(),
            final(self).client_handle() == old(self).client_handle(),
            final(self).circuit_map() == old(self).circuit_map(),
            final(self).stream_map() == old(self).stream_map(),
    {
        let visible = self.has_tls_stream(stream_id, caller);
        if !visible {
            return Err(BridgeError::NotFound);
        }
        match self.tls_streams.remove(stream_id) {
            Some(entry) => Ok(entry.stream),
            None => Err(BridgeError::NotFound),
        }
    }

    /// Close a secure stream: remove and drop the entry, if the identifier is
    /// in the calling thread's scope. Fails as unknown otherwise, as for
    /// [`Self::take_tls_stream`].
    pub fn close_tls_stream(&mut self, stream_id: &String, caller: u64) -> (r: Result<
        (),
        BridgeError,
    >)
        requires
            old(self).wf(),
        ensures
            final(self).wf(),
            tls_visible(old(self).tls_map(), stream_id@, caller) ==> r == Ok::<(), BridgeError>(())
                && final(self).tls_map() == old(self).tls_map().remove(stream_id@),
            !tls_visible(old(self).tls_map(), stream_id@, caller) ==> r == Err::<(), BridgeError>(
                BridgeError::NotFound,
            ) && *final(self) == *old(self),
            final(self).runtime_slot() == old(self).runtime_slot(),
            final(self).client_handle() == old(self).client_handle(),
            final(self).circuit_map() == old(self).circuit_map(),
            final(self).stream_map() == old(self).stream_map(),
    {
        match self.take_tls_stream(stream_id, caller) {
            Ok(_) => Ok(()),
            Err(e) => Err(e),
        }
    }
}

/// Opening a stream and closing it right away leaves the stream registry
/// without that identifier, whatever it held before.
pub proof fn lemma_open_then_close_absent<S>(streams: Map<Seq<char>, S>, id: Seq<char>, stream: S)
    ensures
        !streams.insert(id, stream).remove(id).contains_key(id),
{
}

/// The registry hands a stored stream back exactly as it was stored: bytes
/// later written to and read from it pass through the session untouched.
pub proof fn lemma_stored_stream_returned<S>(streams: Map<Seq<char>, S>, id: Seq<char>, stream: S)
    ensures
        streams.insert(id, stream)[id] == stream,
{
}

/// A secure stream stored by one thread is invisible to lookups by any other
/// thread, even right after the creating call succeeded.
pub proof fn lemma_tls_stream_thread_scoped<T>(
    m: Map<Seq<char>, ThreadBound<T>>,
    id: Seq<char>,
    owner: u64,
    caller: u64,
    stream: T,
)
    requires
        owner != caller,
    ensures
        !tls_visible(m.insert(id, (ThreadBound { owner, stream })), id, caller),
{
}

} // verus!
