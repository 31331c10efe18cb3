//! The handler that is configured once, and the worker that serves from it.

use crate::address::{format_address, socket_address};
use crate::listener::{Listener, ListenerModel};
use crate::session::{Session, SessionModel};
use crate::std_support::share_records;
use std::sync::Arc;
use vstd::prelude::*;

verus! {

/// What a service is set up with, as a mathematical value: the address it
/// binds, the pause after each record in milliseconds, and the records.
pub struct Configuration {
    pub address: Seq<char>,
    pub interval: nat,
    pub records: Seq<Seq<char>>,
}

/// The broadcaster as it is configured: where to listen, how long to pause,
/// and what to send.
pub struct WebSocketHandler {
    addr: String,
    frequency: u32,
    mock_data: Arc<Vec<String>>,
}

/// The worker that a handler serves through. It shares the handler's records
/// and gives the listener and every session their first state.
pub struct WebSocketHandlerWorker {
    addr: String,
    frequency: u32,
    mock_data: Arc<Vec<String>>,
}

impl View for WebSocketHandler {
    type V = Configuration;

    closed spec fn view(&self) -> Configuration {
        Configuration {
            address: self.addr@,
            interval: self.frequency as nat,
            records: self.mock_data.deep_view(),
        }
    }
}

impl View for WebSocketHandlerWorker {
    type V = Configuration;

    closed spec fn view(&self) -> Configuration {
        Configuration {
            address: self.addr@,
            interval: self.frequency as nat,
            records: self.mock_data.deep_view(),
        }
    }
}

impl WebSocketHandler {
    /// A handler that listens at `host:port` and sends each client the
    /// records of `mock_data`, in their order, pausing `frequency`
    /// milliseconds after each.
    pub fn new(host: &str, port: u32, frequency: u32, mock_data: Vec<String>) -> (handler:
        WebSocketHandler)
        ensures
            handler@ == (Configuration {
                address: socket_address(host@, port as nat),
                interval: frequency as nat,
                records: mock_data.deep_view(),
            }),
    {
        let addr = format_address(host, port);
        WebSocketHandler { addr, frequency, mock_data: Arc::new(mock_data) }
    }

    /// The worker for this handler. It is configured as the handler is and
    /// shares its records; the handler stays as it was.
    pub fn init(&self) -> (worker: WebSocketHandlerWorker)
        ensures
            worker@ == self@,
    {
        let addr_clone = self.addr.clone();
        let mock_data_ptr = share_records(&self.mock_data);
        let frequency = self.frequency;
        WebSocketHandlerWorker::new(addr_clone, frequency, mock_data_ptr)
    }
}

impl WebSocketHandlerWorker {
    /// A worker that listens at `addr` and sends each client the records of
    /// `mock_data`, pausing `frequency` milliseconds after each.
    pub fn new(addr: String, frequency: u32, mock_data: Arc<Vec<String>>) -> (worker:
        WebSocketHandlerWorker)
        ensures
            worker@ == (Configuration {
                address: addr@,
                interval: frequency as nat,
                records: mock_data.deep_view(),
            }),
    {
        WebSocketHandlerWorker { addr, frequency, mock_data }
    }

    /// The listener of this worker, about to bind the worker's address.
    pub fn start(&self) -> (listener: Listener)
        ensures
            listener@ == ListenerModel::initial(self@.address),
    {
        Listener::new(self.addr.clone())
    }

    /// The session for a connection that has just been accepted. It has not
    /// begun: whatever other sessions there are or were, this one starts with
    /// the handshake and then the first record.
    pub fn open_session(&self) -> (session: Session)
        ensures
            session@ == SessionModel::initial(self@.records, self@.interval),
    {
        let mock_data_ptr = share_records(&self.mock_data);
        let freq = self.frequency as u64;
        Session::new(mock_data_ptr, freq)
    }
}

} // verus!
