//! A bounded queue of fixed-size messages for producer and consumer tasks,
//! and the answers of a small Modbus server.
//!
//! The queue is a state machine. A request never suspends its caller: it says
//! what the queue holds afterwards, whether the caller has to wait, and which
//! waiting caller, if any, is to be woken with what result. Whoever runs the
//! tasks does the suspending and the waking.
//!
//! - [`model`] says what a queue is and what each request does to it.
//! - [`msg_queue`] is the queue itself, over a ring buffer, with each request
//!   proved against the model.
//! - [`laws`] proves what follows for every queue: the order of the messages,
//!   the order in which waiters are served, what a timeout and a purge leave
//!   behind. [`history`] has the words for sequences of requests.
//! - [`modbus`] is the Modbus server, which is independent of the queue.

pub mod error;
pub mod history;
pub mod laws;
pub mod modbus;
pub mod model;
pub mod msg_queue;
mod ring;
pub mod step;
pub mod timeout;

pub use error::QueueError;
pub use modbus::{ModbusReturnCode, ModbusServer};
pub use model::{QueueView, WaiterView};
pub use msg_queue::MsgQueue;
pub use step::{Step, Wake};
pub use timeout::Timeout;
