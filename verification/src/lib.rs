//! A component-messaging engine for firmware: components identified by
//! small handles exchange typed, variable-length messages through two
//! independent delivery paths, a normal and a priority queue. Producers
//! enqueue; whoever schedules the consumer side calls `drain_once`, which
//! takes one message off a queue and gives it to every callback
//! registered for its destination, in registration order.
//!
//! `engine` holds the engine itself. Its parts are usable on their own:
//! `handles` is the component handle registry, `callbacks` the callback
//! registry of one queue, `queue` the queue core. `model` states what
//! each operation does as a function on mathematical states, and `laws`
//! proves what follows for every state and every sequence of calls.
//! `message_queue` offers the operations under the names and with the
//! status codes of the firmware interface, and `recorder` is the callback
//! that its test handlers are made of.
//!
//! An engine is owned by one context at a time. Nothing in it waits: an
//! operation either takes effect or is refused with an `ErrorKind`, and a
//! refused operation leaves the engine as it was.

pub mod types;
pub mod handles;
pub mod queue;
pub mod callbacks;
pub mod recorder;
pub mod model;
pub mod engine;
pub mod message_queue;
pub mod laws;
