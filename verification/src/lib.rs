//! A cooperative task scheduler for resumable computations.
//!
//! The scheduler drives a collection of suspendable computations
//! ("tasks"), each carrying a positive integer priority, to completion
//! under a pluggable queueing policy: first-in-first-out service, or
//! priority-weighted random "lottery" selection.
//!
//! The crate also carries two small companion utilities: a dynamic
//! array with one-based and negative indexing as a scripting host
//! exposes it, and a Fibonacci sequence generator.

pub mod tasks;

pub mod countdown;
pub mod lua;

pub mod task_list;

pub mod fifo;
pub mod lottery;

pub mod scheduler;

pub mod fibonacci;
pub mod vector;
