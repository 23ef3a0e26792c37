//! UDP sockets that share the socket set of a network stack.
//!
//! [`udp_socket`] has the sockets, and [`nal`] a pool of them that are opened by address. They
//! live in the [`stack`]. [`socket`] is the boundary to `smoltcp`, which keeps their buffers, and
//! states what is known of it. [`operations`] says what each operation does for its caller, and
//! [`laws`] what holds of all of it together.

pub mod addr;
pub mod laws;
pub mod nal;
pub mod operations;
pub mod pool;
pub mod socket;
pub mod stack;
pub mod udp_socket;
