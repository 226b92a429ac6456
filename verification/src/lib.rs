//! A small asynchronous runtime core: a waker-queue mutex, a hazard-pointer
//! reclamation domain, a first-in first-out queue and a last-in first-out
//! stack, and the decisions behind epoll registration, timers and
//! non-blocking sockets.
pub mod executor;
pub mod io;
pub mod lf;
pub mod mini_mutex;
pub mod net;
