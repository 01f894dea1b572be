//! A minimal HTTP request server: prefix routes, templated pages, and the
//! decisions of its connection handler, worker pool and dispatch loop.
//!
//! The library holds what the server computes and decides, each function
//! with a contract that Verus proves; sockets, files and threads belong to
//! the program that uses it.
//!
//! - [`http_server`]: pages, responses, routes, and the server's route table
//! - [`request`]: the request line, and the lines read from a connection
//! - [`path`]: the part of a path that names a route, and its arguments
//! - [`template`]: filling a template and writing out a response
//! - [`html_args`]: the values that fill a template
//! - [`dispatch`]: the override that follows an error report
//! - [`thread_pool`]: what a worker does with a job and its outcome
//! - [`registration`]: what a registered handler does around its function
//! - [`routes`]: the routes of the server program
//! - [`dice_roll`]: roll strings and dice totals
//! - [`text`], [`numbers`], [`random`]: characters, numerals and draws
//!
//! Contracts speak of strings through their views, `Seq<char>`. The few
//! functions whose contracts are believed rather than proved are marked
//! "Trusted" in their documentation.

pub mod dice_roll;
pub mod dispatch;
pub mod html_args;
pub mod http_server;
pub mod numbers;
pub mod path;
pub mod random;
pub mod registration;
pub mod request;
pub mod routes;
pub mod template;
pub mod text;
pub mod thread_pool;
