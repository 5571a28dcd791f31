//! Bridge between a line-oriented console and a byte-oriented remote command
//! interpreter that echoes its input and prints a fixed prompt when idle.
//!
//! The heart of the crate is a chain of composable stream filters, each
//! implementing the [`eventloop::Recieve`] contract: [`echostrip::EchoStrip`]
//! removes the remote's character echo of the last sent line, and
//! [`synch::Synch`] tracks whether the remote is at a known prompt, driving a
//! recovery sequence while it is not.  [`commandline::CommandLine`] and
//! [`list::List`] are the terminal stages.  All protocol logic is verified;
//! the surrounding process (polling, serial port, console I/O) lives outside
//! this crate and only moves bytes in and out.

pub mod commandline;
pub mod echostrip;
pub mod eventloop;
pub mod list;
pub mod synch;
