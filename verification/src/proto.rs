//! The control protocol between the command line client and the manager.

pub mod abi;
pub mod execute;
pub mod frame;
