//! Core of a unit supervisor: unit life cycle, job transactions, socket
//! activation and child tracking, with every rule stated as a contract.

pub mod device;
pub mod devnum_util;
pub mod error;
pub mod job_entry;
pub mod manager;
pub mod process_fd;
pub mod proto;
pub mod reliability;
pub mod job_manager;
pub mod job_table;
pub mod job_transaction;
pub mod socket_addr;
pub mod socket_config;
pub mod socket_mng;
pub mod text_num;
pub mod socket_rentry;
pub mod socket_unit;
pub mod unit;
pub mod unit_base;
pub mod unit_child;
pub mod unit_dep;
pub mod unit_dep_conf;
pub mod unit_manager;
pub mod unit_rel;
pub mod unit_sets;
pub mod unit_words;
pub mod uu_config;
pub mod worker_manager;
pub mod unit_state;
