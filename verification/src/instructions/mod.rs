//! The instructions of the table, each as a function from the accounts it
//! reads to the updated table and what is left to pay out or report.

pub mod submit_action;
pub mod reveal_showdown;
pub mod init_table;
pub mod join_table;
pub mod deal_callback;
pub mod close_table;
