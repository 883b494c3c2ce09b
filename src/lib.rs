//! Expense-reimbursement submissions: the three-phase submission store,
//! the notification mail composition, the SMTP session decisions and the
//! choice of the outbound IPv4 address.

pub mod text;
pub mod validate;
pub mod config;
pub mod email;
pub mod template;
pub mod error;
pub mod data;
pub mod start;
pub mod attachment;
pub mod complete;
pub mod ipv4;
pub mod smtp;
pub mod correspondent;
