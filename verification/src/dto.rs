//! The shapes in which orders arrive and transactions leave.

pub mod order_dto;
pub mod transaction_dto;
