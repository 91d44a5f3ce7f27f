//! Translation between a legacy text mining protocol and a binary mining
//! protocol: the byte-string primitives both sides share, the state that turns
//! templates and previous-hash announcements into job notifications, and the
//! bridge that carries share submissions back upstream.

pub mod binary;
pub mod bridge;
pub mod byte_order;
pub mod coinbase;
pub mod error;
pub mod hex_codec;
pub mod new_template;
pub mod next_notify;
pub mod status;
pub mod utils;
