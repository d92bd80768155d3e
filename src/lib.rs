//! Game-server status polling: the info query exchange, reply parsing,
//! the last-known-good cache and the metrics line encoding.

pub mod cache;
pub mod config;
pub mod poll;
pub mod source_query;
pub mod text;
pub mod wire;

pub use source_query::{A2SInfoResult, QueryError, SourceQuery};
pub use text::clean_string;
pub use wire::{read_byte, read_long, read_short, read_string};
pub use cache::AggregationCache;
pub use config::{default_port, default_unknown};
pub use poll::{encode_record, record_outcome, MetricRecord, PollScheduler, OFFLINE_PING};
pub use source_query::{handle_a2s_response, info_request, is_info_reply, QueryStage, QueryStep};
