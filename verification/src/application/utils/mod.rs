mod timestamp;

pub use timestamp::now_iso8601;
