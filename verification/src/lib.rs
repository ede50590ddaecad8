//! Decision engine for adaptive bitrate streaming.
//!
//! Given measured download throughput and the occupancy of the playback
//! buffer, the engine picks the index of the encoding to request next.
//! All quantities are integers: time in nanoseconds, throughput in bytes
//! per second, scaling factors as exact fractions.

pub mod buffer;
pub mod estimator;
pub mod factor;
pub mod ladder;
pub mod precision;
pub mod selector;
pub mod streamer;

pub use buffer::BufferState;
pub use estimator::BandwidthSample;
pub use factor::Factor;
pub use ladder::create_test_quality_levels;
pub use ladder::QualityLevel;
pub use streamer::AdaptiveBitrateStreamer;
pub use streamer::ConfigError;
pub use streamer::SegmentInfo;
