//! Streaming manager settings and the stream-shaping decisions that do
//! not depend on how a stream is driven.
use vstd::prelude::*;
use vstd::string::*;
use core::time::Duration;
use core::marker::PhantomData;

verus! {

/// `core::time::Duration::from_secs`: a span of whole seconds. Nothing is
/// stated of the result: `Duration` is opaque here.
#[verifier::external_body]
fn duration_from_secs(secs: u64) -> Duration {
    Duration::from_secs(secs)
}

/// Configuration for streaming manager
#[derive(Debug, Clone, Copy)]
pub struct StreamingConfig {
    /// Buffer size for streaming channels
    pub buffer_size: usize,
    /// Timeout for streaming operations, in whole seconds
    pub timeout_secs: u64,
    /// Whether to enable compression for streaming
    pub enable_compression: bool,
    /// Maximum number of concurrent streams
    pub max_concurrent_streams: usize,
}

impl StreamingConfig {
    /// Timeout for streaming operations, as a `Duration` of
    /// `timeout_secs` seconds.
    pub fn timeout(&self) -> Duration {
        duration_from_secs(self.timeout_secs)
    }
}

/// Streaming manager for handling real-time responses
pub struct StreamingManager {
    config: StreamingConfig,
}

impl StreamingManager {
    /// The configuration in force.
    pub closed spec fn settings(&self) -> StreamingConfig {
        self.config
    }

    /// Create a new streaming manager with default configuration
    pub fn new() -> (r: Self)
        ensures
            r.settings().buffer_size == 100,
            r.settings().timeout_secs == 30,
            !r.settings().enable_compression,
            r.settings().max_concurrent_streams == 100,
    {
        let config = Self::default_config();
        Self::with_config(config)
    }

    /// Create a new streaming manager with custom configuration
    pub fn with_config(config: StreamingConfig) -> (r: Self)
        ensures
            r.settings() == config,
    {
        Self { config }
    }

    /// Create default streaming configuration: a buffer of 100, a timeout
    /// of 30 seconds, no compression, up to 100 concurrent streams.
    pub fn default_config() -> (r: StreamingConfig)
        ensures
            r.buffer_size == 100,
            r.timeout_secs == 30,
            !r.enable_compression,
            r.max_concurrent_streams == 100,
    {
        StreamingConfig {
            buffer_size: 100,
            timeout_secs: 30,
            enable_compression: false,
            max_concurrent_streams: 100,
        }
    }

    /// The configuration in force.
    pub fn config(&self) -> (r: &StreamingConfig)
        ensures
            *r == self.settings(),
    {
        &self.config
    }

    /// Merge multiple streams into a single stream: the streams whose
    /// items the merged stream yields, all of them and in the order they
    /// are drained (each stream's own items keep their order); there is
    /// nothing to merge when there is none.
    pub fn merge_streams<S>(&self, streams: Vec<S>) -> (r: Result<Vec<S>, String>)
        ensures
            streams@.len() == 0 <==> r is Err,
            r matches Ok(v) ==> v@ == streams@,
            r matches Err(e) ==> e@ == "No streams to merge"@,
    {
        if streams.len() == 0 {
            return Err(String::from_str("No streams to merge"));
        }
        Ok(streams)
    }

    /// Apply compression to stream if enabled; no compression is
    /// implemented, so the stream comes back as it was either way.
    pub fn apply_compression<S>(&self, stream: S) -> (r: S)
        ensures
            r == stream,
    {
        if !self.config.enable_compression {
            return stream;
        }
        stream
    }

    /// Buffer management to minimize latency
    pub fn with_buffer_hint<T>(&self, buffer_size: usize) -> (r: StreamBuffer<T>)
        ensures
            r.size() == buffer_size,
    {
        StreamBuffer::new(buffer_size)
    }
}

/// Stream buffer for managing streaming data flow
pub struct StreamBuffer<T> {
    buffer_size: usize,
    _phantom: PhantomData<T>,
}

impl<T> StreamBuffer<T> {
    /// The size hint.
    pub closed spec fn size(&self) -> usize {
        self.buffer_size
    }

    pub fn new(buffer_size: usize) -> (r: Self)
        ensures
            r.size() == buffer_size,
    {
        Self { buffer_size, _phantom: PhantomData }
    }

    /// Get buffer size hint
    pub fn buffer_size(&self) -> (r: usize)
        ensures
            r == self.size(),
    {
        self.buffer_size
    }
}

} // verus!
