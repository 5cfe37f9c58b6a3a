//! The benchmark configuration: resolved once at startup, immutable
//! afterwards, and copied into each worker. The defaulting rules that turn
//! the raw workload-file fields into a complete configuration live here;
//! reading the file and parsing its syntax happen outside the library.

use vstd::prelude::*;
use crate::text::decimal_of;
use crate::text::generate_name;

verus! {

/// The resolved benchmark parameters.
#[derive(Clone, Debug)]
pub struct Config {
    /// Human-readable name of the workload.
    pub name: String,
    /// Controller endpoint of the streaming platform.
    pub address: String,
    /// Path the payload was loaded from.
    pub payload_file: String,
    /// The payload written by every event.
    pub message: Vec<u8>,
    /// Payload size in bytes.
    pub message_size: usize,
    /// Number of counted writes.
    pub message_num: u32,
    /// Number of unmeasured warmup writes.
    pub message_warmup: u32,
    /// Scope identifier of the stream.
    pub scope: String,
    /// Stream identifier.
    pub stream: String,
    /// Counted writes per one-second pacing window.
    pub producer_rate: u32,
    /// Retention parameter for stream provisioning.
    pub retention_time: i64,
    /// Target event rate for stream scaling.
    pub scale_target_rate: i32,
    /// Scale factor for stream scaling.
    pub scale_factor: i32,
    /// Minimum number of stream segments.
    pub scale_min_num_segments: i32,
}

impl Config {
    /// An empty configuration carrying the documented defaults: five warmup
    /// writes, a retention parameter of ten, one target-rate unit and one
    /// minimum segment.
    pub fn new() -> (c: Config)
        ensures
            c.name@ == Seq::<char>::empty(),
            c.address@ == Seq::<char>::empty(),
            c.payload_file@ == Seq::<char>::empty(),
            c.message@ == Seq::<u8>::empty(),
            c.message_size == 0,
            c.message_num == 0,
            c.message_warmup == 5,
            c.scope@ == Seq::<char>::empty(),
            c.stream@ == Seq::<char>::empty(),
            c.producer_rate == 0,
            c.retention_time == 10,
            c.scale_target_rate == 1,
            c.scale_factor == 0,
            c.scale_min_num_segments == 1,
    {
        Config {
            name: String::new(),
            address: String::new(),
            payload_file: String::new(),
            message: Vec::new(),
            message_size: 0,
            message_num: 0,
            message_warmup: 5,
            scope: String::new(),
            stream: String::new(),
            producer_rate: 0,
            retention_time: 10,
            scale_target_rate: 1,
            scale_factor: 0,
            scale_min_num_segments: 1,
        }
    }
}

/// The workload-file fields as parsed, before defaulting: optional where
/// the file may omit them.
#[derive(Clone, Debug)]
pub struct RawConfig {
    pub name: String,
    pub address: String,
    pub payload_file: String,
    pub message_num: u32,
    pub message_warmup: Option<u32>,
    pub producer_rate: u32,
    pub scope: Option<String>,
    pub stream: Option<String>,
    pub retention_time: Option<i64>,
    pub scale_target_rate: Option<i32>,
    pub scale_factor: Option<i32>,
    pub scale_min_num_segments: Option<i32>,
}

impl Config {
    /// Resolves a raw configuration against the loaded payload and the
    /// current UTC time: the payload size is the payload's length, omitted
    /// warmup/retention/scaling fields take their defaults, and omitted
    /// scope and stream names are generated from a fixed prefix plus the
    /// epoch timestamp.
    pub fn resolve(raw: RawConfig, payload: Vec<u8>, epoch_seconds: u64) -> (c: Config)
        ensures
            c.name == raw.name,
            c.address == raw.address,
            c.payload_file == raw.payload_file,
            c.message == payload,
            c.message_size == payload@.len(),
            c.message_num == raw.message_num,
            c.producer_rate == raw.producer_rate,
            c.scope@ == match raw.scope {
                Some(s) => s@,
                None => "scope"@ + decimal_of(epoch_seconds as nat),
            },
            c.stream@ == match raw.stream {
                Some(s) => s@,
                None => "stream"@ + decimal_of(epoch_seconds as nat),
            },
            c.message_warmup == match raw.message_warmup {
                Some(w) => w,
                None => 5u32,
            },
            c.retention_time == match raw.retention_time {
                Some(t) => t,
                None => 10i64,
            },
            c.scale_target_rate == match raw.scale_target_rate {
                Some(t) => t,
                None => 1i32,
            },
            c.scale_factor == match raw.scale_factor {
                Some(f) => f,
                None => 0i32,
            },
            c.scale_min_num_segments == match raw.scale_min_num_segments {
                Some(m) => m,
                None => 1i32,
            },
    {
        let message_size = payload.len();
        let scope = match raw.scope {
            Some(s) => s,
            None => generate_name("scope", epoch_seconds),
        };
        let stream = match raw.stream {
            Some(s) => s,
            None => generate_name("stream", epoch_seconds),
        };
        let message_warmup = match raw.message_warmup {
            Some(w) => w,
            None => 5,
        };
        let retention_time = match raw.retention_time {
            Some(t) => t,
            None => 10,
        };
        let scale_target_rate = match raw.scale_target_rate {
            Some(t) => t,
            None => 1,
        };
        let scale_factor = match raw.scale_factor {
            Some(f) => f,
            None => 0,
        };
        let scale_min_num_segments = match raw.scale_min_num_segments {
            Some(m) => m,
            None => 1,
        };
        Config {
            name: raw.name,
            address: raw.address,
            payload_file: raw.payload_file,
            message: payload,
            message_size,
            message_num: raw.message_num,
            message_warmup,
            scope,
            stream,
            producer_rate: raw.producer_rate,
            retention_time,
            scale_target_rate,
            scale_factor,
            scale_min_num_segments,
        }
    }
}

/// How the stream is scaled: the benchmark always scales by event rate.
#[derive(Clone, Copy, Debug, PartialEq, Eq, Structural)]
pub enum ScaleKind {
    ByRateInEventsPerSec,
}

/// How the stream retains data.
#[derive(Clone, Copy, Debug, PartialEq, Eq, Structural)]
pub enum RetentionKind {
    Time,
    Size,
}

/// The provisioning parameters handed to the streaming platform when the
/// stream is created: scaling by event rate with the configured knobs, and
/// size-based retention with a fixed ten-mebibyte budget.
#[derive(Clone, Copy, Debug, PartialEq, Eq, Structural)]
pub struct StreamSettings {
    pub scale_kind: ScaleKind,
    pub target_rate: i32,
    pub scale_factor: i32,
    pub min_num_segments: i32,
    pub retention_kind: RetentionKind,
    pub retention_param: i64,
}

/// The fixed size-retention budget, in bytes (ten mebibytes).
pub const RETENTION_SIZE_BYTES: i64 = 10485760;

impl Config {
    /// The stream-provisioning settings this configuration asks for.
    pub fn stream_settings(&self) -> (s: StreamSettings)
        ensures
            s.scale_kind is ByRateInEventsPerSec,
            s.target_rate == self.scale_target_rate,
            s.scale_factor == self.scale_factor,
            s.min_num_segments == self.scale_min_num_segments,
            s.retention_kind is Size,
            s.retention_param == RETENTION_SIZE_BYTES,
    {
        StreamSettings {
            scale_kind: ScaleKind::ByRateInEventsPerSec,
            target_rate: self.scale_target_rate,
            scale_factor: self.scale_factor,
            min_num_segments: self.scale_min_num_segments,
            retention_kind: RetentionKind::Size,
            retention_param: RETENTION_SIZE_BYTES,
        }
    }
}

} // verus!
