//! The measurement stream: its settings, how a received message is picked out of
//! its frames and checked, and the counters of the source.
use vstd::prelude::*;
use crate::text::{concat2, contains_seq, str_contains};
use vstd::utf8::{valid_utf8, decode_utf8 as decode_utf8_spec};
use crate::text::{utf8_error_text, utf8_text};

verus! {

/// A measurement message.
#[derive(Debug, Clone)]
pub struct ZeroMQMessage {
    /// The measurement point, such as "1464".
    pub measurement_point_id: String,
    /// Position in the point's stream, in order from upstream.
    pub sequence: u64,
    pub timestamp: u64,
    pub payload: serde_json::Value,
    /// Named annotations, in the order they came.
    pub metadata: Vec<(String, String)>,
}

/// The kind of socket to read from.
#[derive(Debug, Clone, Copy, PartialEq, Eq, Structural)]
pub enum ZeroMQSocketType {
    /// Bind and pull.
    Pull,
    /// Connect and subscribe.
    Sub,
}

/// Settings of the source.
#[derive(Debug, Clone)]
pub struct ZeroMQConfig {
    pub endpoint: String,
    pub socket_type: ZeroMQSocketType,
    pub receive_timeout_ms: u64,
    pub max_buffer_size: usize,
    /// Subscription prefix of a SUB socket; none subscribes to everything.
    pub subscribe_filter: Option<String>,
}

/// The default source settings: pull from tcp://localhost:5555, one-second
/// receive time-out, 10000 buffered messages, no filter.
pub open spec fn is_default_zmq_config(c: ZeroMQConfig) -> bool {
    &&& c.endpoint@ == "tcp://localhost:5555"@
    &&& c.socket_type == ZeroMQSocketType::Pull
    &&& c.receive_timeout_ms == 1000
    &&& c.max_buffer_size == 10000
    &&& c.subscribe_filter is None
}

impl ZeroMQConfig {
    /// Pull from tcp://localhost:5555, one-second receive time-out, 10000
    /// buffered messages, no filter.
    pub fn default() -> (c: ZeroMQConfig)
        ensures
            is_default_zmq_config(c),
    {
        ZeroMQConfig {
            endpoint: String::from_str("tcp://localhost:5555"),
            socket_type: ZeroMQSocketType::Pull,
            receive_timeout_ms: 1000,
            max_buffer_size: 10000,
            subscribe_filter: None,
        }
    }

    /// The subscription prefix: the filter, or everything.
    pub fn subscription_filter(&self) -> (s: String)
        ensures
            match self.subscribe_filter {
                Some(f) => s@ == f@,
                None => s@ == Seq::<char>::empty(),
            },
    {
        match &self.subscribe_filter {
            Some(f) => f.clone(),
            None => String::new(),
        }
    }
}

/// Counters of the source.  The average latency, a float, is kept by the caller.
#[derive(Debug, Clone, Copy, PartialEq, Eq, Structural)]
pub struct ZeroMQSourceStats {
    pub messages_received: u64,
    pub messages_processed: u64,
    pub errors_count: u64,
    pub buffer_size: usize,
    /// Seconds since the epoch of the last message handed on.
    pub last_message_timestamp: u64,
}

impl ZeroMQSourceStats {
    pub open spec fn zero() -> ZeroMQSourceStats {
        ZeroMQSourceStats {
            messages_received: 0,
            messages_processed: 0,
            errors_count: 0,
            buffer_size: 0,
            last_message_timestamp: 0,
        }
    }
}

/// The frame that carries the data: the second of several (the first names the
/// topic), or the only one.
pub open spec fn data_frame_index(frames: Seq<Vec<u8>>) -> Option<int> {
    if frames.len() > 1 {
        Some(1)
    } else if frames.len() == 1 {
        Some(0)
    } else {
        None
    }
}

/// The bytes of the data frame of a message.
pub fn select_data_frame(frames: &Vec<Vec<u8>>) -> (r: Result<&Vec<u8>, String>)
    ensures
        match data_frame_index(frames@) {
            Some(i) => r matches Ok(f) && *f == frames@[i],
            None => r matches Err(m) && m@ == "Message is empty"@,
        },
{
    if frames.len() > 1 {
        Ok(&frames[1])
    } else if frames.len() == 1 {
        Ok(&frames[0])
    } else {
        Err(String::from_str("Message is empty"))
    }
}


/// The text of the data frame of a message, to be read as JSON.
pub fn message_text(frames: &Vec<Vec<u8>>) -> (r: Result<String, String>)
    ensures
        match data_frame_index(frames@) {
            None => r matches Err(m) && m@ == "Message is empty"@,
            Some(i) => if valid_utf8(frames@[i]@) {
                r matches Ok(s) && s@ == decode_utf8_spec(frames@[i]@)
            } else {
                r matches Err(m) && m@ == "Failed to convert message to UTF-8: "@ + utf8_error_text(frames@[i]@)
            },
        },
{
    let frame = select_data_frame(frames)?;
    match utf8_text(frame.as_slice()) {
        Ok(s) => Ok(s),
        Err(e) => Err(concat2("Failed to convert message to UTF-8: ", e.as_str())),
    }
}

/// A parsed message is accepted only with a measurement point.
pub fn check_message(message: ZeroMQMessage) -> (r: Result<ZeroMQMessage, String>)
    ensures
        message.measurement_point_id@.len() > 0 ==> r == Ok::<ZeroMQMessage, String>(message),
        message.measurement_point_id@.len() == 0 ==> (r matches Err(m) && m@
            == "measurement_point_id is required"@),
{
    if message.measurement_point_id.as_str().is_empty() {
        return Err(String::from_str("measurement_point_id is required"));
    }
    Ok(message)
}

/// Whether a receive error calls for a pause before the next try: connection
/// troubles do.
pub fn should_pause_after(error_text: &str) -> (b: bool)
    ensures
        b == contains_seq(error_text@, "Connection"@),
{
    str_contains(error_text, "Connection")
}

/// The source's run state and counters; the socket itself is driven by the caller.
pub struct ZeroMQSource {
    config: ZeroMQConfig,
    is_running: bool,
    stats: ZeroMQSourceStats,
}

impl ZeroMQSource {
    pub closed spec fn configuration(&self) -> ZeroMQConfig {
        self.config
    }

    pub closed spec fn running(&self) -> bool {
        self.is_running
    }

    pub closed spec fn counters(&self) -> ZeroMQSourceStats {
        self.stats
    }

    /// A stopped source with no counts.
    pub fn new(config: ZeroMQConfig) -> (r: Result<ZeroMQSource, String>)
        ensures
            r matches Ok(s) && s.configuration() == config && !s.running() && s.counters()
                == ZeroMQSourceStats::zero(),
    {
        Ok(
            ZeroMQSource {
                config,
                is_running: false,
                stats: ZeroMQSourceStats {
                    messages_received: 0,
                    messages_processed: 0,
                    errors_count: 0,
                    buffer_size: 0,
                    last_message_timestamp: 0,
                },
            },
        )
    }

    pub fn config(&self) -> (c: &ZeroMQConfig)
        ensures
            *c == self.configuration(),
    {
        &self.config
    }

    /// Starts the source; a running source refuses.
    pub fn start(&mut self) -> (r: Result<(), String>)
        ensures
            final(self).configuration() == old(self).configuration(),
            final(self).counters() == old(self).counters(),
            final(self).running(),
            old(self).running() ==> (r matches Err(m) && m@ == "ZeroMQ source is already running"@),
            !old(self).running() ==> r is Ok,
    {
        if self.is_running {
            return Err(String::from_str("ZeroMQ source is already running"));
        }
        self.is_running = true;
        Ok(())
    }

    /// Stops the source.
    pub fn stop(&mut self) -> (r: Result<(), String>)
        ensures
            final(self).configuration() == old(self).configuration(),
            final(self).counters() == old(self).counters(),
            !final(self).running(),
            r is Ok,
    {
        self.is_running = false;
        Ok(())
    }

    pub fn is_running(&self) -> (b: bool)
        ensures
            b == self.running(),
    {
        self.is_running
    }

    pub fn get_stats(&self) -> (s: ZeroMQSourceStats)
        ensures
            s == self.counters(),
    {
        self.stats
    }

    /// A message arrived while `buffered` messages wait to be processed.
    pub fn record_received(&mut self, buffered: usize)
        requires
            old(self).counters().messages_received < u64::MAX,
        ensures
            final(self).configuration() == old(self).configuration(),
            final(self).running() == old(self).running(),
            final(self).counters() == (ZeroMQSourceStats {
                messages_received: (old(self).counters().messages_received + 1) as u64,
                buffer_size: buffered,
                ..old(self).counters()
            }),
    {
        self.stats.messages_received = self.stats.messages_received + 1;
        self.stats.buffer_size = buffered;
    }

    /// A message was handed on at `now_secs` seconds since the epoch.
    pub fn record_processed(&mut self, now_secs: u64)
        requires
            old(self).counters().messages_processed < u64::MAX,
        ensures
            final(self).configuration() == old(self).configuration(),
            final(self).running() == old(self).running(),
            final(self).counters() == (ZeroMQSourceStats {
                messages_processed: (old(self).counters().messages_processed + 1) as u64,
                last_message_timestamp: now_secs,
                ..old(self).counters()
            }),
    {
        self.stats.messages_processed = self.stats.messages_processed + 1;
        self.stats.last_message_timestamp = now_secs;
    }

    /// A message could not be received, parsed or handed on.
    pub fn record_error(&mut self)
        requires
            old(self).counters().errors_count < u64::MAX,
        ensures
            final(self).configuration() == old(self).configuration(),
            final(self).running() == old(self).running(),
            final(self).counters() == (ZeroMQSourceStats {
                errors_count: (old(self).counters().errors_count + 1) as u64,
                ..old(self).counters()
            }),
    {
        self.stats.errors_count = self.stats.errors_count + 1;
    }
}

} // verus!
