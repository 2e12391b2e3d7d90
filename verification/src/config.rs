//! Options of the Tor client.

use std::time::Duration;
use vstd::prelude::*;
use vstd::string::*;

verus! {

/// The kind of a log line.
#[derive(Debug, Clone, Copy, PartialEq, Eq, Structural)]
pub enum LogType {
    Info,
    Success,
    Error,
}

impl LogType {
    /// The kind in lower case.
    pub open spec fn name(self) -> Seq<char> {
        match self {
            LogType::Info => "info"@,
            LogType::Success => "success"@,
            LogType::Error => "error"@,
        }
    }

    /// The kind in lower case.
    pub fn to_string(&self) -> (s: String)
        ensures
            s@ == self.name(),
    {
        match self {
            LogType::Info => String::from_str("info"),
            LogType::Success => String::from_str("success"),
            LogType::Error => String::from_str("error"),
        }
    }
}

/// The span of time that `Duration::from_millis` makes of a number of
/// milliseconds.
pub uninterp spec fn duration_of_millis(millis: u64) -> Duration;

/// `Duration::from_millis`: the span of `millis` milliseconds. The function
/// does not fail or panic for any argument.
pub assume_specification[ Duration::from_millis ](millis: u64) -> (d: Duration)
    ensures
        d == duration_of_millis(millis),
;

/// Options of the Tor client. Times are in milliseconds.
#[derive(Debug)]
pub struct TorClientOptions {
    /// The WebSocket URL of the Snowflake bridge.
    pub snowflake_url: String,
    /// How long a connection may take to be set up.
    pub connection_timeout: u64,
    /// How long a circuit may take to become ready.
    pub circuit_timeout: u64,
    /// Whether the first circuit is built at once.
    pub create_circuit_early: bool,
    /// How often circuits are renewed; `None` for never.
    pub circuit_update_interval: Option<u64>,
    /// How long an old circuit may still be used while it is renewed.
    pub circuit_update_advance: u64,
}

/// The model of `TorClientOptions` in contracts.
pub ghost struct OptionsView {
    pub snowflake_url: Seq<char>,
    pub connection_timeout: u64,
    pub circuit_timeout: u64,
    pub create_circuit_early: bool,
    pub circuit_update_interval: Option<u64>,
    pub circuit_update_advance: u64,
}

impl View for TorClientOptions {
    type V = OptionsView;

    open spec fn view(&self) -> OptionsView {
        OptionsView {
            snowflake_url: self.snowflake_url@,
            connection_timeout: self.connection_timeout,
            circuit_timeout: self.circuit_timeout,
            create_circuit_early: self.create_circuit_early,
            circuit_update_interval: self.circuit_update_interval,
            circuit_update_advance: self.circuit_update_advance,
        }
    }
}

/// The options for the bridge at `snowflake_url` with every other option
/// at its default: 15 seconds to connect, 90 seconds for a circuit, the
/// first circuit built at once, circuits renewed every 10 minutes with one
/// minute of overlap.
pub open spec fn default_options(snowflake_url: Seq<char>) -> OptionsView {
    OptionsView {
        snowflake_url,
        connection_timeout: 15_000,
        circuit_timeout: 90_000,
        create_circuit_early: true,
        circuit_update_interval: Some(600_000u64),
        circuit_update_advance: 60_000,
    }
}

/// How long a connection may take to be set up unless the options say
/// otherwise: 15 seconds.
pub fn default_connection_timeout() -> (millis: u64)
    ensures
        millis == 15_000,
{
    15_000
}

/// How long a circuit may take to become ready unless the options say
/// otherwise: 90 seconds.
pub fn default_circuit_timeout() -> (millis: u64)
    ensures
        millis == 90_000,
{
    90_000
}

/// Whether the first circuit is built at once unless the options say
/// otherwise: it is.
pub fn default_create_circuit_early() -> (early: bool)
    ensures
        early,
{
    true
}

/// How often circuits are renewed unless the options say otherwise: every ten
/// minutes.
pub fn default_circuit_update_interval() -> (millis: Option<u64>)
    ensures
        millis == Some(600_000u64),
{
    Some(600_000)
}

/// How long an old circuit may still be used while it is renewed unless the
/// options say otherwise: one minute.
pub fn default_circuit_update_advance() -> (millis: u64)
    ensures
        millis == 60_000,
{
    60_000
}

impl Default for TorClientOptions {
    /// The default options for the public Snowflake bridge.
    fn default() -> (options: Self)
        ensures
            options@ == default_options("wss://snowflake.torproject.net/"@),
    {
        TorClientOptions {
            snowflake_url: String::from_str("wss://snowflake.torproject.net/"),
            connection_timeout: default_connection_timeout(),
            circuit_timeout: default_circuit_timeout(),
            create_circuit_early: default_create_circuit_early(),
            circuit_update_interval: default_circuit_update_interval(),
            circuit_update_advance: default_circuit_update_advance(),
        }
    }
}

impl Clone for TorClientOptions {
    fn clone(&self) -> (copy: Self)
        ensures
            copy@ == self@,
    {
        TorClientOptions {
            snowflake_url: self.snowflake_url.clone(),
            connection_timeout: self.connection_timeout,
            circuit_timeout: self.circuit_timeout,
            create_circuit_early: self.create_circuit_early,
            circuit_update_interval: self.circuit_update_interval,
            circuit_update_advance: self.circuit_update_advance,
        }
    }
}

impl TorClientOptions {
    /// The default options for the bridge at `snowflake_url`.
    pub fn new(snowflake_url: String) -> (options: Self)
        ensures
            options@ == default_options(snowflake_url@),
    {
        TorClientOptions {
            snowflake_url,
            connection_timeout: default_connection_timeout(),
            circuit_timeout: default_circuit_timeout(),
            create_circuit_early: default_create_circuit_early(),
            circuit_update_interval: default_circuit_update_interval(),
            circuit_update_advance: default_circuit_update_advance(),
        }
    }

    /// The same options with another time to connect.
    pub fn with_connection_timeout(self, timeout: u64) -> (options: Self)
        ensures
            options@ == (OptionsView { connection_timeout: timeout, ..self@ }),
    {
        let mut options = self;
        options.connection_timeout = timeout;
        options
    }

    /// The same options with another time for a circuit to become ready.
    pub fn with_circuit_timeout(self, timeout: u64) -> (options: Self)
        ensures
            options@ == (OptionsView { circuit_timeout: timeout, ..self@ }),
    {
        let mut options = self;
        options.circuit_timeout = timeout;
        options
    }

    /// The same options with another answer to whether the first circuit is
    /// built at once.
    pub fn with_create_circuit_early(self, create_early: bool) -> (options: Self)
        ensures
            options@ == (OptionsView { create_circuit_early: create_early, ..self@ }),
    {
        let mut options = self;
        options.create_circuit_early = create_early;
        options
    }

    /// The same options with another interval between renewals; `None` for no
    /// renewal.
    pub fn with_circuit_update_interval(self, interval: Option<u64>) -> (options: Self)
        ensures
            options@ == (OptionsView { circuit_update_interval: interval, ..self@ }),
    {
        let mut options = self;
        options.circuit_update_interval = interval;
        options
    }

    /// The same options with another overlap of old and new circuit.
    pub fn with_circuit_update_advance(self, advance: u64) -> (options: Self)
        ensures
            options@ == (OptionsView { circuit_update_advance: advance, ..self@ }),
    {
        let mut options = self;
        options.circuit_update_advance = advance;
        options
    }

    /// The time to connect as a span of time.
    pub fn connection_timeout_duration(&self) -> (d: Duration)
        ensures
            d == duration_of_millis(self.connection_timeout),
    {
        Duration::from_millis(self.connection_timeout)
    }

    /// The time for a circuit to become ready as a span of time.
    pub fn circuit_timeout_duration(&self) -> (d: Duration)
        ensures
            d == duration_of_millis(self.circuit_timeout),
    {
        Duration::from_millis(self.circuit_timeout)
    }

    /// The interval between renewals as a span of time, if circuits are
    /// renewed.
    pub fn circuit_update_interval_duration(&self) -> (d: Option<Duration>)
        ensures
            d == match self.circuit_update_interval {
                Some(millis) => Some(duration_of_millis(millis)),
                None => None,
            },
    {
        match self.circuit_update_interval {
            Some(millis) => Some(Duration::from_millis(millis)),
            None => None,
        }
    }

    /// The overlap of old and new circuit as a span of time.
    pub fn circuit_update_advance_duration(&self) -> (d: Duration)
        ensures
            d == duration_of_millis(self.circuit_update_advance),
    {
        Duration::from_millis(self.circuit_update_advance)
    }
}

} // verus!
