use vstd::prelude::*;

verus! {

/// What made a configuration inconsistent.
#[derive(Debug, Clone, Copy, PartialEq, Eq, Structural)]
pub enum ConfigIssue {
    /// The ramp step is zero or points away from the stop voltage.
    RampDirection,
    /// Reads were requested at a voltage while the ramp never reads.
    ReadDirective,
    /// Fast pulsing needs exactly one timing slot per cluster.
    ClusterTimingCount,
    /// A channel was addressed whose cluster has no timing.
    MissingClusterTiming { channel: usize, cluster: usize },
    /// A cluster timing exceeds the high-speed driver limit.
    ClusterPulseTooLong { channel: usize },
    /// Two channels of one cluster transition in opposite directions.
    MixedClusterPolarity { cluster: usize },
    /// A channel is both driven and read in one operation.
    OverlappingChannels { channel: usize },
    /// A blocking read train was asked for while result frames are still
    /// waiting to be drained.
    ResultsPending,
}

/// The failures every fallible operation reports.
#[derive(Debug, Clone, PartialEq, Eq)]
pub enum Arc2Error {
    /// A channel index beyond the instrument's channels.
    InvalidChannel(usize),
    /// Parameters that contradict each other.
    InvalidConfiguration(ConfigIssue),
    /// The transport reported a failure; the text is its own.
    TransportFailure(String),
    /// A result-memory address that is malformed or out of range, or no
    /// result memory left for the frames an operation would produce.
    MemoryAccessFailure(u64),
    /// No instrument answers to this identifier.
    DeviceNotFound(i32),
    /// A directive name that names no directive.
    UnknownDirective,
}

impl Arc2Error {
    /// A short human-readable description of the failure kind.
    pub open spec fn description(&self) -> Seq<char> {
        match self {
            Arc2Error::InvalidChannel(_) => "invalid channel"@,
            Arc2Error::InvalidConfiguration(_) => "invalid configuration"@,
            Arc2Error::TransportFailure(_) => "transport failure"@,
            Arc2Error::MemoryAccessFailure(_) => "memory access failure"@,
            Arc2Error::DeviceNotFound(_) => "device not found"@,
            Arc2Error::UnknownDirective => "unknown directive"@,
        }
    }

    /// A short human-readable description of the failure kind.
    pub fn describe(&self) -> (r: &'static str)
        ensures
            r@ == self.description(),
    {
        proof {
            reveal_strlit("invalid channel");
            reveal_strlit("invalid configuration");
            reveal_strlit("transport failure");
            reveal_strlit("memory access failure");
            reveal_strlit("device not found");
            reveal_strlit("unknown directive");
        }
        match self {
            Arc2Error::InvalidChannel(_) => "invalid channel",
            Arc2Error::InvalidConfiguration(_) => "invalid configuration",
            Arc2Error::TransportFailure(_) => "transport failure",
            Arc2Error::MemoryAccessFailure(_) => "memory access failure",
            Arc2Error::DeviceNotFound(_) => "device not found",
            Arc2Error::UnknownDirective => "unknown directive",
        }
    }
}

} // verus!
