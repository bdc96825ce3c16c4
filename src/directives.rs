use vstd::prelude::*;
use crate::error::Arc2Error;

verus! {

/// Which lines are biased when every crosspoint of the array is addressed.
#[derive(Debug, Clone, Copy, PartialEq, Eq, Structural)]
pub enum BiasOrder {
    Rows,
    Cols,
}

/// Daughterboard routing: through the header pins or internally.
#[derive(Debug, Clone, Copy, PartialEq, Eq, Structural)]
pub enum ControlMode {
    Header,
    Internal,
}

/// Which channels of a result frame are returned.
#[derive(Debug, Clone, Copy, PartialEq, Eq, Structural)]
pub enum DataMode {
    Words,
    Bits,
    All,
}

/// How the samples of a result frame are decoded.
#[derive(Debug, Clone, Copy, PartialEq, Eq, Structural)]
pub enum ReadType {
    Current,
    Voltage,
}

/// The voltage at which a ramp reads: the present bias, an arbitrary
/// voltage in microvolts, or no reads at all.
#[derive(Debug, Clone, Copy, PartialEq, Eq, Structural)]
pub enum ReadAt {
    Bias,
    Arb(i32),
    Never,
}

/// When a ramp reads: after each pulse, after each block of pulses at one
/// voltage, once at the end of the ramp, or never.
#[derive(Debug, Clone, Copy, PartialEq, Eq, Structural)]
pub enum ReadAfter {
    Pulse,
    Ramp,
    Block,
    Never,
}

/// Termination condition of an open-ended train: elapsed nanoseconds or a
/// number of iterations.
#[derive(Debug, Clone, Copy, PartialEq, Eq, Structural)]
pub enum WaitFor {
    Time(u128),
    Iterations(usize),
}

/// Functions of the auxiliary DACs.
#[derive(Debug, Clone, Copy, PartialEq, Eq, Structural)]
pub enum AuxDACFn {
    SELL,
    SELH,
    ARB1,
    ARB2,
    ARB3,
    ARB4,
    CREF,
    CSET,
    LGC,
}

/// Direction of a GPIO cluster.
#[derive(Debug, Clone, Copy, PartialEq, Eq, Structural)]
pub enum IODir {
    IN,
    OUT,
}

/// Logic level of the digital I/Os.
#[derive(Debug, Clone, Copy, PartialEq, Eq, Structural)]
pub enum LogicLevel {
    LL1V8,
    LL3V3,
    LL5V,
}

/// Output range of an analogue channel: ±10 V or ±20 V.
#[derive(Debug, Clone, Copy, PartialEq, Eq, Structural)]
pub enum OutputRange {
    STD,
    EXT,
}

fn same_text(a: &str, b: &str) -> (r: bool)
    ensures
        r == (a@ == b@),
{
    let x = a.to_owned();
    let y = b.to_owned();
    x == y
}

impl ReadAt {
    /// The arbitrary read voltage, when there is one.
    pub fn voltage(&self) -> (r: Option<i32>)
        ensures
            r == (match *self {
                ReadAt::Arb(v) => Some(v),
                _ => None::<i32>,
            }),
    {
        match self {
            ReadAt::Arb(v) => Some(*v),
            _ => None,
        }
    }
}

impl ReadAfter {
    /// Parses one of `pulse`, `ramp`, `block` or `never`.
    pub fn from_str(r: &str) -> (res: Result<ReadAfter, Arc2Error>)
        ensures
            res == (match ReadAfter::from_str_spec(r@) {
                Some(d) => Ok::<ReadAfter, Arc2Error>(d),
                None => Err(Arc2Error::UnknownDirective),
            }),
    {
        if same_text(r, "pulse") {
            Ok(ReadAfter::Pulse)
        } else if same_text(r, "ramp") {
            Ok(ReadAfter::Ramp)
        } else if same_text(r, "block") {
            Ok(ReadAfter::Block)
        } else if same_text(r, "never") {
            Ok(ReadAfter::Never)
        } else {
            Err(Arc2Error::UnknownDirective)
        }
    }

    /// The name that `from_str` parses back.
    pub fn as_str(&self) -> (r: &'static str)
        ensures
            ReadAfter::from_str_spec(r@) == Some(*self),
    {
        proof {
            reveal_strlit("pulse");
            reveal_strlit("ramp");
            reveal_strlit("block");
            reveal_strlit("never");
            assert("ramp"@.len() != "pulse"@.len());
            assert("block"@[0] != "pulse"@[0]);
            assert("never"@[0] != "pulse"@[0]);
            assert("block"@.len() != "ramp"@.len());
            assert("never"@.len() != "ramp"@.len());
            assert("never"@[0] != "block"@[0]);
        }
        match self {
            ReadAfter::Pulse => "pulse",
            ReadAfter::Ramp => "ramp",
            ReadAfter::Block => "block",
            ReadAfter::Never => "never",
        }
    }

    /// The directive that a name denotes.
    pub open spec fn from_str_spec(s: Seq<char>) -> Option<ReadAfter> {
        if s == "pulse"@ {
            Some(ReadAfter::Pulse)
        } else if s == "ramp"@ {
            Some(ReadAfter::Ramp)
        } else if s == "block"@ {
            Some(ReadAfter::Block)
        } else if s == "never"@ {
            Some(ReadAfter::Never)
        } else {
            None
        }
    }

    /// A debugging representation such as `ReadAfter<Pulse>`.
    pub fn repr(&self) -> (r: &'static str)
        ensures
            r@ == (match *self {
                ReadAfter::Pulse => "ReadAfter<Pulse>"@,
                ReadAfter::Ramp => "ReadAfter<Ramp>"@,
                ReadAfter::Block => "ReadAfter<Block>"@,
                ReadAfter::Never => "ReadAfter<Never>"@,
            }),
    {
        proof {
            reveal_strlit("ReadAfter<Pulse>");
            reveal_strlit("ReadAfter<Ramp>");
            reveal_strlit("ReadAfter<Block>");
            reveal_strlit("ReadAfter<Never>");
        }
        match self {
            ReadAfter::Pulse => "ReadAfter<Pulse>",
            ReadAfter::Ramp => "ReadAfter<Ramp>",
            ReadAfter::Block => "ReadAfter<Block>",
            ReadAfter::Never => "ReadAfter<Never>",
        }
    }
}

impl WaitFor {
    /// Wait for a number of nanoseconds.
    pub fn nanos(nanos: u64) -> (r: WaitFor)
        ensures
            r == WaitFor::Time(nanos as u128),
    {
        WaitFor::Time(nanos as u128)
    }

    /// Wait for a number of milliseconds.
    pub fn millis(millis: u64) -> (r: WaitFor)
        ensures
            r == WaitFor::Time((millis * 1_000_000) as u128),
    {
        WaitFor::Time(millis as u128 * 1_000_000)
    }

    /// Wait for a number of iterations.
    pub fn iterations(iters: usize) -> (r: WaitFor)
        ensures
            r == WaitFor::Iterations(iters),
    {
        WaitFor::Iterations(iters)
    }
}

impl IODir {
    pub fn as_str(&self) -> (r: &'static str)
        ensures
            r@ == (if *self == IODir::OUT { "IODir.OUT"@ } else { "IODir.IN"@ }),
    {
        proof {
            reveal_strlit("IODir.OUT");
            reveal_strlit("IODir.IN");
        }
        match self {
            IODir::OUT => "IODir.OUT",
            IODir::IN => "IODir.IN",
        }
    }
}

impl OutputRange {
    pub fn as_str(&self) -> (r: &'static str)
        ensures
            r@ == (if *self == OutputRange::STD { "OutputRange.STD"@ } else { "OutputRange.EXT"@ }),
    {
        proof {
            reveal_strlit("OutputRange.STD");
            reveal_strlit("OutputRange.EXT");
        }
        match self {
            OutputRange::STD => "OutputRange.STD",
            OutputRange::EXT => "OutputRange.EXT",
        }
    }
}

} // verus!
