use vstd::prelude::*;
use crate::channels::{check_below, check_channels, channel_verdict, index_verdict, NUM_SELECTORS};
use crate::directives::{
    AuxDACFn, BiasOrder, ControlMode, IODir, LogicLevel, OutputRange, ReadAfter, ReadAt,
};
use crate::error::Arc2Error;
use crate::fast::{check_fast_open, fast_open_verdict, FastChannel};
use crate::ramp::{
    plan_ramp, ramp_consistent, ramp_frame_count, ramp_step_count, read_directives_consistent,
};
use crate::error::ConfigIssue;

verus! {

/// One hardware directive of a command batch. Voltages are microvolts,
/// durations nanoseconds.
#[derive(Debug, Clone, PartialEq, Eq)]
pub enum Instruction {
    /// Wait before the next directive.
    Delay { nanos: u128 },
    /// Reset every DAC to 0 V and drive every channel.
    GroundAll,
    /// Reset every DAC to 0 V, keeping each channel's mode.
    GroundAllFast,
    /// Make exactly these channels the hard-grounded ones.
    SetGrounds { channels: Vec<usize> },
    /// Make exactly these channels the AC-grounded ones.
    SetAcGrounds { channels: Vec<usize> },
    /// Release every ground and disconnect every channel.
    FloatAll,
    /// Disconnect these channels from their DACs.
    OpenChannels { channels: Vec<usize> },
    /// Drive channels at voltages; the others at `base` when given.
    ConfigChannels { voltages: Vec<(u16, i32)>, base: Option<i32> },
    /// Set auxiliary DAC functions to voltages.
    ConfigAux { voltages: Vec<(AuxDACFn, i32)> },
    /// Toggle these selectors high and the others low.
    ConfigSelectors { selectors: Vec<usize> },
    /// Pulse one crosspoint.
    PulseOne { low: usize, high: usize, voltage: i32, nanos: u128 },
    /// Pulse the line of `low`, limited to `mask` when given.
    PulseSlice { low: usize, voltage: i32, nanos: u128, mask: Option<Vec<usize>> },
    /// Pulse channels through the high-speed drivers with per-cluster timings.
    PulseFastOpen { channels: Vec<FastChannel>, timings: Vec<Option<u128>>, preset: bool },
    /// Pulse every crosspoint, biasing rows or columns.
    PulseAll { voltage: i32, nanos: u128, order: BiasOrder },
    /// Deferred open current read on these channels.
    ReadOpen { highs: Vec<usize>, ground: bool },
    /// Deferred voltage read on these channels.
    VoltageRead { channels: Vec<usize>, averaging: bool },
    SetControlMode { mode: ControlMode },
    /// Assert the GPIO bits of `mask` with a direction per cluster.
    SetLogic { mask: u32, cl0: IODir, cl1: IODir, cl2: IODir, cl3: IODir },
    SetLogicLevel { level: LogicLevel },
    SetChannelRange { channels: Vec<usize>, range: OutputRange },
    /// Voltage ramp on one crosspoint with read-outs into the result buffer.
    Ramp {
        low: usize,
        high: usize,
        vstart: i32,
        vstep: i32,
        vstop: i32,
        pw_nanos: u128,
        inter_nanos: u128,
        num_pulses: usize,
        read_at: ReadAt,
        read_after: ReadAfter,
    },
    /// Repeated current reads into the result buffer; no low channels means
    /// open reads.
    ReadTrain {
        lows: Vec<usize>,
        highs: Vec<usize>,
        vread: i32,
        nreads: usize,
        inter_nanos: u128,
        ground: bool,
    },
    /// Repeated voltage reads into the result buffer.
    VoltageTrain { channels: Vec<usize>, averaging: bool, nreads: usize, inter_nanos: u128 },
}

/// The channels named by `(channel, voltage)` pairs.
pub open spec fn pair_channels(s: Seq<(u16, i32)>) -> Seq<usize> {
    Seq::new(s.len(), |i: int| s[i].0 as usize)
}

/// Judges a ramp: both channels exist, then the step and read directives
/// agree.
pub open spec fn ramp_verdict(
    low: usize,
    high: usize,
    vstart: i32,
    vstep: i32,
    vstop: i32,
    read_at: ReadAt,
    read_after: ReadAfter,
) -> Result<(), Arc2Error> {
    if channel_verdict(seq![low, high]) is Err {
        channel_verdict(seq![low, high])
    } else if !ramp_consistent(vstart as int, vstep as int, vstop as int) {
        Err(Arc2Error::InvalidConfiguration(ConfigIssue::RampDirection))
    } else if !read_directives_consistent(read_at, read_after) {
        Err(Arc2Error::InvalidConfiguration(ConfigIssue::ReadDirective))
    } else {
        Ok(())
    }
}

/// Whether an instruction may enter a batch, and if not, why.
pub open spec fn instruction_verdict(i: Instruction) -> Result<(), Arc2Error> {
    match i {
        Instruction::SetGrounds { channels } => channel_verdict(channels@),
        Instruction::SetAcGrounds { channels } => channel_verdict(channels@),
        Instruction::OpenChannels { channels } => channel_verdict(channels@),
        Instruction::ConfigChannels { voltages, base } => channel_verdict(pair_channels(voltages@)),
        Instruction::ConfigSelectors { selectors } => index_verdict(selectors@, NUM_SELECTORS),
        Instruction::PulseOne { low, high, .. } => channel_verdict(seq![low, high]),
        Instruction::PulseSlice { low, mask, .. } => match mask {
            Some(m) => channel_verdict(seq![low] + m@),
            None => channel_verdict(seq![low]),
        },
        Instruction::PulseFastOpen { channels, timings, .. } => fast_open_verdict(
            channels@,
            timings@,
        ),
        Instruction::ReadOpen { highs, .. } => channel_verdict(highs@),
        Instruction::VoltageRead { channels, .. } => channel_verdict(channels@),
        Instruction::SetChannelRange { channels, .. } => channel_verdict(channels@),
        Instruction::Ramp { low, high, vstart, vstep, vstop, read_at, read_after, .. } =>
            ramp_verdict(low, high, vstart, vstep, vstop, read_at, read_after),
        Instruction::ReadTrain { lows, highs, .. } => channel_verdict(lows@ + highs@),
        Instruction::VoltageTrain { channels, .. } => channel_verdict(channels@),
        _ => Ok(()),
    }
}

/// Result frames an instruction leaves in the result buffer once executed.
pub open spec fn instruction_frames(i: Instruction) -> nat {
    match i {
        Instruction::ReadOpen { .. } => 1,
        Instruction::VoltageRead { .. } => 1,
        Instruction::Ramp { vstart, vstep, vstop, num_pulses, read_at, read_after, .. } =>
            ramp_frame_count(
            ramp_step_count(vstart as int, vstep as int, vstop as int),
            num_pulses as int,
            read_at,
            read_after,
        ) as nat,
        Instruction::ReadTrain { nreads, .. } => nreads as nat,
        Instruction::VoltageTrain { nreads, .. } => nreads as nat,
        _ => 0,
    }
}

/// Result frames of a whole batch.
pub open spec fn batch_frames(s: Seq<Instruction>) -> nat
    decreases s.len(),
{
    if s.len() == 0 {
        0
    } else {
        batch_frames(s.drop_last()) + instruction_frames(s.last())
    }
}

pub proof fn lemma_batch_frames_push(s: Seq<Instruction>, i: Instruction)
    ensures
        batch_frames(s.push(i)) == batch_frames(s) + instruction_frames(i),
{
    assert(s.push(i).drop_last() =~= s);
}

/// The channels named by `(channel, voltage)` pairs, in order.
pub(crate) fn pair_channel_list(voltages: &Vec<(u16, i32)>) -> (r: Vec<usize>)
    ensures
        r@ == pair_channels(voltages@),
{
    let mut chans: Vec<usize> = Vec::new();
    let mut i: usize = 0;
    while i < voltages.len()
        invariant
            i <= voltages@.len(),
            chans@ == pair_channels(voltages@.take(i as int)),
        decreases voltages@.len() - i,
    {
        chans.push(voltages[i].0 as usize);
        i = i + 1;
        assert(chans@ =~= pair_channels(voltages@.take(i as int)));
    }
    assert(voltages@.take(voltages@.len() as int) =~= voltages@);
    chans
}

pub(crate) fn concat(a: &Vec<usize>, b: &Vec<usize>) -> (r: Vec<usize>)
    ensures
        r@ == a@ + b@,
{
    let mut r: Vec<usize> = Vec::new();
    let mut i: usize = 0;
    while i < a.len()
        invariant
            i <= a@.len(),
            r@ == a@.take(i as int),
        decreases a@.len() - i,
    {
        r.push(a[i]);
        i = i + 1;
        assert(r@ =~= a@.take(i as int));
    }
    let mut j: usize = 0;
    while j < b.len()
        invariant
            j <= b@.len(),
            r@ == a@ + b@.take(j as int),
        decreases b@.len() - j,
    {
        r.push(b[j]);
        j = j + 1;
        assert(r@ =~= a@ + b@.take(j as int));
    }
    assert(b@.take(b@.len() as int) =~= b@);
    r
}

/// Judges an instruction before it may enter a batch.
pub fn check_instruction(i: &Instruction) -> (r: Result<(), Arc2Error>)
    ensures
        r == instruction_verdict(*i),
{
    match i {
        Instruction::SetGrounds { channels } => check_channels(channels),
        Instruction::SetAcGrounds { channels } => check_channels(channels),
        Instruction::OpenChannels { channels } => check_channels(channels),
        Instruction::ConfigChannels { voltages, .. } => check_channels(&pair_channel_list(voltages)),
        Instruction::ConfigSelectors { selectors } => check_below(selectors, NUM_SELECTORS),
        Instruction::PulseOne { low, high, .. } => {
            let v = vec![*low, *high];
            assert(v@ =~= seq![*low, *high]);
            check_channels(&v)
        },
        Instruction::PulseSlice { low, mask, .. } => {
            let v = vec![*low];
            assert(v@ =~= seq![*low]);
            match mask {
                Some(m) => {
                    let all = concat(&v, m);
                    check_channels(&all)
                },
                None => check_channels(&v),
            }
        },
        Instruction::PulseFastOpen { channels, timings, .. } => check_fast_open(channels, timings),
        Instruction::ReadOpen { highs, .. } => check_channels(highs),
        Instruction::VoltageRead { channels, .. } => check_channels(channels),
        Instruction::SetChannelRange { channels, .. } => check_channels(channels),
        Instruction::Ramp { low, high, vstart, vstep, vstop, num_pulses, read_at, read_after, .. } => {
            let v = vec![*low, *high];
            assert(v@ =~= seq![*low, *high]);
            check_channels(&v)?;
            match plan_ramp(*vstart, *vstep, *vstop, *num_pulses, *read_at, *read_after) {
                Ok(_) => Ok(()),
                Err(e) => Err(e),
            }
        },
        Instruction::ReadTrain { lows, highs, .. } => {
            let all = concat(lows, highs);
            check_channels(&all)
        },
        Instruction::VoltageTrain { channels, .. } => check_channels(channels),
        _ => Ok(()),
    }
}

/// Counts the result frames of a valid instruction.
pub fn frames_of(i: &Instruction) -> (r: u128)
    requires
        instruction_verdict(*i) is Ok,
    ensures
        r == instruction_frames(*i),
{
    match i {
        Instruction::ReadOpen { .. } => 1,
        Instruction::VoltageRead { .. } => 1,
        Instruction::Ramp { vstart, vstep, vstop, num_pulses, read_at, read_after, .. } => {
            match plan_ramp(*vstart, *vstep, *vstop, *num_pulses, *read_at, *read_after) {
                Ok(plan) => plan.frames,
                Err(_) => 0,
            }
        },
        Instruction::ReadTrain { nreads, .. } => *nreads as u128,
        Instruction::VoltageTrain { nreads, .. } => *nreads as u128,
        _ => 0,
    }
}

} // verus!
