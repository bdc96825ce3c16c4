use vstd::prelude::*;
use crate::channels::{channel_verdict, check_channels, in_range, NUM_CHANNELS};
use crate::directives::{OutputRange, WaitFor};
use crate::error::{Arc2Error, ConfigIssue};
use crate::instruction::{
    concat, pair_channel_list, batch_frames, check_instruction, frames_of, instruction_frames, instruction_verdict,
    lemma_batch_frames_push, pair_channels, Instruction,
};
use crate::readout::{ascending, ascending_channels, lemma_ascending_permutation, occurrences, RESULT_MEMORY_BYTES, RESULT_SLABS};

verus! {

/// The electrical state of a channel once the buffered batch has run.
/// Grounding takes precedence: an opened channel that is still grounded is
/// grounded.
#[derive(Debug, Clone, Copy, PartialEq, Eq, Structural)]
pub enum LineState {
    Grounded,
    AcGrounded,
    Floating,
    Driven,
}

/// The per-channel state of the lines.
pub ghost struct Lines {
    pub grounded: Seq<bool>,
    pub ac_grounded: Seq<bool>,
    pub open: Seq<bool>,
    pub range: Seq<OutputRange>,
}

/// The abstract state of a session.
pub ghost struct SessionView {
    /// Instructions buffered for the next commit, oldest first.
    pub pending: Seq<Instruction>,
    /// Per channel: hard-grounded.
    pub grounded: Seq<bool>,
    /// Per channel: AC-grounded.
    pub ac_grounded: Seq<bool>,
    /// Per channel: disconnected from its DAC.
    pub open: Seq<bool>,
    /// Per channel: output range.
    pub range: Seq<OutputRange>,
    /// The lines as the last commit left them.
    pub committed: Lines,
    /// The failure that cancelled the batch being built, if any; it is
    /// reported by the next commit.
    pub failure: Option<Arc2Error>,
    /// A committed batch has not been reported complete.
    pub busy: bool,
    /// Result frames the buffered instructions will produce.
    pub staged: nat,
    /// Result frames committed and not yet drained.
    pub outstanding: nat,
    /// Frames of unknown number may still come from the transport.
    pub open_ended: bool,
}

/// The lines of a session as they stand.
pub open spec fn lines_of(v: SessionView) -> Lines {
    Lines { grounded: v.grounded, ac_grounded: v.ac_grounded, open: v.open, range: v.range }
}

impl SessionView {
    pub open spec fn well_formed(self) -> bool {
        &&& self.grounded.len() == NUM_CHANNELS
        &&& self.ac_grounded.len() == NUM_CHANNELS
        &&& self.open.len() == NUM_CHANNELS
        &&& self.range.len() == NUM_CHANNELS
        &&& self.committed.grounded.len() == NUM_CHANNELS
        &&& self.committed.ac_grounded.len() == NUM_CHANNELS
        &&& self.committed.open.len() == NUM_CHANNELS
        &&& self.committed.range.len() == NUM_CHANNELS
        &&& self.staged == batch_frames(self.pending)
        &&& self.staged + self.outstanding <= RESULT_SLABS
        &&& forall|k: int|
            0 <= k < self.pending.len() ==> (#[trigger] instruction_verdict(self.pending[k])) is Ok
    }

    /// The electrical state of channel `c`.
    pub open spec fn line_state(self, c: int) -> LineState {
        if self.grounded[c] {
            LineState::Grounded
        } else if self.ac_grounded[c] {
            LineState::AcGrounded
        } else if self.open[c] {
            LineState::Floating
        } else {
            LineState::Driven
        }
    }
}

/// Per channel: whether `chans` names it.
pub open spec fn mask_of(chans: Seq<usize>) -> Seq<bool> {
    Seq::new(NUM_CHANNELS as nat, |c: int| chans.contains(c as usize))
}

pub open spec fn no_lines() -> Seq<bool> {
    Seq::new(NUM_CHANNELS as nat, |c: int| false)
}

pub open spec fn all_lines() -> Seq<bool> {
    Seq::new(NUM_CHANNELS as nat, |c: int| true)
}

pub open spec fn union(a: Seq<bool>, b: Seq<bool>) -> Seq<bool> {
    Seq::new(NUM_CHANNELS as nat, |c: int| a[c] || b[c])
}

pub open spec fn minus(a: Seq<bool>, b: Seq<bool>) -> Seq<bool> {
    Seq::new(NUM_CHANNELS as nat, |c: int| a[c] && !b[c])
}

/// How an instruction changes the grounded, AC-grounded and open sets.
/// Opening a channel leaves its ground membership alone.
pub open spec fn line_effect(v: SessionView, i: Instruction) -> SessionView {
    match i {
        Instruction::SetGrounds { channels } => SessionView { grounded: mask_of(channels@), ..v },
        Instruction::SetAcGrounds { channels } => SessionView {
            ac_grounded: mask_of(channels@),
            ..v
        },
        Instruction::FloatAll => SessionView {
            grounded: no_lines(),
            ac_grounded: no_lines(),
            open: all_lines(),
            ..v
        },
        Instruction::OpenChannels { channels } => SessionView {
            open: union(v.open, mask_of(channels@)),
            ..v
        },
        Instruction::ConfigChannels { voltages, base } => SessionView {
            open: if base is Some {
                no_lines()
            } else {
                minus(v.open, mask_of(pair_channels(voltages@)))
            },
            ..v
        },
        Instruction::GroundAll => SessionView { open: no_lines(), ..v },
        Instruction::SetChannelRange { channels, range } => SessionView {
            range: ranged(v.range, mask_of(channels@), range),
            ..v
        },
        _ => v,
    }
}

/// Per channel: `range` where `sel` selects the channel, else as before.
pub open spec fn ranged(old: Seq<OutputRange>, sel: Seq<bool>, range: OutputRange) -> Seq<OutputRange> {
    Seq::new(NUM_CHANNELS as nat, |c: int| if sel[c] { range } else { old[c] })
}

/// The state once the batch being built is dropped: nothing buffered and
/// the lines as the last commit left them.
pub open spec fn discarded(v: SessionView) -> SessionView {
    SessionView {
        pending: Seq::empty(),
        staged: 0,
        grounded: v.committed.grounded,
        ac_grounded: v.committed.ac_grounded,
        open: v.committed.open,
        range: v.committed.range,
        failure: None,
        ..v
    }
}

/// The state after an append fails: nothing is buffered and nothing else
/// changes; the failure is kept, and the next commit reports it and drops
/// the batch.
pub open spec fn cancelled(v: SessionView, e: Arc2Error) -> SessionView {
    SessionView { failure: Some(e), ..v }
}

/// What an append does: once an append has failed since the last commit,
/// it is refused with that failure; otherwise an accepted instruction is
/// buffered, and a rejected one leaves everything as it was but records the
/// failure, so that the next commit hands over nothing.
pub open spec fn push_outcome(
    old: SessionView,
    new: SessionView,
    r: Result<(), Arc2Error>,
    i: Instruction,
) -> bool {
    match old.failure {
        Some(e) => r == Err::<(), Arc2Error>(e) && new == old,
        None => r == append_verdict(old, i) && match r {
            Ok(_) => new == appended(old, i),
            Err(e) => new == cancelled(old, e),
        },
    }
}

/// What a synchronous operation does: arguments that fail `verdict`
/// change nothing; otherwise the buffer is committed ahead of it.
pub open spec fn flush_outcome(
    old: SessionView,
    new: SessionView,
    r: Result<Vec<Instruction>, Arc2Error>,
    verdict: Result<(), Arc2Error>,
) -> bool {
    match verdict {
        Err(e) => r is Err && r->Err_0 == e && new == old,
        Ok(_) => commit_outcome(old, new, r),
    }
}

/// What an incremental ground update does; `verdict` judges its channels.
pub open spec fn ground_outcome(
    old: SessionView,
    new: SessionView,
    r: Result<(), Arc2Error>,
    verdict: Result<(), Arc2Error>,
    target: Seq<bool>,
    ac: bool,
) -> bool {
    match old.failure {
        Some(e) => r == Err::<(), Arc2Error>(e) && new == old,
        None => r == verdict && match r {
            Ok(_) => ground_update(old, new, target, ac),
            Err(e) => new == cancelled(old, e),
        },
    }
}

/// What a commit does: a cancelled batch is reported and nothing is handed
/// over; otherwise the buffered batch is handed over.
pub open spec fn commit_outcome(
    old: SessionView,
    new: SessionView,
    r: Result<Vec<Instruction>, Arc2Error>,
) -> bool {
    match old.failure {
        Some(e) => r is Err && r->Err_0 == e && new == discarded(old),
        None => r is Ok && r->Ok_0@ == old.pending && new == executed(old),
    }
}

/// The state after buffering an accepted instruction.
pub open spec fn appended(v: SessionView, i: Instruction) -> SessionView {
    let w = line_effect(v, i);
    SessionView { pending: v.pending.push(i), staged: v.staged + instruction_frames(i), ..w }
}

/// The state after buffering a whole batch, one instruction after another.
pub open spec fn appended_all(v: SessionView, s: Seq<Instruction>) -> SessionView
    decreases s.len(),
{
    if s.len() == 0 {
        v
    } else {
        appended(appended_all(v, s.drop_last()), s.last())
    }
}

/// Buffering instructions changes neither the recorded failure, nor the
/// lines of the last commit, nor the committed frames.
pub proof fn lemma_appended_all_keeps(v: SessionView, s: Seq<Instruction>)
    ensures
        appended_all(v, s).failure == v.failure,
        appended_all(v, s).committed == v.committed,
        appended_all(v, s).outstanding == v.outstanding,
    decreases s.len(),
{
    if s.len() > 0 {
        lemma_appended_all_keeps(v, s.drop_last());
    }
}

/// The error reported when the result memory cannot hold more frames.
pub open spec fn memory_exhausted() -> Arc2Error {
    Arc2Error::MemoryAccessFailure(RESULT_MEMORY_BYTES)
}

/// Whether an instruction may be buffered: it is valid and the result
/// memory can hold the frames it will produce.
pub open spec fn append_verdict(v: SessionView, i: Instruction) -> Result<(), Arc2Error> {
    match instruction_verdict(i) {
        Err(e) => Err(e),
        Ok(_) => if v.staged + v.outstanding + instruction_frames(i) <= RESULT_SLABS {
            Ok(())
        } else {
            Err(memory_exhausted())
        },
    }
}

/// Index of the first invalid instruction of a batch.
pub open spec fn first_invalid(s: Seq<Instruction>) -> int {
    crate::channels::first_index(s.len() as int, |k: int| instruction_verdict(s[k]) is Err)
}

/// Whether a batch may be buffered as a whole: the first invalid
/// instruction rejects it, and so does a lack of result memory.
pub open spec fn submit_verdict(v: SessionView, s: Seq<Instruction>) -> Result<(), Arc2Error> {
    if first_invalid(s) < s.len() {
        instruction_verdict(s[first_invalid(s)])
    } else if v.staged + v.outstanding + batch_frames(s) <= RESULT_SLABS {
        Ok(())
    } else {
        Err(memory_exhausted())
    }
}

/// The state after the buffered batch is committed to the transport.
pub open spec fn executed(v: SessionView) -> SessionView {
    SessionView {
        pending: Seq::empty(),
        busy: true,
        staged: 0,
        outstanding: v.outstanding + v.staged,
        committed: lines_of(v),
        ..v
    }
}

/// The state after one drain request, and whether a frame is due from the
/// transport: a counted frame first, then, while the number is unknown,
/// whatever the transport still holds.
pub open spec fn drained(v: SessionView) -> (SessionView, bool) {
    if v.outstanding > 0 {
        (SessionView { outstanding: (v.outstanding - 1) as nat, ..v }, true)
    } else {
        (v, v.open_ended)
    }
}

/// A ground-set update that leaves nothing to do buffers nothing; otherwise
/// it buffers one directive that names exactly the target set.
pub open spec fn ground_update(old: SessionView, new: SessionView, target: Seq<bool>, ac: bool) -> bool {
    let current = if ac { old.ac_grounded } else { old.grounded };
    if target == current {
        new == old
    } else {
        &&& new.pending.len() == old.pending.len() + 1
        &&& new == appended(old, new.pending.last())
        &&& if ac {
            new.pending.last() matches Instruction::SetAcGrounds { channels } && mask_of(channels@)
                == target
        } else {
            new.pending.last() matches Instruction::SetGrounds { channels } && mask_of(channels@)
                == target
        }
    }
}

/// Per channel: whether `chans` names it.
fn mask_from(chans: &Vec<usize>) -> (r: Vec<bool>)
    ensures
        r@ == mask_of(chans@),
{
    let mut r: Vec<bool> = Vec::new();
    let mut c: usize = 0;
    while c < NUM_CHANNELS
        invariant
            c <= NUM_CHANNELS,
            r@.len() == c,
            forall|k: int| 0 <= k < c ==> r@[k] == chans@.contains(k as usize),
        decreases NUM_CHANNELS - c,
    {
        let mut found = false;
        let mut i: usize = 0;
        while i < chans.len()
            invariant
                i <= chans@.len(),
                found == (exists|m: int| 0 <= m < i && chans@[m] == c),
            decreases chans@.len() - i,
        {
            if chans[i] == c {
                found = true;
            }
            i = i + 1;
        }
        proof {
            if found {
                let m = choose|m: int| 0 <= m < i && chans@[m] == c;
                assert(chans@.contains(c));
            }
        }
        r.push(found);
        c = c + 1;
    }
    assert(r@ =~= mask_of(chans@));
    r
}

/// The channels a mask selects, ascending.
fn mask_channels(m: &Vec<bool>) -> (r: Vec<usize>)
    requires
        m@.len() == NUM_CHANNELS,
    ensures
        mask_of(r@) == m@,
        in_range(r@),
{
    let mut r: Vec<usize> = Vec::new();
    let mut c: usize = 0;
    while c < NUM_CHANNELS
        invariant
            c <= NUM_CHANNELS,
            m@.len() == NUM_CHANNELS,
            forall|i: int| 0 <= i < r@.len() ==> r@[i] < c,
            forall|k: int| 0 <= k < NUM_CHANNELS ==> (r@.contains(k as usize) <==> (k < c && m@[k])),
        decreases NUM_CHANNELS - c,
    {
        if m[c] {
            let ghost before = r@;
            r.push(c);
            proof {
                assert forall|k: int| 0 <= k < NUM_CHANNELS implies (r@.contains(k as usize) <==> (k
                    < c + 1 && m@[k])) by {
                    if r@.contains(k as usize) {
                        let j = choose|j: int| 0 <= j < r@.len() && r@[j] == k as usize;
                        if j < before.len() {
                            assert(before[j] == k as usize);
                            assert(before.contains(k as usize));
                        }
                    }
                    if k < c + 1 && m@[k] {
                        if k < c {
                            assert(before.contains(k as usize));
                            let j = choose|j: int| 0 <= j < before.len() && before[j] == k as usize;
                            assert(r@[j] == k as usize);
                        } else {
                            assert(r@[before.len() as int] == k as usize);
                        }
                    }
                }
            }
        }
        c = c + 1;
    }
    assert(mask_of(r@) =~= m@);
    r
}

fn lines_union(a: &Vec<bool>, b: &Vec<bool>) -> (r: Vec<bool>)
    requires
        a@.len() == NUM_CHANNELS,
        b@.len() == NUM_CHANNELS,
    ensures
        r@ == union(a@, b@),
{
    let mut r: Vec<bool> = Vec::new();
    let mut c: usize = 0;
    while c < NUM_CHANNELS
        invariant
            c <= NUM_CHANNELS,
            a@.len() == NUM_CHANNELS,
            b@.len() == NUM_CHANNELS,
            r@.len() == c,
            forall|k: int| 0 <= k < c ==> r@[k] == (a@[k] || b@[k]),
        decreases NUM_CHANNELS - c,
    {
        r.push(a[c] || b[c]);
        c = c + 1;
    }
    assert(r@ =~= union(a@, b@));
    r
}

fn lines_minus(a: &Vec<bool>, b: &Vec<bool>) -> (r: Vec<bool>)
    requires
        a@.len() == NUM_CHANNELS,
        b@.len() == NUM_CHANNELS,
    ensures
        r@ == minus(a@, b@),
{
    let mut r: Vec<bool> = Vec::new();
    let mut c: usize = 0;
    while c < NUM_CHANNELS
        invariant
            c <= NUM_CHANNELS,
            a@.len() == NUM_CHANNELS,
            b@.len() == NUM_CHANNELS,
            r@.len() == c,
            forall|k: int| 0 <= k < c ==> r@[k] == (a@[k] && !b@[k]),
        decreases NUM_CHANNELS - c,
    {
        r.push(a[c] && !b[c]);
        c = c + 1;
    }
    assert(r@ =~= minus(a@, b@));
    r
}

fn uniform_lines(value: bool) -> (r: Vec<bool>)
    ensures
        r@ == (if value { all_lines() } else { no_lines() }),
{
    let mut r: Vec<bool> = Vec::new();
    let mut c: usize = 0;
    while c < NUM_CHANNELS
        invariant
            c <= NUM_CHANNELS,
            r@.len() == c,
            forall|k: int| 0 <= k < c ==> r@[k] == value,
        decreases NUM_CHANNELS - c,
    {
        r.push(value);
        c = c + 1;
    }
    assert(r@ =~= (if value { all_lines() } else { no_lines() }));
    r
}

fn same_lines(a: &Vec<bool>, b: &Vec<bool>) -> (r: bool)
    requires
        a@.len() == NUM_CHANNELS,
        b@.len() == NUM_CHANNELS,
    ensures
        r == (a@ == b@),
{
    let mut c: usize = 0;
    while c < NUM_CHANNELS
        invariant
            c <= NUM_CHANNELS,
            a@.len() == NUM_CHANNELS,
            b@.len() == NUM_CHANNELS,
            forall|k: int| 0 <= k < c ==> a@[k] == b@[k],
        decreases NUM_CHANNELS - c,
    {
        if a[c] != b[c] {
            return false;
        }
        c = c + 1;
    }
    assert(a@ =~= b@);
    true
}

/// An instrument session: the command buffer, the connection state the
/// buffered instructions leave behind, and the accounting of result frames.
pub struct Session {
    pending: Vec<Instruction>,
    grounded: Vec<bool>,
    ac_grounded: Vec<bool>,
    open: Vec<bool>,
    range: Vec<OutputRange>,
    base_grounded: Vec<bool>,
    base_ac_grounded: Vec<bool>,
    base_open: Vec<bool>,
    base_range: Vec<OutputRange>,
    failure: Option<Arc2Error>,
    busy: bool,
    staged: u64,
    outstanding: u64,
    open_ended: bool,
}

impl View for Session {
    type V = SessionView;

    closed spec fn view(&self) -> SessionView {
        SessionView {
            pending: self.pending@,
            grounded: self.grounded@,
            ac_grounded: self.ac_grounded@,
            open: self.open@,
            range: self.range@,
            committed: Lines {
                grounded: self.base_grounded@,
                ac_grounded: self.base_ac_grounded@,
                open: self.base_open@,
                range: self.base_range@,
            },
            failure: self.failure,
            busy: self.busy,
            staged: self.staged as nat,
            outstanding: self.outstanding as nat,
            open_ended: self.open_ended,
        }
    }
}

/// A copy of a vector of plain values.
fn copy_of<T: Copy>(v: &Vec<T>) -> (r: Vec<T>)
    ensures
        r@ == v@,
{
    let mut r: Vec<T> = Vec::new();
    let mut i: usize = 0;
    while i < v.len()
        invariant
            i <= v@.len(),
            r@ == v@.take(i as int),
        decreases v@.len() - i,
    {
        r.push(v[i]);
        i = i + 1;
        assert(r@ =~= v@.take(i as int));
    }
    assert(v@.take(v@.len() as int) =~= v@);
    r
}

/// A copy of an error.
fn copy_error(e: &Arc2Error) -> (r: Arc2Error)
    ensures
        r == *e,
{
    match e {
        Arc2Error::InvalidChannel(c) => Arc2Error::InvalidChannel(*c),
        Arc2Error::InvalidConfiguration(i) => Arc2Error::InvalidConfiguration(*i),
        Arc2Error::TransportFailure(t) => Arc2Error::TransportFailure(t.clone()),
        Arc2Error::MemoryAccessFailure(a) => Arc2Error::MemoryAccessFailure(*a),
        Arc2Error::DeviceNotFound(d) => Arc2Error::DeviceNotFound(*d),
        Arc2Error::UnknownDirective => Arc2Error::UnknownDirective,
    }
}

fn uniform_range(value: OutputRange) -> (r: Vec<OutputRange>)
    ensures
        r@ == Seq::new(NUM_CHANNELS as nat, |c: int| value),
{
    let mut r: Vec<OutputRange> = Vec::new();
    let mut c: usize = 0;
    while c < NUM_CHANNELS
        invariant
            c <= NUM_CHANNELS,
            r@.len() == c,
            forall|k: int| 0 <= k < c ==> r@[k] == value,
        decreases NUM_CHANNELS - c,
    {
        r.push(value);
        c = c + 1;
    }
    assert(r@ =~= Seq::new(NUM_CHANNELS as nat, |c: int| value));
    r
}

fn set_ranges(old: &Vec<OutputRange>, sel: &Vec<bool>, range: OutputRange) -> (r: Vec<OutputRange>)
    requires
        old@.len() == NUM_CHANNELS,
        sel@.len() == NUM_CHANNELS,
    ensures
        r@ == ranged(old@, sel@, range),
{
    let mut r: Vec<OutputRange> = Vec::new();
    let mut c: usize = 0;
    while c < NUM_CHANNELS
        invariant
            c <= NUM_CHANNELS,
            old@.len() == NUM_CHANNELS,
            sel@.len() == NUM_CHANNELS,
            r@.len() == c,
            forall|k: int| 0 <= k < c ==> r@[k] == (if sel@[k] { range } else { old@[k] }),
        decreases NUM_CHANNELS - c,
    {
        r.push(if sel[c] { range } else { old[c] });
        c = c + 1;
    }
    assert(r@ =~= ranged(old@, sel@, range));
    r
}

impl Session {
    pub open spec fn wf(&self) -> bool {
        self@.well_formed()
    }

    /// An idle session with an empty buffer, nothing grounded or opened and
    /// no result frames.
    pub fn new() -> (s: Session)
        ensures
            s.wf(),
            s@.pending.len() == 0,
            s@.grounded == no_lines(),
            s@.ac_grounded == no_lines(),
            s@.open == no_lines(),
            s@.range == Seq::new(NUM_CHANNELS as nat, |c: int| OutputRange::STD),
            s@.committed == lines_of(s@),
            s@.failure is None,
            !s@.busy,
            s@.outstanding == 0,
            !s@.open_ended,
    {
        Session {
            pending: Vec::new(),
            grounded: uniform_lines(false),
            ac_grounded: uniform_lines(false),
            open: uniform_lines(false),
            range: uniform_range(OutputRange::STD),
            base_grounded: uniform_lines(false),
            base_ac_grounded: uniform_lines(false),
            base_open: uniform_lines(false),
            base_range: uniform_range(OutputRange::STD),
            failure: None,
            busy: false,
            staged: 0,
            outstanding: 0,
            open_ended: false,
        }
    }

    /// Records a failed append for the next commit.
    fn cancel(&mut self, e: Arc2Error)
        requires
            old(self).wf(),
        ensures
            final(self).wf(),
            final(self)@ == cancelled(old(self)@, e),
    {
        self.failure = Some(e);
    }

    /// Buffers one instruction. A rejected instruction changes nothing but
    /// records its failure: later appends are refused with it, and the next
    /// commit reports it and hands over nothing.
    pub fn push(&mut self, instr: Instruction) -> (r: Result<(), Arc2Error>)
        requires
            old(self).wf(),
        ensures
            final(self).wf(),
            push_outcome(old(self)@, final(self)@, r, instr),
    {
        match &self.failure {
            Some(e) => {
                return Err(copy_error(e));
            },
            None => {},
        }
        match self.append(instr) {
            Ok(()) => Ok(()),
            Err(e) => {
                let kept = copy_error(&e);
                self.cancel(kept);
                Err(e)
            },
        }
    }

    /// Buffers one instruction after judging it; on failure nothing changes.
    fn append(&mut self, instr: Instruction) -> (r: Result<(), Arc2Error>)
        requires
            old(self).wf(),
            old(self)@.failure is None,
        ensures
            final(self).wf(),
            r == append_verdict(old(self)@, instr),
            r is Ok ==> final(self)@ == appended(old(self)@, instr),
            r is Err ==> final(self)@ == old(self)@,
    {
        check_instruction(&instr)?;
        let f = frames_of(&instr);
        if f > (RESULT_SLABS - self.staged - self.outstanding) as u128 {
            return Err(Arc2Error::MemoryAccessFailure(RESULT_MEMORY_BYTES));
        }
        match &instr {
            Instruction::SetGrounds { channels } => {
                self.grounded = mask_from(channels);
            },
            Instruction::SetAcGrounds { channels } => {
                self.ac_grounded = mask_from(channels);
            },
            Instruction::FloatAll => {
                self.grounded = uniform_lines(false);
                self.ac_grounded = uniform_lines(false);
                self.open = uniform_lines(true);
            },
            Instruction::OpenChannels { channels } => {
                let m = mask_from(channels);
                self.open = lines_union(&self.open, &m);
            },
            Instruction::ConfigChannels { voltages, base } => {
                match base {
                    Some(_) => {
                        self.open = uniform_lines(false);
                    },
                    None => {
                        let chans = pair_channel_list(voltages);
                        let m = mask_from(&chans);
                        self.open = lines_minus(&self.open, &m);
                    },
                }
            },
            Instruction::GroundAll => {
                self.open = uniform_lines(false);
            },
            Instruction::SetChannelRange { channels, range } => {
                let m = mask_from(channels);
                self.range = set_ranges(&self.range, &m, *range);
            },
            _ => {},
        }
        proof {
            lemma_batch_frames_push(self.pending@, instr);
        }
        self.staged = self.staged + f as u64;
        self.pending.push(instr);
        Ok(())
    }

    proof fn lemma_prefix_frames(s: Seq<Instruction>, k: int)
        requires
            0 <= k <= s.len(),
        ensures
            batch_frames(s.take(k)) <= batch_frames(s),
        decreases s.len(),
    {
        if k < s.len() {
            assert(s.drop_last().take(k) =~= s.take(k));
            Self::lemma_prefix_frames(s.drop_last(), k);
        } else {
            assert(s.take(k) =~= s);
        }
    }

    /// Buffers a whole batch. The first invalid instruction, or a lack of
    /// result memory for the batch's frames, rejects it all, buffers none of
    /// it and records the failure; a failure recorded before refuses it.
    pub fn submit(&mut self, batch: Vec<Instruction>) -> (r: Result<(), Arc2Error>)
        requires
            old(self).wf(),
        ensures
            final(self).wf(),
            old(self)@.failure is Some ==> r == Err::<(), Arc2Error>(old(self)@.failure->Some_0)
                && final(self)@ == old(self)@,
            old(self)@.failure is None ==> r == submit_verdict(old(self)@, batch@),
            old(self)@.failure is None && r is Ok ==> final(self)@ == appended_all(
                old(self)@,
                batch@,
            ),
            old(self)@.failure is None && r is Err ==> final(self)@ == cancelled(
                old(self)@,
                r->Err_0,
            ),
    {
        match &self.failure {
            Some(e) => {
                return Err(copy_error(e));
            },
            None => {},
        }
        match self.append_batch(batch) {
            Ok(()) => Ok(()),
            Err(e) => {
                let kept = copy_error(&e);
                self.cancel(kept);
                Err(e)
            },
        }
    }

    fn append_batch(&mut self, batch: Vec<Instruction>) -> (r: Result<(), Arc2Error>)
        requires
            old(self).wf(),
            old(self)@.failure is None,
        ensures
            final(self).wf(),
            r == submit_verdict(old(self)@, batch@),
            r is Ok ==> final(self)@ == appended_all(old(self)@, batch@),
            r is Err ==> final(self)@ == old(self)@,
    {
        let ghost p = |k: int| instruction_verdict(batch@[k]) is Err;
        let mut k: usize = 0;
        while k < batch.len()
            invariant
                k <= batch@.len(),
                p == (|k: int| instruction_verdict(batch@[k]) is Err),
                forall|j: int| 0 <= j < k ==> !#[trigger] p(j),
                self@ == old(self)@,
                self.wf(),
            decreases batch@.len() - k,
        {
            match check_instruction(&batch[k]) {
                Err(e) => {
                    proof {
                        crate::channels::lemma_first_index_unique(
                            batch@.len() as int,
                            p,
                            k as int,
                        );
                    }
                    return Err(e);
                },
                Ok(_) => {},
            }
            k = k + 1;
        }
        proof {
            crate::channels::lemma_first_index_unique(batch@.len() as int, p, batch@.len() as int);
            assert(first_invalid(batch@) == batch@.len());
        }
        let room: u128 = (RESULT_SLABS - self.staged - self.outstanding) as u128;
        let mut total: u128 = 0;
        let mut k: usize = 0;
        while k < batch.len()
            invariant
                k <= batch@.len(),
                forall|j: int| 0 <= j < batch@.len() ==> !#[trigger] p(j),
                p == (|k: int| instruction_verdict(batch@[k]) is Err),
                total == batch_frames(batch@.take(k as int)),
                total <= room,
                room == RESULT_SLABS - self@.staged - self@.outstanding,
                first_invalid(batch@) == batch@.len(),
                self@ == old(self)@,
                self.wf(),
            decreases batch@.len() - k,
        {
            assert(!p(k as int));
            let f = frames_of(&batch[k]);
            proof {
                assert(batch@.take(k as int + 1).drop_last() =~= batch@.take(k as int));
                assert(batch@.take(k as int + 1).last() == batch@[k as int]);
            }
            if f > room - total {
                proof {
                    Self::lemma_prefix_frames(batch@, k as int + 1);
                }
                return Err(Arc2Error::MemoryAccessFailure(RESULT_MEMORY_BYTES));
            }
            total = total + f;
            k = k + 1;
        }
        assert(batch@.take(batch@.len() as int) =~= batch@);
        let ghost start = self@;
        let ghost all = batch@;
        let mut rest = batch;
        let total_len = rest.len();
        let mut k: usize = 0;
        while rest.len() > 0
            invariant
                self.wf(),
                k <= all.len(),
                rest@ == all.skip(k as int),
                k + rest@.len() == all.len(),
                all.len() == total_len,
                forall|j: int| 0 <= j < all.len() ==> !#[trigger] p(j),
                p == (|k: int| instruction_verdict(all[k]) is Err),
                start.staged + start.outstanding + batch_frames(all) <= RESULT_SLABS,
                self@ == appended_all(start, all.take(k as int)),
                self@.staged == start.staged + batch_frames(all.take(k as int)),
                self@.outstanding == start.outstanding,
                self@.failure is None,
            decreases rest@.len(),
        {
            assert(!p(k as int));
            proof {
                assert(all.take(k as int + 1).drop_last() =~= all.take(k as int));
                assert(all.take(k as int + 1).last() == all[k as int]);
                Self::lemma_prefix_frames(all, k as int + 1);
                lemma_batch_frames_push(all.take(k as int), all[k as int]);
                assert(all.take(k as int).push(all[k as int]) =~= all.take(k as int + 1));
            }
            let instr = rest.remove(0);
            assert(rest@ =~= all.skip(k as int + 1));
            let res = self.append(instr);
            assert(res is Ok);
            k = k + 1;
        }
        assert(all.take(all.len() as int) =~= all);
        Ok(())
    }

    /// Commits the buffered batch: it is handed to the transport, the
    /// buffer starts a new batch, the session is busy until the transport
    /// reports completion, and the batch's frames become available. A batch
    /// cancelled by a failed append is not committed: its failure is
    /// returned, nothing is handed over, and a new batch starts.
    pub fn execute(&mut self) -> (r: Result<Vec<Instruction>, Arc2Error>)
        requires
            old(self).wf(),
        ensures
            final(self).wf(),
            commit_outcome(old(self)@, final(self)@, r),
    {
        let mut failure: Option<Arc2Error> = None;
        std::mem::swap(&mut failure, &mut self.failure);
        match failure {
            Some(e) => {
                self.pending = Vec::new();
                self.staged = 0;
                self.grounded = copy_of(&self.base_grounded);
                self.ac_grounded = copy_of(&self.base_ac_grounded);
                self.open = copy_of(&self.base_open);
                self.range = copy_of(&self.base_range);
                proof {
                    assert(batch_frames(Seq::<Instruction>::empty()) == 0);
                }
                return Err(e);
            },
            None => {},
        }
        let mut batch: Vec<Instruction> = Vec::new();
        std::mem::swap(&mut batch, &mut self.pending);
        self.outstanding = self.outstanding + self.staged;
        self.staged = 0;
        self.busy = true;
        self.base_grounded = copy_of(&self.grounded);
        self.base_ac_grounded = copy_of(&self.ac_grounded);
        self.base_open = copy_of(&self.open);
        self.base_range = copy_of(&self.range);
        proof {
            assert(batch_frames(Seq::<Instruction>::empty()) == 0);
        }
        Ok(batch)
    }

    /// Buffers a batch and commits it. When the batch is rejected, or an
    /// earlier append had failed, nothing is committed: the batch being
    /// built is dropped and the failure returned.
    pub fn execute_batch(&mut self, batch: Vec<Instruction>) -> (r: Result<Vec<Instruction>, Arc2Error>)
        requires
            old(self).wf(),
        ensures
            final(self).wf(),
            old(self)@.failure is Some ==> r is Err && r->Err_0 == old(self)@.failure->Some_0
                && final(self)@ == discarded(old(self)@),
            old(self)@.failure is None ==> (r is Err <==> submit_verdict(old(self)@, batch@) is Err),
            old(self)@.failure is None && r is Err ==> r->Err_0 == submit_verdict(
                old(self)@,
                batch@,
            )->Err_0 && final(self)@ == discarded(old(self)@),
            r is Ok ==> r->Ok_0@ == appended_all(old(self)@, batch@).pending
                && final(self)@ == executed(appended_all(old(self)@, batch@)),
    {
        proof {
            lemma_appended_all_keeps(old(self)@, batch@);
        }
        match self.submit(batch) {
            Ok(()) => self.execute(),
            Err(e) => {
                let _ = self.execute();
                Err(e)
            },
        }
    }

    /// Whether a committed batch has not been reported complete.
    pub fn busy(&self) -> (r: bool)
        ensures
            r == self@.busy,
    {
        self.busy
    }

    /// Whether an append has failed since the last commit, so that the next
    /// commit hands over nothing.
    pub fn is_cancelled(&self) -> (r: bool)
        ensures
            r == self@.failure is Some,
    {
        self.failure.is_some()
    }

    /// Records that the transport finished the committed batch.
    pub fn complete(&mut self)
        requires
            old(self).wf(),
        ensures
            final(self).wf(),
            final(self)@ == (SessionView { busy: false, ..old(self)@ }),
    {
        self.busy = false;
    }

    /// Records that the transport could not take a committed batch: it is
    /// no longer busy, and how many frames it holds is no longer known, so
    /// drains ask it until it reports none.
    pub fn transport_failed(&mut self)
        requires
            old(self).wf(),
        ensures
            final(self).wf(),
            final(self)@ == (SessionView {
                busy: false,
                outstanding: 0,
                open_ended: true,
                ..old(self)@
            }),
    {
        self.busy = false;
        self.outstanding = 0;
        self.open_ended = true;
    }

    /// Records that the transport had no frame to give.
    pub fn drain_ended(&mut self)
        requires
            old(self).wf(),
        ensures
            final(self).wf(),
            final(self)@ == (SessionView { open_ended: false, ..old(self)@ }),
    {
        self.open_ended = false;
    }

    /// Takes the oldest available result frame, if any. `true` means a
    /// frame is due from the transport; `false` means no data, which ends a
    /// drain loop.
    pub fn pick_one(&mut self) -> (r: bool)
        requires
            old(self).wf(),
        ensures
            final(self).wf(),
            (final(self)@, r) == drained(old(self)@),
    {
        if self.outstanding > 0 {
            self.outstanding = self.outstanding - 1;
            true
        } else {
            self.open_ended
        }
    }

    /// The output range of a channel once the buffered batch has run.
    pub fn channel_range(&self, ch: usize) -> (r: Result<OutputRange, Arc2Error>)
        requires
            self.wf(),
        ensures
            ch < NUM_CHANNELS ==> r == Ok::<OutputRange, Arc2Error>(self@.range[ch as int]),
            ch >= NUM_CHANNELS ==> r == Err::<OutputRange, Arc2Error>(Arc2Error::InvalidChannel(ch)),
    {
        if ch >= NUM_CHANNELS {
            return Err(Arc2Error::InvalidChannel(ch));
        }
        Ok(self.range[ch])
    }

    /// A tracker of the ground sets starting from the last commit, to follow
    /// the next committed batch.
    pub fn ground_tracker(&self) -> (t: GroundTracker)
        requires
            self.wf(),
        ensures
            t@ == (self@.committed.grounded, self@.committed.ac_grounded),
    {
        GroundTracker {
            grounded: copy_of(&self.base_grounded),
            ac_grounded: copy_of(&self.base_ac_grounded),
        }
    }

    /// Commits the buffer ahead of a blocking read train on one crosspoint.
    /// The train does not use the result buffer: it runs only while the
    /// buffer holds no frame and will receive none from the batch being
    /// committed, so that the transport's frames of the train can be told
    /// apart and consumed by the train itself.
    pub fn read_train(&mut self, low: usize, high: usize) -> (r: Result<Vec<Instruction>, Arc2Error>)
        requires
            old(self).wf(),
        ensures
            final(self).wf(),
            flush_outcome(old(self)@, final(self)@, r, train_verdict(old(self)@, low, high)),
    {
        let v = vec![low, high];
        assert(v@ =~= seq![low, high]);
        check_channels(&v)?;
        if self.staged > 0 || self.outstanding > 0 || self.open_ended {
            return Err(Arc2Error::InvalidConfiguration(ConfigIssue::ResultsPending));
        }
        self.execute()
    }

    /// Result frames committed and not yet drained.
    pub fn frames_outstanding(&self) -> (r: u64)
        ensures
            r == self@.outstanding,
    {
        self.outstanding
    }

    /// Number of buffered instructions.
    pub fn pending_len(&self) -> (r: usize)
        ensures
            r == self@.pending.len(),
    {
        self.pending.len()
    }

    /// The electrical state of a channel once the buffered batch has run.
    pub fn line_state(&self, ch: usize) -> (r: Result<LineState, Arc2Error>)
        requires
            self.wf(),
        ensures
            ch < NUM_CHANNELS ==> r == Ok::<LineState, Arc2Error>(self@.line_state(ch as int)),
            ch >= NUM_CHANNELS ==> r == Err::<LineState, Arc2Error>(Arc2Error::InvalidChannel(ch)),
    {
        if ch >= NUM_CHANNELS {
            return Err(Arc2Error::InvalidChannel(ch));
        }
        if self.grounded[ch] {
            Ok(LineState::Grounded)
        } else if self.ac_grounded[ch] {
            Ok(LineState::AcGrounded)
        } else if self.open[ch] {
            Ok(LineState::Floating)
        } else {
            Ok(LineState::Driven)
        }
    }

    /// Inserts a wait of `nanos` nanoseconds.
    pub fn delay(&mut self, nanos: u128) -> (r: Result<(), Arc2Error>)
        requires
            old(self).wf(),
        ensures
            final(self).wf(),
            push_outcome(old(self)@, final(self)@, r, Instruction::Delay { nanos }),
            old(self)@.failure is None ==> r is Ok,
    {
        self.push(Instruction::Delay { nanos })
    }

    /// Grounds every DAC and drives every channel at 0 V.
    pub fn ground_all(&mut self) -> (r: Result<(), Arc2Error>)
        requires
            old(self).wf(),
        ensures
            final(self).wf(),
            push_outcome(old(self)@, final(self)@, r, Instruction::GroundAll),
            old(self)@.failure is None ==> r is Ok,
    {
        self.push(Instruction::GroundAll)
    }

    /// Grounds every DAC, keeping each channel's mode.
    pub fn ground_all_fast(&mut self) -> (r: Result<(), Arc2Error>)
        requires
            old(self).wf(),
        ensures
            final(self).wf(),
            push_outcome(old(self)@, final(self)@, r, Instruction::GroundAllFast),
            old(self)@.failure is None ==> r is Ok,
    {
        self.push(Instruction::GroundAllFast)
    }

    /// Makes exactly `chans` the hard-grounded channels; an empty list
    /// clears all grounds.
    pub fn connect_to_gnd(&mut self, chans: Vec<usize>) -> (r: Result<(), Arc2Error>)
        requires
            old(self).wf(),
        ensures
            final(self).wf(),
            old(self)@.failure is None ==> r == channel_verdict(chans@),
            push_outcome(old(self)@, final(self)@, r, Instruction::SetGrounds { channels: chans }),
            r is Ok ==> final(self)@.grounded == mask_of(chans@),
    {
        self.push(Instruction::SetGrounds { channels: chans })
    }

    /// Makes exactly `chans` the AC-grounded channels; an empty list clears
    /// all AC grounds.
    pub fn connect_to_ac_gnd(&mut self, chans: Vec<usize>) -> (r: Result<(), Arc2Error>)
        requires
            old(self).wf(),
        ensures
            final(self).wf(),
            old(self)@.failure is None ==> r == channel_verdict(chans@),
            push_outcome(old(self)@, final(self)@, r, Instruction::SetAcGrounds { channels: chans }),
            r is Ok ==> final(self)@.ac_grounded == mask_of(chans@),
    {
        self.push(Instruction::SetAcGrounds { channels: chans })
    }

    fn update_grounds(&mut self, target: Vec<bool>, ac: bool) -> (r: Result<(), Arc2Error>)
        requires
            old(self).wf(),
            old(self)@.failure is None,
            target@.len() == NUM_CHANNELS,
        ensures
            final(self).wf(),
            r == Ok::<(), Arc2Error>(()),
            ground_update(old(self)@, final(self)@, target@, ac),
    {
        let unchanged = if ac {
            same_lines(&target, &self.ac_grounded)
        } else {
            same_lines(&target, &self.grounded)
        };
        if unchanged {
            return Ok(());
        }
        let list = mask_channels(&target);
        if ac {
            self.push(Instruction::SetAcGrounds { channels: list })
        } else {
            self.push(Instruction::SetGrounds { channels: list })
        }
    }

    /// Adds channels to the hard-grounded set; buffers nothing when they
    /// are all grounded already.
    pub fn gnd_add(&mut self, chans: Vec<usize>) -> (r: Result<(), Arc2Error>)
        requires
            old(self).wf(),
        ensures
            final(self).wf(),
            ground_outcome(
                old(self)@,
                final(self)@,
                r,
                channel_verdict(chans@),
                union(old(self)@.grounded, mask_of(chans@)),
                false,
            ),
    {
        match &self.failure {
            Some(e) => {
                return Err(copy_error(e));
            },
            None => {},
        }
        match check_channels(&chans) {
            Err(e) => {
                let kept = copy_error(&e);
                self.cancel(kept);
                return Err(e);
            },
            Ok(()) => {},
        }
        let m = mask_from(&chans);
        let target = lines_union(&self.grounded, &m);
        self.update_grounds(target, false)
    }

    /// Removes channels from the hard-grounded set; buffers nothing when
    /// none of them is grounded.
    pub fn gnd_remove(&mut self, chans: Vec<usize>) -> (r: Result<(), Arc2Error>)
        requires
            old(self).wf(),
        ensures
            final(self).wf(),
            ground_outcome(
                old(self)@,
                final(self)@,
                r,
                channel_verdict(chans@),
                minus(old(self)@.grounded, mask_of(chans@)),
                false,
            ),
    {
        match &self.failure {
            Some(e) => {
                return Err(copy_error(e));
            },
            None => {},
        }
        match check_channels(&chans) {
            Err(e) => {
                let kept = copy_error(&e);
                self.cancel(kept);
                return Err(e);
            },
            Ok(()) => {},
        }
        let m = mask_from(&chans);
        let target = lines_minus(&self.grounded, &m);
        self.update_grounds(target, false)
    }

    /// Adds channels to the AC-grounded set; buffers nothing when they are
    /// all AC-grounded already.
    pub fn gnd_ac_add(&mut self, chans: Vec<usize>) -> (r: Result<(), Arc2Error>)
        requires
            old(self).wf(),
        ensures
            final(self).wf(),
            ground_outcome(
                old(self)@,
                final(self)@,
                r,
                channel_verdict(chans@),
                union(old(self)@.ac_grounded, mask_of(chans@)),
                true,
            ),
    {
        match &self.failure {
            Some(e) => {
                return Err(copy_error(e));
            },
            None => {},
        }
        match check_channels(&chans) {
            Err(e) => {
                let kept = copy_error(&e);
                self.cancel(kept);
                return Err(e);
            },
            Ok(()) => {},
        }
        let m = mask_from(&chans);
        let target = lines_union(&self.ac_grounded, &m);
        self.update_grounds(target, true)
    }

    /// Removes channels from the AC-grounded set; buffers nothing when none
    /// of them is AC-grounded.
    pub fn gnd_ac_remove(&mut self, chans: Vec<usize>) -> (r: Result<(), Arc2Error>)
        requires
            old(self).wf(),
        ensures
            final(self).wf(),
            ground_outcome(
                old(self)@,
                final(self)@,
                r,
                channel_verdict(chans@),
                minus(old(self)@.ac_grounded, mask_of(chans@)),
                true,
            ),
    {
        match &self.failure {
            Some(e) => {
                return Err(copy_error(e));
            },
            None => {},
        }
        match check_channels(&chans) {
            Err(e) => {
                let kept = copy_error(&e);
                self.cancel(kept);
                return Err(e);
            },
            Ok(()) => {},
        }
        let m = mask_from(&chans);
        let target = lines_minus(&self.ac_grounded, &m);
        self.update_grounds(target, true)
    }

    /// Releases every ground and disconnects every channel.
    pub fn float_all(&mut self) -> (r: Result<(), Arc2Error>)
        requires
            old(self).wf(),
        ensures
            final(self).wf(),
            push_outcome(old(self)@, final(self)@, r, Instruction::FloatAll),
            old(self)@.failure is None ==> r is Ok,
    {
        self.push(Instruction::FloatAll)
    }

    /// Disconnects channels from their DACs. Ground membership is left as
    /// it is: a grounded channel stays grounded until released.
    pub fn open_channels(&mut self, chans: Vec<usize>) -> (r: Result<(), Arc2Error>)
        requires
            old(self).wf(),
        ensures
            final(self).wf(),
            final(self)@.grounded == old(self)@.grounded,
            final(self)@.ac_grounded == old(self)@.ac_grounded,
            old(self)@.failure is None ==> r == channel_verdict(chans@),
            push_outcome(old(self)@, final(self)@, r, Instruction::OpenChannels { channels: chans }),
    {
        self.push(Instruction::OpenChannels { channels: chans })
    }

    /// Drives channels at voltages (microvolts); the others at `base` when
    /// given, else left as they are.
    pub fn config_channels(&mut self, voltages: Vec<(u16, i32)>, base: Option<i32>) -> (r: Result<(), Arc2Error>)
        requires
            old(self).wf(),
        ensures
            final(self).wf(),
            old(self)@.failure is None ==> r == channel_verdict(pair_channels(voltages@)),
            push_outcome(old(self)@, final(self)@, r, Instruction::ConfigChannels { voltages, base },),
    {
        self.push(Instruction::ConfigChannels { voltages, base })
    }

    /// Sets auxiliary DAC functions to voltages (microvolts).
    pub fn config_aux_channels(&mut self, voltages: Vec<(crate::directives::AuxDACFn, i32)>) -> (r: Result<(), Arc2Error>)
        requires
            old(self).wf(),
        ensures
            final(self).wf(),
            push_outcome(old(self)@, final(self)@, r, Instruction::ConfigAux { voltages }),
            old(self)@.failure is None ==> r is Ok,
    {
        self.push(Instruction::ConfigAux { voltages })
    }

    /// Toggles the listed selectors high and all others low.
    pub fn config_selectors(&mut self, selectors: Vec<usize>) -> (r: Result<(), Arc2Error>)
        requires
            old(self).wf(),
        ensures
            final(self).wf(),
            old(self)@.failure is None ==> r == crate::channels::index_verdict(selectors@, crate::channels::NUM_SELECTORS),
            push_outcome(old(self)@, final(self)@, r, Instruction::ConfigSelectors { selectors }),
    {
        self.push(Instruction::ConfigSelectors { selectors })
    }

    /// Pulses one crosspoint.
    pub fn pulse_one(&mut self, low: usize, high: usize, voltage: i32, nanos: u128) -> (r: Result<(), Arc2Error>)
        requires
            old(self).wf(),
        ensures
            final(self).wf(),
            old(self)@.failure is None ==> r == channel_verdict(seq![low, high]),
            push_outcome(old(self)@, final(self)@, r, Instruction::PulseOne { low, high, voltage, nanos },),
    {
        self.push(Instruction::PulseOne { low, high, voltage, nanos })
    }

    /// Pulses the whole line of `chan`.
    pub fn pulse_slice(&mut self, chan: usize, voltage: i32, nanos: u128) -> (r: Result<(), Arc2Error>)
        requires
            old(self).wf(),
        ensures
            final(self).wf(),
            old(self)@.failure is None ==> r == channel_verdict(seq![chan]),
            push_outcome(old(self)@, final(self)@, r, Instruction::PulseSlice { low: chan, voltage, nanos, mask: None },),
    {
        self.push(Instruction::PulseSlice { low: chan, voltage, nanos, mask: None })
    }

    /// Pulses the channels of `mask` against `chan`.
    pub fn pulse_slice_masked(&mut self, chan: usize, mask: Vec<usize>, voltage: i32, nanos: u128) -> (r: Result<(), Arc2Error>)
        requires
            old(self).wf(),
        ensures
            final(self).wf(),
            old(self)@.failure is None ==> r == channel_verdict(seq![chan] + mask@),
            push_outcome(old(self)@, final(self)@, r, Instruction::PulseSlice { low: chan, voltage, nanos, mask: Some(mask) },),
    {
        self.push(Instruction::PulseSlice { low: chan, voltage, nanos, mask: Some(mask) })
    }

    /// Pulses channels through the high-speed drivers. `timings` holds one
    /// optional pulse width per cluster of eight channels.
    pub fn pulse_slice_fast_open(
        &mut self,
        chans: Vec<crate::fast::FastChannel>,
        timings: Vec<Option<u128>>,
        preset: bool,
    ) -> (r: Result<(), Arc2Error>)
        requires
            old(self).wf(),
        ensures
            final(self).wf(),
            old(self)@.failure is None ==> r == crate::fast::fast_open_verdict(chans@, timings@),
            push_outcome(old(self)@, final(self)@, r, Instruction::PulseFastOpen { channels: chans, timings, preset },),
    {
        self.push(Instruction::PulseFastOpen { channels: chans, timings, preset })
    }

    /// Pulses every crosspoint, biasing rows or columns.
    pub fn pulse_all(&mut self, voltage: i32, nanos: u128, order: crate::directives::BiasOrder) -> (r: Result<(), Arc2Error>)
        requires
            old(self).wf(),
        ensures
            final(self).wf(),
            push_outcome(old(self)@, final(self)@, r, Instruction::PulseAll { voltage, nanos, order }),
            old(self)@.failure is None ==> r is Ok,
    {
        self.push(Instruction::PulseAll { voltage, nanos, order })
    }

    /// Buffers an open current read on `highs` whose frame goes to the
    /// result buffer; the channels are grounded afterwards unless
    /// `ground_after` is `Some(false)`.
    pub fn read_slice_open_deferred(&mut self, highs: Vec<usize>, ground_after: Option<bool>) -> (r: Result<(), Arc2Error>)
        requires
            old(self).wf(),
        ensures
            final(self).wf(),
            push_outcome(old(self)@, final(self)@, r, Instruction::ReadOpen { highs, ground: ground_after != Some(false) },),
    {
        let ground = match ground_after {
            Some(g) => g,
            None => true,
        };
        self.push(Instruction::ReadOpen { highs, ground })
    }

    /// Buffers a voltage read whose frame goes to the result buffer.
    pub fn vread_channels_deferred(&mut self, chans: Vec<usize>, averaging: bool) -> (r: Result<(), Arc2Error>)
        requires
            old(self).wf(),
        ensures
            final(self).wf(),
            push_outcome(old(self)@, final(self)@, r, Instruction::VoltageRead { channels: chans, averaging },),
    {
        self.push(Instruction::VoltageRead { channels: chans, averaging })
    }

    pub fn set_control_mode(&mut self, mode: crate::directives::ControlMode) -> (r: Result<(), Arc2Error>)
        requires
            old(self).wf(),
        ensures
            final(self).wf(),
            push_outcome(old(self)@, final(self)@, r, Instruction::SetControlMode { mode }),
            old(self)@.failure is None ==> r is Ok,
    {
        self.push(Instruction::SetControlMode { mode })
    }

    /// Asserts the GPIO bits of `mask`; each cluster's direction defaults
    /// to output.
    pub fn set_logic(
        &mut self,
        mask: u32,
        cl0: Option<crate::directives::IODir>,
        cl1: Option<crate::directives::IODir>,
        cl2: Option<crate::directives::IODir>,
        cl3: Option<crate::directives::IODir>,
    ) -> (r: Result<(), Arc2Error>)
        requires
            old(self).wf(),
        ensures
            final(self).wf(),
            push_outcome(
                old(self)@,
                final(self)@,
                r,
                Instruction::SetLogic {
                    mask,
                    cl0: direction_or_output(cl0),
                    cl1: direction_or_output(cl1),
                    cl2: direction_or_output(cl2),
                    cl3: direction_or_output(cl3),
                },
            ),
            old(self)@.failure is None ==> r is Ok,
    {
        let cl0 = output_unless(cl0);
        let cl1 = output_unless(cl1);
        let cl2 = output_unless(cl2);
        let cl3 = output_unless(cl3);
        self.push(Instruction::SetLogic { mask, cl0, cl1, cl2, cl3 })
    }

    pub fn set_logic_level(&mut self, level: crate::directives::LogicLevel) -> (r: Result<(), Arc2Error>)
        requires
            old(self).wf(),
        ensures
            final(self).wf(),
            push_outcome(old(self)@, final(self)@, r, Instruction::SetLogicLevel { level }),
            old(self)@.failure is None ==> r is Ok,
    {
        self.push(Instruction::SetLogicLevel { level })
    }

    /// Selects the output range of channels.
    pub fn set_channel_range(&mut self, chans: Vec<usize>, range: crate::directives::OutputRange) -> (r: Result<(), Arc2Error>)
        requires
            old(self).wf(),
        ensures
            final(self).wf(),
            r is Ok ==> forall|c: int|
                0 <= c < NUM_CHANNELS ==> #[trigger] final(self)@.range[c] == if chans@.contains(
                    c as usize,
                ) {
                    range
                } else {
                    old(self)@.range[c]
                },
            old(self)@.failure is None ==> r == channel_verdict(chans@),
            push_outcome(old(self)@, final(self)@, r, Instruction::SetChannelRange { channels: chans, range },),
    {
        self.push(Instruction::SetChannelRange { channels: chans, range })
    }

    /// Buffers a voltage ramp on one crosspoint. An inconsistent ramp is
    /// rejected before anything is buffered.
    pub fn generate_ramp(
        &mut self,
        low: usize,
        high: usize,
        vstart: i32,
        vstep: i32,
        vstop: i32,
        pw_nanos: u128,
        inter_nanos: u128,
        num_pulses: usize,
        read_at: crate::directives::ReadAt,
        read_after: crate::directives::ReadAfter,
    ) -> (r: Result<(), Arc2Error>)
        requires
            old(self).wf(),
        ensures
            final(self).wf(),
            push_outcome(old(self)@, final(self)@, r, Instruction::Ramp {
                    low,
                    high,
                    vstart,
                    vstep,
                    vstop,
                    pw_nanos,
                    inter_nanos,
                    num_pulses,
                    read_at,
                    read_after,
                },),
    {
        self.push(
            Instruction::Ramp {
                low,
                high,
                vstart,
                vstep,
                vstop,
                pw_nanos,
                inter_nanos,
                num_pulses,
                read_at,
                read_after,
            },
        )
    }

    /// Buffers `nreads` current reads of `highs`, biased against `lows`
    /// (open reads when `lows` is empty); each read leaves one frame.
    pub fn generate_read_train(
        &mut self,
        lows: Vec<usize>,
        highs: Vec<usize>,
        vread: i32,
        nreads: usize,
        inter_nanos: u128,
        ground: bool,
    ) -> (r: Result<(), Arc2Error>)
        requires
            old(self).wf(),
        ensures
            final(self).wf(),
            push_outcome(old(self)@, final(self)@, r, Instruction::ReadTrain { lows, highs, vread, nreads, inter_nanos, ground },),
    {
        self.push(Instruction::ReadTrain { lows, highs, vread, nreads, inter_nanos, ground })
    }

    /// Buffers `nreads` voltage reads of `chans`; each leaves one frame.
    pub fn generate_vread_train(
        &mut self,
        chans: Vec<usize>,
        averaging: bool,
        nreads: usize,
        inter_nanos: u128,
    ) -> (r: Result<(), Arc2Error>)
        requires
            old(self).wf(),
        ensures
            final(self).wf(),
            push_outcome(old(self)@, final(self)@, r, Instruction::VoltageTrain { channels: chans, averaging, nreads, inter_nanos },),
    {
        self.push(Instruction::VoltageTrain { channels: chans, averaging, nreads, inter_nanos })
    }

    /// Commits the buffer ahead of a synchronous operation on `chans`, once
    /// they are known to exist.
    fn flush_for(&mut self, chans: &Vec<usize>) -> (r: Result<Vec<Instruction>, Arc2Error>)
        requires
            old(self).wf(),
        ensures
            final(self).wf(),
            flush_outcome(old(self)@, final(self)@, r, channel_verdict(chans@)),
    {
        check_channels(chans)?;
        self.execute()
    }

    /// Commits the buffer ahead of a single-crosspoint read (or pulse and
    /// read) and returns the committed batch.
    pub fn read_one(&mut self, low: usize, high: usize) -> (r: Result<Vec<Instruction>, Arc2Error>)
        requires
            old(self).wf(),
        ensures
            final(self).wf(),
            flush_outcome(old(self)@, final(self)@, r, channel_verdict(seq![low, high])),
    {
        let v = vec![low, high];
        assert(v@ =~= seq![low, high]);
        self.flush_for(&v)
    }

    /// Commits the buffer ahead of a read (or pulse and read) of the line
    /// of `chan`.
    pub fn read_slice(&mut self, chan: usize) -> (r: Result<Vec<Instruction>, Arc2Error>)
        requires
            old(self).wf(),
        ensures
            final(self).wf(),
            flush_outcome(old(self)@, final(self)@, r, channel_verdict(seq![chan])),
            channel_verdict(seq![chan]) == (if chan < NUM_CHANNELS {
                Ok::<(), Arc2Error>(())
            } else {
                Err(Arc2Error::InvalidChannel(chan))
            }),
    {
        let v = vec![chan];
        assert(v@ =~= seq![chan]);
        proof {
            if chan >= NUM_CHANNELS {
                crate::channels::lemma_first_index_unique(1, |i: int| v@[i] >= NUM_CHANNELS, 0);
            }
        }
        self.flush_for(&v)
    }

    /// Commits the buffer ahead of a masked read (or pulse and read) of the
    /// line of `chan`.
    pub fn read_slice_masked(&mut self, chan: usize, mask: &Vec<usize>) -> (r: Result<Vec<Instruction>, Arc2Error>)
        requires
            old(self).wf(),
        ensures
            final(self).wf(),
            flush_outcome(old(self)@, final(self)@, r, channel_verdict(seq![chan] + mask@)),
    {
        let head = vec![chan];
        assert(head@ =~= seq![chan]);
        let v = concat(&head, mask);
        self.flush_for(&v)
    }

    /// Commits the buffer ahead of an open current read of `highs`.
    pub fn read_slice_open(&mut self, highs: &Vec<usize>) -> (r: Result<Vec<Instruction>, Arc2Error>)
        requires
            old(self).wf(),
        ensures
            final(self).wf(),
            flush_outcome(old(self)@, final(self)@, r, channel_verdict(highs@)),
    {
        self.flush_for(highs)
    }

    /// Commits the buffer ahead of a voltage read of `chans` and returns,
    /// with the committed batch, the order of the values read: ascending
    /// channel order whatever the order given.
    pub fn vread_channels(&mut self, chans: &Vec<usize>) -> (r: Result<(Vec<Instruction>, Vec<usize>), Arc2Error>)
        requires
            old(self).wf(),
        ensures
            final(self).wf(),
            flush_outcome(
                old(self)@,
                final(self)@,
                match r {
                    Ok(p) => Ok(p.0),
                    Err(e) => Err(e),
                },
                channel_verdict(chans@),
            ),
            r is Ok ==> r->Ok_0.1@ == ascending(chans@) && r->Ok_0.1@.len() == chans@.len()
                && forall|c: usize| occurrences(r->Ok_0.1@, c) == occurrences(chans@, c),
    {
        let batch = self.flush_for(chans)?;
        let order = ascending_channels(chans);
        proof {
            lemma_ascending_permutation(chans@);
        }
        Ok((batch, order))
    }

    /// Commits the buffer ahead of driving `inputs` (channel, microvolts)
    /// and reading current on `outputs`, which must be disjoint from them.
    pub fn mac(&mut self, inputs: &Vec<(usize, i32)>, outputs: &Vec<usize>) -> (r: Result<Vec<Instruction>, Arc2Error>)
        requires
            old(self).wf(),
        ensures
            final(self).wf(),
            flush_outcome(old(self)@, final(self)@, r, mac_verdict(inputs@, outputs@)),
    {
        let mut ins: Vec<usize> = Vec::new();
        let mut i: usize = 0;
        while i < inputs.len()
            invariant
                i <= inputs@.len(),
                ins@ == input_channels(inputs@.take(i as int)),
            decreases inputs@.len() - i,
        {
            ins.push(inputs[i].0);
            i = i + 1;
            assert(ins@ =~= input_channels(inputs@.take(i as int)));
        }
        assert(inputs@.take(inputs@.len() as int) =~= inputs@);
        let all = concat(&ins, outputs);
        check_channels(&all)?;
        assert(ins@ == input_channels(inputs@));
        let ghost p = |k: int| input_channels(inputs@).contains(outputs@[k]);
        let mut k: usize = 0;
        while k < outputs.len()
            invariant
                k <= outputs@.len(),
                p == (|k: int| input_channels(inputs@).contains(outputs@[k])),
                ins@ == input_channels(inputs@),
                all@ == ins@ + outputs@,
                channel_verdict(all@) is Ok,
                forall|m: int| 0 <= m < k ==> !#[trigger] p(m),
                self@ == old(self)@,
                self.wf(),
            decreases outputs@.len() - k,
        {
            let mut found = false;
            let mut m: usize = 0;
            while m < ins.len()
                invariant
                    m <= ins@.len(),
                    k < outputs@.len(),
                    found == (exists|t: int| 0 <= t < m && ins@[t] == outputs@[k as int]),
                decreases ins@.len() - m,
            {
                if ins[m] == outputs[k] {
                    found = true;
                }
                m = m + 1;
            }
            if found {
                proof {
                    let t = choose|t: int| 0 <= t < m && ins@[t] == outputs@[k as int];
                    assert(ins@.contains(outputs@[k as int]));
                    crate::channels::lemma_first_index_unique(outputs@.len() as int, p, k as int);
                }
                return Err(
                    Arc2Error::InvalidConfiguration(
                        ConfigIssue::OverlappingChannels { channel: outputs[k] },
                    ),
                );
            }
            proof {
                assert(!ins@.contains(outputs@[k as int]));
            }
            k = k + 1;
        }
        proof {
            crate::channels::lemma_first_index_unique(outputs@.len() as int, p, outputs@.len() as int);
        }
        self.execute()
    }
}

/// Whether a read train may run: both channels exist, and no result frame
/// is waiting or about to come.
pub open spec fn train_verdict(v: SessionView, low: usize, high: usize) -> Result<(), Arc2Error> {
    if channel_verdict(seq![low, high]) is Err {
        channel_verdict(seq![low, high])
    } else if v.staged > 0 || v.outstanding > 0 || v.open_ended {
        Err(Arc2Error::InvalidConfiguration(ConfigIssue::ResultsPending))
    } else {
        Ok(())
    }
}

/// How an instruction changes the hard- and AC-ground sets.
pub open spec fn ground_effect(g: Seq<bool>, a: Seq<bool>, i: Instruction) -> (Seq<bool>, Seq<bool>) {
    match i {
        Instruction::SetGrounds { channels } => (mask_of(channels@), a),
        Instruction::SetAcGrounds { channels } => (g, mask_of(channels@)),
        Instruction::FloatAll => (no_lines(), no_lines()),
        _ => (g, a),
    }
}

/// The ground sets follow a session's lines exactly.
pub proof fn lemma_ground_effect_matches(v: SessionView, i: Instruction)
    ensures
        ground_effect(v.grounded, v.ac_grounded, i) == (
            line_effect(v, i).grounded,
            line_effect(v, i).ac_grounded,
        ),
{
}

/// Follows the hard- and AC-ground sets through a committed batch, for a
/// transport whose opening of channels also releases their grounds: after
/// each opening it names the sets to restore.
pub struct GroundTracker {
    grounded: Vec<bool>,
    ac_grounded: Vec<bool>,
}

impl View for GroundTracker {
    type V = (Seq<bool>, Seq<bool>);

    closed spec fn view(&self) -> (Seq<bool>, Seq<bool>) {
        (self.grounded@, self.ac_grounded@)
    }
}

impl GroundTracker {
    /// Takes in the next instruction of the batch. For an opening it
    /// returns the hard- and AC-grounded channels to restore, ascending.
    pub fn observe(&mut self, instr: &Instruction) -> (r: Option<(Vec<usize>, Vec<usize>)>)
        requires
            old(self)@.0.len() == NUM_CHANNELS,
            old(self)@.1.len() == NUM_CHANNELS,
        ensures
            final(self)@ == ground_effect(old(self)@.0, old(self)@.1, *instr),
            r is Some <==> *instr is OpenChannels,
            r is Some ==> mask_of(r->Some_0.0@) == old(self)@.0 && mask_of(r->Some_0.1@)
                == old(self)@.1,
    {
        match instr {
            Instruction::SetGrounds { channels } => {
                self.grounded = mask_from(channels);
                None
            },
            Instruction::SetAcGrounds { channels } => {
                self.ac_grounded = mask_from(channels);
                None
            },
            Instruction::FloatAll => {
                self.grounded = uniform_lines(false);
                self.ac_grounded = uniform_lines(false);
                None
            },
            Instruction::OpenChannels { .. } => {
                Some((mask_channels(&self.grounded), mask_channels(&self.ac_grounded)))
            },
            _ => None,
        }
    }
}

/// A rejected append cancels the batch being built: the next commit fails
/// with the same error, hands over no instruction, leaves the committed
/// frames and the busy state as they were, and returns the lines to the
/// last commit.
pub proof fn lemma_rejected_append_cancels(
    v: SessionView,
    i: Instruction,
    w: SessionView,
    r: Result<(), Arc2Error>,
    x: SessionView,
    c: Result<Vec<Instruction>, Arc2Error>,
)
    requires
        v.failure is None,
        append_verdict(v, i) is Err,
        push_outcome(v, w, r, i),
        commit_outcome(w, x, c),
    ensures
        r is Err,
        c is Err,
        c->Err_0 == r->Err_0,
        x.pending.len() == 0,
        x.staged == 0,
        x.outstanding == v.outstanding,
        x.busy == v.busy,
        lines_of(x) == v.committed,
        x.failure is None,
{
}

/// Once the batch is cancelled, every append is refused and changes
/// nothing, so no later instruction joins it.
pub proof fn lemma_cancelled_refuses(
    w: SessionView,
    j: Instruction,
    w2: SessionView,
    r: Result<(), Arc2Error>,
)
    requires
        w.failure is Some,
        push_outcome(w, w2, r, j),
    ensures
        r == Err::<(), Arc2Error>(w.failure->Some_0),
        w2 == w,
{
}

/// The channels of `(channel, voltage)` inputs.
pub open spec fn input_channels(s: Seq<(usize, i32)>) -> Seq<usize> {
    Seq::new(s.len(), |i: int| s[i].0)
}

/// Index of the first output that is also an input.
pub open spec fn first_overlap(inputs: Seq<(usize, i32)>, outputs: Seq<usize>) -> int {
    crate::channels::first_index(
        outputs.len() as int,
        |k: int| input_channels(inputs).contains(outputs[k]),
    )
}

/// Whether a multiply-accumulate operation may run: every channel exists,
/// and then the first output that is also an input rejects it.
pub open spec fn mac_verdict(inputs: Seq<(usize, i32)>, outputs: Seq<usize>) -> Result<(), Arc2Error> {
    let k = first_overlap(inputs, outputs);
    if channel_verdict(input_channels(inputs) + outputs) is Err {
        channel_verdict(input_channels(inputs) + outputs)
    } else if k < outputs.len() {
        Err(Arc2Error::InvalidConfiguration(ConfigIssue::OverlappingChannels { channel: outputs[k] }))
    } else {
        Ok(())
    }
}

/// The GPIO direction given, output when none is.
pub open spec fn direction_or_output(d: Option<crate::directives::IODir>) -> crate::directives::IODir {
    match d {
        Some(x) => x,
        None => crate::directives::IODir::OUT,
    }
}

fn output_unless(d: Option<crate::directives::IODir>) -> (r: crate::directives::IODir)
    ensures
        r == direction_or_output(d),
{
    match d {
        Some(x) => x,
        None => crate::directives::IODir::OUT,
    }
}

/// The state after `k` successive drain requests.
pub open spec fn drain_times(v: SessionView, k: nat) -> SessionView
    decreases k,
{
    if k == 0 {
        v
    } else {
        drained(drain_times(v, (k - 1) as nat)).0
    }
}

proof fn lemma_drain_times(v: SessionView, k: nat)
    requires
        k <= v.outstanding,
    ensures
        drain_times(v, k).outstanding == v.outstanding - k,
        drain_times(v, k).open_ended == v.open_ended,
    decreases k,
{
    if k > 0 {
        lemma_drain_times(v, (k - 1) as nat);
    }
}

/// Opening channels never changes which channels are grounded or
/// AC-grounded; so grounding channels and then opening the same channels
/// leaves each of them open and still grounded, and its electrical state
/// is grounded.
pub proof fn lemma_open_keeps_ground(v: SessionView, grounds: Vec<usize>, opens: Vec<usize>)
    requires
        v.well_formed(),
        grounds@ == opens@,
    ensures
        line_effect(v, Instruction::OpenChannels { channels: opens }).grounded == v.grounded,
        line_effect(v, Instruction::OpenChannels { channels: opens }).ac_grounded == v.ac_grounded,
        forall|c: int|
            0 <= c < NUM_CHANNELS && #[trigger] grounds@.contains(c as usize) ==> {
                let w = appended(
                    appended(v, Instruction::SetGrounds { channels: grounds }),
                    Instruction::OpenChannels { channels: opens },
                );
                &&& w.grounded[c]
                &&& w.open[c]
                &&& w.line_state(c) == LineState::Grounded
            },
{
}

/// After committing a read train of `nreads` reads on a session with no
/// frames staged, outstanding or of unknown number, exactly `nreads` successive drain requests
/// find a frame and the next one finds none.
pub proof fn lemma_train_drain(
    v: SessionView,
    lows: Vec<usize>,
    highs: Vec<usize>,
    vread: i32,
    nreads: usize,
    inter_nanos: u128,
    ground: bool,
)
    requires
        v.staged == 0,
        v.outstanding == 0,
        !v.open_ended,
    ensures
        ({
            let w = executed(
                appended(
                    v,
                    Instruction::ReadTrain { lows, highs, vread, nreads, inter_nanos, ground },
                ),
            );
            &&& w.outstanding == nreads
            &&& forall|k: nat| k < nreads ==> (#[trigger] drained(drain_times(w, k))).1
            &&& !drained(drain_times(w, nreads as nat)).1
        }),
{
    let w = executed(
        appended(v, Instruction::ReadTrain { lows, highs, vread, nreads, inter_nanos, ground }),
    );
    lemma_drain_exhaustion(w);
}

/// After committing any single instruction on a session with no frames
/// staged, outstanding or of unknown number, exactly as many successive
/// drain requests as the instruction produces frames find one, and the next
/// one finds none.
pub proof fn lemma_instruction_drain(v: SessionView, i: Instruction)
    requires
        v.staged == 0,
        v.outstanding == 0,
        !v.open_ended,
    ensures
        ({
            let w = executed(appended(v, i));
            &&& w.outstanding == instruction_frames(i)
            &&& forall|k: nat| k < instruction_frames(i) ==> (#[trigger] drained(drain_times(w, k))).1
            &&& !drained(drain_times(w, instruction_frames(i))).1
        }),
{
    lemma_drain_exhaustion(executed(appended(v, i)));
}

/// With `n` frames outstanding and none of unknown number, `n` successive
/// drain requests each find a frame and the next one finds none.
pub proof fn lemma_drain_exhaustion(v: SessionView)
    requires
        !v.open_ended,
    ensures
        forall|k: nat| k < v.outstanding ==> (#[trigger] drained(drain_times(v, k))).1,
        !drained(drain_times(v, v.outstanding)).1,
{
    assert forall|k: nat| k < v.outstanding implies (#[trigger] drained(drain_times(v, k))).1 by {
        lemma_drain_times(v, k);
    }
    lemma_drain_times(v, v.outstanding);
}

/// A batch holding an invalid instruction is rejected as a whole, with the
/// error of its first invalid instruction; `execute_batch` then commits
/// nothing.
pub proof fn lemma_commit_atomicity(v: SessionView, batch: Seq<Instruction>, k: int)
    requires
        0 <= k < batch.len(),
        instruction_verdict(batch[k]) is Err,
    ensures
        submit_verdict(v, batch) is Err,
        first_invalid(batch) <= k,
        submit_verdict(v, batch) == instruction_verdict(batch[first_invalid(batch)]),
{
    let p = |j: int| instruction_verdict(batch[j]) is Err;
    crate::channels::lemma_first_index(batch.len() as int, p);
    assert(p(k));
    assert(first_invalid(batch) == crate::channels::first_index(batch.len() as int, p));
}

} // verus!
