use vstd::prelude::*;

verus! {

/// A distance counted in steps.
#[derive(Clone, Copy, Debug, PartialEq, Eq, Structural)]
pub struct StepIO {
    pub steps: usize,
}

/// A distance counted in jumps; one jump covers two steps.
#[derive(Clone, Copy, Debug, PartialEq, Eq, Structural)]
pub struct JumpIO {
    pub jumps: usize,
}

/// A distance in either of its two representations.
#[derive(Clone, Copy, Debug, PartialEq, Eq, Structural)]
pub enum IO {
    Steps(StepIO),
    Jumps(JumpIO),
}

/// Steps as jumps: two steps make a jump, an odd step left over is dropped.
pub open spec fn jumps_of_steps(s: StepIO) -> JumpIO {
    JumpIO { jumps: (s.steps / 2) as usize }
}

/// Jumps as steps: two steps for each jump, saturating at the largest `usize`.
pub open spec fn steps_of_jumps(j: JumpIO) -> StepIO {
    if j.jumps > usize::MAX / 2 {
        StepIO { steps: usize::MAX }
    } else {
        StepIO { steps: (j.jumps * 2) as usize }
    }
}

/// A distance in the step representation.
pub open spec fn io_as_steps(io: IO) -> StepIO {
    match io {
        IO::Steps(s) => s,
        IO::Jumps(j) => steps_of_jumps(j),
    }
}

/// A distance in the jump representation.
pub open spec fn io_as_jumps(io: IO) -> JumpIO {
    match io {
        IO::Steps(s) => jumps_of_steps(s),
        IO::Jumps(j) => j,
    }
}

impl From<JumpIO> for IO {
    fn from(jump_io: JumpIO) -> (r: IO) {
        IO::Jumps(jump_io)
    }
}

impl vstd::std_specs::convert::FromSpecImpl<JumpIO> for IO {
    open spec fn obeys_from_spec() -> bool {
        true
    }

    open spec fn from_spec(v: JumpIO) -> IO {
        IO::Jumps(v)
    }
}

impl From<StepIO> for IO {
    fn from(step_io: StepIO) -> (r: IO) {
        IO::Steps(step_io)
    }
}

impl vstd::std_specs::convert::FromSpecImpl<StepIO> for IO {
    open spec fn obeys_from_spec() -> bool {
        true
    }

    open spec fn from_spec(v: StepIO) -> IO {
        IO::Steps(v)
    }
}

impl From<StepIO> for JumpIO {
    fn from(step_io: StepIO) -> (r: JumpIO) {
        JumpIO { jumps: step_io.steps / 2 }
    }
}

impl vstd::std_specs::convert::FromSpecImpl<StepIO> for JumpIO {
    open spec fn obeys_from_spec() -> bool {
        true
    }

    open spec fn from_spec(v: StepIO) -> JumpIO {
        jumps_of_steps(v)
    }
}

impl From<IO> for JumpIO {
    fn from(io: IO) -> (r: JumpIO) {
        match io {
            IO::Jumps(jump_io) => jump_io,
            IO::Steps(step_io) => JumpIO::from(step_io),
        }
    }
}

impl vstd::std_specs::convert::FromSpecImpl<IO> for JumpIO {
    open spec fn obeys_from_spec() -> bool {
        true
    }

    open spec fn from_spec(v: IO) -> JumpIO {
        io_as_jumps(v)
    }
}

impl From<JumpIO> for StepIO {
    fn from(jump_io: JumpIO) -> (r: StepIO) {
        if jump_io.jumps > usize::MAX / 2 {
            StepIO { steps: usize::MAX }
        } else {
            StepIO { steps: jump_io.jumps * 2 }
        }
    }
}

impl vstd::std_specs::convert::FromSpecImpl<JumpIO> for StepIO {
    open spec fn obeys_from_spec() -> bool {
        true
    }

    open spec fn from_spec(v: JumpIO) -> StepIO {
        steps_of_jumps(v)
    }
}

impl From<IO> for StepIO {
    fn from(io: IO) -> (r: StepIO) {
        match io {
            IO::Jumps(jump_io) => StepIO::from(jump_io),
            IO::Steps(step_io) => step_io,
        }
    }
}

impl vstd::std_specs::convert::FromSpecImpl<IO> for StepIO {
    open spec fn obeys_from_spec() -> bool {
        true
    }

    open spec fn from_spec(v: IO) -> StepIO {
        io_as_steps(v)
    }
}

/// Something that moves a distance given in the representation `T`.
pub trait WalkerOrJumper<T> {
    /// The distance left after moving from `t`.
    spec fn moved(&self, t: T) -> T;

    fn walk_or_jump(&self, t: T) -> (r: T)
        ensures
            r == self.moved(t),
    ;
}

/// Something that moves in steps.
pub trait Walker {
    /// The distance left after walking from `io`.
    spec fn walked(&self, io: StepIO) -> StepIO;

    fn walk(&self, io: StepIO) -> (r: StepIO)
        ensures
            r == self.walked(io),
    ;
}

/// Something that moves in jumps.
pub trait Jumper {
    /// The distance left after jumping from `io`.
    spec fn jumped(&self, io: JumpIO) -> JumpIO;

    fn jump(&self, io: JumpIO) -> (r: JumpIO)
        ensures
            r == self.jumped(io),
    ;
}

/// Lets a `Walker` take either representation: the distance is bridged to
/// steps before it walks.
pub struct WalkerWrapper<W>(pub W);

/// Lets a `Jumper` take either representation: the distance is bridged to
/// jumps before it jumps.
pub struct JumperWrapper<J>(pub J);

impl<W: Walker> WalkerOrJumper<IO> for WalkerWrapper<W> {
    open spec fn moved(&self, io: IO) -> IO {
        IO::Steps(self.0.walked(io_as_steps(io)))
    }

    fn walk_or_jump(&self, io: IO) -> (r: IO) {
        IO::from(self.0.walk(StepIO::from(io)))
    }
}

impl<J: Jumper> WalkerOrJumper<IO> for JumperWrapper<J> {
    open spec fn moved(&self, io: IO) -> IO {
        IO::Jumps(self.0.jumped(io_as_jumps(io)))
    }

    fn walk_or_jump(&self, io: IO) -> (r: IO) {
        IO::from(self.0.jump(JumpIO::from(io)))
    }
}

/// The distance left after each instruction in turn has moved from `io`.
pub open spec fn walk_all<T: WalkerOrJumper<IO>>(instructions: Seq<Box<T>>, io: IO) -> IO
    decreases instructions.len(),
{
    if instructions.len() == 0 {
        io
    } else {
        instructions.last().moved(walk_all(instructions.drop_last(), io))
    }
}

/// Runs the instructions in order from `step_io`, bridging between steps and
/// jumps where an instruction needs the other representation, and gives the
/// distance left in steps.
///
/// A distance left in jumps must be small enough that its steps fit in a
/// `usize`.
pub fn walk_or_jump<T: WalkerOrJumper<IO>>(instructions: &[Box<T>], step_io: StepIO) -> (r: StepIO)
    requires
        walk_all(instructions@, IO::Steps(step_io)) matches IO::Jumps(j) ==> j.jumps <= usize::MAX / 2,
    ensures
        walk_all(instructions@, IO::Steps(step_io)) matches IO::Jumps(j) ==> r.steps == j.jumps * 2,
        r == io_as_steps(walk_all(instructions@, IO::Steps(step_io))),
        instructions@.len() == 0 ==> r == step_io,
{
    let mut io = IO::Steps(step_io);
    let mut i: usize = 0;
    while i < instructions.len()
        invariant
            i <= instructions@.len(),
            io == walk_all(instructions@.subrange(0, i as int), IO::Steps(step_io)),
        decreases instructions@.len() - i,
    {
        let ghost before = instructions@.subrange(0, i as int);
        io = instructions[i].walk_or_jump(io);
        i = i + 1;
        assert(instructions@.subrange(0, i as int).drop_last() == before);
    }
    assert(instructions@.subrange(0, instructions@.len() as int) == instructions@);
    StepIO::from(io)
}

} // verus!
