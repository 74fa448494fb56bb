//! Motor axes: the requests a motor sends, the decoding of its replies, and
//! the decisions of its polling operations (enable, wait for a move).

use vstd::prelude::*;
use crate::codec::{
    check_reply, int_text, make_prefix, num_to_bytes, parse_int, prefix_of, int_value, magnitude,
    reply_ok, reports_failure, ClientError, CR, RESULT_IDX,
};

verus! {

/// The device type tag of a motor.
pub const MOTOR_TAG: u8 = 77;

/// The state a motor reports.
#[derive(Debug, Clone, Copy, PartialEq, Eq, Structural, PartialOrd)]
pub enum Status {
    Disabled,
    Enabling,
    Faulted,
    Ready,
    Moving,
}

/// The state that a status digit stands for: `'0'` to `'4'` in the order
/// Disabled, Enabling, Faulted, Ready, Moving; no other byte names one.
pub open spec fn status_of(digit: u8) -> Option<Status> {
    if digit == 48 {
        Some(Status::Disabled)
    } else if digit == 49 {
        Some(Status::Enabling)
    } else if digit == 50 {
        Some(Status::Faulted)
    } else if digit == 51 {
        Some(Status::Ready)
    } else if digit == 52 {
        Some(Status::Moving)
    } else {
        None
    }
}

/// The digit by which the controller reports a state.
pub open spec fn digit_of(s: Status) -> u8 {
    match s {
        Status::Disabled => 48,
        Status::Enabling => 49,
        Status::Faulted => 50,
        Status::Ready => 51,
        Status::Moving => 52,
    }
}

/// The five status digits and the five states correspond one to one, and
/// every other byte names no state.
pub proof fn lemma_status_digits_biject()
    ensures
        forall|d: u8| #[trigger] status_of(d) is Some <==> 48 <= d <= 52,
        forall|d: u8| 48 <= d <= 52 ==> digit_of(#[trigger] status_of(d)->0) == d,
        forall|s: Status| #[trigger] status_of(digit_of(s)) == Some(s),
{
    assert forall|s: Status| #[trigger] status_of(digit_of(s)) == Some(s) by {
        match s {
            Status::Disabled => {},
            Status::Enabling => {},
            Status::Faulted => {},
            Status::Ready => {},
            Status::Moving => {},
        }
    }
}

/// Reads a status digit; `None` for any byte that names no state.
pub fn status_from_digit(digit: u8) -> (r: Option<Status>)
    ensures
        r == status_of(digit),
{
    match digit {
        48 => Some(Status::Disabled),
        49 => Some(Status::Enabling),
        50 => Some(Status::Faulted),
        51 => Some(Status::Ready),
        52 => Some(Status::Moving),
        _ => None,
    }
}

/// The state that a successful status reply reports, or `Malformed`.
pub open spec fn status_result(reply: Seq<u8>) -> Result<Status, ClientError> {
    match status_of(reply[RESULT_IDX as int]) {
        Some(s) => Ok(s),
        None => Err(ClientError::Malformed),
    }
}

/// Decodes the reply to a status query: the digit at the discriminator's
/// offset. A failure reply is reported as `check_reply` reports it, and an
/// unknown digit is `Malformed`.
pub fn decode_status(reply: &[u8]) -> (r: Result<Status, ClientError>)
    ensures
        reply_ok(reply@) ==> r == status_result(reply@),
        !reply_ok(reply@) ==> (r matches Err(e) && reports_failure(reply@, e)),
{
    match check_reply(reply) {
        Err(e) => Err(e),
        Ok(()) => match status_from_digit(reply[RESULT_IDX as usize]) {
            Some(s) => Ok(s),
            None => Err(ClientError::Malformed),
        },
    }
}

/// The integer payload of a reply: the bytes from the discriminator's offset.
pub open spec fn payload(reply: Seq<u8>) -> Seq<u8> {
    reply.subrange(RESULT_IDX as int, reply.len() as int)
}

/// Decodes the reply to a value query (a position) as a signed integer in
/// controller units. A failure reply is reported as `check_reply` reports
/// it; a value beyond `isize` is `Malformed`.
pub fn decode_integer(reply: &[u8]) -> (r: Result<isize, ClientError>)
    ensures
        reply_ok(reply@) && magnitude(payload(reply@)) <= isize::MAX ==> r == Ok::<isize, ClientError>(
            int_value(payload(reply@)) as isize,
        ),
        reply_ok(reply@) && magnitude(payload(reply@)) > isize::MAX ==> (r matches Err(
            ClientError::Malformed,
        )),
        !reply_ok(reply@) ==> (r matches Err(e) && reports_failure(reply@, e)),
{
    match check_reply(reply) {
        Err(e) => Err(e),
        Ok(()) => {
            let body = &reply[RESULT_IDX as usize..reply.len()];
            assert(body@ =~= payload(reply@));
            match parse_int(body) {
                Some(v) => Ok(v),
                None => Err(ClientError::Malformed),
            }
        },
    }
}

/// The settings of one motor: its index and its scale factor.
#[derive(Debug, Clone)]
pub struct MotorBuilder {
    pub id: usize,
    pub scale: usize,
}

/// A handle on one motor axis: its index and the factor that turns user
/// units into controller units.
#[derive(Debug, Clone, Copy, PartialEq, Eq, Structural)]
pub struct ClearCoreMotor {
    pub id: u8,
    pub scale: usize,
}

/// One request to a motor. Moves, jogs and the motion limits carry their
/// value in controller units, already scaled; `SetPosition` carries a
/// position in user units, which the request scales itself.
#[derive(Debug, Clone, Copy, PartialEq, Eq, Structural)]
pub enum MotorCommand {
    Enable,
    Disable,
    AbsoluteMove(isize),
    RelativeMove(isize),
    Jog(isize),
    AbruptStop,
    Stop,
    SetPosition(isize),
    SetVelocity(isize),
    SetAcceleration(isize),
    SetDeceleration(isize),
    GetStatus,
    GetPosition,
    ClearAlerts,
}

/// The two-letter code of a command.
pub open spec fn code_of(cmd: MotorCommand) -> Seq<u8> {
    match cmd {
        MotorCommand::Enable => seq![69u8, 78u8],
        MotorCommand::Disable => seq![68u8, 69u8],
        MotorCommand::AbsoluteMove(_) => seq![65u8, 77u8],
        MotorCommand::RelativeMove(_) => seq![82u8, 77u8],
        MotorCommand::Jog(_) => seq![74u8, 71u8],
        MotorCommand::AbruptStop => seq![65u8, 83u8],
        MotorCommand::Stop => seq![83u8, 84u8],
        MotorCommand::SetPosition(_) => seq![83u8, 80u8],
        MotorCommand::SetVelocity(_) => seq![83u8, 86u8],
        MotorCommand::SetAcceleration(_) => seq![83u8, 65u8],
        MotorCommand::SetDeceleration(_) => seq![83u8, 68u8],
        MotorCommand::GetStatus => seq![71u8, 83u8],
        MotorCommand::GetPosition => seq![71u8, 80u8],
        MotorCommand::ClearAlerts => seq![67u8, 65u8],
    }
}

/// The integer a command sends, in controller units, if it sends one: a
/// position is multiplied by the scale, and a negative velocity is sent as
/// zero.
pub open spec fn value_of(cmd: MotorCommand, scale: int) -> Option<int> {
    match cmd {
        MotorCommand::AbsoluteMove(v) => Some(v as int),
        MotorCommand::RelativeMove(v) => Some(v as int),
        MotorCommand::Jog(v) => Some(v as int),
        MotorCommand::SetPosition(p) => Some(p * scale),
        MotorCommand::SetVelocity(v) => Some(if v < 0 { 0 } else { v as int }),
        MotorCommand::SetAcceleration(v) => Some(v as int),
        MotorCommand::SetDeceleration(v) => Some(v as int),
        _ => None,
    }
}

/// Whether the value a command sends fits an `isize`.
pub open spec fn encodable(cmd: MotorCommand, scale: int) -> bool {
    match value_of(cmd, scale) {
        Some(v) => isize::MIN <= v <= isize::MAX,
        None => true,
    }
}

/// A complete command frame: prefix, code, optional payload, terminator.
pub open spec fn frame(prefix: Seq<u8>, code: Seq<u8>, body: Seq<u8>) -> Seq<u8> {
    prefix + code + body + seq![CR]
}

impl ClearCoreMotor {
    pub open spec fn wf(&self) -> bool {
        self.id <= 9 && self.scale > 0
    }

    /// The bytes that carry a command to this motor.
    pub open spec fn request_bytes(&self, cmd: MotorCommand) -> Seq<u8> {
        frame(
            prefix_of(MOTOR_TAG, self.id),
            code_of(cmd),
            match value_of(cmd, self.scale as int) {
                Some(v) => int_text(v),
                None => Seq::empty(),
            },
        )
    }

    /// A handle on the motor with the given index and scale factor.
    pub fn new(id: usize, scale: usize) -> (r: Self)
        requires
            id <= 9,
            scale > 0,
        ensures
            r.wf(),
            r.id == id,
            r.scale == scale,
    {
        ClearCoreMotor { id: id as u8, scale }
    }

    /// The motor described by a builder; `None` where its index is not a
    /// single digit or its scale is zero.
    pub fn from_builder(builder: &MotorBuilder) -> (r: Option<Self>)
        ensures
            r is Some <==> builder.id <= 9 && builder.scale > 0,
            r matches Some(m) ==> m.wf() && m.id == builder.id && m.scale == builder.scale,
    {
        if builder.id <= 9 && builder.scale > 0 {
            Some(ClearCoreMotor::new(builder.id, builder.scale))
        } else {
            None
        }
    }

    /// Encodes a command for this motor; `None` where the value it sends
    /// does not fit an `isize` (a position times the scale).
    pub fn encode(&self, cmd: MotorCommand) -> (r: Option<Vec<u8>>)
        requires
            self.wf(),
        ensures
            r is Some <==> encodable(cmd, self.scale as int),
            r matches Some(b) ==> b@ == self.request_bytes(cmd),
    {
        let (code, value): ([u8; 2], Option<isize>) = match cmd {
            MotorCommand::Enable => ([69, 78], None),
            MotorCommand::Disable => ([68, 69], None),
            MotorCommand::AbsoluteMove(v) => ([65, 77], Some(v)),
            MotorCommand::RelativeMove(v) => ([82, 77], Some(v)),
            MotorCommand::Jog(v) => ([74, 71], Some(v)),
            MotorCommand::AbruptStop => ([65, 83], None),
            MotorCommand::Stop => ([83, 84], None),
            MotorCommand::SetPosition(p) => {
                let a: i128 = p as i128;
                let b: i128 = self.scale as i128;
                assert(-0x8000_0000_0000_0000 <= a <= 0x7fff_ffff_ffff_ffff);
                assert(0 <= b <= 0xffff_ffff_ffff_ffff);
                assert(-0x8000_0000_0000_0000_0000_0000_0000_0000 <= a * b
                    <= 0x7fff_ffff_ffff_ffff_ffff_ffff_ffff_ffff) by (nonlinear_arith)
                    requires
                        -0x8000_0000_0000_0000 <= a <= 0x7fff_ffff_ffff_ffff,
                        0 <= b <= 0xffff_ffff_ffff_ffff,
                ;
                let scaled: i128 = a * b;
                if scaled < isize::MIN as i128 || scaled > isize::MAX as i128 {
                    return None;
                }
                ([83, 80], Some(scaled as isize))
            },
            MotorCommand::SetVelocity(v) => ([83, 86], Some(if v < 0 { 0 } else { v })),
            MotorCommand::SetAcceleration(v) => ([83, 65], Some(v)),
            MotorCommand::SetDeceleration(v) => ([83, 68], Some(v)),
            MotorCommand::GetStatus => ([71, 83], None),
            MotorCommand::GetPosition => ([71, 80], None),
            MotorCommand::ClearAlerts => ([67, 65], None),
        };
        assert(code@ =~= code_of(cmd));
        let prefix = make_prefix(MOTOR_TAG, self.id);
        let mut out: Vec<u8> = Vec::new();
        out.push(prefix[0]);
        out.push(prefix[1]);
        out.push(prefix[2]);
        out.push(code[0]);
        out.push(code[1]);
        let ghost head = out@;
        assert(head =~= prefix_of(MOTOR_TAG, self.id) + code_of(cmd));
        match value {
            Some(v) => {
                let text = num_to_bytes(v);
                let mut i: usize = 0;
                while i < text.len()
                    invariant
                        0 <= i <= text@.len(),
                        out@ =~= head + text@.take(i as int),
                    decreases text@.len() - i,
                {
                    out.push(text[i]);
                    assert(text@.take(i + 1) =~= text@.take(i as int).push(text@[i as int]));
                    i += 1;
                }
                assert(text@.take(text@.len() as int) =~= text@);
            },
            None => {},
        }
        out.push(CR);
        assert(out@ =~= self.request_bytes(cmd));
        Some(out)
    }
}

/// What a polling operation does next.
#[derive(Debug)]
pub enum PollStep {
    /// Wait for the next tick, then send a status query.
    PollStatus,
    /// The operation is over, with this outcome.
    Finish(Result<(), ClientError>),
}

/// Where an enable sequence stands.
#[derive(Debug, Clone, Copy, PartialEq, Eq, Structural)]
pub enum EnablePhase {
    /// The enable command was sent; its acknowledgment is awaited.
    Acknowledge,
    /// Status queries are sent until the motor is no longer enabling.
    Polling,
}

/// What an enable sequence does on a decoded status: keep polling while
/// the motor is enabling, fail on a fault, succeed on any other state.
pub open spec fn enable_next(status: Option<Status>) -> PollStep {
    match status {
        Some(Status::Enabling) => PollStep::PollStatus,
        Some(Status::Faulted) => PollStep::Finish(Err(ClientError::Faulted)),
        Some(_) => PollStep::Finish(Ok(())),
        None => PollStep::Finish(Err(ClientError::Malformed)),
    }
}

/// What a wait for a move does on a decoded status: keep polling while the
/// motor is moving, stop on any other state.
pub open spec fn move_next(status: Option<Status>) -> PollStep {
    match status {
        Some(Status::Moving) => PollStep::PollStatus,
        Some(_) => PollStep::Finish(Ok(())),
        None => PollStep::Finish(Err(ClientError::Malformed)),
    }
}

/// The outcome of an enable sequence whose polls observe `observed`, in
/// order, after a successful acknowledgment: the first step that is not a
/// further poll, or `PollStatus` if every observation asks for one.
pub open spec fn enable_run(observed: Seq<Status>) -> PollStep
    decreases observed.len(),
{
    if observed.len() == 0 {
        PollStep::PollStatus
    } else {
        match enable_next(Some(observed[0])) {
            PollStep::PollStatus => enable_run(observed.drop_first()),
            done => done,
        }
    }
}

/// However many polls see the motor still enabling, an enable sequence
/// fails with the fault error once a poll sees it faulted, and succeeds
/// once a poll sees it ready.
pub proof fn lemma_enable_settles(n: nat)
    ensures
        enable_run(Seq::new(n, |i: int| Status::Enabling).push(Status::Faulted))
            == PollStep::Finish(Err(ClientError::Faulted)),
        enable_run(Seq::new(n, |i: int| Status::Enabling).push(Status::Ready))
            == PollStep::Finish(Ok(())),
    decreases n,
{
    if n > 0 {
        lemma_enable_settles((n - 1) as nat);
        let f = Seq::new(n, |i: int| Status::Enabling).push(Status::Faulted);
        let r = Seq::new(n, |i: int| Status::Enabling).push(Status::Ready);
        assert(f.drop_first() =~= Seq::new((n - 1) as nat, |i: int| Status::Enabling).push(
            Status::Faulted,
        ));
        assert(r.drop_first() =~= Seq::new((n - 1) as nat, |i: int| Status::Enabling).push(
            Status::Ready,
        ));
    } else {
        let f = Seq::new(n, |i: int| Status::Enabling).push(Status::Faulted);
        let r = Seq::new(n, |i: int| Status::Enabling).push(Status::Ready);
        assert(f.drop_first() =~= Seq::empty());
        assert(r.drop_first() =~= Seq::empty());
    }
}

/// The decisions of enabling a motor: send the enable command, then poll
/// the status until the motor is no longer enabling.
#[derive(Debug, Clone, Copy, PartialEq, Eq, Structural)]
pub struct EnableSequence {
    pub phase: EnablePhase,
}

impl EnableSequence {
    /// A sequence whose enable command has just been sent.
    pub fn new() -> (r: Self)
        ensures
            r.phase == EnablePhase::Acknowledge,
    {
        EnableSequence { phase: EnablePhase::Acknowledge }
    }

    /// Takes the reply to the last request sent (the enable command, then
    /// each status query) and says what to do next. A failure reply ends the
    /// sequence with its error.
    pub fn on_reply(&mut self, reply: &[u8]) -> (r: PollStep)
        ensures
            !reply_ok(reply@) ==> (r matches PollStep::Finish(Err(e)) && reports_failure(reply@, e)),
            old(self).phase == EnablePhase::Acknowledge && reply_ok(reply@) ==> r is PollStatus,
            old(self).phase == EnablePhase::Polling && reply_ok(reply@) ==> r == enable_next(
                status_of(reply@[RESULT_IDX as int]),
            ),
            reply_ok(reply@) ==> final(self).phase == EnablePhase::Polling,
            !reply_ok(reply@) ==> final(self).phase == old(self).phase,
    {
        match self.phase {
            EnablePhase::Acknowledge => match check_reply(reply) {
                Err(e) => PollStep::Finish(Err(e)),
                Ok(()) => {
                    self.phase = EnablePhase::Polling;
                    PollStep::PollStatus
                },
            },
            EnablePhase::Polling => match decode_status(reply) {
                Err(e) => PollStep::Finish(Err(e)),
                Ok(Status::Enabling) => PollStep::PollStatus,
                Ok(Status::Faulted) => PollStep::Finish(Err(ClientError::Faulted)),
                Ok(_) => PollStep::Finish(Ok(())),
            },
        }
    }
}

/// Takes the reply to a status query sent while waiting for a move to end
/// and says what to do next: poll again while the motor is moving.
pub fn wait_for_move_step(reply: &[u8]) -> (r: PollStep)
    ensures
        !reply_ok(reply@) ==> (r matches PollStep::Finish(Err(e)) && reports_failure(reply@, e)),
        reply_ok(reply@) ==> r == move_next(status_of(reply@[RESULT_IDX as int])),
{
    match decode_status(reply) {
        Err(e) => PollStep::Finish(Err(e)),
        Ok(Status::Moving) => PollStep::PollStatus,
        Ok(_) => PollStep::Finish(Ok(())),
    }
}

} // verus!
