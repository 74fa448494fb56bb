use clearcore::codec::{check_reply, ClientError};
use clearcore::motor::{
    decode_integer, decode_status, status_from_digit, wait_for_move_step, ClearCoreMotor,
    EnablePhase, EnableSequence, MotorBuilder, MotorCommand, PollStep, Status,
};

#[test]
fn absolute_move_frame() {
    let motor = ClearCoreMotor::new(2, 1000);
    let units = (1.5f64 * motor.scale as f64).trunc() as isize;
    let bytes = motor.encode(MotorCommand::AbsoluteMove(units)).unwrap();
    assert_eq!(bytes, vec![0x02, b'M', b'2', b'A', b'M', b'1', b'5', b'0', b'0', 0x0D]);
}

#[test]
fn absolute_move_failure_reply() {
    let reply = b"\x02M2?\r";
    match check_reply(reply) {
        Err(ClientError::Rejected(e)) => assert_eq!(e.message, "\u{2}M2?\r"),
        other => panic!("unexpected {:?}", other),
    }
}

#[test]
fn get_position_scaled() {
    let motor = ClearCoreMotor::new(2, 1000);
    let units = decode_integer(b"\x02M2-2500\r").unwrap();
    assert_eq!(units, -2500);
    assert_eq!(units as f64 / motor.scale as f64, -2.5);
}

#[test]
fn plain_commands() {
    let motor = ClearCoreMotor::new(0, 10);
    assert_eq!(motor.encode(MotorCommand::Enable).unwrap(), b"\x02M0EN\r".to_vec());
    assert_eq!(motor.encode(MotorCommand::Disable).unwrap(), b"\x02M0DE\r".to_vec());
    assert_eq!(motor.encode(MotorCommand::AbruptStop).unwrap(), b"\x02M0AS\r".to_vec());
    assert_eq!(motor.encode(MotorCommand::Stop).unwrap(), b"\x02M0ST\r".to_vec());
    assert_eq!(motor.encode(MotorCommand::GetStatus).unwrap(), b"\x02M0GS\r".to_vec());
    assert_eq!(motor.encode(MotorCommand::GetPosition).unwrap(), b"\x02M0GP\r".to_vec());
    assert_eq!(motor.encode(MotorCommand::ClearAlerts).unwrap(), b"\x02M0CA\r".to_vec());
}

#[test]
fn valued_commands() {
    let motor = ClearCoreMotor::new(3, 100);
    assert_eq!(motor.encode(MotorCommand::RelativeMove(-250)).unwrap(), b"\x02M3RM-250\r".to_vec());
    assert_eq!(motor.encode(MotorCommand::Jog(42)).unwrap(), b"\x02M3JG42\r".to_vec());
    assert_eq!(motor.encode(MotorCommand::SetAcceleration(7)).unwrap(), b"\x02M3SA7\r".to_vec());
    assert_eq!(motor.encode(MotorCommand::SetDeceleration(8)).unwrap(), b"\x02M3SD8\r".to_vec());
}

#[test]
fn set_position_scales() {
    let motor = ClearCoreMotor::new(1, 100);
    assert_eq!(motor.encode(MotorCommand::SetPosition(-3)).unwrap(), b"\x02M1SP-300\r".to_vec());
}

#[test]
fn set_position_out_of_range() {
    let motor = ClearCoreMotor::new(1, 1000);
    assert_eq!(motor.encode(MotorCommand::SetPosition(isize::MAX / 10)), None);
}

#[test]
fn set_velocity_clamps_negative() {
    let motor = ClearCoreMotor::new(1, 1000);
    assert_eq!(motor.encode(MotorCommand::SetVelocity(-500)).unwrap(), b"\x02M1SV0\r".to_vec());
    assert_eq!(motor.encode(MotorCommand::SetVelocity(500)).unwrap(), b"\x02M1SV500\r".to_vec());
}

#[test]
fn builder_checks() {
    let m = ClearCoreMotor::from_builder(&MotorBuilder { id: 3, scale: 800 }).unwrap();
    assert_eq!((m.id, m.scale), (3, 800));
    assert_eq!(ClearCoreMotor::from_builder(&MotorBuilder { id: 10, scale: 800 }), None);
    assert_eq!(ClearCoreMotor::from_builder(&MotorBuilder { id: 1, scale: 0 }), None);
}

#[test]
fn status_digits() {
    assert_eq!(status_from_digit(b'0'), Some(Status::Disabled));
    assert_eq!(status_from_digit(b'1'), Some(Status::Enabling));
    assert_eq!(status_from_digit(b'2'), Some(Status::Faulted));
    assert_eq!(status_from_digit(b'3'), Some(Status::Ready));
    assert_eq!(status_from_digit(b'4'), Some(Status::Moving));
    assert_eq!(status_from_digit(b'5'), None);
    assert_eq!(status_from_digit(b'?'), None);
}

#[test]
fn status_reply_decoding() {
    assert_eq!(decode_status(b"\x02M14\r").unwrap(), Status::Moving);
    assert!(matches!(decode_status(b"\x02M19\r"), Err(ClientError::Malformed)));
}

#[test]
fn integer_reply_out_of_range() {
    assert!(matches!(decode_integer(b"\x02M2123456789012345678901\r"), Err(ClientError::Malformed)));
}

#[test]
fn enable_enabling_then_faulted() {
    let mut seq = EnableSequence::new();
    assert!(matches!(seq.on_reply(b"\x02M0_\r"), PollStep::PollStatus));
    assert_eq!(seq.phase, EnablePhase::Polling);
    assert!(matches!(seq.on_reply(b"\x02M01\r"), PollStep::PollStatus));
    assert!(matches!(seq.on_reply(b"\x02M02\r"), PollStep::Finish(Err(ClientError::Faulted))));
}

#[test]
fn enable_enabling_then_ready() {
    let mut seq = EnableSequence::new();
    assert!(matches!(seq.on_reply(b"\x02M0_\r"), PollStep::PollStatus));
    assert!(matches!(seq.on_reply(b"\x02M01\r"), PollStep::PollStatus));
    assert!(matches!(seq.on_reply(b"\x02M03\r"), PollStep::Finish(Ok(()))));
}

#[test]
fn enable_rejected() {
    let mut seq = EnableSequence::new();
    assert!(matches!(seq.on_reply(b"\x02M0?\r"), PollStep::Finish(Err(ClientError::Rejected(_)))));
    assert_eq!(seq.phase, EnablePhase::Acknowledge);
}

#[test]
fn wait_for_move_polls_while_moving() {
    assert!(matches!(wait_for_move_step(b"\x02M04\r"), PollStep::PollStatus));
    assert!(matches!(wait_for_move_step(b"\x02M03\r"), PollStep::Finish(Ok(()))));
    assert!(matches!(wait_for_move_step(b"\x02M07\r"), PollStep::Finish(Err(ClientError::Malformed))));
}
