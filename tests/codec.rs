use procmem::channel::{request_outcome, Command};
use procmem::communication::{decode_pid, encode_pid, RPMArgs, WPMArgs, IOCTL_MAGIC};
use procmem::error::SessionError;

#[test]
fn write_args_round_trip() {
    let a = WPMArgs { address: 0x7f00_1234, size: 8, write_value: 0xdead_beef_cafe };
    let bytes = a.to_bytes();
    assert_eq!(bytes.len(), 24);
    assert_eq!(WPMArgs::from_bytes(&bytes), Some(a));
}

#[test]
fn write_args_round_trip_extremes() {
    let a = WPMArgs { address: usize::MAX, size: i32::MIN, write_value: 0 };
    assert_eq!(WPMArgs::from_bytes(&a.to_bytes()), Some(a));
}

#[test]
fn write_args_layout() {
    let a = WPMArgs { address: 0x0102, size: 3, write_value: 0x0405 };
    assert_eq!(
        a.to_bytes(),
        vec![2, 1, 0, 0, 0, 0, 0, 0, 3, 0, 0, 0, 0, 0, 0, 0, 5, 4, 0, 0, 0, 0, 0, 0]
    );
}

#[test]
fn read_args_round_trip() {
    let a = RPMArgs { address: 0x5555_0000, size: 64, buffer: 0x7ffe_1000 };
    assert_eq!(RPMArgs::from_bytes(&a.to_bytes()), Some(a));
}

#[test]
fn args_wrong_length_is_rejected() {
    assert_eq!(WPMArgs::from_bytes(&[0u8; 23]), None);
    assert_eq!(RPMArgs::from_bytes(&[0u8; 25]), None);
}

#[test]
fn pid_payload() {
    assert_eq!(encode_pid(0x1234), vec![0x34, 0x12]);
    assert_eq!(decode_pid(&[0x34, 0x12]), Some(0x1234));
    assert_eq!(decode_pid(&[1]), None);
}

#[test]
fn requests_carry_tag_and_sequence_numbers() {
    let select = Command::SelectTarget { pid: 42 }.request();
    assert_eq!((select.magic, select.number), (IOCTL_MAGIC, 1));
    assert_eq!(select.payload, vec![42, 0]);
    let read = Command::ReadMemory(RPMArgs { address: 1, size: 4, buffer: 2 }).request();
    assert_eq!((read.magic, read.number, read.payload.len()), (b'k', 2, 24));
    let write = Command::WriteMemory(WPMArgs { address: 1, size: 4, write_value: 9 }).request();
    assert_eq!((write.magic, write.number, write.payload.len()), (b'k', 3, 24));
}

#[test]
fn command_round_trip() {
    let commands = [
        Command::SelectTarget { pid: 65535 },
        Command::ReadMemory(RPMArgs { address: 10, size: 20, buffer: 30 }),
        Command::WriteMemory(WPMArgs { address: 0x7f0000, size: 8, write_value: 77 }),
    ];
    for c in commands {
        let r = c.request();
        assert_eq!(Command::decode(r.number, &r.payload), Some(c));
    }
    assert_eq!(Command::decode(4, &[0u8; 24]), None);
}

#[test]
fn negative_size_is_invalid() {
    assert!(!Command::ReadMemory(RPMArgs { address: 0, size: -1, buffer: 0 }).valid());
    assert!(Command::WriteMemory(WPMArgs { address: 0, size: 0, write_value: 0 }).valid());
}

#[test]
fn request_outcomes() {
    assert_eq!(request_outcome(0, 0), Ok(()));
    assert_eq!(request_outcome(-1, 25), Err(SessionError::IoctlFailed(25)));
    assert_eq!(request_outcome(3, 1), Err(SessionError::IoctlFailed(1)));
}
