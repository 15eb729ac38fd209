//! The requests sent to the driver's control device, and how the host's
//! answer to each becomes an outcome.
use crate::communication::{
    encode_pid, pid_layout, RPMArgs, WPMArgs, IOCTL_MAGIC, PID_PAYLOAD_LEN, READ_PROCESS_MEMORY,
    SET_TARGET_PROCESS, WRITE_PROCESS_MEMORY,
};
use crate::error::SessionError;
use vstd::prelude::*;

verus! {

/// A command of the driver's protocol.
#[derive(Clone, Copy, Debug, PartialEq, Eq, Structural)]
pub enum Command {
    SelectTarget { pid: u16 },
    ReadMemory(RPMArgs),
    WriteMemory(WPMArgs),
}

/// One control request: the protocol tag, the command's sequence number and
/// the payload whose address is handed to the driver. Every request is of
/// the "write" direction, whatever the command does to target memory.
pub struct ChannelRequest {
    pub magic: u8,
    pub number: u8,
    pub payload: Vec<u8>,
}

impl Command {
    /// The sequence number of the command.
    pub open spec fn number(self) -> u8 {
        match self {
            Command::SelectTarget { .. } => SET_TARGET_PROCESS,
            Command::ReadMemory(_) => READ_PROCESS_MEMORY,
            Command::WriteMemory(_) => WRITE_PROCESS_MEMORY,
        }
    }

    /// The payload bytes of the command.
    pub open spec fn payload(self) -> Seq<u8> {
        match self {
            Command::SelectTarget { pid } => pid_layout(pid),
            Command::ReadMemory(a) => a.layout(),
            Command::WriteMemory(a) => a.layout(),
        }
    }

    /// The size of a read or a write is not negative.
    pub open spec fn is_valid(self) -> bool {
        match self {
            Command::SelectTarget { .. } => true,
            Command::ReadMemory(a) => a.size >= 0,
            Command::WriteMemory(a) => a.size >= 0,
        }
    }

    /// The command that a sequence number and a payload stand for.
    pub open spec fn from_parts(number: u8, payload: Seq<u8>) -> Option<Command> {
        if number == SET_TARGET_PROCESS && payload.len() == 2 {
            Some(Command::SelectTarget { pid: vstd::bytes::spec_u16_from_le_bytes(payload) })
        } else if number == READ_PROCESS_MEMORY {
            match RPMArgs::from_layout(payload) {
                Some(a) => Some(Command::ReadMemory(a)),
                None => None,
            }
        } else if number == WRITE_PROCESS_MEMORY {
            match WPMArgs::from_layout(payload) {
                Some(a) => Some(Command::WriteMemory(a)),
                None => None,
            }
        } else {
            None
        }
    }

    pub fn valid(&self) -> (r: bool)
        ensures
            r == self.is_valid(),
    {
        match self {
            Command::SelectTarget { .. } => true,
            Command::ReadMemory(a) => a.size >= 0,
            Command::WriteMemory(a) => a.size >= 0,
        }
    }

    /// The control request that carries this command. The size of a read or
    /// a write must have been checked not to be negative.
    pub fn request(&self) -> (r: ChannelRequest)
        requires
            self.is_valid(),
        ensures
            r.magic == IOCTL_MAGIC,
            r.number == self.number(),
            r.payload@ == self.payload(),
    {
        match self {
            Command::SelectTarget { pid } => ChannelRequest {
                magic: IOCTL_MAGIC,
                number: SET_TARGET_PROCESS,
                payload: encode_pid(*pid),
            },
            Command::ReadMemory(a) => ChannelRequest {
                magic: IOCTL_MAGIC,
                number: READ_PROCESS_MEMORY,
                payload: a.to_bytes(),
            },
            Command::WriteMemory(a) => ChannelRequest {
                magic: IOCTL_MAGIC,
                number: WRITE_PROCESS_MEMORY,
                payload: a.to_bytes(),
            },
        }
    }

    /// Reads a command back from its sequence number and payload.
    pub fn decode(number: u8, payload: &[u8]) -> (r: Option<Command>)
        ensures
            r == Self::from_parts(number, payload@),
    {
        if number == SET_TARGET_PROCESS && payload.len() == PID_PAYLOAD_LEN {
            let pid = vstd::bytes::u16_from_le_bytes(payload);
            Some(Command::SelectTarget { pid })
        } else if number == READ_PROCESS_MEMORY {
            match RPMArgs::from_bytes(payload) {
                Some(a) => Some(Command::ReadMemory(a)),
                None => None,
            }
        } else if number == WRITE_PROCESS_MEMORY {
            match WPMArgs::from_bytes(payload) {
                Some(a) => Some(Command::WriteMemory(a)),
                None => None,
            }
        } else {
            None
        }
    }
}

/// Encoding a command and decoding its sequence number and payload gives
/// back the command, fields unchanged.
pub proof fn lemma_command_round_trip(c: Command)
    ensures
        Command::from_parts(c.number(), c.payload()) == Some(c),
{
    match c {
        Command::SelectTarget { pid } => {
            crate::communication::lemma_pid_round_trip(pid);
        },
        Command::ReadMemory(a) => {
            crate::communication::lemma_read_args_round_trip(a);
        },
        Command::WriteMemory(a) => {
            crate::communication::lemma_write_args_round_trip(a);
        },
    }
}

/// The outcome of one control request from the host's return value and the
/// error code it reported: any return but zero is a failure that carries
/// the code.
pub fn request_outcome(ret: i32, errno: i32) -> (r: Result<(), SessionError>)
    ensures
        ret == 0 ==> r == Ok::<(), SessionError>(()),
        ret != 0 ==> r == Err::<(), SessionError>(SessionError::IoctlFailed(errno)),
{
    if ret == 0 {
        Ok(())
    } else {
        Err(SessionError::IoctlFailed(errno))
    }
}

} // verus!
