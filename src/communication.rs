//! Layout of the three control requests understood by the driver.
//!
//! Every payload is laid out as the driver's C structs are on a 64-bit
//! little-endian host: words are eight bytes, the signed size is four bytes
//! followed by four bytes of padding, and all integers are little-endian.
use vstd::bytes::*;
use vstd::prelude::*;
use vstd::slice::slice_subrange;

verus! {

/// Protocol tag shared by every control request of the driver (`'k'`).
pub const IOCTL_MAGIC: u8 = 107;

/// Sequence number of the request that selects the target process.
pub const SET_TARGET_PROCESS: u8 = 1;

/// Sequence number of the request that reads target memory.
pub const READ_PROCESS_MEMORY: u8 = 2;

/// Sequence number of the request that writes target memory.
pub const WRITE_PROCESS_MEMORY: u8 = 3;

/// Size in bytes of the select-target payload.
pub const PID_PAYLOAD_LEN: usize = 2;

/// Size in bytes of the read and write payloads.
pub const ARGS_PAYLOAD_LEN: usize = 24;

/// Arguments of the read-memory request.
///
/// `size` is signed because the driver hands it to a kernel primitive that
/// takes a signed int; callers check that it is not negative. `buffer` is
/// the address of the caller-owned buffer that the driver fills.
#[derive(Clone, Copy, Debug, PartialEq, Eq, Structural)]
pub struct RPMArgs {
    pub address: usize,
    pub size: i32,
    pub buffer: usize,
}

/// Arguments of the write-memory request: one machine word, sent inline.
#[derive(Clone, Copy, Debug, PartialEq, Eq, Structural)]
pub struct WPMArgs {
    pub address: usize,
    pub size: i32,
    pub write_value: usize,
}

/// The bytes of a native-width word.
pub open spec fn word_bytes(x: usize) -> Seq<u8> {
    spec_u64_to_le_bytes(x as u64)
}

/// The word held by eight bytes.
pub open spec fn word_of(b: Seq<u8>) -> usize {
    spec_u64_from_le_bytes(b) as usize
}

/// The bytes of the signed size field, with the padding that follows it.
pub open spec fn size_bytes(s: i32) -> Seq<u8> {
    spec_u32_to_le_bytes(s as u32) + seq![0u8, 0u8, 0u8, 0u8]
}

/// The signed size held by the four bytes of a size field.
pub open spec fn size_of_bytes(b: Seq<u8>) -> i32 {
    spec_u32_from_le_bytes(b) as i32
}

/// Layout of a struct of a word, a padded size and a word.
pub open spec fn args_layout(first: usize, size: i32, last: usize) -> Seq<u8> {
    word_bytes(first) + size_bytes(size) + word_bytes(last)
}

/// Payload of the select-target request: the 16-bit process id.
pub open spec fn pid_layout(pid: u16) -> Seq<u8> {
    spec_u16_to_le_bytes(pid)
}

proof fn lemma_size_round_trip(s: i32)
    ensures
        (s as u32) as i32 == s,
{
    assert((s as u32) as i32 == s) by (bit_vector);
}

proof fn lemma_args_round_trip(first: usize, size: i32, last: usize)
    ensures
        args_layout(first, size, last).len() == 24,
        word_of(args_layout(first, size, last).subrange(0, 8)) == first,
        size_of_bytes(args_layout(first, size, last).subrange(8, 12)) == size,
        word_of(args_layout(first, size, last).subrange(16, 24)) == last,
{
    lemma_auto_spec_u64_to_from_le_bytes();
    lemma_auto_spec_u32_to_from_le_bytes();
    lemma_size_round_trip(size);
    let b = args_layout(first, size, last);
    assert(b.subrange(0, 8) =~= word_bytes(first));
    assert(b.subrange(8, 12) =~= spec_u32_to_le_bytes(size as u32));
    assert(b.subrange(16, 24) =~= word_bytes(last));
}

fn encode_args(first: usize, size: i32, last: usize) -> (r: Vec<u8>)
    ensures
        r@ == args_layout(first, size, last),
{
    let mut r = u64_to_le_bytes(first as u64);
    let mut s = u32_to_le_bytes(size as u32);
    r.append(&mut s);
    r.push(0u8);
    r.push(0u8);
    r.push(0u8);
    r.push(0u8);
    let mut w = u64_to_le_bytes(last as u64);
    r.append(&mut w);
    assert(r@ =~= args_layout(first, size, last));
    r
}

fn decode_word(b: &[u8], at: usize) -> (r: usize)
    requires
        at + 8 <= b@.len(),
    ensures
        r == word_of(b@.subrange(at as int, at + 8)),
{
    // the length of a slice fits in a usize, so `at + 8` does too
    let _len = b.len();
    let part = slice_subrange(b, at, at + 8);
    #[verifier::truncate]
    (u64_from_le_bytes(part) as usize)
}

/// Encodes the select-target payload.
pub fn encode_pid(pid: u16) -> (r: Vec<u8>)
    ensures
        r@ == pid_layout(pid),
        r@.len() == PID_PAYLOAD_LEN,
{
    u16_to_le_bytes(pid)
}

/// Decodes a select-target payload; `None` unless it is two bytes long.
pub fn decode_pid(b: &[u8]) -> (r: Option<u16>)
    ensures
        r is Some <==> b@.len() == PID_PAYLOAD_LEN,
        r is Some ==> pid_layout(r->0) == b@,
{
    if b.len() == PID_PAYLOAD_LEN {
        let pid = u16_from_le_bytes(b);
        proof {
            lemma_auto_spec_u16_to_from_le_bytes();
        }
        Some(pid)
    } else {
        None
    }
}

/// Encoding then decoding a select-target payload gives back the process id.
pub proof fn lemma_pid_round_trip(pid: u16)
    ensures
        pid_layout(pid).len() == PID_PAYLOAD_LEN,
        spec_u16_from_le_bytes(pid_layout(pid)) == pid,
{
    lemma_auto_spec_u16_to_from_le_bytes();
    assert(spec_u16_to_le_bytes(pid).len() == 2);
}

impl RPMArgs {
    /// The payload bytes of these arguments.
    pub open spec fn layout(self) -> Seq<u8> {
        args_layout(self.address, self.size, self.buffer)
    }

    /// The arguments that a payload holds, if it has the payload's size.
    pub open spec fn from_layout(b: Seq<u8>) -> Option<RPMArgs> {
        if b.len() == 24 {
            Some(
                RPMArgs {
                    address: word_of(b.subrange(0, 8)),
                    size: size_of_bytes(b.subrange(8, 12)),
                    buffer: word_of(b.subrange(16, 24)),
                },
            )
        } else {
            None
        }
    }

    /// The payload of the read-memory request.
    pub fn to_bytes(&self) -> (r: Vec<u8>)
        ensures
            r@ == self.layout(),
            r@.len() == ARGS_PAYLOAD_LEN,
    {
        proof {
            lemma_args_round_trip(self.address, self.size, self.buffer);
        }
        encode_args(self.address, self.size, self.buffer)
    }

    /// The arguments a payload holds; `None` unless it has the payload's size.
    pub fn from_bytes(b: &[u8]) -> (r: Option<RPMArgs>)
        ensures
            r == Self::from_layout(b@),
    {
        if b.len() != ARGS_PAYLOAD_LEN {
            return None;
        }
        let address = decode_word(b, 0);
        let size_part = slice_subrange(b, 8, 12);
        let size = u32_from_le_bytes(size_part) as i32;
        let buffer = decode_word(b, 16);
        Some(RPMArgs { address, size, buffer })
    }
}

impl WPMArgs {
    /// The payload bytes of these arguments.
    pub open spec fn layout(self) -> Seq<u8> {
        args_layout(self.address, self.size, self.write_value)
    }

    /// The arguments that a payload holds, if it has the payload's size.
    pub open spec fn from_layout(b: Seq<u8>) -> Option<WPMArgs> {
        if b.len() == 24 {
            Some(
                WPMArgs {
                    address: word_of(b.subrange(0, 8)),
                    size: size_of_bytes(b.subrange(8, 12)),
                    write_value: word_of(b.subrange(16, 24)),
                },
            )
        } else {
            None
        }
    }

    /// The payload of the write-memory request.
    pub fn to_bytes(&self) -> (r: Vec<u8>)
        ensures
            r@ == self.layout(),
            r@.len() == ARGS_PAYLOAD_LEN,
    {
        proof {
            lemma_args_round_trip(self.address, self.size, self.write_value);
        }
        encode_args(self.address, self.size, self.write_value)
    }

    /// The arguments a payload holds; `None` unless it has the payload's size.
    pub fn from_bytes(b: &[u8]) -> (r: Option<WPMArgs>)
        ensures
            r == Self::from_layout(b@),
    {
        if b.len() != ARGS_PAYLOAD_LEN {
            return None;
        }
        let address = decode_word(b, 0);
        let size_part = slice_subrange(b, 8, 12);
        let size = u32_from_le_bytes(size_part) as i32;
        let write_value = decode_word(b, 16);
        Some(WPMArgs { address, size, write_value })
    }
}

/// Encoding then decoding read arguments gives back the same fields.
pub proof fn lemma_read_args_round_trip(a: RPMArgs)
    ensures
        RPMArgs::from_layout(a.layout()) == Some(a),
{
    lemma_args_round_trip(a.address, a.size, a.buffer);
}

/// Encoding then decoding write arguments gives back the same fields.
pub proof fn lemma_write_args_round_trip(a: WPMArgs)
    ensures
        WPMArgs::from_layout(a.layout()) == Some(a),
{
    lemma_args_round_trip(a.address, a.size, a.write_value);
}

} // verus!
