//! Link-layer frames and the addresses in their header.

use vstd::prelude::*;

verus! {

/// Largest frame, in bytes, that an interface accepts unless configured otherwise.
pub const DEFAULT_MTU: usize = 1500;

/// Number of bytes in a link-layer address.
pub const ADDRESS_LEN: usize = 6;

/// Number of bytes that hold the destination and the source address.
pub const ADDRESS_HEADER_LEN: usize = 12;

/// Why a byte sequence is not accepted as a frame.
#[derive(Clone, Copy, Debug, PartialEq, Eq, Structural)]
pub enum FrameError {
    /// The frame is longer than the interface's MTU.
    FrameTooLarge,
    /// The frame is empty, or too short to hold the addresses that the relay reads.
    MalformedFrame,
}

/// One link-layer frame with the time at which it was received.
///
/// A frame is never empty; whoever builds one checks the length against the
/// MTU of the interface it is meant for.
#[derive(Debug, PartialEq, Eq)]
pub struct Frame {
    payload: Vec<u8>,
    received_at: u64,
}

/// What a frame is: its bytes and the time of receipt.
pub struct FrameModel {
    pub payload: Seq<u8>,
    pub received_at: u64,
}

impl View for Frame {
    type V = FrameModel;

    closed spec fn view(&self) -> FrameModel {
        FrameModel { payload: self.payload@, received_at: self.received_at }
    }
}

/// The verdict on a byte sequence of length `len` offered as a frame on an
/// interface with the given MTU: `None` when it is acceptable.
pub open spec fn length_verdict(len: nat, mtu: nat) -> Option<FrameError> {
    if len == 0 {
        Some(FrameError::MalformedFrame)
    } else if len > mtu {
        Some(FrameError::FrameTooLarge)
    } else {
        None
    }
}

/// The address whose six bytes start at `offset`, most significant byte first.
pub open spec fn address_at(bytes: Seq<u8>, offset: int) -> u64
    recommends
        0 <= offset,
        offset + 6 <= bytes.len(),
{
    (bytes[offset] as int * 0x100_0000_0000 + bytes[offset + 1] as int * 0x1_0000_0000
        + bytes[offset + 2] as int * 0x100_0000 + bytes[offset + 3] as int * 0x1_0000
        + bytes[offset + 4] as int * 0x100 + bytes[offset + 5] as int) as u64
}

/// The destination address of a frame: the first six bytes of its header.
pub open spec fn destination_of(bytes: Seq<u8>) -> u64
    recommends
        bytes.len() >= 12,
{
    address_at(bytes, 0)
}

/// The source address of a frame: the six bytes after the destination.
pub open spec fn source_of(bytes: Seq<u8>) -> u64
    recommends
        bytes.len() >= 12,
{
    address_at(bytes, 6)
}

/// Whether an address names a group (multicast, or the broadcast address):
/// the lowest bit of its first byte is set.
pub open spec fn is_group(address: u64) -> bool {
    (address / 0x100_0000_0000) % 2 == 1
}

/// The addresses that the relay reads from a frame.
#[derive(Clone, Copy, Debug, PartialEq, Eq, Structural)]
pub struct Addresses {
    pub destination: u64,
    pub source: u64,
}

/// Checks a length against the MTU.
pub fn check_length(len: usize, mtu: usize) -> (r: Result<(), FrameError>)
    ensures
        r == match length_verdict(len as nat, mtu as nat) {
            Some(e) => Err::<(), FrameError>(e),
            None => Ok(()),
        },
{
    if len == 0 {
        Err(FrameError::MalformedFrame)
    } else if len > mtu {
        Err(FrameError::FrameTooLarge)
    } else {
        Ok(())
    }
}

/// Reads the six-byte address that starts at `offset`.
pub fn read_address(bytes: &Vec<u8>, offset: usize) -> (r: u64)
    requires
        offset + 6 <= bytes.len(),
    ensures
        r == address_at(bytes@, offset as int),
        r < 0x1_0000_0000_0000,
{
    let b0: u64 = bytes[offset] as u64;
    let b1: u64 = bytes[offset + 1] as u64;
    let b2: u64 = bytes[offset + 2] as u64;
    let b3: u64 = bytes[offset + 3] as u64;
    let b4: u64 = bytes[offset + 4] as u64;
    let b5: u64 = bytes[offset + 5] as u64;
    b0 * 0x100_0000_0000 + b1 * 0x1_0000_0000 + b2 * 0x100_0000 + b3 * 0x1_0000 + b4 * 0x100 + b5
}

/// Reads destination and source address from the head of a frame. A frame
/// too short to hold both is malformed.
pub fn parse_addresses(bytes: &Vec<u8>) -> (r: Result<Addresses, FrameError>)
    ensures
        bytes@.len() < 12 ==> r == Err::<Addresses, FrameError>(FrameError::MalformedFrame),
        bytes@.len() >= 12 ==> r == Ok::<Addresses, FrameError>(
            (Addresses { destination: destination_of(bytes@), source: source_of(bytes@) }),
        ),
{
    if bytes.len() < ADDRESS_HEADER_LEN {
        return Err(FrameError::MalformedFrame);
    }
    let destination: u64 = read_address(bytes, 0);
    let source: u64 = read_address(bytes, ADDRESS_LEN);
    Ok(Addresses { destination, source })
}

/// Tells whether an address names a group rather than one station.
pub fn address_is_group(address: u64) -> (r: bool)
    ensures
        r == is_group(address),
{
    (address / 0x100_0000_0000) % 2 == 1
}

/// Copies a byte vector.
pub fn copy_bytes(bytes: &Vec<u8>) -> (r: Vec<u8>)
    ensures
        r@ == bytes@,
{
    let mut out: Vec<u8> = Vec::with_capacity(bytes.len());
    let mut i: usize = 0;
    while i < bytes.len()
        invariant
            i <= bytes.len(),
            out@ == bytes@.take(i as int),
        decreases bytes.len() - i,
    {
        out.push(bytes[i]);
        assert(bytes@.take(i as int).push(bytes@[i as int]) =~= bytes@.take(i + 1));
        i += 1;
    }
    assert(bytes@.take(bytes@.len() as int) =~= bytes@);
    out
}

impl Frame {
    /// Wraps bytes as a frame for an interface with the given MTU. Bytes
    /// outside the bound are rejected, never truncated or padded.
    pub fn new(payload: Vec<u8>, mtu: usize, received_at: u64) -> (r: Result<Frame, FrameError>)
        ensures
            match length_verdict(payload@.len(), mtu as nat) {
                Some(e) => r == Err::<Frame, FrameError>(e),
                None => r.is_ok() && r.unwrap().fits(mtu as nat) && r.unwrap()@ == (FrameModel {
                    payload: payload@,
                    received_at,
                }),
            },
    {
        match check_length(payload.len(), mtu) {
            Err(e) => Err(e),
            Ok(()) => Ok(Frame { payload, received_at }),
        }
    }

    /// Whether the frame is within the bound of an interface with the given MTU.
    pub open spec fn fits(self, mtu: nat) -> bool {
        0 < self@.payload.len() <= mtu
    }

    /// Checks the frame against the MTU of the interface that it is about
    /// to be written to.
    pub fn check_fits(&self, mtu: usize) -> (r: Result<(), FrameError>)
        ensures
            r.is_ok() == self.fits(mtu as nat),
            r == match length_verdict(self@.payload.len(), mtu as nat) {
                Some(e) => Err::<(), FrameError>(e),
                None => Ok(()),
            },
    {
        check_length(self.payload.len(), mtu)
    }

    /// The frame's bytes.
    pub fn payload(&self) -> (r: &Vec<u8>)
        ensures
            r@ == self@.payload,
    {
        &self.payload
    }

    /// The number of bytes in the frame.
    pub fn len(&self) -> (r: usize)
        ensures
            r == self@.payload.len(),
    {
        self.payload.len()
    }

    /// When the frame was received.
    pub fn received_at(&self) -> (r: u64)
        ensures
            r == self@.received_at,
    {
        self.received_at
    }

    /// Gives the bytes up, unchanged.
    pub fn into_bytes(self) -> (r: Vec<u8>)
        ensures
            r@ == self@.payload,
    {
        self.payload
    }
}

} // verus!
