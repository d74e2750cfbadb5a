//! CAN frames as plain values.

use vstd::prelude::*;

verus! {

/// Largest standard identifier.
pub const STANDARD_ID_MAX: u16 = 0x7FF;

/// Most data bytes in a classic frame.
pub const CLASSIC_MAX: usize = 8;

/// Most data bytes in an FD frame.
pub const FD_MAX: usize = 64;

/// Frame identifier, 11 or 29 bits wide.
#[derive(Copy, Clone, Debug, PartialEq, Eq, Structural)]
pub enum FrameId {
    Standard(u16),
    Extended(u32),
}

/// Why a frame could not be made.
#[derive(Copy, Clone, Debug, PartialEq, Eq, Structural)]
pub enum FrameError {
    NotEnoughData,
    InvalidDataLength,
    InvalidCanId,
}

/// A classic frame, with up to eight data bytes.
#[derive(Debug)]
pub struct Frame {
    pub id: FrameId,
    pub data: Vec<u8>,
}

/// An FD frame, with up to 64 data bytes.
#[derive(Debug)]
pub struct FdFrame {
    pub id: FrameId,
    pub data: Vec<u8>,
}

/// A data length that a classic frame can have.
pub open spec fn is_classic_length(len: int) -> bool {
    0 <= len <= CLASSIC_MAX
}

/// A data length that an FD frame can have.
pub open spec fn is_fd_length(len: int) -> bool {
    0 <= len <= 8 || len == 12 || len == 16 || len == 20 || len == 24 || len == 32 || len == 48
        || len == FD_MAX
}

/// What making a frame with a standard identifier gives, where `fits` says
/// that the data has a length that the kind of frame can have.
pub open spec fn making(raw_id: u16, fits: bool) -> Result<(), FrameError> {
    if raw_id > STANDARD_ID_MAX {
        Err(FrameError::InvalidCanId)
    } else if !fits {
        Err(FrameError::InvalidDataLength)
    } else {
        Ok(())
    }
}

/// What goes out of a frame that is to be sent: nothing while transmission is
/// switched off.
pub open spec fn sent<T>(frame: Option<T>, tx_disabled: bool) -> Option<T> {
    if tx_disabled {
        None
    } else {
        frame
    }
}

/// Calls `embassy_stm32::can::Frame::new_standard` and gives back the raw
/// identifier and the data of the frame.
///
/// Taken on trust: the identifier is checked first, then that there are at
/// most eight bytes, and the frame holds both unchanged.
#[verifier::external_body]
fn classic_frame(raw_id: u16, data: &[u8]) -> (r: Result<(FrameId, Vec<u8>), FrameError>)
    ensures
        match r {
            Ok(frame) => {
                &&& making(raw_id, is_classic_length(data@.len() as int)) is Ok
                &&& frame.0 == FrameId::Standard(raw_id)
                &&& frame.1@ == data@
            },
            Err(e) => making(raw_id, is_classic_length(data@.len() as int)) == Err::<
                (),
                FrameError,
            >(e),
        },
{
    match embassy_stm32::can::Frame::new_standard(raw_id, data) {
        Ok(f) => match f.header().id() {
            embedded_can::Id::Standard(s) => Ok((FrameId::Standard(s.as_raw()), f.data().to_vec())),
            embedded_can::Id::Extended(e) => Ok((FrameId::Extended(e.as_raw()), f.data().to_vec())),
        },
        Err(embassy_stm32::can::enums::FrameCreateError::InvalidCanId) => Err(FrameError::InvalidCanId),
        Err(embassy_stm32::can::enums::FrameCreateError::InvalidDataLength) => Err(
            FrameError::InvalidDataLength,
        ),
        Err(embassy_stm32::can::enums::FrameCreateError::NotEnoughData) => Err(FrameError::NotEnoughData),
    }
}

/// Calls `embassy_stm32::can::frame::FdFrame::new_standard` and gives back
/// the raw identifier and the data of the frame.
///
/// Taken on trust: the identifier is checked first, then that the number of
/// bytes is one that the data length code can express, and the frame holds
/// both unchanged.
#[verifier::external_body]
fn fd_frame(raw_id: u16, data: &[u8]) -> (r: Result<(FrameId, Vec<u8>), FrameError>)
    ensures
        match r {
            Ok(frame) => {
                &&& making(raw_id, is_fd_length(data@.len() as int)) is Ok
                &&& frame.0 == FrameId::Standard(raw_id)
                &&& frame.1@ == data@
            },
            Err(e) => making(raw_id, is_fd_length(data@.len() as int)) == Err::<(), FrameError>(e),
        },
{
    match embassy_stm32::can::frame::FdFrame::new_standard(raw_id, data) {
        Ok(f) => match f.header().id() {
            embedded_can::Id::Standard(s) => Ok((FrameId::Standard(s.as_raw()), f.data().to_vec())),
            embedded_can::Id::Extended(e) => Ok((FrameId::Extended(e.as_raw()), f.data().to_vec())),
        },
        Err(embassy_stm32::can::enums::FrameCreateError::InvalidCanId) => Err(FrameError::InvalidCanId),
        Err(embassy_stm32::can::enums::FrameCreateError::InvalidDataLength) => Err(
            FrameError::InvalidDataLength,
        ),
        Err(embassy_stm32::can::enums::FrameCreateError::NotEnoughData) => Err(FrameError::NotEnoughData),
    }
}

impl Frame {
    /// A classic frame with a standard identifier.
    pub fn new_standard(raw_id: u16, data: &[u8]) -> (r: Result<Frame, FrameError>)
        ensures
            match r {
                Ok(frame) => {
                    &&& making(raw_id, is_classic_length(data@.len() as int)) is Ok
                    &&& frame.id == FrameId::Standard(raw_id)
                    &&& frame.data@ == data@
                },
                Err(e) => making(raw_id, is_classic_length(data@.len() as int)) == Err::<
                    (),
                    FrameError,
                >(e),
            },
    {
        match classic_frame(raw_id, data) {
            Ok((id, data)) => Ok(Frame { id, data }),
            Err(e) => Err(e),
        }
    }

    /// Whether the frame carries the standard identifier `raw_id`.
    pub fn has_standard_id(&self, raw_id: u16) -> (b: bool)
        ensures
            b == (self.id == FrameId::Standard(raw_id)),
    {
        match self.id {
            FrameId::Standard(id) => id == raw_id,
            FrameId::Extended(_) => false,
        }
    }
}

impl FdFrame {
    /// An FD frame with a standard identifier.
    pub fn new_standard(raw_id: u16, data: &[u8]) -> (r: Result<FdFrame, FrameError>)
        ensures
            match r {
                Ok(frame) => {
                    &&& making(raw_id, is_fd_length(data@.len() as int)) is Ok
                    &&& frame.id == FrameId::Standard(raw_id)
                    &&& frame.data@ == data@
                },
                Err(e) => making(raw_id, is_fd_length(data@.len() as int)) == Err::<
                    (),
                    FrameError,
                >(e),
            },
    {
        match fd_frame(raw_id, data) {
            Ok((id, data)) => Ok(FdFrame { id, data }),
            Err(e) => Err(e),
        }
    }
}

/// A frame can be made exactly if its identifier has at most 11 bits and its data
/// a length of its kind: up to 8 bytes, and for FD frames also 12, 16, 20, 24, 32,
/// 48 and 64. A wrong identifier is the first reason not to.
pub proof fn law_frames_that_can_be_made(raw_id: u16, len: int)
    requires
        0 <= len,
    ensures
        is_classic_length(len) <==> len <= 8,
        is_fd_length(len) <==> len <= 8 || len == 12 || len == 16 || len == 20 || len == 24 || len
            == 32 || len == 48 || len == 64,
        making(raw_id, true) is Ok <==> raw_id <= 0x7FF,
        raw_id > 0x7FF ==> making(raw_id, is_fd_length(len)) == Err::<(), FrameError>(
            FrameError::InvalidCanId,
        ),
        raw_id <= 0x7FF ==> making(raw_id, false) == Err::<(), FrameError>(
            FrameError::InvalidDataLength,
        ),
{
}

} // verus!
