//! What passes between the palette and the device: the colours to write, and
//! the failures that come back.
//!
//! A failure of the device never changes the palette. It becomes a notice for
//! whoever watches, and that is all.

use vstd::prelude::*;
use crate::color::Rgb;

verus! {

/// A failed read or write, as the device describes it.
#[derive(Clone, Debug, PartialEq, Eq)]
pub struct DeviceError {
    pub message: String,
}

/// The two operations of the device.
#[derive(Clone, Copy, Debug, PartialEq, Eq, Structural, Hash)]
pub enum DeviceOperation {
    Read,
    Write,
}

/// A failure to tell an observer about: which operation failed, and the
/// device's message.
#[derive(Clone, Debug, PartialEq, Eq)]
pub struct Notice {
    pub operation: DeviceOperation,
    pub message: String,
}

/// The notice for a read that failed with `error`.
pub open spec fn read_failed(error: DeviceError) -> Notice {
    Notice { operation: DeviceOperation::Read, message: error.message }
}

/// The notice for a write that failed with `error`.
pub open spec fn write_failed(error: DeviceError) -> Notice {
    Notice { operation: DeviceOperation::Write, message: error.message }
}

/// The colour to show for what the device reported: the colour it gave, or
/// black where the read failed.
pub open spec fn seed_color(reported: Result<Rgb, DeviceError>) -> Rgb {
    match reported {
        Ok(color) => color,
        Err(_) => Rgb::black(),
    }
}

/// What to tell an observer about a finished read: nothing where it
/// succeeded, the failure where it did not.
pub open spec fn read_notice(reported: Result<Rgb, DeviceError>) -> Option<Notice> {
    match reported {
        Ok(_) => None,
        Err(error) => Some(read_failed(error)),
    }
}

/// What to tell an observer about a finished write.
pub open spec fn write_notice(outcome: Result<(), DeviceError>) -> Option<Notice> {
    match outcome {
        Ok(_) => None,
        Err(error) => Some(write_failed(error)),
    }
}

/// Settles a read of the device's colour: the colour to go on with, and the
/// notice to pass on if the read failed.
pub fn settle_read(reported: Result<Rgb, DeviceError>) -> (settled: (Rgb, Option<Notice>))
    ensures
        settled.0 == seed_color(reported),
        settled.1 == read_notice(reported),
{
    match reported {
        Ok(color) => (color, None),
        Err(error) => (
            Rgb::new(0, 0, 0),
            Some(Notice { operation: DeviceOperation::Read, message: error.message }),
        ),
    }
}

/// Settles a write to the device: the notice to pass on if it failed.
pub fn settle_write(outcome: Result<(), DeviceError>) -> (notice: Option<Notice>)
    ensures
        notice == write_notice(outcome),
{
    match outcome {
        Ok(_) => None,
        Err(error) => Some(Notice { operation: DeviceOperation::Write, message: error.message }),
    }
}

} // verus!
