//! Fixed-point spectrometer pipeline: turns camera frames into calibrated
//! optical spectra.
//!
//! A narrow strip of each camera picture holds light that a grating has
//! spread by wavelength. The strip is reduced to one intensity per pixel
//! column, the latest reductions are averaged, corrected and calibrated, and
//! peaks and dips are read from the result.

use vstd::prelude::*;

pub mod camera;
pub mod channel;
pub mod config;
pub mod filter;
pub mod fixed;
pub mod frame;
pub mod gamma;
pub mod gui;
pub mod peaks;
pub mod pipeline;
pub mod spectrum;
pub mod spectrum_feed_server;

verus! {

/// The thread that reports a result.
#[derive(Debug, PartialEq, Eq, Structural, Copy, Clone)]
pub enum ThreadId {
    Camera,
    Main,
}

/// What a thread reports: success, or a message that says what failed.
#[derive(Debug, PartialEq)]
pub struct ThreadResult {
    pub id: ThreadId,
    pub result: Result<(), String>,
}

impl Clone for ThreadResult {
    fn clone(&self) -> (copy: Self)
        ensures
            copy.id == self.id,
            copy.result.is_ok() == self.result.is_ok(),
            self.result.is_err() ==> copy.result.unwrap_err()@ == self.result.unwrap_err()@,
    {
        ThreadResult {
            id: self.id,
            result: match &self.result {
                Ok(()) => Ok(()),
                Err(message) => Err(message.clone()),
            },
        }
    }
}

impl ThreadResult {
    /// True when the camera thread reports a failure: the stream has ended.
    pub open spec fn is_camera_failure(&self) -> bool {
        self.id == ThreadId::Camera && self.result.is_err()
    }

    /// Tells whether the camera thread reports a failure, after which no
    /// stream is running any more.
    pub fn ends_stream(&self) -> (ended: bool)
        ensures
            ended == self.is_camera_failure(),
    {
        self.id == ThreadId::Camera && self.result.is_err()
    }
}

/// Data with the time span in which it was captured, in microseconds since
/// the Unix epoch: `start` is not after the first light that went into the
/// data, `end` not before the last.
#[derive(Debug, PartialEq, Eq, Clone)]
pub struct Timestamped<T> {
    pub start: u64,
    pub end: u64,
    pub data: T,
}

impl<T> Timestamped<T> {
    /// The span does not end before it starts.
    pub open spec fn wf(&self) -> bool {
        self.start <= self.end
    }

    /// Wraps data with its time span; nothing where the span would end
    /// before it starts.
    pub fn new(start: u64, end: u64, data: T) -> (timed: Option<Self>)
        ensures
            timed.is_some() <==> start <= end,
            timed.is_some() ==> timed.unwrap().start == start && timed.unwrap().end == end
                && timed.unwrap().data == data,
    {
        if start <= end {
            Some(Self { start, end, data })
        } else {
            None
        }
    }
}

} // verus!
