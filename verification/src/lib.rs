//! Verified decision logic of the camera capture backends: format
//! negotiation, control mapping, hotplug diffing and the packed-value
//! decoding used by the V4L2, Media Foundation, AVFoundation and
//! GStreamer bindings.
use vstd::prelude::*;

pub mod types;
pub mod avf;
pub mod channel;
pub mod formats;
pub mod gst;
pub mod gst_device;
pub mod hotplug;
pub mod keyorder;
pub mod msmf;
pub mod sorted;
pub mod text;
pub mod v4l;

verus! {
} // verus!
