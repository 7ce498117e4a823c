//! Safety bridge between a host program and a native C library: text and
//! path encoding for outbound calls, decoding of borrowed text on inbound
//! calls, and the registration slot behind the callback trampoline.

pub mod before_send;
pub mod ffi;
pub mod value;

pub use before_send::{sentry_contrib_native_before_send, BeforeSend, Data, Slot};
pub use ffi::{CPath, CToR, RToC, Violation};
pub use value::Value;
