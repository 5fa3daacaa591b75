//! Verified core of the remote trackpad backend: the wire formats of the
//! UDP motion channel and the TCP command channel, and the controller that
//! turns decoded packets into input-device actions.

pub mod text;
pub mod protocol;
pub mod controller;
pub mod settings;
