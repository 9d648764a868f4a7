//! What the BlueZ side of the bridge decides: the device facts a session is
//! built from and the options a profile is registered with.

pub mod device;
pub mod profile;
