//! Facts about a connecting Bluetooth device.

use vstd::prelude::*;
use vstd::string::*;
use crate::session::SessionPeerInfo;

verus! {

/// The `org.bluez.Device1` properties a session reads.
#[derive(Debug, Clone)]
pub struct DeviceInfo {
    pub address: String,
    pub name: String,
    pub paired: bool,
    pub trusted: bool,
}

/// A device property that did not have the expected type.
#[derive(Debug, Clone, Copy, PartialEq, Eq, Structural)]
pub enum DeviceError {
    /// `Address` is not a string.
    AddressNotString,
    /// `Paired` is not a boolean.
    PairedNotBool,
    /// `Trusted` is not a boolean.
    TrustedNotBool,
}

/// The device name a session uses: the `Name` property where it is a
/// string, `unknown` otherwise.
pub open spec fn device_name(name: Option<Seq<char>>) -> Seq<char> {
    match name {
        Some(n) => n,
        None => "unknown"@,
    }
}

/// Builds the device facts from the four properties, each given as its value
/// where it has the expected type and `None` where it has not. `Address`,
/// `Paired` and `Trusted` must have their types, checked in that order; a
/// `Name` that is not a string becomes `unknown`.
pub fn device_info(
    address: Option<String>,
    name: Option<String>,
    paired: Option<bool>,
    trusted: Option<bool>,
) -> (r: Result<DeviceInfo, DeviceError>)
    ensures
        address is None ==> r == Err::<DeviceInfo, DeviceError>(DeviceError::AddressNotString),
        address is Some && paired is None ==> r == Err::<DeviceInfo, DeviceError>(
            DeviceError::PairedNotBool,
        ),
        address is Some && paired is Some && trusted is None ==> r == Err::<DeviceInfo, DeviceError>(
            DeviceError::TrustedNotBool,
        ),
        address is Some && paired is Some && trusted is Some ==> (r matches Ok(info)
            && info.address@ == address->0@ && info.name@ == device_name(name.deep_view())
            && info.paired == paired->0 && info.trusted == trusted->0),
{
    let address = match address {
        Some(a) => a,
        None => return Err(DeviceError::AddressNotString),
    };
    let paired = match paired {
        Some(p) => p,
        None => return Err(DeviceError::PairedNotBool),
    };
    let trusted = match trusted {
        Some(t) => t,
        None => return Err(DeviceError::TrustedNotBool),
    };
    let name = match name {
        Some(n) => n,
        None => String::from_str("unknown"),
    };
    Ok(DeviceInfo { address, name, paired, trusted })
}

/// The peer of a new session on a device object path.
pub fn peer_info(device_path: String, info: &DeviceInfo) -> (r: SessionPeerInfo)
    ensures
        r.device_path@ == device_path@,
        r.address@ == info.address@,
        r.name@ == info.name@,
{
    SessionPeerInfo { device_path, address: info.address.clone(), name: info.name.clone() }
}

} // verus!
