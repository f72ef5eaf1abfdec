use vstd::prelude::*;

use crate::ble::ScannedDevice;

verus! {

/// Bluetooth adapter status.
#[derive(Debug, Clone)]
pub struct BluetoothStatusResponse {
    pub adapter_found: bool,
    pub powered_on: bool,
    pub message: String,
}

/// A discovered BLE device, as the front end receives it.
#[derive(Debug, Clone)]
pub struct ScannedDeviceInfo {
    pub name: String,
    pub address: String,
    pub rssi: Option<i32>,
    pub is_meshtastic: bool,
}

/// The devices of a scan, as `{ devices: [...] }`.
#[derive(Debug)]
pub struct ScanResponse {
    pub devices: Vec<ScannedDeviceInfo>,
}

/// The front-end form of a scanned device: the same fields, with the signal
/// strength widened to `i32`.
pub open spec fn same_device(info: ScannedDeviceInfo, d: ScannedDevice) -> bool {
    &&& info.name == d.name
    &&& info.address == d.address
    &&& info.is_meshtastic == d.is_meshtastic
    &&& match d.rssi {
        Some(v) => info.rssi == Some(v as i32),
        None => info.rssi is None,
    }
}

/// Converts the devices of a scan for the front end, keeping their order.
pub fn scan_response(devices: Vec<ScannedDevice>) -> (r: ScanResponse)
    ensures
        r.devices@.len() == devices@.len(),
        forall|i: int| 0 <= i < devices@.len() ==> same_device(#[trigger] r.devices@[i], devices@[i]),
{
    let ghost orig = devices@;
    let mut rest = devices;
    let mut out: Vec<ScannedDeviceInfo> = Vec::new();
    while rest.len() > 0
        invariant
            out@.len() + rest@.len() == orig.len(),
            rest@ == orig.skip(out@.len() as int),
            forall|i: int| 0 <= i < out@.len() ==> same_device(#[trigger] out@[i], orig[i]),
        decreases rest@.len(),
    {
        let ghost k = out@.len() as int;
        assert(orig.skip(k)[0] == orig[k]);
        let d = rest.remove(0);
        let rssi: Option<i32> = match d.rssi {
            Some(v) => Some(v as i32),
            None => None,
        };
        out.push(ScannedDeviceInfo {
            name: d.name,
            address: d.address,
            rssi,
            is_meshtastic: d.is_meshtastic,
        });
        assert(rest@ =~= orig.skip(k + 1));
    }
    ScanResponse { devices: out }
}

} // verus!
