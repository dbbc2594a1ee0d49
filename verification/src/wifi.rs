//! Joining the WiFi network: the authentication to use, and the channel of the access point.
use vstd::prelude::*;

verus! {

/// How the station authenticates to the access point.
#[derive(Debug, Clone, Copy, PartialEq, Eq, Structural)]
pub enum AuthKind {
    /// WPA2 with a pre-shared password.
    Wpa2Personal,
    /// An open network, without password.
    Open,
}

/// The authentication for the network `ssid` with `password`: an error without a network
/// name, an open network without a password, WPA2 otherwise.
pub fn wifi_auth(ssid: &str, password: &str) -> (auth: Result<AuthKind, String>)
    ensures
        ssid@.len() == 0 <==> auth is Err,
        auth matches Err(message) ==> message@ == "Missing WiFi name"@,
        auth matches Ok(kind) ==> (kind == AuthKind::Open <==> password@.len() == 0),
{
    if ssid.is_empty() {
        return Err(String::from_str("Missing WiFi name"));
    }
    if password.is_empty() {
        Ok(AuthKind::Open)
    } else {
        Ok(AuthKind::Wpa2Personal)
    }
}

/// An access point found by a scan.
#[derive(Debug, Clone)]
pub struct AccessPoint {
    pub ssid: String,
    pub channel: u8,
}

/// The channel of the first access point named `ssid`, if the scan found one.
pub fn target_channel(access_points: &Vec<AccessPoint>, ssid: &str) -> (channel: Option<u8>)
    ensures
        channel is None <==> forall|i: int|
            0 <= i < access_points@.len() ==> #[trigger] access_points@[i].ssid@ != ssid@,
        channel matches Some(c) ==> exists|i: int|
            0 <= i < access_points@.len() && #[trigger] access_points@[i].ssid@ == ssid@
                && access_points@[i].channel == c && forall|j: int|
                0 <= j < i ==> access_points@[j].ssid@ != ssid@,
{
    let target = String::from_str(ssid);
    let mut i: usize = 0;
    while i < access_points.len()
        invariant
            0 <= i <= access_points@.len(),
            target@ == ssid@,
            forall|j: int| 0 <= j < i ==> access_points@[j].ssid@ != ssid@,
        decreases access_points@.len() - i,
    {
        if access_points[i].ssid == target {
            return Some(access_points[i].channel);
        }
        i = i + 1;
    }
    None
}

} // verus!
