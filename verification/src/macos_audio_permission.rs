//! Microphone permission decisions.
//!
//! The audio capture library reads CoreAudio directly, which never shows the
//! macOS permission dialog, so permission is requested explicitly before any
//! capture. Querying AVFoundation is the caller's part; this module decides
//! from the authorization status it reports.
use vstd::prelude::*;

verus! {

/// How long to wait for the user to answer the permission dialog.
pub const PERMISSION_TIMEOUT_MS: u64 = 60_000;

/// How often the authorization status is polled while waiting.
pub const PERMISSION_POLL_INTERVAL_MS: u64 = 500;

/// The media type of audio capture devices in AVFoundation.
pub const AV_MEDIA_TYPE_AUDIO: &'static str = "soun";

/// AVFoundation's authorization status for a media type.
#[derive(Debug, Clone, Copy, PartialEq, Eq, Structural)]
pub enum AVAuthorizationStatus {
    /// User has not yet made a choice (permission dialog not shown)
    NotDetermined,
    /// User cannot grant permission (e.g., parental controls)
    Restricted,
    /// User explicitly denied permission
    Denied,
    /// User granted permission
    Authorized,
}

/// The status for AVFoundation's raw value; unknown values count as not
/// determined.
pub open spec fn status_of_raw(value: i32) -> AVAuthorizationStatus {
    if value == 1 {
        AVAuthorizationStatus::Restricted
    } else if value == 2 {
        AVAuthorizationStatus::Denied
    } else if value == 3 {
        AVAuthorizationStatus::Authorized
    } else {
        AVAuthorizationStatus::NotDetermined
    }
}

impl From<i32> for AVAuthorizationStatus {
    fn from(value: i32) -> (r: Self) {
        match value {
            1 => AVAuthorizationStatus::Restricted,
            2 => AVAuthorizationStatus::Denied,
            3 => AVAuthorizationStatus::Authorized,
            _ => AVAuthorizationStatus::NotDetermined,
        }
    }
}

impl vstd::std_specs::convert::FromSpecImpl<i32> for AVAuthorizationStatus {
    open spec fn obeys_from_spec() -> bool {
        true
    }

    open spec fn from_spec(v: i32) -> Self {
        status_of_raw(v)
    }
}

impl AVAuthorizationStatus {
    /// AVFoundation's raw value for this status.
    pub fn raw_value(&self) -> (r: i32)
        ensures
            status_of_raw(r) == *self,
            0 <= r <= 3,
    {
        match self {
            AVAuthorizationStatus::NotDetermined => 0,
            AVAuthorizationStatus::Restricted => 1,
            AVAuthorizationStatus::Denied => 2,
            AVAuthorizationStatus::Authorized => 3,
        }
    }
}

/// Whether microphone permission is granted: only when the status is
/// `Authorized`.
pub fn has_microphone_permission(status: AVAuthorizationStatus) -> (r: bool)
    ensures
        r == (status == AVAuthorizationStatus::Authorized),
{
    status == AVAuthorizationStatus::Authorized
}

/// The answer known before any dialog is shown: granted when authorized,
/// refused when denied or restricted, and `None` when the user still has
/// to be asked.
pub fn initial_permission(status: AVAuthorizationStatus) -> (r: Option<bool>)
    ensures
        status == AVAuthorizationStatus::Authorized ==> r == Some(true),
        status == AVAuthorizationStatus::Denied ==> r == Some(false),
        status == AVAuthorizationStatus::Restricted ==> r == Some(false),
        status == AVAuthorizationStatus::NotDetermined ==> r is None,
{
    match status {
        AVAuthorizationStatus::Authorized => Some(true),
        AVAuthorizationStatus::Denied => Some(false),
        AVAuthorizationStatus::Restricted => Some(false),
        AVAuthorizationStatus::NotDetermined => None,
    }
}

/// The answer after one poll while the dialog is shown: the user's choice
/// once made, refusal once waiting took longer than `timeout_ms`, and
/// `None` to keep waiting.
pub fn poll_permission(status: AVAuthorizationStatus, elapsed_ms: u64, timeout_ms: u64) -> (r:
    Option<bool>)
    ensures
        status == AVAuthorizationStatus::Authorized ==> r == Some(true),
        status == AVAuthorizationStatus::Denied ==> r == Some(false),
        status == AVAuthorizationStatus::Restricted ==> r == Some(false),
        status == AVAuthorizationStatus::NotDetermined ==> (r is None <==> elapsed_ms
            <= timeout_ms),
        status == AVAuthorizationStatus::NotDetermined && elapsed_ms > timeout_ms ==> r == Some(
            false,
        ),
{
    match status {
        AVAuthorizationStatus::Authorized => Some(true),
        AVAuthorizationStatus::Denied => Some(false),
        AVAuthorizationStatus::Restricted => Some(false),
        AVAuthorizationStatus::NotDetermined => {
            if elapsed_ms > timeout_ms {
                Some(false)
            } else {
                None
            }
        },
    }
}

/// Converting a status to its raw value and back gives the status again.
pub proof fn lemma_raw_value_round_trip(status: AVAuthorizationStatus)
    ensures
        status_of_raw(match status {
            AVAuthorizationStatus::NotDetermined => 0i32,
            AVAuthorizationStatus::Restricted => 1i32,
            AVAuthorizationStatus::Denied => 2i32,
            AVAuthorizationStatus::Authorized => 3i32,
        }) == status,
{
}

} // verus!
