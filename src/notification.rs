use vstd::prelude::*;
use vstd::slice::slice_subrange;

verus! {

/// Tracking state carried by a notification; `1` on the wire is
/// `Started`, `0` is `Ended`.
#[derive(Clone, Copy, Debug, PartialEq, Eq, Structural)]
pub enum Status {
    Started,
    Ended,
}

/// What the wire value of a notification's status means, if anything.
pub open spec fn status_of(code: i32) -> Option<Status> {
    if code == 1 {
        Some(Status::Started)
    } else if code == 0 {
        Some(Status::Ended)
    } else {
        None
    }
}

/// One decoded notification from a detection device.
#[derive(Clone, Debug)]
pub struct CameraEvent {
    /// Class of the detected object (`person`, `car`, ...).
    pub kind: String,
    /// Raw status code: `1` tracking started, `0` tracking ended.
    pub status: i32,
    /// Timestamp as sent by the device; not interpreted.
    pub time: String,
    /// Address of the device as sent by it; not interpreted.
    pub ip: String,
    /// Name of the device, the key of its pending event.
    pub device_name: String,
}

impl CameraEvent {
    /// The status code read as a `Status`; `None` for any code but `0` and `1`.
    pub fn status_kind(&self) -> (r: Option<Status>)
        ensures
            r == status_of(self.status),
    {
        if self.status == 1 {
            Some(Status::Started)
        } else if self.status == 0 {
            Some(Status::Ended)
        } else {
            None
        }
    }
}

/// The payload of a connection is not closed by a single null byte.
#[derive(Clone, Copy, Debug, PartialEq, Eq, Structural)]
pub enum FrameError {
    MissingTerminator,
}

/// A payload is framed when its last byte is the null terminator.
pub open spec fn is_framed(payload: Seq<u8>) -> bool {
    payload.len() > 0 && payload.last() == 0u8
}

/// Strips the null byte that closes a connection's payload and returns the
/// JSON text before it.
pub fn strip_terminator(payload: &[u8]) -> (r: Result<&[u8], FrameError>)
    ensures
        is_framed(payload@) ==> (r matches Ok(body) && body@ == payload@.drop_last()),
        !is_framed(payload@) ==> r == Err::<&[u8], FrameError>(FrameError::MissingTerminator),
{
    let n: usize = payload.len();
    if n == 0 || payload[n - 1] != 0u8 {
        return Err(FrameError::MissingTerminator);
    }
    let body = slice_subrange(payload, 0, n - 1);
    assert(body@ =~= payload@.drop_last());
    Ok(body)
}

} // verus!
