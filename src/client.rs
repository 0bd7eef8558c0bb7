use vstd::prelude::*;

verus! {

/// A lowercase hexadecimal digit.
pub open spec fn lower_hex(c: char) -> bool {
    ('0' <= c && c <= '9') || ('a' <= c && c <= 'f')
}

/// The hyphenated lowercase form of a version 4 UUID: 36 characters, a `-`
/// after the 8th, 12th, 16th and 20th hex digit, version digit `4`, and a
/// variant digit of `8`, `9`, `a` or `b`.
pub open spec fn hyphenated(s: Seq<char>) -> bool {
    &&& s.len() == 36
    &&& s[8] == '-'
    &&& s[13] == '-'
    &&& s[18] == '-'
    &&& s[23] == '-'
    &&& forall|i: int|
        0 <= i < 36 && i != 8 && i != 13 && i != 18 && i != 23 ==> lower_hex(#[trigger] s[i])
    &&& s[14] == '4'
    &&& (s[19] == '8' || s[19] == '9' || s[19] == 'a' || s[19] == 'b')
}

/// Relies on `uuid::Uuid::new_v4` and the `Display` impl of `uuid::Uuid`: a
/// random identifier, written in the hyphenated form. `new_v4` panics only
/// when the system's random source fails.
#[verifier::external_body]
fn fresh_correlation_id() -> (r: String)
    ensures
        hyphenated(r@),
{
    uuid::Uuid::new_v4().to_string()
}

/// The robot's side of one request and its reply: the robot sends its state
/// under a fresh correlation identifier and waits for the reply that carries
/// the same identifier and its own device identifier.
pub struct RobotRpcClient {
    /// The device that sends the requests.
    pub device_id: String,
    /// The correlation identifier of the request in flight.
    pub correlation_id: String,
}

/// Whether a delivery tagged `tag` answers the request `awaited`.
pub open spec fn answers(tag: Option<String>, awaited: Seq<char>) -> bool {
    match tag {
        Some(t) => t@ == awaited,
        None => false,
    }
}

impl RobotRpcClient {
    /// Opens a session for the robot `device_id`, with a fresh correlation
    /// identifier for its first request.
    pub fn new(device_id: String) -> (r: Self)
        ensures
            r.device_id@ == device_id@,
            hyphenated(r.correlation_id@),
    {
        RobotRpcClient { device_id, correlation_id: fresh_correlation_id() }
    }

    /// Takes a fresh correlation identifier for the next request.
    pub fn next_request(&mut self)
        ensures
            final(self).device_id == old(self).device_id,
            hyphenated(final(self).correlation_id@),
    {
        self.correlation_id = fresh_correlation_id();
    }

    /// Whether a delivery with correlation tag `tag` answers the request in
    /// flight; any other delivery is left alone.
    pub fn awaits(&self, tag: &Option<String>) -> (r: bool)
        ensures
            r == answers(*tag, self.correlation_id@),
    {
        match tag {
            Some(t) => *t == self.correlation_id,
            None => false,
        }
    }

    /// Whether a reply with tag `tag` that carries the state of device
    /// `reply_device_id` is the one to apply.
    pub fn accepts(&self, tag: &Option<String>, reply_device_id: &String) -> (r: bool)
        ensures
            r == (answers(*tag, self.correlation_id@) && reply_device_id@ == self.device_id@),
    {
        self.awaits(tag) && *reply_device_id == self.device_id
    }
}

} // verus!
