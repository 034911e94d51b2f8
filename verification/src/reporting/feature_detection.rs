//! Which protocol a job is reported over.

use vstd::prelude::*;

use crate::text;

verus! {

/// The protocol of a job.
#[derive(Debug, Clone, Copy, PartialEq, Eq, Structural)]
pub enum ProtocolVersion {
    /// GitHub.com: the results service.
    V2,
    /// Enterprise servers: the timeline service.
    V1,
}

/// How a protocol is shown.
pub open spec fn protocol_name(v: ProtocolVersion) -> Seq<char> {
    match v {
        ProtocolVersion::V1 => "V1 (GHES Legacy)"@,
        ProtocolVersion::V2 => "V2 (GitHub.com)"@,
    }
}

impl ProtocolVersion {
    pub fn is_v1(self) -> (r: bool)
        ensures
            r == (self == ProtocolVersion::V1),
    {
        self == ProtocolVersion::V1
    }

    pub fn is_v2(self) -> (r: bool)
        ensures
            r == (self == ProtocolVersion::V2),
    {
        self == ProtocolVersion::V2
    }

    /// How the protocol is shown.
    pub fn display(self) -> (r: &'static str)
        ensures
            r@ == protocol_name(self),
    {
        match self {
            ProtocolVersion::V1 => "V1 (GHES Legacy)",
            ProtocolVersion::V2 => "V2 (GitHub.com)",
        }
    }
}

/// The protocol of a job, from the address of its run service: the newer one
/// when there is an address and it is not empty.
pub fn detect_protocol_version(run_service_url: Option<&str>) -> (r: ProtocolVersion)
    ensures
        r == match text::str_opt(run_service_url) {
            Some(url) => if url.len() > 0 {
                ProtocolVersion::V2
            } else {
                ProtocolVersion::V1
            },
            None => ProtocolVersion::V1,
        },
{
    match run_service_url {
        Some(url) => if url.is_empty() {
            ProtocolVersion::V1
        } else {
            ProtocolVersion::V2
        },
        None => ProtocolVersion::V1,
    }
}

/// A job speaks the newer protocol exactly when its run service has an
/// address that is not empty.
pub proof fn law_address_means_newer_protocol(url: Option<&str>, r: ProtocolVersion)
    requires
        call_ensures(detect_protocol_version, (url,), r),
    ensures
        r == ProtocolVersion::V2 <==> url is Some && url->0@.len() > 0,
        r == ProtocolVersion::V1 <==> url is None || url->0@.len() == 0,
{
}

/// A protocol is itself and not the other, and is shown by its own name.
pub proof fn law_protocol_is_itself(v: ProtocolVersion, old_one: bool, new_one: bool, name: &'static str)
    requires
        call_ensures(ProtocolVersion::is_v1, (v,), old_one),
        call_ensures(ProtocolVersion::is_v2, (v,), new_one),
        call_ensures(ProtocolVersion::display, (v,), name),
    ensures
        old_one <==> v == ProtocolVersion::V1,
        new_one <==> v == ProtocolVersion::V2,
        v == ProtocolVersion::V1 ==> name@ == "V1 (GHES Legacy)"@,
        v == ProtocolVersion::V2 ==> name@ == "V2 (GitHub.com)"@,
{
}

} // verus!
