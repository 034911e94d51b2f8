//! The cold tier: object keys and how its failures are reported.

use vstd::prelude::*;

use crate::error::{RunnerError, RunnerErrorView};
use crate::text;

verus! {

/// Which kind of object a key is for.
#[derive(Debug, Clone, Copy, PartialEq, Eq, Structural)]
pub enum BlobKind {
    /// A content chunk.
    Chunk,
    /// A manifest.
    Manifest,
}

/// The key prefix of a kind.
pub open spec fn kind_prefix(kind: BlobKind) -> Seq<char> {
    match kind {
        BlobKind::Chunk => "chunks/"@,
        BlobKind::Manifest => "manifests/"@,
    }
}

/// The key of an object.
pub open spec fn blob_key(kind: BlobKind, hex_id: Seq<char>) -> Seq<char> {
    kind_prefix(kind) + hex_id
}

impl BlobKind {
    /// The key prefix of the kind.
    pub fn prefix(self) -> (r: &'static str)
        ensures
            r@ == kind_prefix(self),
    {
        match self {
            BlobKind::Chunk => "chunks/",
            BlobKind::Manifest => "manifests/",
        }
    }
}

/// Different objects have different keys.
pub proof fn law_keys_are_distinct(a: BlobKind, x: Seq<char>, b: BlobKind, y: Seq<char>)
    requires
        blob_key(a, x) == blob_key(b, y),
    ensures
        a == b,
        x == y,
{
    reveal_strlit("chunks/");
    reveal_strlit("manifests/");
    let k = blob_key(a, x);
    let l = blob_key(b, y);
    assert(k[0] == kind_prefix(a)[0]);
    assert(l[0] == kind_prefix(b)[0]);
    assert(k.skip(kind_prefix(a).len() as int) =~= x);
    assert(l.skip(kind_prefix(b).len() as int) =~= y);
}

/// The failure of an operation on an object.
pub open spec fn tier_failure(what: Seq<char>, key: Seq<char>, cause: Seq<char>) -> RunnerErrorView {
    RunnerErrorView::Cache("L2 "@ + what + " "@ + key + " failed: "@ + cause)
}

fn tier_error(what: &str, key: &str, cause: &str) -> (r: RunnerError)
    ensures
        r@ == tier_failure(what@, key@, cause@),
{
    let mut msg = text::cat4("L2 ", what, " ", key);
    msg.append(" failed: ");
    msg.append(cause);
    RunnerError::Cache(msg)
}

/// What an operation on the bucket came to.
pub enum TierResult<T> {
    Done(T),
    NotFound(String),
    Failed(String),
}

/// Where the cold tier lives.
#[derive(Debug, Clone)]
pub struct L2Tier {
    pub bucket: String,
    pub endpoint: String,
    pub region: String,
}

impl L2Tier {
    /// The tier at the given place, or the failure of connecting to it.
    pub fn from_config(
        bucket: String,
        endpoint: String,
        region: String,
        connected: Result<(), String>,
    ) -> (r: Result<L2Tier, RunnerError>)
        ensures
            match connected {
                Ok(_) => r == Ok::<L2Tier, RunnerError>(L2Tier { bucket, endpoint, region }),
                Err(cause) => r matches Err(e) && e@ == RunnerErrorView::Cache(
                    "failed to build S3 operator: "@ + cause@,
                ),
            },
    {
        match connected {
            Ok(_) => Ok(L2Tier { bucket, endpoint, region }),
            Err(cause) => Err(
                RunnerError::Cache(text::cat2("failed to build S3 operator: ", cause.as_str())),
            ),
        }
    }

    /// The key of an object.
    pub fn key(kind: BlobKind, hex_id: &str) -> (r: String)
        ensures
            r@ == blob_key(kind, hex_id@),
    {
        text::cat2(kind.prefix(), hex_id)
    }

    /// The outcome of storing an object.
    pub fn put_blob(&self, kind: BlobKind, hex_id: &str, result: TierResult<()>) -> (r: Result<
        (),
        RunnerError,
    >)
        ensures
            match result {
                TierResult::Done(_) => r is Ok,
                TierResult::NotFound(cause) => r matches Err(e) && e@ == tier_failure(
                    "put"@,
                    blob_key(kind, hex_id@),
                    cause@,
                ),
                TierResult::Failed(cause) => r matches Err(e) && e@ == tier_failure(
                    "put"@,
                    blob_key(kind, hex_id@),
                    cause@,
                ),
            },
    {
        let key = L2Tier::key(kind, hex_id);
        match result {
            TierResult::Done(_) => Ok(()),
            TierResult::NotFound(cause) => Err(tier_error("put", key.as_str(), cause.as_str())),
            TierResult::Failed(cause) => Err(tier_error("put", key.as_str(), cause.as_str())),
        }
    }

    /// The outcome of fetching an object; an absent one is no failure.
    pub fn get_blob(&self, kind: BlobKind, hex_id: &str, result: TierResult<Vec<u8>>) -> (r: Result<
        Option<Vec<u8>>,
        RunnerError,
    >)
        ensures
            match result {
                TierResult::Done(bytes) => r == Ok::<Option<Vec<u8>>, RunnerError>(Some(bytes)),
                TierResult::NotFound(_) => r == Ok::<Option<Vec<u8>>, RunnerError>(None),
                TierResult::Failed(cause) => r matches Err(e) && e@ == tier_failure(
                    "get"@,
                    blob_key(kind, hex_id@),
                    cause@,
                ),
            },
    {
        match result {
            TierResult::Done(bytes) => Ok(Some(bytes)),
            TierResult::NotFound(_) => Ok(None),
            TierResult::Failed(cause) => {
                let key = L2Tier::key(kind, hex_id);
                Err(tier_error("get", key.as_str(), cause.as_str()))
            },
        }
    }

    /// The outcome of asking whether an object exists.
    pub fn has_blob(&self, kind: BlobKind, hex_id: &str, result: TierResult<bool>) -> (r: Result<
        bool,
        RunnerError,
    >)
        ensures
            match result {
                TierResult::Done(there) => r == Ok::<bool, RunnerError>(there),
                TierResult::NotFound(cause) => r matches Err(e) && e@ == tier_failure(
                    "stat"@,
                    blob_key(kind, hex_id@),
                    cause@,
                ),
                TierResult::Failed(cause) => r matches Err(e) && e@ == tier_failure(
                    "stat"@,
                    blob_key(kind, hex_id@),
                    cause@,
                ),
            },
    {
        let key = L2Tier::key(kind, hex_id);
        match result {
            TierResult::Done(there) => Ok(there),
            TierResult::NotFound(cause) => Err(tier_error("stat", key.as_str(), cause.as_str())),
            TierResult::Failed(cause) => Err(tier_error("stat", key.as_str(), cause.as_str())),
        }
    }
}

/// An object's key begins with the prefix of its kind and ends in its id.
pub proof fn law_key_names_kind_and_id(kind: BlobKind, hex_id: &str, r: String)
    requires
        call_ensures(L2Tier::key, (kind, hex_id), r),
    ensures
        kind == BlobKind::Chunk ==> r@ == "chunks/"@ + hex_id@,
        kind == BlobKind::Manifest ==> r@ == "manifests/"@ + hex_id@,
{
}

/// Connecting gives the tier at the place asked for, or fails with the cause.
pub proof fn law_tier_is_where_asked(
    bucket: String,
    endpoint: String,
    region: String,
    connected: Result<(), String>,
    r: Result<L2Tier, RunnerError>,
)
    requires
        call_ensures(L2Tier::from_config, (bucket, endpoint, region, connected), r),
    ensures
        r is Ok <==> connected is Ok,
        r matches Ok(t) ==> t.bucket@ == bucket@ && t.endpoint@ == endpoint@ && t.region@ == region@,
        connected matches Err(cause) ==> (r matches Err(e) && e@ == RunnerErrorView::Cache(
            "failed to build S3 operator: "@ + cause@,
        )),
{
}

/// An object that is absent is no failure to fetch, but is one to store or to
/// ask for. What was fetched or told is handed on; a failure names the
/// operation and the object.
pub proof fn law_absent_object_is_no_failure(
    tier: L2Tier,
    kind: BlobKind,
    hex_id: &str,
    stored: TierResult<()>,
    fetched: TierResult<Vec<u8>>,
    asked: TierResult<bool>,
    put: Result<(), RunnerError>,
    get: Result<Option<Vec<u8>>, RunnerError>,
    has: Result<bool, RunnerError>,
)
    requires
        call_ensures(L2Tier::put_blob, (&tier, kind, hex_id, stored), put),
        call_ensures(L2Tier::get_blob, (&tier, kind, hex_id, fetched), get),
        call_ensures(L2Tier::has_blob, (&tier, kind, hex_id, asked), has),
    ensures
        put is Ok <==> stored is Done,
        get is Err <==> fetched is Failed,
        fetched matches TierResult::Done(bytes) ==> (get matches Ok(Some(b)) && b@ == bytes@),
        fetched is NotFound ==> get matches Ok(None),
        has is Ok <==> asked is Done,
        asked matches TierResult::Done(there) ==> (has matches Ok(b) && b == there),
        fetched matches TierResult::Failed(cause) ==> (get matches Err(e) && e@
            == RunnerErrorView::Cache(
            "L2 "@ + "get"@ + " "@ + blob_key(kind, hex_id@) + " failed: "@ + cause@,
        )),
        stored matches TierResult::Failed(cause) ==> (put matches Err(e) && e@
            == RunnerErrorView::Cache(
            "L2 "@ + "put"@ + " "@ + blob_key(kind, hex_id@) + " failed: "@ + cause@,
        )),
        asked matches TierResult::Failed(cause) ==> (has matches Err(e) && e@
            == RunnerErrorView::Cache(
            "L2 "@ + "stat"@ + " "@ + blob_key(kind, hex_id@) + " failed: "@ + cause@,
        )),
{
}

} // verus!
