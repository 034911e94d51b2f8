//! The cache service: its addresses, and finalizing an upload.

use vstd::prelude::*;

use super::scope::CacheScopes;
use super::trust::TrustLevel;
use crate::error::{RunnerError, RunnerErrorView};
use crate::number;
use crate::outside::numeral;
use crate::stamp;
use crate::text;

verus! {

/// What the service needs to know to answer a job's requests.
pub struct TwirpState {
    /// The job's scopes.
    pub scopes: CacheScopes,
    /// How far its writes are trusted.
    pub trust: TrustLevel,
    /// The protected scopes.
    pub protected: Vec<String>,
    /// The token that every request must present.
    pub bearer: String,
    /// Where uploads are staged.
    pub staging_root: String,
    /// How long an upload address is valid, in seconds.
    pub upload_ttl_secs: u64,
    /// How long a download address is valid, in seconds.
    pub download_ttl_secs: u64,
}

/// The methods of the service.
#[derive(Debug, Clone, Copy, PartialEq, Eq, Structural)]
pub enum CacheMethod {
    CreateCacheEntry,
    FinalizeCacheEntryUpload,
    GetCacheEntryDownloadURL,
}

/// The address prefix that the methods share.
pub open spec fn prefix() -> Seq<char> {
    "/twirp/github.actions.results.api.v1.CacheService"@
}

/// The name of a method.
pub open spec fn method_name(method: CacheMethod) -> Seq<char> {
    match method {
        CacheMethod::CreateCacheEntry => "CreateCacheEntry"@,
        CacheMethod::FinalizeCacheEntryUpload => "FinalizeCacheEntryUpload"@,
        CacheMethod::GetCacheEntryDownloadURL => "GetCacheEntryDownloadURL"@,
    }
}

/// The address of a method.
pub fn method_path(method: CacheMethod) -> (r: String)
    ensures
        r@ == prefix() + "/"@ + method_name(method),
{
    let name: &str = match method {
        CacheMethod::CreateCacheEntry => "CreateCacheEntry",
        CacheMethod::FinalizeCacheEntryUpload => "FinalizeCacheEntryUpload",
        CacheMethod::GetCacheEntryDownloadURL => "GetCacheEntryDownloadURL",
    };
    text::cat3("/twirp/github.actions.results.api.v1.CacheService", "/", name)
}

/// The steps of finalizing an upload.
#[derive(Debug, Clone, Copy, PartialEq, Eq, Structural)]
pub enum FinalizeStep {
    /// Look the staged upload up by its coordinates.
    TakePending,
    /// Chunk the staged bytes into the store.
    Ingest,
    /// Store the manifest.
    PutManifest,
    /// Enter it into the index.
    Insert,
    /// The entry is in the index.
    Indexed,
    /// The upload was rejected, and nothing indexed.
    Rejected,
}

/// A request to finalize an upload.
#[derive(Debug)]
pub struct FinalizeRequest {
    pub key: String,
    /// How many bytes the client declares, as a numeral.
    pub size_bytes: String,
    pub version: String,
}

/// An upload being finalized. The entry is indexed only when the ingested
/// bytes are as many as the client declared, and where the upload was
/// pending.
#[derive(Debug, Clone)]
pub struct Finalize {
    pub scope: String,
    pub key: String,
    pub version: String,
    pub size_bytes: u64,
    pub step: FinalizeStep,
}

/// Where an upload is pending, and where its entry is indexed.
#[derive(Debug)]
pub struct Coordinates {
    pub scope: String,
    pub key: String,
    pub version: String,
}

/// Where an upload is pending, and where its entry is indexed: scope, key and
/// version.
pub open spec fn coordinates(f: Finalize) -> (Seq<char>, Seq<char>, Seq<char>) {
    (f.scope@, f.key@, f.version@)
}

/// An entry of the index: what was uploaded, and when it was entered.
#[derive(Debug)]
pub struct IndexEntry {
    pub key: String,
    /// The id of the stored manifest.
    pub manifest: String,
    pub size_bytes: u64,
    pub created_at: String,
}

/// Starts finalizing an upload to the job's write scope.
pub fn finalize(state: &TwirpState, req: &FinalizeRequest) -> (r: Result<Finalize, RunnerError>)
    ensures
        match r {
            Ok(f) => {
                &&& number::parsed_unsigned(req.size_bytes@, u64::MAX as nat) == Some(
                    f.size_bytes as nat,
                )
                &&& coordinates(f) == (state.scopes.write@, req.key@, req.version@)
                &&& f.step == FinalizeStep::TakePending
            },
            Err(e) => {
                &&& number::parsed_unsigned(req.size_bytes@, u64::MAX as nat) is None
                &&& numeral::u64_fault(req.size_bytes@) matches Some(fault) && e@
                    == RunnerErrorView::Cache("bad size_bytes: "@ + fault)
            },
        },
{
    match number::parse_u64(req.size_bytes.as_str()) {
        Some(n) => Ok(
            Finalize {
                scope: state.scopes.write.clone(),
                key: req.key.clone(),
                version: req.version.clone(),
                size_bytes: n,
                step: FinalizeStep::TakePending,
            },
        ),
        None => {
            let fault: String = match numeral::u64_fault_of(req.size_bytes.as_str()) {
                Some(f) => f,
                None => String::new(),
            };
            Err(RunnerError::Cache(text::cat2("bad size_bytes: ", fault.as_str())))
        },
    }
}

/// The step after looking the staged upload up.
pub open spec fn after_pending(found: bool) -> FinalizeStep {
    if found {
        FinalizeStep::Ingest
    } else {
        FinalizeStep::Rejected
    }
}

/// The step after ingesting: the bytes must be as many as were declared.
pub open spec fn after_ingest(size_bytes: u64, total_size: Option<u64>) -> FinalizeStep {
    if total_size == Some(size_bytes) {
        FinalizeStep::PutManifest
    } else {
        FinalizeStep::Rejected
    }
}

/// The step after storing the manifest.
pub open spec fn after_put(ok: bool) -> FinalizeStep {
    if ok {
        FinalizeStep::Insert
    } else {
        FinalizeStep::Rejected
    }
}

/// The step after entering the entry into the index.
pub open spec fn after_insert(ok: bool) -> FinalizeStep {
    if ok {
        FinalizeStep::Indexed
    } else {
        FinalizeStep::Rejected
    }
}

impl Finalize {
    /// Where the staged upload is pending, and where its entry goes.
    pub fn coordinates(&self) -> (r: Coordinates)
        ensures
            (r.scope@, r.key@, r.version@) == coordinates(*self),
    {
        Coordinates {
            scope: self.scope.clone(),
            key: self.key.clone(),
            version: self.version.clone(),
        }
    }

    /// The entry to enter into the index now, under the scope and version of
    /// the upload: its key, the stored manifest and the declared size.
    pub fn index_entry(&self, manifest: &str) -> (r: IndexEntry)
        requires
            self.step == FinalizeStep::Insert,
        ensures
            r.key@ == coordinates(*self).1,
            r.manifest@ == manifest@,
            r.size_bytes == self.size_bytes,
            exists|reading: Option<(u64, u32)>|
                r.created_at@ == #[trigger] stamp::rfc3339(reading),
    {
        let created_at = stamp::rfc3339_now();
        IndexEntry {
            key: self.key.clone(),
            manifest: manifest.to_owned(),
            size_bytes: self.size_bytes,
            created_at,
        }
    }

    /// Takes whether a staged upload was found.
    pub fn pending_taken(&mut self, found: bool)
        requires
            old(self).step == FinalizeStep::TakePending,
        ensures
            *final(self) == (Finalize { step: after_pending(found), ..*old(self) }),
    {
        self.step = if found {
            FinalizeStep::Ingest
        } else {
            FinalizeStep::Rejected
        };
    }

    /// Takes the number of bytes ingested; none when ingesting failed. The
    /// staged file goes unless ingesting failed.
    pub fn ingested(&mut self, total_size: Option<u64>)
        requires
            old(self).step == FinalizeStep::Ingest,
        ensures
            *final(self) == (Finalize {
                step: after_ingest(old(self).size_bytes, total_size),
                ..*old(self)
            }),
    {
        self.step = match total_size {
            Some(n) => if n == self.size_bytes {
                FinalizeStep::PutManifest
            } else {
                FinalizeStep::Rejected
            },
            None => FinalizeStep::Rejected,
        };
    }

    /// Takes whether the manifest was stored.
    pub fn manifest_put(&mut self, ok: bool)
        requires
            old(self).step == FinalizeStep::PutManifest,
        ensures
            *final(self) == (Finalize { step: after_put(ok), ..*old(self) }),
    {
        self.step = if ok {
            FinalizeStep::Insert
        } else {
            FinalizeStep::Rejected
        };
    }

    /// Takes whether the entry was entered into the index.
    pub fn inserted(&mut self, ok: bool)
        requires
            old(self).step == FinalizeStep::Insert,
        ensures
            *final(self) == (Finalize { step: after_insert(ok), ..*old(self) }),
    {
        self.step = if ok {
            FinalizeStep::Indexed
        } else {
            FinalizeStep::Rejected
        };
    }
}

/// The answer to a request: whether it was done, and the entry's id.
#[derive(Debug)]
pub struct FinalizeResponse {
    pub ok: bool,
    pub entry_id: Option<String>,
}

/// The answer to an authorized request. A failure is answered like a
/// rejection, so that the job rebuilds instead of failing.
pub fn finalize_cache_entry_upload(result: Result<Option<String>, RunnerError>) -> (r:
    FinalizeResponse)
    ensures
        match result {
            Ok(Some(id)) => r.ok && r.entry_id == Some(id),
            _ => !r.ok && r.entry_id is None,
        },
{
    match result {
        Ok(Some(id)) => FinalizeResponse { ok: true, entry_id: Some(id) },
        _ => FinalizeResponse { ok: false, entry_id: None },
    }
}

/// How finalizing an upload ends, given what each step comes to.
pub open spec fn finalized(
    size_bytes: u64,
    found: bool,
    total_size: Option<u64>,
    put_ok: bool,
    insert_ok: bool,
) -> FinalizeStep {
    if after_pending(found) != FinalizeStep::Ingest {
        after_pending(found)
    } else if after_ingest(size_bytes, total_size) != FinalizeStep::PutManifest {
        after_ingest(size_bytes, total_size)
    } else if after_put(put_ok) != FinalizeStep::Insert {
        after_put(put_ok)
    } else {
        after_insert(insert_ok)
    }
}

/// The upload after its steps, given what each comes to.
pub open spec fn finalized_upload(
    f: Finalize,
    found: bool,
    total_size: Option<u64>,
    put_ok: bool,
    insert_ok: bool,
) -> Finalize {
    Finalize { step: finalized(f.size_bytes, found, total_size, put_ok, insert_ok), ..f }
}

/// An upload is indexed where it was pending, with the size that was
/// declared: no step changes its scope, key, version or size.
pub proof fn law_indexed_where_pending(
    f: Finalize,
    found: bool,
    total_size: Option<u64>,
    put_ok: bool,
    insert_ok: bool,
)
    ensures
        ({
            let end = finalized_upload(f, found, total_size, put_ok, insert_ok);
            &&& coordinates(end) == coordinates(f)
            &&& end.size_bytes == f.size_bytes
            &&& end.step == FinalizeStep::Indexed ==> total_size == Some(f.size_bytes)
        }),
{
}

/// An upload ends up in the index exactly when it was found, is as large as
/// was declared, and was stored and indexed; in every other case it is
/// rejected.
pub proof fn law_no_lying_entry_is_indexed(
    size_bytes: u64,
    found: bool,
    total_size: Option<u64>,
    put_ok: bool,
    insert_ok: bool,
)
    ensures
        finalized(size_bytes, found, total_size, put_ok, insert_ok) == if found && total_size
            == Some(size_bytes) && put_ok && insert_ok {
            FinalizeStep::Indexed
        } else {
            FinalizeStep::Rejected
        },
{
}

/// Each method is called at the service's address and its own name.
pub proof fn law_method_addresses(method: CacheMethod, r: String)
    requires
        call_ensures(method_path, (method,), r),
    ensures
        r@ == "/twirp/github.actions.results.api.v1.CacheService"@ + "/"@ + match method {
            CacheMethod::CreateCacheEntry => "CreateCacheEntry"@,
            CacheMethod::FinalizeCacheEntryUpload => "FinalizeCacheEntryUpload"@,
            CacheMethod::GetCacheEntryDownloadURL => "GetCacheEntryDownloadURL"@,
        },
{
}

/// Finalizing starts exactly when the declared size is a number in range; it
/// is for the job's write scope and the key and version asked for.
pub proof fn law_finalizing_is_for_the_write_scope(
    state: TwirpState,
    req: FinalizeRequest,
    r: Result<Finalize, RunnerError>,
)
    requires
        call_ensures(finalize, (&state, &req), r),
    ensures
        r is Ok <==> number::parsed_unsigned(req.size_bytes@, 0xFFFF_FFFF_FFFF_FFFF) is Some,
        r matches Ok(f) ==> f.scope@ == state.scopes.write@ && f.key@ == req.key@ && f.version@
            == req.version@ && number::parsed_unsigned(req.size_bytes@, 0xFFFF_FFFF_FFFF_FFFF)
            == Some(f.size_bytes as nat) && f.step == FinalizeStep::TakePending,
        r matches Err(e) ==> e@ is Cache,
{
}

/// Each step goes on exactly when it went well; ingesting goes on only with
/// as many bytes as were declared.
pub proof fn law_step_goes_on_when_it_went_well(ok: bool, size: u64, total: Option<u64>)
    ensures
        after_pending(ok) == FinalizeStep::Ingest <==> ok,
        after_pending(ok) == FinalizeStep::Rejected <==> !ok,
        after_ingest(size, total) == FinalizeStep::PutManifest <==> total == Some(size),
        after_ingest(size, total) == FinalizeStep::Rejected <==> total != Some(size),
        after_put(ok) == FinalizeStep::Insert <==> ok,
        after_put(ok) == FinalizeStep::Rejected <==> !ok,
        after_insert(ok) == FinalizeStep::Indexed <==> ok,
        after_insert(ok) == FinalizeStep::Rejected <==> !ok,
{
}

/// The entry is looked for and indexed under the upload's own scope, key and
/// version, with the manifest that was stored.
pub proof fn law_entry_is_the_uploads(
    f: Finalize,
    manifest: &str,
    place: Coordinates,
    entry: IndexEntry,
)
    requires
        call_ensures(Finalize::coordinates, (&f,), place),
        call_ensures(Finalize::index_entry, (&f, manifest), entry),
    ensures
        place.scope@ == f.scope@ && place.key@ == f.key@ && place.version@ == f.version@,
        entry.key@ == f.key@,
        entry.manifest@ == manifest@,
        entry.size_bytes == f.size_bytes,
{
}

/// A request is answered as done exactly when an entry was indexed, with its
/// id; a failure is answered like a rejection.
pub proof fn law_failure_is_answered_as_rejection(
    result: Result<Option<String>, RunnerError>,
    r: FinalizeResponse,
)
    requires
        call_ensures(finalize_cache_entry_upload, (result,), r),
    ensures
        r.ok <==> result matches Ok(Some(_)),
        r.entry_id is Some <==> r.ok,
        result matches Ok(Some(id)) ==> r.entry_id->0@ == id@,
{
}

/// Each report moves an upload one step on when it is good, rejects it
/// otherwise, and changes nothing else.
pub proof fn law_reports_move_the_upload(
    pending: &mut Finalize,
    found: bool,
    ingesting: &mut Finalize,
    total: Option<u64>,
    putting: &mut Finalize,
    put: bool,
    inserting: &mut Finalize,
    insert: bool,
)
    requires
        call_ensures(Finalize::pending_taken, (pending, found), ()),
        call_ensures(Finalize::ingested, (ingesting, total), ()),
        call_ensures(Finalize::manifest_put, (putting, put), ()),
        call_ensures(Finalize::inserted, (inserting, insert), ()),
    ensures
        final(pending).step == if found {
            FinalizeStep::Ingest
        } else {
            FinalizeStep::Rejected
        },
        final(ingesting).step == if total == Some(old(ingesting).size_bytes) {
            FinalizeStep::PutManifest
        } else {
            FinalizeStep::Rejected
        },
        final(putting).step == if put {
            FinalizeStep::Insert
        } else {
            FinalizeStep::Rejected
        },
        final(inserting).step == if insert {
            FinalizeStep::Indexed
        } else {
            FinalizeStep::Rejected
        },
        coordinates(*final(pending)) == coordinates(*old(pending)),
        coordinates(*final(ingesting)) == coordinates(*old(ingesting)),
        coordinates(*final(putting)) == coordinates(*old(putting)),
        coordinates(*final(inserting)) == coordinates(*old(inserting)),
        final(ingesting).size_bytes == old(ingesting).size_bytes,
{
}

} // verus!
