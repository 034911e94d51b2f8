//! The artifact service: what a request is answered.

use vstd::prelude::*;

use crate::execution::service_auth;
use crate::text;

verus! {

/// An artifact that was created here.
#[derive(Debug)]
pub struct RegistryEntry {
    pub id: u64,
    pub name: String,
}

/// An artifact as the store lists it.
#[derive(Debug)]
pub struct ArtifactEntry {
    pub id: u64,
    pub name: String,
    pub size: u64,
}

/// The artifacts created here, with ids counted from one.
pub struct ArtifactRegistry {
    entries: Vec<RegistryEntry>,
}

/// The names of the artifacts, in order of their ids.
impl View for ArtifactRegistry {
    type V = Seq<(u64, Seq<char>)>;

    closed spec fn view(&self) -> Seq<(u64, Seq<char>)> {
        self.entries@.map_values(|e: RegistryEntry| (e.id, e.name@))
    }
}

/// Whether the ids count up from one.
pub open spec fn counted(entries: Seq<(u64, Seq<char>)>) -> bool {
    forall|i: int| 0 <= i < entries.len() ==> (#[trigger] entries[i]).0 == i + 1
}

/// The name of the first entry with the id.
pub open spec fn name_of(entries: Seq<(u64, Seq<char>)>, id: u64) -> Option<Seq<char>>
    decreases entries.len(),
{
    if entries.len() == 0 {
        None
    } else if entries[0].0 == id {
        Some(entries[0].1)
    } else {
        name_of(entries.drop_first(), id)
    }
}

/// The entries of a listing by id and name.
pub open spec fn listed(entries: Seq<ArtifactEntry>) -> Seq<(u64, Seq<char>)> {
    entries.map_values(|e: ArtifactEntry| (e.id, e.name@))
}

/// What a request is answered.
#[derive(Debug)]
pub enum Reply {
    /// No or a wrong token.
    Unauthorized,
    /// A bad request, with its reason.
    BadRequest(String),
    /// The artifact was created.
    Created { container_id: String, name: String },
    /// Done.
    Accepted,
    /// The artifacts.
    List { count: usize, value: Vec<ArtifactEntry> },
    /// The artifact's bytes.
    Content(Vec<u8>),
    /// No such artifact.
    NotFound,
    /// The store failed, with its reason.
    Failed(String),
}

/// The status of an answer.
pub open spec fn status_of(reply: Reply) -> u16 {
    match reply {
        Reply::Unauthorized => 401,
        Reply::BadRequest(_) => 400,
        Reply::Created { .. } => 200,
        Reply::Accepted => 200,
        Reply::List { .. } => 200,
        Reply::Content(_) => 200,
        Reply::NotFound => 404,
        Reply::Failed(_) => 500,
    }
}

impl Reply {
    /// The status of the answer.
    pub fn status(&self) -> (r: u16)
        ensures
            r == status_of(*self),
    {
        match self {
            Reply::Unauthorized => 401,
            Reply::BadRequest(_) => 400,
            Reply::Created { .. } => 200,
            Reply::Accepted => 200,
            Reply::List { .. } => 200,
            Reply::Content(_) => 200,
            Reply::NotFound => 404,
            Reply::Failed(_) => 500,
        }
    }
}

/// What the store is asked to do for an upload request.
#[derive(Debug)]
pub enum UploadPlan {
    Refuse(Reply),
    Finalize { name: String },
    Chunk { name: String, index: u32 },
}

/// The chunk that a byte offset stands for, the largest number when it does
/// not fit.
pub open spec fn chunk_index(range_start: u64) -> u32 {
    if range_start > u32::MAX {
        u32::MAX
    } else {
        range_start as u32
    }
}

/// Checks a request's token.
pub fn authorize(header: Option<&str>, token: &str) -> (r: Result<(), Reply>)
    ensures
        match r {
            Ok(_) => service_auth::authorized(text::str_opt(header), token@),
            Err(reply) => !service_auth::authorized(text::str_opt(header), token@)
                && reply is Unauthorized,
        },
{
    match service_auth::validate_bearer(header, token) {
        Ok(_) => Ok(()),
        Err(_) => Err(Reply::Unauthorized),
    }
}

/// Decides what an upload request asks for: finalizing when its header says
/// `true`, else storing a chunk.
pub fn handle_upload_or_finalize(
    header: Option<&str>,
    token: &str,
    artifact_name: Option<String>,
    finalize: Option<&str>,
    range_start: u64,
) -> (r: UploadPlan)
    ensures
        if !service_auth::authorized(text::str_opt(header), token@) {
            r matches UploadPlan::Refuse(reply) && reply is Unauthorized
        } else {
            match artifact_name {
                None => r matches UploadPlan::Refuse(Reply::BadRequest(why)) && why@
                    == "artifactName required"@,
                Some(n) => if text::str_opt(finalize) == Some("true"@) {
                    r == (UploadPlan::Finalize { name: n })
                } else {
                    r == (UploadPlan::Chunk { name: n, index: chunk_index(range_start) })
                },
            }
        },
{
    match authorize(header, token) {
        Err(reply) => {
            return UploadPlan::Refuse(reply);
        },
        Ok(_) => {},
    }
    let name: String = match artifact_name {
        None => {
            return UploadPlan::Refuse(Reply::BadRequest("artifactName required".to_owned()));
        },
        Some(n) => n,
    };
    let finalizing: bool = match finalize {
        Some(v) => text::same(v, "true"),
        None => false,
    };
    if finalizing {
        UploadPlan::Finalize { name }
    } else {
        let index: u32 = if range_start > u32::MAX as u64 {
            u32::MAX
        } else {
            range_start as u32
        };
        UploadPlan::Chunk { name, index }
    }
}

/// The answer to an upload or a finalize request, given what the store made
/// of it.
pub fn stored(result: Result<(), String>) -> (r: Reply)
    ensures
        match result {
            Ok(_) => r is Accepted,
            Err(cause) => r == Reply::Failed(cause),
        },
{
    match result {
        Ok(_) => Reply::Accepted,
        Err(cause) => Reply::Failed(cause),
    }
}

/// The answer to a list request that was authorized.
pub fn handle_list(entries: Result<Vec<ArtifactEntry>, String>) -> (r: Reply)
    ensures
        match entries {
            Ok(e) => r matches Reply::List { count, value } && count == e@.len() && value == e,
            Err(cause) => r == Reply::Failed(cause),
        },
{
    match entries {
        Ok(value) => {
            let count: usize = value.len();
            Reply::List { count, value }
        },
        Err(cause) => Reply::Failed(cause),
    }
}

/// The answer to a download request that was authorized: the bytes of the
/// artifact, if it has a name and the store has it.
pub fn handle_download(name: Option<String>, content: Option<Vec<u8>>) -> (r: Reply)
    ensures
        match (name, content) {
            (Some(_), Some(bytes)) => r == Reply::Content(bytes),
            _ => r is NotFound,
        },
{
    match name {
        None => Reply::NotFound,
        Some(_) => match content {
            Some(bytes) => Reply::Content(bytes),
            None => Reply::NotFound,
        },
    }
}

/// The name of the listed artifact with the id.
pub fn find_listed(entries: &Vec<ArtifactEntry>, id: u64) -> (r: Option<String>)
    ensures
        text::text_opt(r) == name_of(listed(entries@), id),
{
    let ghost all = listed(entries@);
    let mut i: usize = 0;
    assert(all.skip(0) =~= all);
    while i < entries.len()
        invariant
            i <= entries@.len(),
            all == listed(entries@),
            name_of(all, id) == name_of(all.skip(i as int), id),
        decreases entries@.len() - i,
    {
        assert(all.skip(i as int)[0] == (entries@[i as int].id, entries@[i as int].name@));
        if entries[i].id == id {
            return Some(entries[i].name.clone());
        }
        assert(all.skip(i as int).drop_first() =~= all.skip(i + 1));
        i = i + 1;
    }
    None
}

impl ArtifactRegistry {
    #[verifier::type_invariant]
    spec fn inv(self) -> bool {
        counted(self@)
    }

    /// No artifacts yet.
    pub fn new() -> (r: ArtifactRegistry)
        ensures
            r@ == Seq::<(u64, Seq<char>)>::empty(),
    {
        let r = ArtifactRegistry { entries: Vec::new() };
        assert(r@ =~= Seq::empty());
        r
    }

    /// Whether an id is left for another artifact.
    pub fn has_room(&self) -> (r: bool)
        ensures
            r == (self@.len() < u64::MAX),
    {
        (self.entries.len() as u64) < u64::MAX
    }

    /// The answer to a create request that was authorized, given the container
    /// that the store made. A new artifact gets the next id.
    pub fn handle_create(&mut self, container: Result<String, String>, name: String) -> (r: Reply)
        requires
            old(self)@.len() < u64::MAX,
        ensures
            match container {
                Ok(id) => {
                    &&& final(self)@ == old(self)@.push(((old(self)@.len() + 1) as u64, name@))
                    &&& r matches Reply::Created { container_id, name: n } && container_id == id
                        && n@ == name@
                },
                Err(cause) => final(self)@ == old(self)@ && r == Reply::Failed(cause),
            },
            counted(final(self)@),
    {
        proof {
            use_type_invariant(&*self);
        }
        match container {
            Err(cause) => Reply::Failed(cause),
            Ok(container_id) => {
                let ghost before = self@;
                let mut entries: Vec<RegistryEntry> = Vec::new();
                std::mem::swap(&mut entries, &mut self.entries);
                let id: u64 = entries.len() as u64 + 1;
                entries.push(RegistryEntry { id, name: name.clone() });
                proof {
                    let now = entries@.map_values(|e: RegistryEntry| (e.id, e.name@));
                    assert(now =~= before.push((id, name@)));
                }
                self.entries = entries;
                Reply::Created { container_id, name }
            },
        }
    }

    /// The name of the artifact with the id, if it was created here.
    pub fn find(&self, id: u64) -> (r: Option<String>)
        ensures
            text::text_opt(r) == name_of(self@, id),
    {
        let ghost all = self@;
        let mut i: usize = 0;
        assert(all.skip(0) =~= all);
        while i < self.entries.len()
            invariant
                i <= self.entries@.len(),
                all == self@,
                all.len() == self.entries@.len(),
                name_of(all, id) == name_of(all.skip(i as int), id),
            decreases self.entries@.len() - i,
        {
            assert(all.skip(i as int)[0] == (
                self.entries@[i as int].id,
                self.entries@[i as int].name@,
            ));
            if self.entries[i].id == id {
                return Some(self.entries[i].name.clone());
            }
            assert(all.skip(i as int).drop_first() =~= all.skip(i + 1));
            i = i + 1;
        }
        None
    }

    /// The name of the artifact with the id: among those created here, else
    /// in the store's listing, which is none when the store failed.
    pub fn find_artifact_name(&self, id: u64, listing: Option<Vec<ArtifactEntry>>) -> (r: Option<
        String,
    >)
        ensures
            text::text_opt(r) == match name_of(self@, id) {
                Some(n) => Some(n),
                None => match listing {
                    Some(l) => name_of(listed(l@), id),
                    None => None,
                },
            },
    {
        match self.find(id) {
            Some(n) => Some(n),
            None => match listing {
                Some(l) => find_listed(&l, id),
                None => None,
            },
        }
    }
}

/// An artifact that was created is found again by its id, whatever was
/// created before.
pub proof fn law_created_artifact_is_found(entries: Seq<(u64, Seq<char>)>, name: Seq<char>)
    requires
        counted(entries),
        entries.len() < u64::MAX,
    ensures
        name_of(entries.push(((entries.len() + 1) as u64, name)), (entries.len() + 1) as u64) == Some(
            name,
        ),
{
    let id = (entries.len() + 1) as u64;
    lemma_name_skips(entries.push((id, name)), id, entries.len() as int);
    let last = entries.push((id, name)).skip(entries.len() as int);
    assert(last[0] == (id, name));
}

proof fn lemma_name_skips(entries: Seq<(u64, Seq<char>)>, id: u64, n: int)
    requires
        0 <= n <= entries.len(),
        forall|i: int| 0 <= i < n ==> (#[trigger] entries[i]).0 != id,
    ensures
        name_of(entries, id) == name_of(entries.skip(n), id),
    decreases n,
{
    if n == 0 {
        assert(entries.skip(0) =~= entries);
    } else {
        lemma_name_skips(entries, id, n - 1);
        let rest = entries.skip(n - 1);
        assert(rest[0] == entries[n - 1]);
        assert(rest.drop_first() =~= entries.skip(n));
    }
}

/// An id names the first entry that has it, and nothing without one.
pub proof fn law_id_names_its_entry(entries: Seq<(u64, Seq<char>)>, id: u64, i: int)
    requires
        0 <= i <= entries.len(),
        forall|k: int| 0 <= k < i ==> (#[trigger] entries[k]).0 != id,
    ensures
        i == entries.len() ==> name_of(entries, id) is None,
        i < entries.len() && entries[i].0 == id ==> name_of(entries, id) == Some(entries[i].1),
    decreases entries.len(),
{
    if i > 0 {
        let rest = entries.drop_first();
        assert(entries[0].0 != id);
        assert forall|k: int| 0 <= k < i - 1 implies (#[trigger] rest[k]).0 != id by {
            assert(rest[k] == entries[k + 1]);
        }
        law_id_names_its_entry(rest, id, i - 1);
    }
}

/// Creating an artifact leaves every other id with its name.
pub proof fn law_created_artifact_disturbs_no_other(
    entries: Seq<(u64, Seq<char>)>,
    name: Seq<char>,
    id: u64,
)
    requires
        entries.len() < u64::MAX,
        id != entries.len() + 1,
    ensures
        name_of(entries.push(((entries.len() + 1) as u64, name)), id) == name_of(entries, id),
    decreases entries.len(),
{
    lemma_pushed_entry(entries, ((entries.len() + 1) as u64, name), id);
}

proof fn lemma_pushed_entry(entries: Seq<(u64, Seq<char>)>, entry: (u64, Seq<char>), id: u64)
    requires
        entry.0 != id,
    ensures
        name_of(entries.push(entry), id) == name_of(entries, id),
    decreases entries.len(),
{
    let all = entries.push(entry);
    if entries.len() == 0 {
        assert(all.drop_first() =~= Seq::<(u64, Seq<char>)>::empty());
        assert(name_of(all.drop_first(), id) is None);
    } else {
        lemma_pushed_entry(entries.drop_first(), entry, id);
        assert(all.drop_first() =~= entries.drop_first().push(entry));
        assert(all[0] == entries[0]);
    }
}

/// Each answer has its status: 401 without a token, 400 for a bad request,
/// 404 for no such artifact, 500 when the store failed, and 200 otherwise.
pub proof fn law_statuses(reply: Reply, r: u16)
    requires
        call_ensures(Reply::status, (&reply,), r),
    ensures
        r == 401 <==> reply is Unauthorized,
        r == 400 <==> reply is BadRequest,
        r == 404 <==> reply is NotFound,
        r == 500 <==> reply is Failed,
        r == 200 <==> (reply is Created || reply is Accepted || reply is List || reply is Content),
{
}

/// An upload request is refused without the token before anything else, and
/// without a name; it finalizes exactly when its header says `true`, and
/// otherwise stores the chunk at its offset.
pub proof fn law_upload_is_planned(
    header: Option<&str>,
    token: &str,
    artifact_name: Option<String>,
    finalize: Option<&str>,
    range_start: u64,
    r: UploadPlan,
)
    requires
        call_ensures(
            handle_upload_or_finalize,
            (header, token, artifact_name, finalize, range_start),
            r,
        ),
    ensures
        ({
            let known = service_auth::authorized(text::str_opt(header), token@);
            let last = finalize is Some && finalize->0@ == "true"@;
            &&& r is Refuse <==> !known || artifact_name is None
            &&& !known ==> (r matches UploadPlan::Refuse(reply) && reply is Unauthorized)
            &&& known && artifact_name is None ==> (r matches UploadPlan::Refuse(reply)
                && reply is BadRequest)
            &&& known && artifact_name is Some && last ==> (r matches UploadPlan::Finalize { name }
                && name@ == artifact_name->0@)
            &&& known && artifact_name is Some && !last ==> (r matches UploadPlan::Chunk {
                name,
                index,
            } && name@ == artifact_name->0@ && index == if range_start <= 0xFFFF_FFFF {
                range_start
            } else {
                0xFFFF_FFFF
            })
        }),
{
}

/// A token is asked for before anything is answered.
pub proof fn law_request_needs_the_token(header: Option<&str>, token: &str, r: Result<(), Reply>)
    requires
        call_ensures(authorize, (header, token), r),
    ensures
        r is Ok <==> service_auth::authorized(text::str_opt(header), token@),
        r matches Err(reply) ==> reply is Unauthorized,
{
}

/// What the store made of a request is what is answered: done or failed, all
/// listed artifacts, or the bytes of a known one.
pub proof fn law_store_is_answered(
    result: Result<(), String>,
    entries: Result<Vec<ArtifactEntry>, String>,
    name: Option<String>,
    content: Option<Vec<u8>>,
    done: Reply,
    list: Reply,
    download: Reply,
)
    requires
        call_ensures(stored, (result,), done),
        call_ensures(handle_list, (entries,), list),
        call_ensures(handle_download, (name, content), download),
    ensures
        done is Accepted <==> result is Ok,
        done is Failed <==> result is Err,
        list is List <==> entries is Ok,
        entries matches Ok(e) ==> (list matches Reply::List { count, value } && count == e@.len()
            && value@ == e@),
        list is Failed <==> entries is Err,
        download is Content <==> name is Some && content is Some,
        download is NotFound <==> name is None || content is None,
        content matches Some(b) ==> (download matches Reply::Content(x) ==> x@ == b@),
{
}

/// An artifact created here is named without asking the store; only then
/// does the listing count.
pub proof fn law_own_artifacts_come_first(
    registry: ArtifactRegistry,
    id: u64,
    listing: Option<Vec<ArtifactEntry>>,
    r: Option<String>,
)
    requires
        call_ensures(ArtifactRegistry::find_artifact_name, (&registry, id, listing), r),
    ensures
        name_of(registry@, id) matches Some(n) ==> (r matches Some(s) && s@ == n),
        name_of(registry@, id) is None && listing is None ==> r is None,
        name_of(registry@, id) is None ==> (listing matches Some(l) ==> text::text_opt(r) == name_of(
            listed(l@),
            id,
        )),
{
}

/// A created artifact gets the next id and its name; a store that failed
/// creates nothing.
pub proof fn law_artifact_is_created(
    registry: &mut ArtifactRegistry,
    container: Result<String, String>,
    name: String,
    r: Reply,
)
    requires
        call_ensures(ArtifactRegistry::handle_create, (registry, container, name), r),
    ensures
        r is Created <==> container is Ok,
        container matches Ok(id) ==> {
            &&& r matches Reply::Created { container_id, name: n } && container_id@ == id@ && n@
                == name@
            &&& final(registry)@.len() == old(registry)@.len() + 1
            &&& final(registry)@.last() == ((old(registry)@.len() + 1) as u64, name@)
        },
        container is Err ==> final(registry)@ == old(registry)@ && r is Failed,
{
}

} // verus!
