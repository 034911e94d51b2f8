//! Finding and caching a Node.js runtime.

use vstd::prelude::*;

use crate::error::{RunnerError, RunnerErrorView};
use crate::net::run_service;
use crate::outside::archive;
use crate::outside::archive::ArchiveEntry;
use crate::path;
use crate::text;

verus! {

/// The release of a major version; unknown ones get that of version 20.
pub open spec fn release_of(major: u8) -> Seq<char> {
    if major == 24 {
        "24.0.2"@
    } else {
        "20.18.3"@
    }
}

/// The release of a major version.
pub fn node_version_for(major: u8) -> (r: &'static str)
    ensures
        r@ == release_of(major),
{
    if major == 24 {
        "24.0.2"
    } else {
        "20.18.3"
    }
}

/// The directory that a release is cached in.
pub open spec fn cache_dir_of(data_dir: Seq<char>, version: Seq<char>) -> Seq<char> {
    path::joined(path::joined(data_dir, "node"@), version)
}

/// The binary of a cached release.
pub open spec fn binary_of(cache_dir: Seq<char>) -> Seq<char> {
    path::joined(path::joined(cache_dir, "bin"@), "node"@)
}

/// The address of a release's archive.
pub open spec fn archive_url(version: Seq<char>, os: Seq<char>, arch: Seq<char>) -> Seq<char> {
    "https://nodejs.org/dist/v"@ + version + "/node-v"@ + version + "-"@ + os + "-"@ + arch
        + ".tar.gz"@
}

/// The directory that a release is cached in.
pub fn node_cache_dir(data_dir: &str, version: &str) -> (r: String)
    ensures
        r@ == cache_dir_of(data_dir@, version@),
{
    let dir = path::join(data_dir, "node");
    path::join(dir.as_str(), version)
}

/// The binary of a cached release.
pub fn node_binary_path(cache_dir: &str) -> (r: String)
    ensures
        r@ == binary_of(cache_dir@),
{
    let dir = path::join(cache_dir, "bin");
    path::join(dir.as_str(), "node")
}

/// The address of a release's archive.
pub fn node_download_url(version: &str, os: &str, arch: &str) -> (r: String)
    ensures
        r@ == archive_url(version@, os@, arch@),
{
    let mut url = text::cat5("https://nodejs.org/dist/v", version, "/node-v", version, "-");
    url.append(os);
    url.append("-");
    url.append(arch);
    url.append(".tar.gz");
    url
}

/// The operating system and processor as the archives name them, from the
/// names that the compiler gives them.
pub fn detect_platform(os: &str, arch: &str) -> (r: (&'static str, &'static str))
    ensures
        r.0@ == if os@ == "macos"@ {
            "darwin"@
        } else {
            "linux"@
        },
        r.1@ == if arch@ == "aarch64"@ {
            "arm64"@
        } else {
            "x64"@
        },
{
    let os_name: &'static str = if text::same(os, "macos") {
        "darwin"
    } else {
        "linux"
    };
    let arch_name: &'static str = if text::same(arch, "aarch64") {
        "arm64"
    } else {
        "x64"
    };
    (os_name, arch_name)
}

/// A path without its first component; empty when nothing is left.
pub open spec fn without_top(p: Seq<char>) -> Seq<char> {
    let parts = path::components(p);
    if parts.len() == 0 {
        Seq::empty()
    } else {
        text::joined(parts.skip(1), "/"@)
    }
}

/// What extracting an entry does. Paths need not be text: each character
/// stands for one byte.
#[derive(Debug)]
pub enum ExtractStep {
    /// Make the directory.
    MakeDir { dir: String },
    /// Make the parent directory, if there is one, and write the file.
    WriteFile { parent: Option<String>, file: String, mode: Option<u32>, content: Vec<u8> },
}

/// What extracting an entry does, as texts.
#[allow(inconsistent_fields)]
pub enum ExtractStepView {
    MakeDir { dir: Seq<char> },
    WriteFile {
        parent: Option<Seq<char>>,
        file: Seq<char>,
        mode: Option<u32>,
        content: Seq<u8>,
    },
}

impl View for ExtractStep {
    type V = ExtractStepView;

    open spec fn view(&self) -> ExtractStepView {
        match self {
            ExtractStep::MakeDir { dir } => ExtractStepView::MakeDir { dir: dir@ },
            ExtractStep::WriteFile { parent, file, mode, content } => ExtractStepView::WriteFile {
                parent: text::text_opt(*parent),
                file: file@,
                mode: *mode,
                content: content@,
            },
        }
    }
}

/// The steps as texts.
pub open spec fn step_views(steps: Seq<ExtractStep>) -> Seq<ExtractStepView> {
    steps.map_values(|s: ExtractStep| s@)
}

/// What extracting an entry under `dest` does. The top directory of the
/// archive is dropped, and with it an entry that is nothing else. A file that
/// could not be read to its end is written as far as it was, without its
/// permission bits.
pub open spec fn extracted(
    entry: (Seq<u8>, bool, Option<u32>, Seq<u8>, bool),
    dest: Seq<char>,
) -> Option<ExtractStepView> {
    let stripped = without_top(text::byte_text(entry.0));
    let out = path::joined(dest, stripped);
    if stripped.len() == 0 {
        None
    } else if entry.1 {
        Some(ExtractStepView::MakeDir { dir: out })
    } else {
        Some(
            ExtractStepView::WriteFile {
                parent: path::parent(out),
                file: out,
                mode: if entry.4 {
                    entry.2
                } else {
                    None
                },
                content: entry.3,
            },
        )
    }
}

/// What extracting the entries under `dest` does, in turn.
pub open spec fn extraction(
    entries: Seq<(Seq<u8>, bool, Option<u32>, Seq<u8>, bool)>,
    dest: Seq<char>,
) -> Seq<ExtractStepView>
    decreases entries.len(),
{
    if entries.len() == 0 {
        Seq::empty()
    } else {
        let before = extraction(entries.drop_last(), dest);
        match extracted(entries.last(), dest) {
            Some(s) => before.push(s),
            None => before,
        }
    }
}

fn drop_top(p: &str) -> (r: String)
    ensures
        r@ == without_top(p@),
{
    let parts = path::components_of(p);
    let ghost all = text::texts(parts@);
    let mut rest: Vec<String> = Vec::new();
    let mut i: usize = 1;
    if parts.len() == 0 {
        let none = String::new();
        assert(none@ =~= Seq::<char>::empty());
        return none;
    }
    assert(text::texts(rest@) =~= all.subrange(1, 1));
    while i < parts.len()
        invariant
            1 <= i <= parts@.len(),
            all == text::texts(parts@),
            text::texts(rest@) == all.subrange(1, i as int),
        decreases parts@.len() - i,
    {
        let ghost before = text::texts(rest@);
        let part: String = parts[i].clone();
        rest.push(part);
        assert(text::texts(rest@) =~= before.push(part@));
        assert(all.subrange(1, i + 1) =~= all.subrange(1, i as int).push(all[i as int]));
        i = i + 1;
    }
    assert(all.subrange(1, all.len() as int) =~= all.skip(1));
    text::join(&rest, "/")
}

/// What extracting one entry under `dest` does.
pub fn extract_entry(entry: ArchiveEntry, dest: &str) -> (r: Option<ExtractStep>)
    ensures
        match r {
            Some(s) => extracted(
                (entry.path@, entry.is_dir, entry.mode, entry.content@, entry.whole),
                dest@,
            ) == Some(s@),
            None => extracted(
                (entry.path@, entry.is_dir, entry.mode, entry.content@, entry.whole),
                dest@,
            ) is None,
        },
{
    let entry_path = text::text_of_bytes(entry.path.as_slice());
    let stripped = drop_top(entry_path.as_str());
    if stripped.as_str().is_empty() {
        return None;
    }
    let out = path::join(dest, stripped.as_str());
    if entry.is_dir {
        Some(ExtractStep::MakeDir { dir: out })
    } else {
        let parent: Option<String> = match path::parent_of(out.as_str()) {
            Some(p) => Some(p.to_owned()),
            None => None,
        };
        Some(
            ExtractStep::WriteFile {
                parent,
                file: out,
                mode: if entry.whole {
                    entry.mode
                } else {
                    None
                },
                content: entry.content,
            },
        )
    }
}

/// What extracting the entries under `dest` does, in turn.
pub fn extract_entries(entries: Vec<ArchiveEntry>, dest: &str) -> (r: Vec<ExtractStep>)
    ensures
        step_views(r@) == extraction(archive::entry_values(entries@), dest@),
{
    let ghost given = entries@;
    let ghost all = archive::entry_values(given);
    let mut entries = entries;
    let mut left: Vec<ArchiveEntry> = Vec::new();
    let n: usize = entries.len();
    let mut k: usize = 0;
    while k < n
        invariant
            k <= n,
            n == given.len(),
            entries@ == given.take(n - k),
            left@.len() == k,
            forall|j: int| 0 <= j < k ==> (#[trigger] left@[j]) == given[n - 1 - j],
        decreases n - k,
    {
        match entries.pop() {
            Some(e) => {
                left.push(e);
            },
            None => {},
        }
        k = k + 1;
    }
    let mut steps: Vec<ExtractStep> = Vec::new();
    let mut i: usize = 0;
    assert(step_views(steps@) =~= extraction(all.take(0), dest@));
    while i < n
        invariant
            i <= n,
            n == given.len(),
            all == archive::entry_values(given),
            left@.len() == n - i,
            forall|j: int| 0 <= j < n - i ==> (#[trigger] left@[j]) == given[n - 1 - j],
            step_views(steps@) == extraction(all.take(i as int), dest@),
        decreases n - i,
    {
        let ghost before = step_views(steps@);
        assert(left@[n - i - 1] == given[i as int]);
        assert(all.take(i + 1).drop_last() =~= all.take(i as int));
        assert(all.take(i + 1).last() == all[i as int]);
        match left.pop() {
            Some(e) => {
                match extract_entry(e, dest) {
                    Some(s) => {
                        steps.push(s);
                        assert(step_views(steps@) =~= before.push(s@));
                    },
                    None => {},
                }
            },
            None => {},
        }
        i = i + 1;
    }
    assert(all.take(all.len() as int) =~= all);
    steps
}

/// What extracting an archive under `dest` does, up to the first fault of
/// the archive, and that fault.
pub fn extract_tarball(bytes: &[u8], dest: &str) -> (r: (Vec<ExtractStep>, Option<String>))
    ensures
        step_views(r.0@) == extraction(
            archive::archive_entries(bytes@).0,
            text::byte_text(vstd::utf8::encode_utf8(dest@)),
        ),
        text::text_opt(r.1) == archive::archive_entries(bytes@).1,
{
    let (entries, fault) = archive::unpack(bytes);
    let base = text::text_of_bytes(dest.as_bytes());
    (extract_entries(entries, base.as_str()), fault)
}

/// Where a runtime is, or is to be put.
#[derive(Debug)]
pub struct RuntimePlan {
    pub cache_dir: String,
    pub binary: String,
    /// The archive to download when the binary is not there.
    pub url: String,
}

/// Where the runtime of a major version is, and where it comes from.
pub fn plan_runtime(data_dir: &str, major: u8, os: &str, arch: &str) -> (r: RuntimePlan)
    ensures
        r.cache_dir@ == cache_dir_of(data_dir@, release_of(major)),
        r.binary@ == binary_of(cache_dir_of(data_dir@, release_of(major))),
        r.url@ == archive_url(release_of(major), os@, arch@),
{
    let version = node_version_for(major);
    let cache_dir = node_cache_dir(data_dir, version);
    let binary = node_binary_path(cache_dir.as_str());
    let url = node_download_url(version, os, arch);
    RuntimePlan { cache_dir, binary, url }
}

/// What became of a download.
pub enum Download {
    /// The request could not be sent.
    Unsent(String),
    /// An answer came with a status and a body, which is empty when it could
    /// not be read as text.
    Refused { status: u16, body: String },
    /// The body could not be read.
    Unread(String),
    /// The archive could not be extracted.
    Unextracted(String),
    /// The archive was extracted.
    Extracted,
}

/// The failure of a download.
pub open spec fn download_failure(url: Seq<char>, d: Download) -> Option<RunnerErrorView> {
    match d {
        Download::Unsent(cause) => Some(
            RunnerErrorView::NodeRuntime("fetch "@ + url + ": "@ + cause@),
        ),
        Download::Refused { status, body } => Some(
            RunnerErrorView::NodeRuntime(
                "node tarball "@ + url + " status "@ + run_service::shown_status(status) + ": "@
                    + body@,
            ),
        ),
        Download::Unread(cause) => Some(
            RunnerErrorView::NodeRuntime("read tarball body: "@ + cause@),
        ),
        Download::Unextracted(cause) => Some(
            RunnerErrorView::NodeRuntime("extract node tarball: "@ + cause@),
        ),
        Download::Extracted => None,
    }
}

/// The binary of a runtime: the cached one, or the one that was downloaded.
pub fn ensure_node_runtime(plan: RuntimePlan, download: Option<Download>) -> (r: Result<
    String,
    RunnerError,
>)
    ensures
        match download {
            None => r == Ok::<String, RunnerError>(plan.binary),
            Some(d) => match download_failure(plan.url@, d) {
                None => r == Ok::<String, RunnerError>(plan.binary),
                Some(f) => r matches Err(e) && e@ == f,
            },
        },
{
    match download {
        None => Ok(plan.binary),
        Some(Download::Extracted) => Ok(plan.binary),
        Some(Download::Unsent(cause)) => Err(
            RunnerError::NodeRuntime(
                text::cat4("fetch ", plan.url.as_str(), ": ", cause.as_str()),
            ),
        ),
        Some(Download::Refused { status, body }) => {
            let shown = run_service::show_status(status);
            let mut msg = text::cat4("node tarball ", plan.url.as_str(), " status ", shown.as_str());
            msg.append(": ");
            msg.append(body.as_str());
            Err(RunnerError::NodeRuntime(msg))
        },
        Some(Download::Unread(cause)) => Err(
            RunnerError::NodeRuntime(text::cat2("read tarball body: ", cause.as_str())),
        ),
        Some(Download::Unextracted(cause)) => Err(
            RunnerError::NodeRuntime(text::cat2("extract node tarball: ", cause.as_str())),
        ),
    }
}

/// Version 24 has its own release; every other version gets that of 20.
pub proof fn law_release_of_a_major_version(major: u8, r: &'static str)
    requires
        call_ensures(node_version_for, (major,), r),
    ensures
        major == 24 ==> r@ == "24.0.2"@,
        major != 24 ==> r@ == "20.18.3"@,
{
}

/// Archives are named for macOS as darwin and for anything else as Linux, for
/// 64-bit ARM as arm64 and for anything else as x64.
pub proof fn law_platform_names(os: &str, arch: &str, r: (&'static str, &'static str))
    requires
        call_ensures(detect_platform, (os, arch), r),
    ensures
        os@ == "macos"@ ==> r.0@ == "darwin"@,
        os@ != "macos"@ ==> r.0@ == "linux"@,
        arch@ == "aarch64"@ ==> r.1@ == "arm64"@,
        arch@ != "aarch64"@ ==> r.1@ == "x64"@,
{
}

/// A runtime is kept under its release in the data directory, and its archive
/// names the release, the system and the processor.
pub proof fn law_runtime_is_kept_by_release(
    data_dir: &str,
    major: u8,
    os: &str,
    arch: &str,
    r: RuntimePlan,
)
    requires
        call_ensures(plan_runtime, (data_dir, major, os, arch), r),
    ensures
        ({
            let release = if major == 24 {
                "24.0.2"@
            } else {
                "20.18.3"@
            };
            &&& r.cache_dir@ == path::joined(path::joined(data_dir@, "node"@), release)
            &&& r.binary@ == path::joined(path::joined(r.cache_dir@, "bin"@), "node"@)
            &&& r.url@ == "https://nodejs.org/dist/v"@ + release + "/node-v"@ + release + "-"@ + os@
                + "-"@ + arch@ + ".tar.gz"@
        }),
{
}

/// The same of its parts by themselves.
pub proof fn law_runtime_paths(
    data_dir: &str,
    version: &str,
    dir: String,
    cache_dir: &str,
    binary: String,
    os: &str,
    arch: &str,
    url: String,
)
    requires
        call_ensures(node_cache_dir, (data_dir, version), dir),
        call_ensures(node_binary_path, (cache_dir,), binary),
        call_ensures(node_download_url, (version, os, arch), url),
    ensures
        dir@ == path::joined(path::joined(data_dir@, "node"@), version@),
        binary@ == path::joined(path::joined(cache_dir@, "bin"@), "node"@),
        url@ == "https://nodejs.org/dist/v"@ + version@ + "/node-v"@ + version@ + "-"@ + os@ + "-"@
            + arch@ + ".tar.gz"@,
{
}

/// The top directory of a path is dropped and the rest kept; nothing is left
/// of the top directory itself.
pub proof fn law_top_directory_is_dropped(p: Seq<char>)
    ensures
        path::components(p).len() <= 1 ==> without_top(p).len() == 0,
        path::components(p).len() > 1 ==> without_top(p) == text::joined(
            path::components(p).skip(1),
            "/"@,
        ),
        path::components(p).len() == 2 ==> without_top(p) == path::components(p)[1],
{
    let parts = path::components(p);
    if parts.len() == 1 {
        assert(parts.skip(1) =~= Seq::<Seq<char>>::empty());
    }
    if parts.len() == 2 {
        assert(parts.skip(1) =~= seq![parts[1]]);
    }
}

/// An entry becomes a directory or a file below the destination, under its
/// path without the top directory; the top directory itself becomes nothing.
/// A file that was read to its end keeps its bits, and every file its content.
pub proof fn law_entry_is_extracted_below(
    entry: (Seq<u8>, bool, Option<u32>, Seq<u8>, bool),
    dest: Seq<char>,
)
    ensures
        ({
            let inner = without_top(text::byte_text(entry.0));
            let got = extracted(entry, dest);
            &&& got is None <==> inner.len() == 0
            &&& (got matches Some(ExtractStepView::MakeDir { .. })) <==> inner.len() > 0 && entry.1
            &&& (got matches Some(ExtractStepView::WriteFile { .. })) <==> inner.len() > 0
                && !entry.1
            &&& got matches Some(ExtractStepView::MakeDir { dir }) ==> dir == path::joined(
                dest,
                inner,
            )
            &&& got matches Some(ExtractStepView::WriteFile { parent, file, mode, content }) ==> file
                == path::joined(dest, inner) && parent == path::parent(file) && content == entry.3
                && (entry.4 ==> mode == entry.2) && (!entry.4 ==> mode is None)
        }),
{
}

/// Entries are extracted in the order of the archive, and each by itself.
pub proof fn law_entries_are_extracted_in_turn(
    entries: Seq<(Seq<u8>, bool, Option<u32>, Seq<u8>, bool)>,
    entry: (Seq<u8>, bool, Option<u32>, Seq<u8>, bool),
    dest: Seq<char>,
)
    ensures
        extraction(seq![], dest).len() == 0,
        extracted(entry, dest) is None ==> extraction(entries.push(entry), dest) == extraction(
            entries,
            dest,
        ),
        extracted(entry, dest) matches Some(s) ==> extraction(entries.push(entry), dest)
            == extraction(entries, dest).push(s),
{
    assert(entries.push(entry).drop_last() =~= entries);
}

/// A runtime is there exactly when nothing had to be downloaded or the
/// download was extracted; it is then at the planned place. Each failure says
/// what failed.
pub proof fn law_runtime_needs_its_download(
    plan: RuntimePlan,
    download: Option<Download>,
    r: Result<String, RunnerError>,
)
    requires
        call_ensures(ensure_node_runtime, (plan, download), r),
    ensures
        r is Ok <==> download is None || download matches Some(Download::Extracted),
        r matches Ok(binary) ==> binary@ == plan.binary@,
        download matches Some(Download::Unsent(cause)) ==> (r matches Err(e) && e@
            == RunnerErrorView::NodeRuntime("fetch "@ + plan.url@ + ": "@ + cause@)),
        download matches Some(Download::Unread(cause)) ==> (r matches Err(e) && e@
            == RunnerErrorView::NodeRuntime("read tarball body: "@ + cause@)),
        download matches Some(Download::Unextracted(cause)) ==> (r matches Err(e) && e@
            == RunnerErrorView::NodeRuntime("extract node tarball: "@ + cause@)),
        download matches Some(Download::Refused { status, body }) ==> (r matches Err(e) && e@
            == RunnerErrorView::NodeRuntime(
            "node tarball "@ + plan.url@ + " status "@ + run_service::shown_status(status) + ": "@
                + body@,
        )),
{
}

/// An archive's entries are extracted below the destination in turn, up to
/// its first fault, which is handed on.
pub proof fn law_archive_is_extracted_in_turn(
    bytes: &[u8],
    dest: &str,
    r: (Vec<ExtractStep>, Option<String>),
)
    requires
        call_ensures(extract_tarball, (bytes, dest), r),
    ensures
        step_views(r.0@) == extraction(
            archive::archive_entries(bytes@).0,
            text::byte_text(vstd::utf8::encode_utf8(dest@)),
        ),
        r.1 is Some <==> archive::archive_entries(bytes@).1 is Some,
        r.1 matches Some(fault) ==> archive::archive_entries(bytes@).1 == Some(fault@),
        r.0@.len() <= archive::archive_entries(bytes@).0.len(),
{
    lemma_no_more_steps(
        archive::archive_entries(bytes@).0,
        text::byte_text(vstd::utf8::encode_utf8(dest@)),
    );
    assert(step_views(r.0@).len() == r.0@.len());
}

proof fn lemma_no_more_steps(
    entries: Seq<(Seq<u8>, bool, Option<u32>, Seq<u8>, bool)>,
    dest: Seq<char>,
)
    ensures
        extraction(entries, dest).len() <= entries.len(),
    decreases entries.len(),
{
    if entries.len() > 0 {
        lemma_no_more_steps(entries.drop_last(), dest);
    }
}

/// One entry becomes a directory, a file or nothing, by what it is.
pub proof fn law_one_entry_is_extracted(entry: ArchiveEntry, dest: &str, r: Option<ExtractStep>)
    requires
        call_ensures(extract_entry, (entry, dest), r),
    ensures
        ({
            let inner = without_top(text::byte_text(entry.path@));
            &&& r is None <==> inner.len() == 0
            &&& (r matches Some(ExtractStep::MakeDir { .. })) <==> inner.len() > 0 && entry.is_dir
            &&& r matches Some(ExtractStep::MakeDir { dir }) ==> dir@ == path::joined(dest@, inner)
            &&& r matches Some(ExtractStep::WriteFile { file, mode, content, .. }) ==> file@
                == path::joined(dest@, inner) && content@ == entry.content@ && (entry.whole ==> mode
                == entry.mode) && (!entry.whole ==> mode is None)
        }),
{
}

} // verus!
