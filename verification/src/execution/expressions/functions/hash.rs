//! `hashFiles()`.
//!
//! The result is the SHA-256 of the concatenated SHA-256 digests of the
//! matched files, each contributing its raw 32 bytes, in traversal order;
//! only the outer digest is written in hexadecimal. Cache keys computed from
//! it must equal those computed elsewhere for the same tree, so both details
//! are part of the contract.

use vstd::prelude::*;

use super::glob_walk;
use super::glob_walk::{Found, FoundView, Walk};
use crate::error::{RunnerError, RunnerErrorView};
use crate::hex;
use crate::outside::{digest, pattern};
use crate::path;
use crate::text;

verus! {

/// Matching is case-sensitive.
pub const CASE_SENSITIVE: bool = true;

/// `*` and `?` never match a path separator.
pub const LITERAL_SEPARATOR: bool = true;

/// `*` matches a leading dot.
pub const LITERAL_LEADING_DOT: bool = false;

/// One parsed pattern: an absolute glob, whether it is negated, and the
/// directory where looking for its matches begins.
pub struct HashPattern {
    glob: String,
    negate: bool,
    search_root: String,
}

/// A parsed pattern with its texts.
pub struct HashPatternView {
    pub glob: Seq<char>,
    pub negate: bool,
    pub search_root: Seq<char>,
}

impl View for HashPattern {
    type V = HashPatternView;

    closed spec fn view(&self) -> HashPatternView {
        HashPatternView {
            glob: self.glob@,
            negate: self.negate,
            search_root: self.search_root@,
        }
    }
}

/// The views of a list of patterns.
pub open spec fn views(patterns: Seq<HashPattern>) -> Seq<HashPatternView> {
    patterns.map_values(|p: HashPattern| p@)
}

/// The parsed form of an absolute pattern.
pub open spec fn compiled(glob: Seq<char>, negate: bool) -> Result<
    HashPatternView,
    RunnerErrorView,
> {
    match pattern::pattern_fault(glob) {
        Some(fault) => Err(
            RunnerErrorView::Expression("hashFiles pattern '"@ + glob + "': "@ + fault),
        ),
        None => Ok(
            HashPatternView { glob, negate, search_root: glob_walk::literal_root(glob) },
        ),
    }
}

impl HashPattern {
    /// Parses an absolute pattern.
    pub fn new(glob: &str, negate: bool) -> (r: Result<HashPattern, RunnerError>)
        ensures
            match r {
                Ok(p) => compiled(glob@, negate) == Ok::<HashPatternView, RunnerErrorView>(p@),
                Err(e) => compiled(glob@, negate) == Err::<HashPatternView, RunnerErrorView>(e@),
            },
    {
        match pattern::fault_of(glob) {
            Some(fault) => Err(
                RunnerError::Expression(
                    text::cat4("hashFiles pattern '", glob, "': ", fault.as_str()),
                ),
            ),
            None => Ok(
                HashPattern {
                    glob: glob.to_owned(),
                    negate,
                    search_root: glob_walk::literal_prefix(glob),
                },
            ),
        }
    }
}

/// The only option, accepted as the first argument in any letter case.
pub open spec fn follow_flag() -> Seq<char> {
    "--follow-symbolic-links"@
}

/// The arguments split into the option and the patterns.
pub open spec fn options_split(args: Seq<Seq<char>>) -> Result<
    (bool, Seq<Seq<char>>),
    RunnerErrorView,
> {
    if args.len() == 0 || !"--"@.is_prefix_of(args[0]) {
        Ok((false, args))
    } else if text::lower(args[0]) == text::lower(follow_flag()) {
        Ok((true, args.drop_first()))
    } else {
        Err(RunnerErrorView::Expression("hashFiles: invalid option '"@ + args[0] + "'"@))
    }
}

/// Splits a leading `--follow-symbolic-links` off the argument list. Any
/// other leading `--` argument is an error; a `--` text in a later argument
/// is an ordinary pattern. The second part of the result is where the
/// patterns begin.
pub fn split_options(args: &Vec<String>) -> (r: Result<(bool, usize), RunnerError>)
    ensures
        match r {
            Ok((follow, from)) => from <= args@.len() && options_split(text::texts(args@)) == Ok::<
                (bool, Seq<Seq<char>>),
                RunnerErrorView,
            >((follow, text::texts(args@).skip(from as int))),
            Err(e) => options_split(text::texts(args@)) == Err::<
                (bool, Seq<Seq<char>>),
                RunnerErrorView,
            >(e@),
        },
{
    let ghost all = text::texts(args@);
    assert(all.skip(0) =~= all);
    if args.len() == 0 {
        return Ok((false, 0));
    }
    let first = args[0].as_str();
    assert(all[0] == first@);
    if !text::begins_with(first, "--") {
        return Ok((false, 0));
    }
    if text::same_ignoring_case(first, "--follow-symbolic-links") {
        assert(all.skip(1) =~= all.drop_first());
        return Ok((true, 1));
    }
    Err(RunnerError::Expression(text::cat3("hashFiles: invalid option '", first, "'")))
}

/// The text with every line end written as a single line feed.
pub open spec fn unix_lines(s: Seq<char>) -> Seq<char>
    decreases s.len(),
{
    if s.len() == 0 {
        Seq::empty()
    } else if s.last() == '\n' && s.len() > 1 && s[s.len() - 2] == '\r' {
        unix_lines(s.take(s.len() - 2)).push('\n')
    } else if s.last() == '\r' {
        unix_lines(s.drop_last()).push('\n')
    } else {
        unix_lines(s.drop_last()).push(s.last())
    }
}

fn normalize_lines(s: &str) -> (r: String)
    ensures
        r@ == unix_lines(s@),
{
    let v = text::chars_of(s);
    let n: usize = v.len();
    let mut out = String::new();
    let mut i: usize = 0;
    assert(v@.take(0) =~= Seq::empty());
    while i < n
        invariant
            i <= n == v@.len(),
            out@ == unix_lines(v@.take(i as int)),
            0 < i < n && v@[i - 1] == '\r' ==> v@[i as int] != '\n',
        decreases n - i,
    {
        let ghost here = v@.take(i as int);
        let c = v[i];
        if c == '\r' && i + 1 < n && v[i + 1] == '\n' {
            out.push('\n');
            assert(v@.take(i + 2).take(i as int) =~= here);
            i = i + 2;
        } else {
            out.push(
                if c == '\r' {
                    '\n'
                } else {
                    c
                },
            );
            assert(v@.take(i + 1).drop_last() =~= here);
            i = i + 1;
        }
    }
    assert(v@.take(n as int) =~= v@);
    out
}

/// A line without its leading `!` marks, and whether their number is odd.
/// White space around each mark is skipped.
pub open spec fn negation(line: Seq<char>) -> (bool, Seq<char>)
    decreases line.len(),
{
    if line.len() > 0 && line[0] == '!' {
        proof {
            text::lemma_trim_shorter(line.drop_first());
        }
        let inner = negation(text::trimmed(line.drop_first()));
        (!inner.0, inner.1)
    } else {
        (false, line)
    }
}

/// Strips leading `!` marks, each toggling negation.
pub fn strip_negation(line: &str) -> (r: (bool, &str))
    ensures
        (r.0, r.1@) == negation(line@),
{
    let mut negate: bool = false;
    let mut rest: &str = line;
    while text::begins_with(rest, "!")
        invariant
            negation(line@).0 == (negate != negation(rest@).0),
            negation(line@).1 == negation(rest@).1,
        decreases rest@.len(),
    {
        proof {
            reveal_strlit("!");
            assert(rest@.subrange(0, 1)[0] == rest@[0]);
            text::lemma_trim_shorter(rest@.drop_first());
        }
        let n: usize = rest.unicode_len();
        let tail = rest.substring_char(1, n);
        assert(tail@ =~= rest@.drop_first());
        negate = !negate;
        rest = text::trim(tail);
    }
    proof {
        reveal_strlit("!");
        if rest@.len() > 0 && rest@[0] == '!' {
            assert(rest@.subrange(0, 1) =~= "!"@);
        }
    }
    (negate, rest)
}

/// Whether a pattern holds `..`, or `.` past its first segment.
pub open spec fn has_relative_segment(body: Seq<char>) -> bool {
    let segments = text::split(body, '/');
    exists|i: int|
        0 <= i < segments.len() && (#[trigger] segments[i] == path::dot_dot() || (segments[i]
            == path::dot() && i != 0))
}

/// The failure for a pattern with relative segments.
pub open spec fn relative_failure(body: Seq<char>) -> RunnerErrorView {
    RunnerErrorView::Expression(
        "hashFiles: relative pathing '.' and '..' is not allowed in '"@ + body + "'"@,
    )
}

/// Refuses `..` anywhere and `.` outside the first segment.
pub fn reject_relative_segments(body: &str) -> (r: Result<(), RunnerError>)
    ensures
        match r {
            Ok(_) => !has_relative_segment(body@),
            Err(e) => has_relative_segment(body@) && e@ == relative_failure(body@),
        },
{
    let parts = text::split_char(body, '/');
    let ghost segments = text::split(body@, '/');
    proof {
        reveal_strlit(".");
        reveal_strlit("..");
        assert("."@ =~= path::dot());
        assert(".."@ =~= path::dot_dot());
    }
    let mut i: usize = 0;
    while i < parts.len()
        invariant
            i <= parts@.len(),
            segments == text::split(body@, '/'),
            segments == text::texts(parts@),
            "."@ == path::dot(),
            ".."@ == path::dot_dot(),
            forall|k: int|
                0 <= k < i ==> #[trigger] segments[k] != path::dot_dot() && (segments[k]
                    != path::dot() || k == 0),
        decreases parts@.len() - i,
    {
        assert(segments[i as int] == parts@[i as int]@);
        let part = parts[i].as_str();
        if text::same(part, "..") || (text::same(part, ".") && i != 0) {
            return Err(
                RunnerError::Expression(
                    text::cat3(
                        "hashFiles: relative pathing '.' and '..' is not allowed in '",
                        body,
                        "'",
                    ),
                ),
            );
        }
        i = i + 1;
    }
    Ok(())
}

/// The text of the any-depth wildcard.
pub open spec fn globstar() -> Seq<char> {
    "**"@
}

/// The patterns that one line stands for: none for an empty line or a
/// comment; otherwise the absolute pattern, and its descendants too unless
/// it already ends in `**`.
pub open spec fn line_patterns(workspace: Seq<char>, line: Seq<char>) -> Result<
    Seq<HashPatternView>,
    RunnerErrorView,
> {
    let (negate, body) = negation(text::trimmed(line));
    let glob = path::joined(workspace, body);
    if body.len() == 0 || body[0] == '#' {
        Ok(Seq::empty())
    } else if has_relative_segment(body) {
        Err(relative_failure(body))
    } else {
        match compiled(glob, negate) {
            Err(e) => Err(e),
            Ok(own) => if path::file_name(glob) == Some(globstar()) {
                Ok(seq![own])
            } else {
                match compiled(path::joined(glob, globstar()), negate) {
                    Err(e) => Err(e),
                    Ok(twin) => Ok(seq![own, twin]),
                }
            },
        }
    }
}

/// The patterns of a list of lines; the first bad line decides.
pub open spec fn patterns_of(workspace: Seq<char>, lines: Seq<Seq<char>>) -> Result<
    Seq<HashPatternView>,
    RunnerErrorView,
>
    decreases lines.len(),
{
    if lines.len() == 0 {
        Ok(Seq::empty())
    } else {
        match patterns_of(workspace, lines.drop_last()) {
            Err(e) => Err(e),
            Ok(head) => match line_patterns(workspace, lines.last()) {
                Err(e) => Err(e),
                Ok(own) => Ok(head + own),
            },
        }
    }
}

/// The lines of one argument.
pub open spec fn arg_lines(arg: Seq<char>) -> Seq<Seq<char>> {
    text::split(unix_lines(arg), '\n')
}

/// The lines of all arguments, one argument after the other.
pub open spec fn lines_of(args: Seq<Seq<char>>) -> Seq<Seq<char>>
    decreases args.len(),
{
    if args.len() == 0 {
        Seq::empty()
    } else {
        lines_of(args.drop_last()) + arg_lines(args.last())
    }
}

fn add_line(
    patterns: &mut Vec<HashPattern>,
    workspace: &str,
    line: &str,
) -> (r: Result<(), RunnerError>)
    ensures
        match r {
            Ok(_) => line_patterns(workspace@, line@) is Ok && views(final(patterns)@) == views(
                old(patterns)@,
            ) + line_patterns(workspace@, line@)->Ok_0,
            Err(e) => line_patterns(workspace@, line@) == Err::<
                Seq<HashPatternView>,
                RunnerErrorView,
            >(e@),
        },
{
    let ghost before = views(patterns@);
    let (negate, body) = strip_negation(text::trim(line));
    if body.is_empty() || text::begins_with(body, "#") {
        proof {
            reveal_strlit("#");
            if body@.len() > 0 {
                assert(body@.subrange(0, 1)[0] == body@[0]);
            }
            assert(before + Seq::<HashPatternView>::empty() =~= before);
        }
        return Ok(());
    }
    proof {
        reveal_strlit("#");
        if body@[0] == '#' {
            assert(body@.subrange(0, 1) =~= "#"@);
        }
    }
    match reject_relative_segments(body) {
        Err(e) => {
            return Err(e);
        },
        Ok(_) => {},
    }
    let glob = path::join(workspace, body);
    let ends_with_globstar: bool = match path::file_name_of(glob.as_str()) {
        Some(name) => text::same(name, "**"),
        None => false,
    };
    let own = match HashPattern::new(glob.as_str(), negate) {
        Err(e) => {
            return Err(e);
        },
        Ok(p) => p,
    };
    if ends_with_globstar {
        patterns.push(own);
        assert(views(patterns@) =~= before + seq![own@]);
        return Ok(());
    }
    let below = path::join(glob.as_str(), "**");
    let twin = match HashPattern::new(below.as_str(), negate) {
        Err(e) => {
            return Err(e);
        },
        Ok(p) => p,
    };
    patterns.push(own);
    patterns.push(twin);
    assert(views(patterns@) =~= before + seq![own@, twin@]);
    Ok(())
}

proof fn lemma_lines_extend(workspace: Seq<char>, a: Seq<Seq<char>>, b: Seq<Seq<char>>)
    ensures
        patterns_of(workspace, a) is Err ==> patterns_of(workspace, a + b) == patterns_of(
            workspace,
            a,
        ),
    decreases b.len(),
{
    if b.len() == 0 {
        assert(a + b =~= a);
    } else {
        lemma_lines_extend(workspace, a, b.drop_last());
        assert((a + b).drop_last() =~= a + b.drop_last());
    }
}

proof fn lemma_args_extend(args: Seq<Seq<char>>, n: int) -> (rest: Seq<Seq<char>>)
    requires
        0 <= n <= args.len(),
    ensures
        lines_of(args) == lines_of(args.take(n)) + rest,
    decreases args.len() - n,
{
    if n == args.len() {
        assert(args.take(n) =~= args);
        assert(lines_of(args) =~= lines_of(args.take(n)) + Seq::<Seq<char>>::empty());
        Seq::empty()
    } else {
        let inner = lemma_args_extend(args, n + 1);
        assert(args.take(n + 1).drop_last() =~= args.take(n));
        let rest = arg_lines(args[n]) + inner;
        assert(lines_of(args.take(n + 1)) + inner =~= lines_of(args.take(n)) + rest);
        rest
    }
}

/// Expands arguments into absolute patterns, each followed by its
/// descendants unless it ends in `**`.
pub fn parse_patterns(workspace: &str, args: &Vec<String>, from: usize) -> (r: Result<
    Vec<HashPattern>,
    RunnerError,
>)
    requires
        from <= args@.len(),
    ensures
        match r {
            Ok(p) => patterns_of(workspace@, lines_of(text::texts(args@).skip(from as int))) == Ok::<
                Seq<HashPatternView>,
                RunnerErrorView,
            >(views(p@)),
            Err(e) => patterns_of(workspace@, lines_of(text::texts(args@).skip(from as int)))
                == Err::<Seq<HashPatternView>, RunnerErrorView>(e@),
        },
{
    let ghost used = text::texts(args@).skip(from as int);
    let mut patterns: Vec<HashPattern> = Vec::new();
    let mut i: usize = from;
    proof {
        assert(used.take(0) =~= Seq::empty());
        assert(views(patterns@) =~= Seq::empty());
    }
    while i < args.len()
        invariant
            from <= i <= args@.len(),
            used == text::texts(args@).skip(from as int),
            patterns_of(workspace@, lines_of(used.take(i - from))) == Ok::<
                Seq<HashPatternView>,
                RunnerErrorView,
            >(views(patterns@)),
        decreases args@.len() - i,
    {
        let ghost done = lines_of(used.take(i - from));
        let arg = args[i].as_str();
        assert(used[i - from] == arg@);
        let normalized = normalize_lines(arg);
        let lines = text::split_char(normalized.as_str(), '\n');
        let ghost own = text::texts(lines@);
        proof {
            assert(used.take(i - from + 1).drop_last() =~= used.take(i - from));
            assert(lines_of(used.take(i - from + 1)) == done + own);
            assert(done + own.take(0) =~= done);
        }
        let mut j: usize = 0;
        while j < lines.len()
            invariant
                from <= i < args@.len(),
                used == text::texts(args@).skip(from as int),
                j <= lines@.len(),
                own == text::texts(lines@),
                lines_of(used.take(i - from + 1)) == done + own,
                patterns_of(workspace@, done + own.take(j as int)) == Ok::<
                    Seq<HashPatternView>,
                    RunnerErrorView,
                >(views(patterns@)),
            decreases lines@.len() - j,
        {
            let ghost upto = done + own.take(j + 1);
            proof {
                assert(upto.drop_last() =~= done + own.take(j as int));
                assert(upto.last() == lines@[j as int]@);
            }
            match add_line(&mut patterns, workspace, lines[j].as_str()) {
                Ok(_) => {},
                Err(e) => {
                    proof {
                        assert(patterns_of(workspace@, upto) is Err);
                        lemma_lines_extend(workspace@, upto, own.skip(j + 1));
                        assert(upto + own.skip(j + 1) =~= done + own);
                        let rest = lemma_args_extend(used, i - from + 1);
                        lemma_lines_extend(workspace@, done + own, rest);
                    }
                    return Err(e);
                },
            }
            j = j + 1;
        }
        assert(done + own.take(own.len() as int) =~= done + own);
        i = i + 1;
    }
    assert(used.take(used.len() as int) =~= used);
    Ok(patterns)
}

/// Whether one pattern matches the path.
pub open spec fn pattern_hits(p: HashPatternView, file: Seq<char>) -> bool {
    pattern::pattern_matches(
        p.glob,
        file,
        CASE_SENSITIVE,
        LITERAL_SEPARATOR,
        LITERAL_LEADING_DOT,
    )
}

/// Whether the patterns select the path: the last pattern that matches
/// decides, a negated one against it.
pub open spec fn selected(patterns: Seq<HashPatternView>, file: Seq<char>) -> bool
    decreases patterns.len(),
{
    if patterns.len() == 0 {
        false
    } else if pattern_hits(patterns.last(), file) {
        !patterns.last().negate
    } else {
        selected(patterns.drop_last(), file)
    }
}

/// Applies the patterns in order: a positive match sets the hit, a negated
/// match clears it.
pub fn matches_patterns(patterns: &Vec<HashPattern>, file: &str) -> (r: bool)
    ensures
        r == selected(views(patterns@), file@),
{
    let ghost all = views(patterns@);
    let mut hit: bool = false;
    let mut i: usize = 0;
    while i < patterns.len()
        invariant
            i <= patterns@.len(),
            all == views(patterns@),
            hit == selected(all.take(i as int), file@),
        decreases patterns@.len() - i,
    {
        proof {
            assert(all.take(i + 1).drop_last() =~= all.take(i as int));
            assert(all.take(i + 1).last() == patterns@[i as int]@);
        }
        if pattern::matches(
            patterns[i].glob.as_str(),
            file,
            CASE_SENSITIVE,
            LITERAL_SEPARATOR,
            LITERAL_LEADING_DOT,
        ) {
            hit = !patterns[i].negate;
        }
        i = i + 1;
    }
    assert(all.take(all.len() as int) =~= all);
    hit
}

/// The digests of the contents, one after the other.
pub open spec fn digests(contents: Seq<Seq<u8>>) -> Seq<u8>
    decreases contents.len(),
{
    if contents.len() == 0 {
        Seq::empty()
    } else {
        digests(contents.drop_last()) + digest::sha256(contents.last())
    }
}

/// The hash of a list of file contents: empty when there is none, otherwise
/// the hexadecimal SHA-256 of the concatenated SHA-256 digests.
pub open spec fn hash_of(contents: Seq<Seq<u8>>) -> Seq<char> {
    if contents.len() == 0 {
        Seq::empty()
    } else {
        hex::hex(digest::sha256(digests(contents)))
    }
}

/// The search roots of the patterns that are not negated.
pub open spec fn positive_roots(patterns: Seq<HashPatternView>) -> Seq<Seq<char>>
    decreases patterns.len(),
{
    if patterns.len() == 0 {
        Seq::empty()
    } else if patterns.last().negate {
        positive_roots(patterns.drop_last())
    } else {
        positive_roots(patterns.drop_last()).push(patterns.last().search_root)
    }
}

/// A `hashFiles()` evaluation in progress.
///
/// [`HashRun::next_step`] names a path to look at; [`HashRun::looked`] takes
/// what lies there and answers whether its content is wanted;
/// [`HashRun::read`] takes the content.
pub struct HashRun {
    workspace: String,
    patterns: Vec<HashPattern>,
    roots: Vec<String>,
    next_root: usize,
    walk: Walk,
    follow_symlinks: bool,
    fold: Fold,
}

/// The digests folded so far, whether there is any, and the contents they
/// are of.
struct Fold {
    bytes: Vec<u8>,
    matched_any: bool,
    contents: Ghost<Seq<Seq<u8>>>,
}

impl Fold {
    spec fn agrees(self) -> bool {
        &&& self.bytes@ == digests(self.contents@)
        &&& self.matched_any == (self.contents@.len() > 0)
    }

    fn empty() -> (r: Fold)
        ensures
            r.agrees(),
            r.contents@ == Seq::<Seq<u8>>::empty(),
    {
        let r = Fold { bytes: Vec::new(), matched_any: false, contents: Ghost(Seq::empty()) };
        assert(r.bytes@ =~= digests(Seq::empty()));
        r
    }
}

/// An evaluation in progress: the search roots still to walk, the paths
/// still to look at under the current one, and the contents folded so far.
pub struct HashRunView {
    pub workspace: Seq<char>,
    pub patterns: Seq<HashPatternView>,
    pub roots: Seq<Seq<char>>,
    pub pending: Seq<Seq<char>>,
    pub follow_symlinks: bool,
    pub contents: Seq<Seq<u8>>,
}

impl View for HashRun {
    type V = HashRunView;

    closed spec fn view(&self) -> HashRunView {
        HashRunView {
            workspace: self.workspace@,
            patterns: views(self.patterns@),
            roots: text::texts(self.roots@).skip(self.next_root as int),
            pending: self.walk@,
            follow_symlinks: self.follow_symlinks,
            contents: self.fold.contents@,
        }
    }
}

/// What an evaluation does next.
pub enum HashStep {
    /// Say what lies at the path.
    Look(String),
    /// The hash is complete.
    Done(String),
}

/// What reading a selected file gave.
pub enum FileRead {
    /// It is a directory, reached through a link.
    Directory,
    /// Its content.
    Content(Vec<u8>),
    /// Its kind could not be determined.
    StatFailed(String),
    /// It could not be read.
    ReadFailed(String),
}

/// What reading a selected file gave, with its texts.
pub enum FileReadView {
    Directory,
    Content(Seq<u8>),
    StatFailed(Seq<char>),
    ReadFailed(Seq<char>),
}

impl View for FileRead {
    type V = FileReadView;

    open spec fn view(&self) -> FileReadView {
        match self {
            FileRead::Directory => FileReadView::Directory,
            FileRead::Content(bytes) => FileReadView::Content(bytes@),
            FileRead::StatFailed(cause) => FileReadView::StatFailed(cause@),
            FileRead::ReadFailed(cause) => FileReadView::ReadFailed(cause@),
        }
    }
}

/// The contents after a selected file was read: a directory adds nothing,
/// and a file that cannot be read fails the evaluation.
pub open spec fn contents_after(contents: Seq<Seq<u8>>, file: Seq<char>, read: FileReadView) -> Result<
    Seq<Seq<u8>>,
    RunnerErrorView,
> {
    match read {
        FileReadView::Directory => Ok(contents),
        FileReadView::Content(bytes) => Ok(contents.push(bytes)),
        FileReadView::StatFailed(cause) => Err(
            RunnerErrorView::Expression("hashFiles stat "@ + file + ": "@ + cause),
        ),
        FileReadView::ReadFailed(cause) => Err(
            RunnerErrorView::Expression("hashFiles read "@ + file + ": "@ + cause),
        ),
    }
}

/// Whether a visited file belongs in the hash: inside the workspace and
/// selected by the patterns.
pub open spec fn wanted(
    workspace: Seq<char>,
    patterns: Seq<HashPatternView>,
    file: Seq<char>,
) -> bool {
    path::under(file, workspace) && selected(patterns, file)
}

/// The evaluation that the arguments start.
pub open spec fn started(workspace: Seq<char>, args: Seq<Seq<char>>) -> Result<
    HashRunView,
    RunnerErrorView,
> {
    match options_split(args) {
        Err(e) => Err(e),
        Ok((follow_symlinks, rest)) => match patterns_of(workspace, lines_of(rest)) {
            Err(e) => Err(e),
            Ok(patterns) => Ok(
                HashRunView {
                    workspace,
                    patterns,
                    roots: glob_walk::roots_kept(positive_roots(patterns)),
                    pending: Seq::empty(),
                    follow_symlinks,
                    contents: Seq::empty(),
                },
            ),
        },
    }
}

/// Starts hashing every file under `workspace` that matches `args`.
///
/// The first argument may be `--follow-symbolic-links`; the others may hold
/// several patterns, one per line, where `#` starts a comment and leading
/// `!` negates.
pub fn hash_files(workspace: &str, args: &Vec<String>) -> (r: Result<HashRun, RunnerError>)
    ensures
        match r {
            Ok(run) => started(workspace@, text::texts(args@)) == Ok::<HashRunView, RunnerErrorView>(
                run@,
            ),
            Err(e) => started(workspace@, text::texts(args@)) == Err::<HashRunView, RunnerErrorView>(
                e@,
            ),
        },
{
    let (follow_symlinks, from) = match split_options(args) {
        Err(e) => {
            return Err(e);
        },
        Ok(split) => split,
    };
    let patterns = match parse_patterns(workspace, args, from) {
        Err(e) => {
            return Err(e);
        },
        Ok(p) => p,
    };
    let ghost all = views(patterns@);
    let mut roots: Vec<String> = Vec::new();
    let mut i: usize = 0;
    assert(text::texts(roots@) =~= positive_roots(all.take(0)));
    while i < patterns.len()
        invariant
            i <= patterns@.len(),
            all == views(patterns@),
            text::texts(roots@) == positive_roots(all.take(i as int)),
        decreases patterns@.len() - i,
    {
        let ghost before = text::texts(roots@);
        proof {
            assert(all.take(i + 1).drop_last() =~= all.take(i as int));
            assert(all.take(i + 1).last() == patterns@[i as int]@);
        }
        if !patterns[i].negate {
            roots.push(patterns[i].search_root.clone());
            assert(text::texts(roots@) =~= before.push(patterns@[i as int].search_root@));
        }
        i = i + 1;
    }
    assert(all.take(all.len() as int) =~= all);
    let kept = glob_walk::search_roots(&roots);
    let fold = Fold::empty();
    let run = HashRun {
        workspace: workspace.to_owned(),
        patterns,
        roots: kept,
        next_root: 0,
        walk: Walk::finished(),
        follow_symlinks,
        fold,
    };
    assert(text::texts(run.roots@).skip(0) =~= text::texts(run.roots@));
    Ok(run)
}

impl HashRun {
    #[verifier::type_invariant]
    spec fn inv(self) -> bool {
        &&& self.next_root <= self.roots@.len()
        &&& self.fold.agrees()
    }

    /// Whether links are followed when looking at a path.
    pub fn follows_symlinks(&self) -> (r: bool)
        ensures
            r == self@.follow_symlinks,
    {
        self.follow_symlinks
    }

    /// The next path to look at, or the hash when no path is left.
    pub fn next_step(&mut self) -> (r: HashStep)
        ensures
            match r {
                HashStep::Look(p) => if old(self)@.pending.len() > 0 {
                    &&& p@ == old(self)@.pending.last()
                    &&& final(self)@ == (HashRunView {
                        pending: old(self)@.pending.drop_last(),
                        ..old(self)@
                    })
                } else {
                    &&& old(self)@.roots.len() > 0
                    &&& p@ == old(self)@.roots[0]
                    &&& final(self)@ == (HashRunView {
                        roots: old(self)@.roots.drop_first(),
                        ..old(self)@
                    })
                },
                HashStep::Done(h) => {
                    &&& old(self)@.pending.len() == 0
                    &&& old(self)@.roots.len() == 0
                    &&& h@ == hash_of(old(self)@.contents)
                    &&& h@.len() == if old(self)@.contents.len() == 0 {
                        0nat
                    } else {
                        64
                    }
                    &&& final(self)@ == old(self)@
                },
            },
    {
        proof {
            use_type_invariant(&*self);
        }
        let mut walk = Walk::finished();
        std::mem::swap(&mut walk, &mut self.walk);
        let next = walk.next_path();
        self.walk = walk;
        match next {
            Some(p) => HashStep::Look(p),
            None => {
                assert(self@.pending =~= old(self)@.pending);
                if self.next_root < self.roots.len() {
                    let p: String = self.roots[self.next_root].clone();
                    self.next_root = self.next_root + 1;
                    assert(self@.roots =~= old(self)@.roots.drop_first());
                    HashStep::Look(p)
                } else {
                    assert(old(self)@.roots.len() == 0);
                    if self.fold.matched_any {
                        let outer = digest::sha256_of(&self.fold.bytes);
                        HashStep::Done(hex::to_hex(outer.as_slice()))
                    } else {
                        let none = String::new();
                        assert(none@ =~= Seq::<char>::empty());
                        HashStep::Done(none)
                    }
                }
            },
        }
    }

    /// Takes what lies at `item`; true when its content is wanted.
    pub fn looked(&mut self, item: &str, found: Found) -> (read: bool)
        ensures
            final(self)@ == (HashRunView {
                pending: glob_walk::pending_after(old(self)@.pending, item@, found@),
                ..old(self)@
            }),
            read == (found is Other && wanted(old(self)@.workspace, old(self)@.patterns, item@)),
    {
        proof {
            use_type_invariant(&*self);
        }
        let mut walk = Walk::finished();
        std::mem::swap(&mut walk, &mut self.walk);
        let visit = walk.settle(item, found);
        self.walk = walk;
        visit && path::is_under(item, self.workspace.as_str()) && matches_patterns(
            &self.patterns,
            item,
        )
    }

    /// Takes what reading `item` gave.
    pub fn read(&mut self, item: &str, read: FileRead) -> (r: Result<(), RunnerError>)
        ensures
            match r {
                Ok(_) => contents_after(old(self)@.contents, item@, read@) == Ok::<
                    Seq<Seq<u8>>,
                    RunnerErrorView,
                >(final(self)@.contents) && final(self)@ == (HashRunView {
                    contents: final(self)@.contents,
                    ..old(self)@
                }),
                Err(e) => contents_after(old(self)@.contents, item@, read@) == Err::<
                    Seq<Seq<u8>>,
                    RunnerErrorView,
                >(e@) && final(self)@ == old(self)@,
            },
    {
        proof {
            use_type_invariant(&*self);
        }
        match read {
            FileRead::Directory => Ok(()),
            FileRead::StatFailed(cause) => Err(
                RunnerError::Expression(text::cat4("hashFiles stat ", item, ": ", cause.as_str())),
            ),
            FileRead::ReadFailed(cause) => Err(
                RunnerError::Expression(text::cat4("hashFiles read ", item, ": ", cause.as_str())),
            ),
            FileRead::Content(bytes) => {
                let mut inner = digest::sha256_of(&bytes);
                let ghost now = self.fold.contents@.push(bytes@);
                assert(now.drop_last() =~= self.fold.contents@);
                let mut fold = Fold::empty();
                std::mem::swap(&mut fold, &mut self.fold);
                let mut folded = fold.bytes;
                folded.append(&mut inner);
                self.fold = Fold { bytes: folded, matched_any: true, contents: Ghost(now) };
                Ok(())
            },
        }
    }
}

/// The outcome of driving an evaluation to its end, within `fuel` steps:
/// what lies at each path is given by `disk`, and what reading a selected
/// file gives by `files`.
pub open spec fn driven(
    disk: spec_fn(Seq<char>) -> FoundView,
    files: spec_fn(Seq<char>) -> FileReadView,
    run: HashRunView,
    fuel: nat,
) -> Option<Result<Seq<char>, RunnerErrorView>>
    decreases fuel,
{
    if run.pending.len() == 0 && run.roots.len() == 0 {
        Some(Ok(hash_of(run.contents)))
    } else if fuel == 0 {
        None
    } else {
        let item = if run.pending.len() > 0 {
            run.pending.last()
        } else {
            run.roots[0]
        };
        let popped = if run.pending.len() > 0 {
            HashRunView { pending: run.pending.drop_last(), ..run }
        } else {
            HashRunView { roots: run.roots.drop_first(), ..run }
        };
        let found = disk(item);
        let looked = HashRunView {
            pending: glob_walk::pending_after(popped.pending, item, found),
            ..popped
        };
        if found is Other && wanted(run.workspace, run.patterns, item) {
            match contents_after(run.contents, item, files(item)) {
                Err(e) => Some(Err(e)),
                Ok(contents) => driven(
                    disk,
                    files,
                    HashRunView { contents, ..looked },
                    (fuel - 1) as nat,
                ),
            }
        } else {
            driven(disk, files, looked, (fuel - 1) as nat)
        }
    }
}

/// The contents after visiting the files in order.
pub open spec fn contents_of_visits(
    files: spec_fn(Seq<char>) -> FileReadView,
    workspace: Seq<char>,
    patterns: Seq<HashPatternView>,
    visits: Seq<Seq<char>>,
    contents: Seq<Seq<u8>>,
) -> Result<Seq<Seq<u8>>, RunnerErrorView>
    decreases visits.len(),
{
    if visits.len() == 0 {
        Ok(contents)
    } else if wanted(workspace, patterns, visits[0]) {
        match contents_after(contents, visits[0], files(visits[0])) {
            Err(e) => Err(e),
            Ok(now) => contents_of_visits(files, workspace, patterns, visits.drop_first(), now),
        }
    } else {
        contents_of_visits(files, workspace, patterns, visits.drop_first(), contents)
    }
}

/// The result of `hashFiles()` when the files are visited in the given
/// order.
pub open spec fn hash_of_visits(
    files: spec_fn(Seq<char>) -> FileReadView,
    run: HashRunView,
    visits: Seq<Seq<char>>,
) -> Result<Seq<char>, RunnerErrorView> {
    match contents_of_visits(files, run.workspace, run.patterns, visits, run.contents) {
        Err(e) => Err(e),
        Ok(contents) => Ok(hash_of(contents)),
    }
}

proof fn lemma_drive_pending(
    disk: spec_fn(Seq<char>) -> FoundView,
    files: spec_fn(Seq<char>) -> FileReadView,
    run: HashRunView,
    steps: nat,
    fuel: nat,
) -> (cost: nat)
    requires
        glob_walk::visited(disk, run.pending, steps) is Some,
        ({
            let v = glob_walk::visited(disk, run.pending, steps)->0;
            match contents_of_visits(files, run.workspace, run.patterns, v, run.contents) {
                Err(_) => true,
                Ok(contents) => driven(
                    disk,
                    files,
                    HashRunView { pending: Seq::empty(), contents, ..run },
                    fuel,
                ) is Some,
            }
        }),
    ensures
        ({
            let v = glob_walk::visited(disk, run.pending, steps)->0;
            driven(disk, files, run, cost) == match contents_of_visits(
                files,
                run.workspace,
                run.patterns,
                v,
                run.contents,
            ) {
                Err(e) => Some(Err::<Seq<char>, RunnerErrorView>(e)),
                Ok(contents) => driven(
                    disk,
                    files,
                    HashRunView { pending: Seq::empty(), contents, ..run },
                    fuel,
                ),
            }
        }),
    decreases steps,
{
    if run.pending.len() == 0 {
        assert(run.pending =~= Seq::empty());
        fuel
    } else {
        let item = run.pending.last();
        let found = disk(item);
        let looked = HashRunView {
            pending: glob_walk::pending_after(run.pending.drop_last(), item, found),
            ..run
        };
        let v = glob_walk::visited(disk, run.pending, steps)->0;
        let w = glob_walk::visited(disk, looked.pending, (steps - 1) as nat)->0;
        if found is Other {
            assert(v[0] == item);
            assert(v.drop_first() =~= w);
            if wanted(run.workspace, run.patterns, item) {
                match contents_after(run.contents, item, files(item)) {
                    Err(e) => 1,
                    Ok(contents) => {
                        let inner = lemma_drive_pending(
                            disk,
                            files,
                            HashRunView { contents, ..looked },
                            (steps - 1) as nat,
                            fuel,
                        );
                        inner + 1
                    },
                }
            } else {
                let inner = lemma_drive_pending(disk, files, looked, (steps - 1) as nat, fuel);
                inner + 1
            }
        } else {
            let inner = lemma_drive_pending(disk, files, looked, (steps - 1) as nat, fuel);
            inner + 1
        }
    }
}

proof fn lemma_visits_split(
    files: spec_fn(Seq<char>) -> FileReadView,
    workspace: Seq<char>,
    patterns: Seq<HashPatternView>,
    a: Seq<Seq<char>>,
    b: Seq<Seq<char>>,
    contents: Seq<Seq<u8>>,
)
    ensures
        contents_of_visits(files, workspace, patterns, a + b, contents)
            == match contents_of_visits(files, workspace, patterns, a, contents) {
            Err(e) => Err::<Seq<Seq<u8>>, RunnerErrorView>(e),
            Ok(now) => contents_of_visits(files, workspace, patterns, b, now),
        },
    decreases a.len(),
{
    if a.len() == 0 {
        assert(a + b =~= b);
    } else {
        assert((a + b)[0] == a[0]);
        assert((a + b).drop_first() =~= a.drop_first() + b);
        if wanted(workspace, patterns, a[0]) {
            match contents_after(contents, a[0], files(a[0])) {
                Err(e) => {},
                Ok(now) => {
                    lemma_visits_split(files, workspace, patterns, a.drop_first(), b, now);
                },
            }
        } else {
            lemma_visits_split(files, workspace, patterns, a.drop_first(), b, contents);
        }
    }
}

proof fn lemma_drive_roots(
    disk: spec_fn(Seq<char>) -> FoundView,
    files: spec_fn(Seq<char>) -> FileReadView,
    run: HashRunView,
    all: Seq<Seq<char>>,
    depth: nat,
) -> (cost: nat)
    requires
        run.pending.len() == 0,
        run.roots.len() <= all.len(),
        run.roots == all.skip(all.len() - run.roots.len()),
        glob_walk::preorder_each(disk, all, run.roots.len(), depth) is Some,
    ensures
        driven(disk, files, run, cost) == Some(
            hash_of_visits(
                files,
                run,
                glob_walk::preorder_each(disk, all, run.roots.len(), depth)->0,
            ),
        ),
    decreases run.roots.len(),
{
    let n = run.roots.len();
    if n == 0 {
        0
    } else {
        let root = run.roots[0];
        let m = (n - 1) as nat;
        let at = all.len() - n;
        assert(root == all[at]);
        let a = glob_walk::preorder(disk, root, depth)->0;
        let b = glob_walk::preorder_each(disk, all, m, depth)->0;
        lemma_visits_split(files, run.workspace, run.patterns, a, b, run.contents);
        glob_walk::law_walk_is_preorder(disk, root, depth);
        let steps = choose|steps: nat| #[trigger]
            glob_walk::visited(disk, seq![root], steps) == glob_walk::preorder(disk, root, depth);
        let begun = HashRunView {
            roots: run.roots.drop_first(),
            pending: seq![root],
            ..run
        };
        let fuel = match contents_of_visits(files, run.workspace, run.patterns, a, run.contents) {
            Err(_) => 0,
            Ok(contents) => {
                let next = HashRunView { pending: Seq::empty(), contents, ..begun };
                assert(next.roots =~= all.skip(all.len() - m));
                lemma_drive_roots(disk, files, next, all, depth)
            },
        };
        let cost = lemma_drive_pending(disk, files, begun, steps, fuel);
        assert(begun.pending.drop_last() =~= run.pending);
        lemma_drive_same(disk, files, run, begun, cost);
        cost
    }
}

proof fn lemma_drive_same(
    disk: spec_fn(Seq<char>) -> FoundView,
    files: spec_fn(Seq<char>) -> FileReadView,
    run: HashRunView,
    begun: HashRunView,
    cost: nat,
)
    requires
        run.pending.len() == 0,
        run.roots.len() > 0,
        begun == (HashRunView {
            roots: run.roots.drop_first(),
            pending: seq![run.roots[0]],
            ..run
        }),
    ensures
        driven(disk, files, run, cost) == driven(disk, files, begun, cost),
{
    assert(begun.pending.drop_last() =~= run.pending);
}

/// Driving an evaluation over trees of finite depth ends with the hash of
/// the selected files' contents, taken in pre-order from one search root
/// after the other; the first file that cannot be read fails it instead.
pub proof fn law_hash_is_fold_of_preorder(
    disk: spec_fn(Seq<char>) -> FoundView,
    files: spec_fn(Seq<char>) -> FileReadView,
    run: HashRunView,
    depth: nat,
)
    requires
        run.pending.len() == 0,
        glob_walk::preorder_each(disk, run.roots, run.roots.len(), depth) is Some,
    ensures
        exists|fuel: nat| #[trigger]
            driven(disk, files, run, fuel) == Some(
                hash_of_visits(
                    files,
                    run,
                    glob_walk::preorder_each(disk, run.roots, run.roots.len(), depth)->0,
                ),
            ),
{
    assert(run.roots =~= run.roots.skip(0));
    let cost = lemma_drive_roots(disk, files, run, run.roots, depth);
    assert(driven(disk, files, run, cost) is Some);
}

/// No pattern, or only negated ones: the result is empty whatever is on
/// disk.
pub proof fn law_nothing_selected_is_empty(
    disk: spec_fn(Seq<char>) -> FoundView,
    files: spec_fn(Seq<char>) -> FileReadView,
    workspace: Seq<char>,
    args: Seq<Seq<char>>,
    fuel: nat,
)
    requires
        started(workspace, args) is Ok,
        forall|i: int|
            0 <= i < started(workspace, args)->Ok_0.patterns.len() ==> (#[trigger] started(
                workspace,
                args,
            )->Ok_0.patterns[i]).negate,
    ensures
        driven(disk, files, started(workspace, args)->Ok_0, fuel) == Some(
            Ok::<Seq<char>, RunnerErrorView>(Seq::empty()),
        ),
{
    let run = started(workspace, args)->Ok_0;
    lemma_no_positive_roots(run.patterns);
    let none = Seq::<Seq<char>>::empty();
    assert(glob_walk::without_repeats(none) =~= none);
    assert(run.roots.len() == 0);
}

proof fn lemma_no_positive_roots(patterns: Seq<HashPatternView>)
    requires
        forall|i: int| 0 <= i < patterns.len() ==> (#[trigger] patterns[i]).negate,
    ensures
        positive_roots(patterns) == Seq::<Seq<char>>::empty(),
    decreases patterns.len(),
{
    if patterns.len() > 0 {
        lemma_no_positive_roots(patterns.drop_last());
    }
}

/// Every pattern that is not negated is searched for: its search root is
/// among the roots of the evaluation, or lies below one of them.
pub proof fn law_every_pattern_is_searched_for(
    workspace: &str,
    args: Vec<String>,
    run: HashRun,
    i: int,
)
    requires
        call_ensures(hash_files, (workspace, &args), Ok(run)),
        0 <= i < run@.patterns.len(),
        !run@.patterns[i].negate,
    ensures
        exists|j: int|
            0 <= j < run@.roots.len() && path::under(
                run@.patterns[i].search_root,
                #[trigger] run@.roots[j],
            ),
{
    law_pattern_root_is_covered(workspace@, text::texts(args@), i);
}

/// The evaluation that arguments start has, for every pattern that is not
/// negated, a root at the pattern's search root or above it.
pub proof fn law_pattern_root_is_covered(workspace: Seq<char>, args: Seq<Seq<char>>, i: int)
    requires
        started(workspace, args) is Ok,
        0 <= i < started(workspace, args)->Ok_0.patterns.len(),
        !started(workspace, args)->Ok_0.patterns[i].negate,
    ensures
        exists|j: int|
            0 <= j < started(workspace, args)->Ok_0.roots.len() && path::under(
                started(workspace, args)->Ok_0.patterns[i].search_root,
                #[trigger] started(workspace, args)->Ok_0.roots[j],
            ),
{
    let run = started(workspace, args)->Ok_0;
    let k = lemma_positive_root_listed(run.patterns, i);
    let roots = positive_roots(run.patterns);
    glob_walk::law_roots_are_covered(roots, k);
    let j = choose|j: int|
        0 <= j < glob_walk::roots_kept(roots).len() && path::under(
            roots[k],
            #[trigger] glob_walk::roots_kept(roots)[j],
        );
    assert(run.roots[j] == glob_walk::roots_kept(roots)[j]);
}

proof fn lemma_positive_root_listed(patterns: Seq<HashPatternView>, i: int) -> (k: int)
    requires
        0 <= i < patterns.len(),
        !patterns[i].negate,
    ensures
        0 <= k < positive_roots(patterns).len(),
        positive_roots(patterns)[k] == patterns[i].search_root,
    decreases patterns.len(),
{
    if i == patterns.len() - 1 {
        positive_roots(patterns).len() - 1
    } else {
        lemma_positive_root_listed(patterns.drop_last(), i)
    }
}

/// Every root of an evaluation is the search root of a pattern that is not
/// negated: nothing else is walked.
pub proof fn law_roots_come_from_patterns(workspace: Seq<char>, args: Seq<Seq<char>>, j: int)
    requires
        started(workspace, args) is Ok,
        0 <= j < started(workspace, args)->Ok_0.roots.len(),
    ensures
        exists|i: int|
            0 <= i < started(workspace, args)->Ok_0.patterns.len() && !(#[trigger] started(
                workspace,
                args,
            )->Ok_0.patterns[i]).negate && started(workspace, args)->Ok_0.patterns[i].search_root
                == started(workspace, args)->Ok_0.roots[j],
{
    let run = started(workspace, args)->Ok_0;
    glob_walk::law_kept_roots_were_declared(positive_roots(run.patterns), j);
    let roots = positive_roots(run.patterns);
    let k = choose|k: int| 0 <= k < roots.len() && roots[k] == run.roots[j];
    let i = lemma_listed_root_is_positive(run.patterns, k);
    assert(!run.patterns[i].negate);
}

proof fn lemma_listed_root_is_positive(patterns: Seq<HashPatternView>, k: int) -> (i: int)
    requires
        0 <= k < positive_roots(patterns).len(),
    ensures
        0 <= i < patterns.len(),
        !patterns[i].negate,
        patterns[i].search_root == positive_roots(patterns)[k],
    decreases patterns.len(),
{
    if patterns.last().negate || k < positive_roots(patterns).len() - 1 {
        lemma_listed_root_is_positive(patterns.drop_last(), k)
    } else {
        patterns.len() - 1
    }
}

/// A file that directories lead to from a root of the evaluation, inside the
/// workspace, selected by the patterns and readable, is visited, and its
/// content is among those that the hash is made of.
pub proof fn law_selected_file_is_hashed(
    disk: spec_fn(Seq<char>) -> FoundView,
    files: spec_fn(Seq<char>) -> FileReadView,
    run: HashRunView,
    j: int,
    file: Seq<char>,
    content: Seq<u8>,
    depth: nat,
)
    requires
        0 <= j < run.roots.len(),
        glob_walk::leads_to(disk, run.roots[j], file, depth),
        glob_walk::preorder_each(disk, run.roots, run.roots.len(), depth) is Some,
        path::under(file, run.workspace),
        selected(run.patterns, file),
        files(file) == FileReadView::Content(content),
    ensures
        glob_walk::preorder_each(disk, run.roots, run.roots.len(), depth)->0.contains(file),
        contents_of_visits(
            files,
            run.workspace,
            run.patterns,
            glob_walk::preorder_each(disk, run.roots, run.roots.len(), depth)->0,
            run.contents,
        ) matches Ok(contents) ==> contents.contains(content),
{
    let visits = glob_walk::preorder_each(disk, run.roots, run.roots.len(), depth)->0;
    glob_walk::law_every_file_of_each_is_visited(
        disk,
        run.roots,
        run.roots.len(),
        j,
        file,
        depth,
    );
    let k = choose|k: int| 0 <= k < visits.len() && visits[k] == file;
    lemma_visit_is_folded(files, run, visits, k, content, run.contents);
}

proof fn lemma_visit_is_folded(
    files: spec_fn(Seq<char>) -> FileReadView,
    run: HashRunView,
    visits: Seq<Seq<char>>,
    k: int,
    content: Seq<u8>,
    contents: Seq<Seq<u8>>,
)
    requires
        0 <= k < visits.len(),
        wanted(run.workspace, run.patterns, visits[k]),
        files(visits[k]) == FileReadView::Content(content),
    ensures
        contents_of_visits(files, run.workspace, run.patterns, visits, contents) matches Ok(end)
            ==> end.contains(content),
    decreases visits.len(),
{
    let rest = visits.drop_first();
    if k == 0 {
        let now = contents.push(content);
        assert(now[contents.len() as int] == content);
        lemma_contents_kept(files, run, rest, now, contents.len() as int);
    } else {
        assert(rest[k - 1] == visits[k]);
        if wanted(run.workspace, run.patterns, visits[0]) {
            match contents_after(contents, visits[0], files(visits[0])) {
                Err(_) => {},
                Ok(now) => {
                    lemma_visit_is_folded(files, run, rest, k - 1, content, now);
                },
            }
        } else {
            lemma_visit_is_folded(files, run, rest, k - 1, content, contents);
        }
    }
}

proof fn lemma_contents_kept(
    files: spec_fn(Seq<char>) -> FileReadView,
    run: HashRunView,
    visits: Seq<Seq<char>>,
    contents: Seq<Seq<u8>>,
    i: int,
)
    requires
        0 <= i < contents.len(),
    ensures
        contents_of_visits(files, run.workspace, run.patterns, visits, contents) matches Ok(end)
            ==> i < end.len() && end[i] == contents[i] && end.contains(contents[i]),
    decreases visits.len(),
{
    if visits.len() == 0 {
        assert(contents.contains(contents[i]));
    } else {
        let rest = visits.drop_first();
        if wanted(run.workspace, run.patterns, visits[0]) {
            match contents_after(contents, visits[0], files(visits[0])) {
                Err(_) => {},
                Ok(now) => {
                    assert(now[i] == contents[i]);
                    lemma_contents_kept(files, run, rest, now, i);
                },
            }
        } else {
            lemma_contents_kept(files, run, rest, contents, i);
        }
    }
}

/// Visiting one more file adds its content at the end when it lies inside the
/// workspace and is selected, adds nothing for a directory or any other
/// file, and fails when the file is wanted and cannot be read.
pub proof fn law_last_visit_adds_its_content(
    files: spec_fn(Seq<char>) -> FileReadView,
    workspace: Seq<char>,
    patterns: Seq<HashPatternView>,
    visits: Seq<Seq<char>>,
    file: Seq<char>,
    contents: Seq<Seq<u8>>,
    so_far: Seq<Seq<u8>>,
)
    requires
        contents_of_visits(files, workspace, patterns, visits, contents) == Ok::<
            Seq<Seq<u8>>,
            RunnerErrorView,
        >(so_far),
    ensures
        ({
            let all = contents_of_visits(files, workspace, patterns, visits.push(file), contents);
            let inside = path::under(file, workspace) && selected(patterns, file);
            &&& !inside ==> all == Ok::<Seq<Seq<u8>>, RunnerErrorView>(so_far)
            &&& inside ==> match files(file) {
                FileReadView::Content(bytes) => all == Ok::<Seq<Seq<u8>>, RunnerErrorView>(
                    so_far + seq![bytes],
                ),
                FileReadView::Directory => all == Ok::<Seq<Seq<u8>>, RunnerErrorView>(so_far),
                FileReadView::StatFailed(_) => all is Err,
                FileReadView::ReadFailed(_) => all is Err,
            }
        }),
{
    lemma_visits_split(files, workspace, patterns, visits, seq![file], contents);
    assert(visits.push(file) =~= visits + seq![file]);
    assert(seq![file].drop_first() =~= Seq::<Seq<char>>::empty());
    assert forall|bytes: Seq<u8>| so_far.push(bytes) == #[trigger] (so_far + seq![bytes]) by {
        assert(so_far.push(bytes) =~= so_far + seq![bytes]);
    }
    let one = contents_of_visits(files, workspace, patterns, seq![file], so_far);
    if wanted(workspace, patterns, file) {
        match contents_after(so_far, file, files(file)) {
            Ok(now) => {
                assert(contents_of_visits(
                    files,
                    workspace,
                    patterns,
                    seq![file].drop_first(),
                    now,
                ) == Ok::<Seq<Seq<u8>>, RunnerErrorView>(now));
            },
            Err(_) => {},
        }
    } else {
        assert(contents_of_visits(files, workspace, patterns, seq![file].drop_first(), so_far)
            == Ok::<Seq<Seq<u8>>, RunnerErrorView>(so_far));
    }
}

/// A file is selected exactly when some pattern that is not negated matches
/// it and no negated one after that pattern does.
pub proof fn law_last_match_decides(patterns: Seq<HashPatternView>, file: Seq<char>)
    ensures
        selected(patterns, file) <==> exists|i: int|
            0 <= i < patterns.len() && !(#[trigger] patterns[i]).negate && pattern_hits(
                patterns[i],
                file,
            ) && forall|k: int|
                i < k < patterns.len() && (#[trigger] patterns[k]).negate ==> !pattern_hits(
                    patterns[k],
                    file,
                ),
    decreases patterns.len(),
{
    if patterns.len() > 0 {
        let front = patterns.drop_last();
        let last = patterns.last();
        law_last_match_decides(front, file);
        assert(patterns[patterns.len() - 1] == last);
        if pattern_hits(last, file) {
            if !last.negate {
                assert(!patterns[patterns.len() - 1].negate && pattern_hits(
                    patterns[patterns.len() - 1],
                    file,
                ));
            }
        } else {
            if selected(front, file) {
                let i = choose|i: int|
                    0 <= i < front.len() && !(#[trigger] front[i]).negate && pattern_hits(
                        front[i],
                        file,
                    ) && forall|k: int|
                        i < k < front.len() && (#[trigger] front[k]).negate ==> !pattern_hits(
                            front[k],
                            file,
                        );
                assert(patterns[i] == front[i]);
                assert forall|k: int|
                    i < k < patterns.len() && (#[trigger] patterns[k]).negate implies !pattern_hits(
                    patterns[k],
                    file,
                ) by {
                    if k < front.len() {
                        assert(front[k] == patterns[k]);
                    }
                }
            }
            if exists|i: int|
                0 <= i < patterns.len() && !(#[trigger] patterns[i]).negate && pattern_hits(
                    patterns[i],
                    file,
                ) && forall|k: int|
                    i < k < patterns.len() && (#[trigger] patterns[k]).negate ==> !pattern_hits(
                        patterns[k],
                        file,
                    ) {
                let i = choose|i: int|
                    0 <= i < patterns.len() && !(#[trigger] patterns[i]).negate && pattern_hits(
                        patterns[i],
                        file,
                    ) && forall|k: int|
                        i < k < patterns.len() && (#[trigger] patterns[k]).negate ==> !pattern_hits(
                            patterns[k],
                            file,
                        );
                assert(front[i] == patterns[i]);
                assert forall|k: int|
                    i < k < front.len() && (#[trigger] front[k]).negate implies !pattern_hits(
                    front[k],
                    file,
                ) by {
                    assert(patterns[k] == front[k]);
                }
            }
        }
    }
}

/// The digests of two lists of contents in a row are those of the first and
/// then those of the second; each content gives its SHA-256.
pub proof fn law_digests_in_order(a: Seq<Seq<u8>>, b: Seq<Seq<u8>>, content: Seq<u8>)
    ensures
        digests(a + b) == digests(a) + digests(b),
        digests(seq![content]) == digest::sha256(content),
    decreases b.len(),
{
    assert(seq![content].drop_last() =~= Seq::<Seq<u8>>::empty());
    assert(digests(seq![content].drop_last()) =~= Seq::<u8>::empty());
    assert(digests(seq![content]) =~= digest::sha256(content));
    if b.len() == 0 {
        assert(a + b =~= a);
        assert(digests(a) + digests(b) =~= digests(a));
    } else {
        law_digests_in_order(a, b.drop_last(), content);
        assert((a + b).drop_last() =~= a + b.drop_last());
        assert((a + b).last() == b.last());
        assert(digests(a + b) =~= digests(a) + digests(b));
    }
}

/// The hash is empty exactly when no content went in; otherwise it is the
/// SHA-256 of the digests, two hexadecimal digits a byte.
pub proof fn law_hash_is_digest_of_digests(contents: Seq<Seq<u8>>)
    ensures
        contents.len() == 0 ==> hash_of(contents).len() == 0,
        contents.len() > 0 ==> hash_of(contents) == hex::hex(digest::sha256(digests(contents))),
{
}

/// A first argument that does not begin with two dashes is a pattern like the
/// others. The one option is taken off in any letter case, and turns link
/// following on; every other first argument with two dashes is refused.
pub proof fn law_only_option_is_taken(args: Seq<Seq<char>>)
    ensures
        args.len() == 0 ==> options_split(args) == Ok::<
            (bool, Seq<Seq<char>>),
            RunnerErrorView,
        >((false, args)),
        args.len() > 0 && !"--"@.is_prefix_of(args[0]) ==> options_split(args) == Ok::<
            (bool, Seq<Seq<char>>),
            RunnerErrorView,
        >((false, args)),
        args.len() > 0 && "--"@.is_prefix_of(args[0]) && text::lower(args[0])
            == "--follow-symbolic-links"@ ==> options_split(args) == Ok::<
            (bool, Seq<Seq<char>>),
            RunnerErrorView,
        >((true, args.skip(1))),
        args.len() > 0 && "--"@.is_prefix_of(args[0]) && text::lower(args[0])
            != "--follow-symbolic-links"@ ==> options_split(args) == Err::<
            (bool, Seq<Seq<char>>),
            RunnerErrorView,
        >(RunnerErrorView::Expression("hashFiles: invalid option '"@ + args[0] + "'"@)),
{
    reveal_strlit("--follow-symbolic-links");
    assert(text::lower("--follow-symbolic-links"@) =~= "--follow-symbolic-links"@);
    assert(args.len() > 0 ==> args.drop_first() =~= args.skip(1));
}

/// Each leading `!` turns the negation of the rest around, whatever white
/// space follows it; a line without one is not negated and stays as it is.
pub proof fn law_each_mark_turns_negation_around(rest: Seq<char>, line: Seq<char>)
    requires
        line.len() == 0 || line[0] != '!',
    ensures
        negation(line) == (false, line),
        negation(seq!['!'] + rest).0 != negation(text::trimmed(rest)).0,
        negation(seq!['!'] + rest).1 == negation(text::trimmed(rest)).1,
        text::trimmed(line) == line ==> negation(seq!['!'] + line) == (true, line),
{
    assert((seq!['!'] + rest).drop_first() =~= rest);
    assert((seq!['!'] + line).drop_first() =~= line);
    assert((seq!['!'] + rest)[0] == '!');
    assert((seq!['!'] + line)[0] == '!');
    assert(text::trimmed(line) == line ==> negation(text::trimmed(line)) == (false, line));
}

/// A pattern is refused exactly when a segment of it is `..`, or one past the
/// first is `.`.
pub proof fn law_relative_segments_are_refused(body: &str, r: Result<(), RunnerError>)
    requires
        call_ensures(reject_relative_segments, (body,), r),
    ensures
        r is Err <==> exists|i: int|
            0 <= i < text::split(body@, '/').len() && (#[trigger] text::split(body@, '/')[i] == seq![
                '.',
                '.',
            ] || (text::split(body@, '/')[i] == seq!['.'] && i > 0)),
{
}

/// A blank line and a comment stand for nothing. Any other line that is
/// accepted stands for the pattern below the workspace, and, unless that
/// ends in `**`, for everything below it too, negated alike.
pub proof fn law_line_stands_for_its_pattern(workspace: Seq<char>, line: Seq<char>)
    ensures
        ({
            let (negate, body) = negation(text::trimmed(line));
            let glob = path::joined(workspace, body);
            let got = line_patterns(workspace, line);
            &&& body.len() == 0 ==> got == Ok::<Seq<HashPatternView>, RunnerErrorView>(seq![])
            &&& body.len() > 0 && body[0] == '#' ==> got == Ok::<
                Seq<HashPatternView>,
                RunnerErrorView,
            >(seq![])
            &&& body.len() > 0 && body[0] != '#' && got is Ok ==> {
                let list = got->Ok_0;
                &&& list.len() == if path::file_name(glob) == Some("**"@) {
                    1int
                } else {
                    2int
                }
                &&& list[0].glob == glob && list[0].negate == negate
                &&& list.len() == 2 ==> list[1].glob == path::joined(glob, "**"@) && list[1].negate
                    == negate
                &&& forall|i: int|
                    0 <= i < list.len() ==> (#[trigger] list[i]).search_root
                        == glob_walk::literal_root(list[i].glob)
            }
            &&& got is Err ==> body.len() > 0 && body[0] != '#'
        }),
{
}

/// The patterns of several lines are those of each, one line after the
/// other; they are accepted only when each line is.
pub proof fn law_lines_in_order(workspace: Seq<char>, lines: Seq<Seq<char>>, line: Seq<char>)
    ensures
        patterns_of(workspace, seq![]) == Ok::<Seq<HashPatternView>, RunnerErrorView>(seq![]),
        patterns_of(workspace, lines.push(line)) is Ok <==> patterns_of(workspace, lines) is Ok
            && line_patterns(workspace, line) is Ok,
        patterns_of(workspace, lines.push(line)) is Ok ==> patterns_of(workspace, lines.push(line))
            == Ok::<Seq<HashPatternView>, RunnerErrorView>(
            patterns_of(workspace, lines)->Ok_0 + line_patterns(workspace, line)->Ok_0,
        ),
        patterns_of(workspace, lines) is Err ==> patterns_of(workspace, lines.push(line))
            == patterns_of(workspace, lines),
{
    assert(lines.push(line).drop_last() =~= lines);
}

/// The lines of several arguments are those of each, one argument after the
/// other; the lines of one are what stands between its line ends.
pub proof fn law_arguments_in_order(args: Seq<Seq<char>>, arg: Seq<char>)
    ensures
        lines_of(seq![]) == Seq::<Seq<char>>::empty(),
        lines_of(args.push(arg)) == lines_of(args) + text::split(unix_lines(arg), '\n'),
{
    assert(args.push(arg).drop_last() =~= args);
}

/// Line ends are made uniform: no carriage return is left, a text without
/// one stays as it is, and each of the three line ends counts once.
pub proof fn law_line_ends_are_uniform(s: Seq<char>)
    ensures
        !unix_lines(s).contains('\r'),
        !s.contains('\r') ==> unix_lines(s) == s,
        unix_lines(s.push('\r').push('\n')) == unix_lines(s).push('\n'),
        unix_lines(s.push('\r')) == unix_lines(s).push('\n'),
        s.len() > 0 && s.last() != '\r' ==> unix_lines(s.push('\n')) == unix_lines(s).push('\n'),
    decreases s.len(),
{
    let both = s.push('\r').push('\n');
    assert(both.take(both.len() - 2) =~= s);
    assert(both[both.len() - 2] == '\r');
    assert(s.push('\r').drop_last() =~= s);
    assert(s.push('\n').drop_last() =~= s);
    if s.len() > 0 {
        let t = s.drop_last();
        law_line_ends_are_uniform(t);
        let shorter = s.take(s.len() - 2);
        if s.len() > 1 {
            law_line_ends_are_uniform(shorter);
        }
        let out = unix_lines(s);
        assert(!out.contains('\r')) by {
            if out.contains('\r') {
                let k = choose|k: int| 0 <= k < out.len() && out[k] == '\r';
                if s.last() == '\n' && s.len() > 1 && s[s.len() - 2] == '\r' {
                    if k < unix_lines(shorter).len() {
                        assert(unix_lines(shorter)[k] == '\r');
                    }
                } else if k < unix_lines(t).len() {
                    assert(unix_lines(t)[k] == '\r');
                }
            }
        }
        if !s.contains('\r') {
            assert(!t.contains('\r')) by {
                if t.contains('\r') {
                    let k = choose|k: int| 0 <= k < t.len() && t[k] == '\r';
                    assert(s[k] == '\r');
                }
            }
            assert(s.last() != '\r') by {
                assert(s[s.len() - 1] == s.last());
            }
            if s.len() > 1 {
                assert(s[s.len() - 2] != '\r');
            }
            assert(unix_lines(s) =~= t.push(s.last()));
            assert(t.push(s.last()) =~= s);
        }
    }
}

/// Only a file inside the workspace is read, and only when something other
/// than a directory lies there and the patterns select it.
pub proof fn law_wanted_files_lie_inside(
    workspace: Seq<char>,
    patterns: Seq<HashPatternView>,
    file: Seq<char>,
)
    ensures
        wanted(workspace, patterns, file) ==> path::under(file, workspace),
        wanted(workspace, patterns, file) ==> selected(patterns, file),
        path::under(file, workspace) && selected(patterns, file) ==> wanted(
            workspace,
            patterns,
            file,
        ),
{
}

/// An evaluation starts with nothing folded and nothing pending, with link
/// following on exactly when the option was given, and with the patterns of
/// the arguments behind the option.
pub proof fn law_evaluation_starts_fresh(workspace: Seq<char>, args: Seq<Seq<char>>)
    requires
        started(workspace, args) is Ok,
    ensures
        started(workspace, args)->Ok_0.workspace == workspace,
        started(workspace, args)->Ok_0.pending.len() == 0,
        started(workspace, args)->Ok_0.contents.len() == 0,
        started(workspace, args)->Ok_0.follow_symlinks <==> (args.len() > 0
            && "--"@.is_prefix_of(args[0])),
        patterns_of(
            workspace,
            lines_of(
                if started(workspace, args)->Ok_0.follow_symlinks {
                    args.skip(1)
                } else {
                    args
                },
            ),
        ) == Ok::<Seq<HashPatternView>, RunnerErrorView>(started(workspace, args)->Ok_0.patterns),
{
    law_only_option_is_taken(args);
}

/// The failure of a pattern quotes it and says what is wrong with it; a
/// pattern without a fault is taken as it is.
pub proof fn law_faulty_pattern_is_refused(glob: Seq<char>, negate: bool)
    ensures
        compiled(glob, negate) is Ok <==> pattern::pattern_fault(glob) is None,
        compiled(glob, negate) matches Ok(p) ==> p.glob == glob && p.negate == negate
            && p.search_root == glob_walk::literal_root(glob),
        compiled(glob, negate) matches Err(e) ==> e == RunnerErrorView::Expression(
            "hashFiles pattern '"@ + glob + "': "@ + pattern::pattern_fault(glob)->0,
        ),
{
}

/// An evaluation looks at what is pending first and at the next root only
/// then; it is done exactly when neither is left, with the hash of what was
/// folded.
pub proof fn law_next_step_is_pending_first(run: &mut HashRun, r: HashStep)
    requires
        call_ensures(HashRun::next_step, (run,), r),
    ensures
        r is Done <==> old(run)@.pending.len() == 0 && old(run)@.roots.len() == 0,
        r matches HashStep::Done(h) ==> h@ == hash_of(old(run)@.contents),
        r matches HashStep::Look(p) ==> (old(run)@.pending.len() > 0 ==> p@ == old(run)@.pending.last() && final(run)@.roots == old(run)@.roots),
        r matches HashStep::Look(p) ==> (old(run)@.pending.len() == 0 ==> p@ == old(run)@.roots[0]
            && final(run)@.roots == old(run)@.roots.skip(1)),
        final(run)@.contents == old(run)@.contents,
        final(run)@.patterns == old(run)@.patterns,
        final(run)@.workspace == old(run)@.workspace,
{
    if old(run)@.roots.len() > 0 {
        assert(old(run)@.roots.drop_first() =~= old(run)@.roots.skip(1));
    }
}

/// The content of a path is asked for exactly when a file lies there, inside
/// the workspace, and is selected; reading it adds its content and nothing
/// else, and a failure to read it fails the evaluation.
pub proof fn law_found_file_is_read(
    looking: &mut HashRun,
    item: &str,
    found: Found,
    want: bool,
    reading: &mut HashRun,
    read: FileRead,
    r: Result<(), RunnerError>,
)
    requires
        call_ensures(HashRun::looked, (looking, item, found), want),
        call_ensures(HashRun::read, (reading, item, read), r),
    ensures
        want <==> found is Other && path::under(item@, old(looking)@.workspace) && selected(
            old(looking)@.patterns,
            item@,
        ),
        final(looking)@.contents == old(looking)@.contents,
        final(looking)@.roots == old(looking)@.roots,
        r is Ok <==> read is Content || read is Directory,
        read matches FileRead::Content(bytes) ==> final(reading)@.contents == old(reading)@.contents + seq![bytes@],
        !(read is Content) ==> final(reading)@.contents == old(reading)@.contents,
        read matches FileRead::StatFailed(cause) ==> (r matches Err(e) && e@
            == RunnerErrorView::Expression("hashFiles stat "@ + item@ + ": "@ + cause@)),
        read matches FileRead::ReadFailed(cause) ==> (r matches Err(e) && e@
            == RunnerErrorView::Expression("hashFiles read "@ + item@ + ": "@ + cause@)),
{
    match read {
        FileRead::Content(bytes) => {
            assert(old(reading)@.contents.push(bytes@) =~= old(reading)@.contents + seq![bytes@]);
        },
        _ => {},
    }
}

/// Arguments are refused exactly when they start no evaluation: for an
/// unknown option, or for a line that stands for no pattern.
pub proof fn law_arguments_start_or_are_refused(
    workspace: &str,
    args: Vec<String>,
    r: Result<HashRun, RunnerError>,
)
    requires
        call_ensures(hash_files, (workspace, &args), r),
    ensures
        r is Ok <==> options_split(text::texts(args@)) is Ok && patterns_of(
            workspace@,
            lines_of((options_split(text::texts(args@))->Ok_0).1),
        ) is Ok,
        options_split(text::texts(args@)) matches Err(e) ==> (r matches Err(f) && f@ == e),
        r matches Ok(run) ==> run@.workspace == workspace@ && run@.contents.len() == 0,
{
}

/// A line that stands for a pattern is refused exactly when a segment of it
/// is relative, or when its pattern or that of everything below is faulty;
/// a relative segment is named first.
pub proof fn law_line_is_refused(workspace: Seq<char>, line: Seq<char>)
    ensures
        ({
            let body = negation(text::trimmed(line)).1;
            let glob = path::joined(workspace, body);
            let below = path::joined(glob, "**"@);
            let got = line_patterns(workspace, line);
            body.len() > 0 && body[0] != '#' ==> {
                &&& got is Err <==> has_relative_segment(body) || pattern::pattern_fault(
                    glob,
                ) is Some || (path::file_name(glob) != Some("**"@) && pattern::pattern_fault(
                    below,
                ) is Some)
                &&& has_relative_segment(body) ==> got == Err::<
                    Seq<HashPatternView>,
                    RunnerErrorView,
                >(
                    RunnerErrorView::Expression(
                        "hashFiles: relative pathing '.' and '..' is not allowed in '"@ + body
                            + "'"@,
                    ),
                )
                &&& !has_relative_segment(body) ==> (pattern::pattern_fault(glob) matches Some(fault)
                    ==> got == Err::<Seq<HashPatternView>, RunnerErrorView>(
                    RunnerErrorView::Expression("hashFiles pattern '"@ + glob + "': "@ + fault),
                ))
            }
        }),
{
}

/// A pattern matches case-sensitively, its `*` and `?` stop at a separator,
/// and a leading dot is no exception to them.
pub proof fn law_matching_options(p: HashPatternView, file: Seq<char>)
    ensures
        pattern_hits(p, file) <==> pattern::pattern_matches(p.glob, file, true, true, false),
{
}

/// A leading option is taken off the arguments and turns link following on;
/// the patterns begin behind it. Another leading argument with two dashes is
/// refused.
pub proof fn law_option_is_taken_off(args: Vec<String>, r: Result<(bool, usize), RunnerError>)
    requires
        call_ensures(split_options, (&args,), r),
        args@.len() > 0,
    ensures
        !"--"@.is_prefix_of(args@[0]@) ==> (r matches Ok((follow, from)) && !follow && (
        text::texts(args@).skip(from as int) == text::texts(args@))),
        "--"@.is_prefix_of(args@[0]@) && text::lower(args@[0]@) == "--follow-symbolic-links"@ ==> (
        r matches Ok((follow, from)) && follow && from == 1),
        "--"@.is_prefix_of(args@[0]@) && text::lower(args@[0]@) != "--follow-symbolic-links"@
            ==> r is Err,
{
    let all = text::texts(args@);
    assert(all[0] == args@[0]@);
    law_only_option_is_taken(all);
    match r {
        Ok((follow, from)) => {
            assert(all.skip(from as int).len() == all.len() - from);
            assert(all.skip(1).len() == all.len() - 1);
        },
        Err(_) => {},
    }
}

/// A file is taken in exactly when the last pattern that matches it is not
/// negated.
pub proof fn law_file_is_taken_by_last_match(patterns: Vec<HashPattern>, file: &str, r: bool, i: int)
    requires
        call_ensures(matches_patterns, (&patterns, file), r),
        0 <= i < patterns@.len(),
        pattern_hits(patterns@[i]@, file@),
        forall|k: int|
            i < k < patterns@.len() ==> !pattern_hits((#[trigger] patterns@[k])@, file@),
    ensures
        r <==> !patterns@[i]@.negate,
{
    let all = views(patterns@);
    assert(all.len() == patterns@.len());
    assert(all[i] == patterns@[i]@);
    law_last_match_decides(all, file@);
    assert forall|k: int| i < k < all.len() implies !pattern_hits(#[trigger] all[k], file@) by {
        assert(all[k] == patterns@[k]@);
    }
    if r {
        let j = choose|j: int|
            0 <= j < all.len() && !(#[trigger] all[j]).negate && pattern_hits(all[j], file@)
                && forall|k: int|
                j < k < all.len() && (#[trigger] all[k]).negate ==> !pattern_hits(all[k], file@);
        assert(j <= i);
        if j < i {
            assert(all[i].negate ==> !pattern_hits(all[i], file@));
        }
    }
    if !patterns@[i]@.negate {
        assert(!all[i].negate && pattern_hits(all[i], file@));
    }
}

/// Marks are taken off a line as they turn its negation around.
pub proof fn law_marks_are_taken_off(line: &str, r: (bool, &str))
    requires
        call_ensures(strip_negation, (line,), r),
    ensures
        line@.len() == 0 || line@[0] != '!' ==> !r.0 && r.1@ == line@,
        line@.len() > 0 && line@[0] == '!' ==> r.0 != negation(text::trimmed(line@.skip(1))).0
            && r.1@ == negation(text::trimmed(line@.skip(1))).1,
        r.1@.len() == 0 || r.1@[0] != '!',
{
    if line@.len() > 0 {
        assert(line@.drop_first() =~= line@.skip(1));
    }
    lemma_no_mark_is_left(line@);
}

proof fn lemma_no_mark_is_left(line: Seq<char>)
    ensures
        negation(line).1.len() == 0 || negation(line).1[0] != '!',
    decreases line.len(),
{
    if line.len() > 0 && line[0] == '!' {
        text::lemma_trim_shorter(line.drop_first());
        lemma_no_mark_is_left(text::trimmed(line.drop_first()));
    }
}

/// Arguments are parsed line by line, in order, below the workspace.
pub proof fn law_arguments_are_parsed_in_order(
    workspace: &str,
    args: Vec<String>,
    from: usize,
    r: Result<Vec<HashPattern>, RunnerError>,
)
    requires
        call_ensures(parse_patterns, (workspace, &args, from), r),
        from <= args@.len(),
    ensures
        from == args@.len() ==> (r matches Ok(p) && p@.len() == 0),
        r is Ok <==> patterns_of(workspace@, lines_of(text::texts(args@).skip(from as int))) is Ok,
        r matches Ok(p) ==> patterns_of(
            workspace@,
            lines_of(text::texts(args@).skip(from as int)),
        )->Ok_0.len() == p@.len(),
{
    let rest = text::texts(args@).skip(from as int);
    if from == args@.len() {
        assert(rest =~= Seq::<Seq<char>>::empty());
        assert(lines_of(rest) =~= Seq::<Seq<char>>::empty());
        assert(patterns_of(workspace@, lines_of(rest)) == Ok::<
            Seq<HashPatternView>,
            RunnerErrorView,
        >(Seq::empty()));
    }
    match r {
        Ok(p) => {
            assert(views(p@).len() == p@.len());
        },
        Err(_) => {},
    }
}

} // verus!
