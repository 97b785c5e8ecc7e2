//! The read-only filesystem tools: which walked entries are listed,
//! searched or read as manifests, how a requested path is confined to the
//! target directory, and how file contents and search matches are taken in.
//! The directory walk and the reads themselves are done by the application.
use vstd::prelude::*;
use vstd::utf8::{decode_utf8, valid_utf8};

use crate::text::{str_eq, trim_end_chars, trim_end_spec, chars_of, string_from_chars};
use crate::tools::error::ToolError;

verus! {

/// Directory names never walked into.
pub open spec fn always_skip_dirs() -> Seq<Seq<char>> {
    seq![
        "node_modules"@,
        ".git"@,
        "dist"@,
        "build"@,
        "target"@,
        ".venv"@,
        "venv"@,
        "__pycache__"@,
        ".next"@,
        ".cache"@,
        ".turbo"@,
    ]
}

/// File names of dependency manifests.
pub open spec fn manifest_filenames() -> Seq<Seq<char>> {
    seq![
        "package.json"@,
        "requirements.txt"@,
        "Pipfile"@,
        "pyproject.toml"@,
        "go.mod"@,
        "Cargo.toml"@,
        "composer.json"@,
        "Gemfile"@,
        "pom.xml"@,
        "build.gradle"@,
    ]
}

/// The walk leaves out exactly the directories named `node_modules`, `.git`,
/// `dist`, `build`, `target`, `.venv`, `venv`, `__pycache__`, `.next`,
/// `.cache` and `.turbo` (so `walk_admits` is false for these eleven names
/// and true for every other one).
pub proof fn lemma_skipped_dirs_are_exactly(name: Seq<char>)
    ensures
        always_skip_dirs().contains(name) <==> (name == "node_modules"@
            || name == ".git"@
            || name == "dist"@
            || name == "build"@
            || name == "target"@
            || name == ".venv"@
            || name == "venv"@
            || name == "__pycache__"@
            || name == ".next"@
            || name == ".cache"@
            || name == ".turbo"@),
{
    let l = always_skip_dirs();
    if l.contains(name) {
        let k = choose|k: int| 0 <= k < l.len() && l[k] == name;
        assert(k == 0 || k == 1 || k == 2 || k == 3 || k == 4 || k == 5 || k == 6 || k == 7 || k == 8 || k == 9 || k == 10);
            if k == 0 {
                assert(name == "node_modules"@);
            }
            if k == 1 {
                assert(name == ".git"@);
            }
            if k == 2 {
                assert(name == "dist"@);
            }
            if k == 3 {
                assert(name == "build"@);
            }
            if k == 4 {
                assert(name == "target"@);
            }
            if k == 5 {
                assert(name == ".venv"@);
            }
            if k == 6 {
                assert(name == "venv"@);
            }
            if k == 7 {
                assert(name == "__pycache__"@);
            }
            if k == 8 {
                assert(name == ".next"@);
            }
            if k == 9 {
                assert(name == ".cache"@);
            }
            if k == 10 {
                assert(name == ".turbo"@);
            }
    }
        if name == "node_modules"@ {
            assert(l[0] == name);
        }
        if name == ".git"@ {
            assert(l[1] == name);
        }
        if name == "dist"@ {
            assert(l[2] == name);
        }
        if name == "build"@ {
            assert(l[3] == name);
        }
        if name == "target"@ {
            assert(l[4] == name);
        }
        if name == ".venv"@ {
            assert(l[5] == name);
        }
        if name == "venv"@ {
            assert(l[6] == name);
        }
        if name == "__pycache__"@ {
            assert(l[7] == name);
        }
        if name == ".next"@ {
            assert(l[8] == name);
        }
        if name == ".cache"@ {
            assert(l[9] == name);
        }
        if name == ".turbo"@ {
            assert(l[10] == name);
        }
}

/// A file is a dependency manifest exactly when it is named `package.json`,
/// `requirements.txt`, `Pipfile`, `pyproject.toml`, `go.mod`, `Cargo.toml`,
/// `composer.json`, `Gemfile`, `pom.xml` or `build.gradle` (so
/// `is_manifest_filename` is true for these ten names and false for every
/// other one).
pub proof fn lemma_manifest_names_are_exactly(name: Seq<char>)
    ensures
        manifest_filenames().contains(name) <==> (name == "package.json"@
            || name == "requirements.txt"@
            || name == "Pipfile"@
            || name == "pyproject.toml"@
            || name == "go.mod"@
            || name == "Cargo.toml"@
            || name == "composer.json"@
            || name == "Gemfile"@
            || name == "pom.xml"@
            || name == "build.gradle"@),
{
    let l = manifest_filenames();
    if l.contains(name) {
        let k = choose|k: int| 0 <= k < l.len() && l[k] == name;
        assert(k == 0 || k == 1 || k == 2 || k == 3 || k == 4 || k == 5 || k == 6 || k == 7 || k == 8 || k == 9);
            if k == 0 {
                assert(name == "package.json"@);
            }
            if k == 1 {
                assert(name == "requirements.txt"@);
            }
            if k == 2 {
                assert(name == "Pipfile"@);
            }
            if k == 3 {
                assert(name == "pyproject.toml"@);
            }
            if k == 4 {
                assert(name == "go.mod"@);
            }
            if k == 5 {
                assert(name == "Cargo.toml"@);
            }
            if k == 6 {
                assert(name == "composer.json"@);
            }
            if k == 7 {
                assert(name == "Gemfile"@);
            }
            if k == 8 {
                assert(name == "pom.xml"@);
            }
            if k == 9 {
                assert(name == "build.gradle"@);
            }
    }
        if name == "package.json"@ {
            assert(l[0] == name);
        }
        if name == "requirements.txt"@ {
            assert(l[1] == name);
        }
        if name == "Pipfile"@ {
            assert(l[2] == name);
        }
        if name == "pyproject.toml"@ {
            assert(l[3] == name);
        }
        if name == "go.mod"@ {
            assert(l[4] == name);
        }
        if name == "Cargo.toml"@ {
            assert(l[5] == name);
        }
        if name == "composer.json"@ {
            assert(l[6] == name);
        }
        if name == "Gemfile"@ {
            assert(l[7] == name);
        }
        if name == "pom.xml"@ {
            assert(l[8] == name);
        }
        if name == "build.gradle"@ {
            assert(l[9] == name);
        }
}

/// Files are read up to this many bytes.
pub const MAX_READ_BYTES: usize = 200_000;

/// Manifests are looked for at most this deep below the target root.
pub const MANIFEST_MAX_DEPTH: usize = 4;

/// The views of a sequence of string slices.
pub open spec fn str_views(s: Seq<&str>) -> Seq<Seq<char>> {
    s.map_values(|x: &str| x@)
}

fn in_list(name: &str, list: &Vec<&str>) -> (r: bool)
    ensures
        r == str_views(list@).contains(name@),
{
    let n = list.len();
    let mut i: usize = 0;
    while i < n
        invariant
            n == list@.len(),
            i <= n,
            forall|j: int| 0 <= j < i ==> list@[j]@ != name@,
        decreases n - i,
    {
        if str_eq(list[i], name) {
            proof {
                assert(str_views(list@)[i as int] == name@);
            }
            return true;
        }
        i = i + 1;
    }
    proof {
        if str_views(list@).contains(name@) {
            let k = choose|k: int| 0 <= k < str_views(list@).len() && #[trigger] str_views(list@)[k] == name@;
            assert(list@[k]@ == name@);
        }
    }
    false
}

/// Whether the directory walk may enter or list an entry with this file
/// name: everything but the always-skipped directories.
pub fn walk_admits(name: &str) -> (r: bool)
    ensures
        r == !always_skip_dirs().contains(name@),
{
    let list = vec![
        "node_modules",
        ".git",
        "dist",
        "build",
        "target",
        ".venv",
        "venv",
        "__pycache__",
        ".next",
        ".cache",
        ".turbo",
    ];
    proof {
        assert(str_views(list@) =~= always_skip_dirs());
    }
    !in_list(name, &list)
}

/// Whether a file name is that of a dependency manifest.
pub fn is_manifest_filename(name: &str) -> (r: bool)
    ensures
        r == manifest_filenames().contains(name@),
{
    let list = vec![
        "package.json",
        "requirements.txt",
        "Pipfile",
        "pyproject.toml",
        "go.mod",
        "Cargo.toml",
        "composer.json",
        "Gemfile",
        "pom.xml",
        "build.gradle",
    ];
    proof {
        assert(str_views(list@) =~= manifest_filenames());
    }
    in_list(name, &list)
}

/// What kind of filesystem object a walked entry is (`Unknown` when its
/// type could not be read).
#[derive(Debug, Clone, Copy, PartialEq, Eq, Structural)]
pub enum EntryKind {
    Dir,
    File,
    Other,
    Unknown,
}

/// One entry of the directory walk.
#[derive(Debug, Clone)]
pub struct WalkEntry {
    /// 0 for the walk's root itself.
    pub depth: usize,
    /// The entry's path relative to the target root.
    pub path: String,
    pub file_name: String,
    pub kind: EntryKind,
}

/// One listed entry.
#[derive(Debug, Clone)]
pub struct DirEntryInfo {
    pub path: String,
    pub is_dir: bool,
}

/// The listing of walked entries: every readable entry but the root, in
/// walk order, with whether it is a directory.
pub open spec fn listed(walk: Seq<Option<WalkEntry>>) -> Seq<(Seq<char>, bool)>
    decreases walk.len(),
{
    if walk.len() == 0 {
        Seq::empty()
    } else {
        let rest = listed(walk.drop_last());
        match walk.last() {
            Some(e) => if e.depth != 0 {
                rest.push((e.path@, e.kind == EntryKind::Dir))
            } else {
                rest
            },
            None => rest,
        }
    }
}

/// How many entries a listing with limit `max_entries` holds at most; a
/// limit of 0 still lets the first entry through.
pub open spec fn listing_cap(max_entries: usize) -> nat {
    if max_entries == 0 {
        1
    } else {
        max_entries as nat
    }
}

pub open spec fn entry_infos_view(es: Seq<DirEntryInfo>) -> Seq<(Seq<char>, bool)> {
    es.map_values(|e: DirEntryInfo| (e.path@, e.is_dir))
}

/// The first `n` elements of `s` (all of them when it is shorter).
pub open spec fn take_at_most<A>(s: Seq<A>, n: nat) -> Seq<A> {
    if s.len() <= n {
        s
    } else {
        s.take(n as int)
    }
}

/// Lists the entries of a directory walk (in walk order, skipping the root
/// and entries the walk could not read), stopping at `max_entries`.
pub fn list_directory(walk: &Vec<Option<WalkEntry>>, max_entries: usize) -> (r: Result<
    Vec<DirEntryInfo>,
    ToolError,
>)
    ensures
        r matches Ok(out) && entry_infos_view(out@) == take_at_most(
            listed(walk@),
            listing_cap(max_entries),
        ),
{
    let mut out: Vec<DirEntryInfo> = Vec::new();
    let n = walk.len();
    let mut i: usize = 0;
    let ghost cap = listing_cap(max_entries);
    loop
        invariant_except_break
            entry_infos_view(out@) == listed(walk@.take(i as int)),
            out@.len() < cap,
        invariant
            n == walk@.len(),
            i <= n,
            cap == listing_cap(max_entries),
        ensures
            entry_infos_view(out@) == take_at_most(listed(walk@), cap),
        decreases n - i,
    {
        if i == n {
            proof {
                assert(walk@.take(n as int) =~= walk@);
            }
            break;
        }
        proof {
            assert(walk@.take(i + 1).drop_last() =~= walk@.take(i as int));
        }
        match &walk[i] {
            Some(e) => {
                if e.depth != 0 {
                    let ghost before = out@;
                    out.push(
                        DirEntryInfo { path: e.path.clone(), is_dir: e.kind == EntryKind::Dir },
                    );
                    proof {
                        assert(entry_infos_view(out@) =~= entry_infos_view(before).push(
                            (e.path@, e.kind == EntryKind::Dir),
                        ));
                    }
                    if out.len() >= max_entries {
                        proof {
                            lemma_listed_prefix(walk@, i + 1);
                            assert(out@.len() == cap);
                            assert(listed(walk@).take(cap as int) =~= listed(walk@.take(i + 1)));
                        }
                        break;
                    }
                }
            },
            None => {},
        }
        i = i + 1;
    }
    Ok(out)
}

/// The listing of a prefix of a walk is a prefix of the walk's listing.
proof fn lemma_listed_prefix(walk: Seq<Option<WalkEntry>>, k: int)
    requires
        0 <= k <= walk.len(),
    ensures
        listed(walk.take(k)).len() <= listed(walk).len(),
        listed(walk.take(k)) =~= listed(walk).take(listed(walk.take(k)).len() as int),
    decreases walk.len() - k,
{
    if k < walk.len() {
        lemma_listed_prefix(walk, k + 1);
        assert(walk.take(k + 1).drop_last() =~= walk.take(k));
    } else {
        assert(walk.take(k) =~= walk);
    }
}

// ---------------------------------------------------------------------------
// Confining paths to the target root.

/// `prefix` is a leading run of path components of `path`.
pub open spec fn components_prefix(prefix: Seq<Seq<char>>, path: Seq<Seq<char>>) -> bool {
    prefix.len() <= path.len() && path.take(prefix.len() as int) == prefix
}

pub open spec fn components_view(cs: Seq<String>) -> Seq<Seq<char>> {
    cs.map_values(|c: String| c@)
}

/// Decides whether a requested file may be read: given the canonical
/// components of the target root (or the error canonicalizing it), and the
/// canonical components of the requested path (`None` when it does not
/// exist), the path is granted only if it lies inside the root.
pub fn resolve_within_root(
    root: Result<Vec<String>, String>,
    candidate: Option<Vec<String>>,
    rel_path: &str,
) -> (r: Result<Vec<String>, ToolError>)
    ensures
        match root {
            Err(io) => r == Err::<Vec<String>, ToolError>(ToolError::Io(io)),
            Ok(root_cs) => match candidate {
                None => r matches Err(ToolError::NotFound(p)) && p@ == rel_path@,
                Some(cand) => if components_prefix(components_view(root_cs@), components_view(cand@)) {
                    r == Ok::<Vec<String>, ToolError>(cand)
                } else {
                    r == Err::<Vec<String>, ToolError>(ToolError::PathEscape)
                },
            },
        },
{
    let root_cs = match root {
        Err(io) => return Err(ToolError::Io(io)),
        Ok(cs) => cs,
    };
    let cand = match candidate {
        None => return Err(ToolError::NotFound(rel_path.to_owned())),
        Some(c) => c,
    };
    let rn = root_cs.len();
    proof {
        assert(components_view(root_cs@).len() == root_cs@.len());
        assert(components_view(cand@).len() == cand@.len());
    }
    if rn > cand.len() {
        return Err(ToolError::PathEscape);
    }
    let mut i: usize = 0;
    while i < rn
        invariant
            rn == root_cs@.len(),
            rn <= cand@.len(),
            i <= rn,
            root == Ok::<Vec<String>, String>(root_cs),
            candidate == Some(cand),
            forall|j: int| 0 <= j < i ==> root_cs@[j]@ == cand@[j]@,
        decreases rn - i,
    {
        if !str_eq(root_cs[i].as_str(), cand[i].as_str()) {
            proof {
                assert(components_view(cand@).take(rn as int)[i as int] != components_view(root_cs@)[i as int]);
                assert(components_view(cand@).take(rn as int) != components_view(root_cs@));
                assert(!components_prefix(components_view(root_cs@), components_view(cand@)));
            }
            return Err(ToolError::PathEscape);
        }
        i = i + 1;
    }
    proof {
        assert(components_view(cand@).take(rn as int) =~= components_view(root_cs@));
    }
    Ok(cand)
}

/// A path granted by `resolve_within_root` always lies inside the root.
pub proof fn lemma_granted_paths_stay_inside(
    root: Seq<Seq<char>>,
    cand: Seq<Seq<char>>,
)
    requires
        components_prefix(root, cand),
    ensures
        forall|i: int| 0 <= i < root.len() ==> cand[i] == root[i],
{
    assert forall|i: int| 0 <= i < root.len() implies cand[i] == root[i] by {
        assert(cand.take(root.len() as int)[i] == cand[i]);
    }
}

// ---------------------------------------------------------------------------
// File contents.

/// `String::from_utf8`: the bytes as a string when they are UTF-8 (std
/// documents that it fails exactly when they are not).
#[verifier::external_body]
fn utf8_string(bytes: Vec<u8>) -> (r: Option<String>)
    ensures
        match r {
            Some(s) => valid_utf8(bytes@) && s@ == decode_utf8(bytes@),
            None => !valid_utf8(bytes@),
        },
{
    match String::from_utf8(bytes) {
        Ok(s) => Some(s),
        Err(_) => None,
    }
}

/// The first `MAX_READ_BYTES` bytes of a file.
pub open spec fn read_window(bytes: Seq<u8>) -> Seq<u8> {
    take_at_most(bytes, MAX_READ_BYTES as nat)
}

/// The text of a file from its bytes: at most `MAX_READ_BYTES` of them are
/// kept, and they must be UTF-8 (a cut through a character fails too).
pub fn decode_file_contents(bytes: Vec<u8>) -> (r: Result<String, ToolError>)
    ensures
        match r {
            Ok(s) => valid_utf8(read_window(bytes@)) && s@ == decode_utf8(read_window(bytes@)),
            Err(e) => e == ToolError::NotUtf8 && !valid_utf8(read_window(bytes@)),
        },
{
    let ghost all = bytes@;
    let mut b = bytes;
    if b.len() > MAX_READ_BYTES {
        b.truncate(MAX_READ_BYTES);
    }
    proof {
        assert(b@ =~= read_window(all));
    }
    match utf8_string(b) {
        Some(s) => Ok(s),
        None => Err(ToolError::NotUtf8),
    }
}

// ---------------------------------------------------------------------------
// Text search.

/// One line matching a search.
#[derive(Debug, Clone)]
pub struct SearchMatch {
    pub path: String,
    pub line_number: u64,
    pub line: String,
}

#[verifier::external_type_specification]
#[verifier::external_body]
pub struct ExRegexMatcher(grep_regex::RegexMatcher);

/// Whether `grep_regex::RegexMatcher::new` accepts a pattern, and its error
/// message when it does not. It depends on the pattern alone.
pub uninterp spec fn regex_compile_result(pattern: Seq<char>) -> Result<(), Seq<char>>;

/// Builds a matcher with `grep_regex::RegexMatcher::new`; on failure gives
/// the error's `Display` text.
#[verifier::external_body]
fn regex_matcher(pattern: &str) -> (r: Result<grep_regex::RegexMatcher, String>)
    ensures
        match regex_compile_result(pattern@) {
            Ok(()) => r is Ok,
            Err(m) => r matches Err(e) && e@ == m,
        },
{
    match grep_regex::RegexMatcher::new(pattern) {
        Ok(m) => Ok(m),
        Err(e) => Err(e.to_string()),
    }
}

/// The matcher for a search pattern, or `InvalidPattern` with the regex
/// engine's message.
pub fn compile_search_pattern(pattern: &str) -> (r: Result<grep_regex::RegexMatcher, ToolError>)
    ensures
        match regex_compile_result(pattern@) {
            Ok(()) => r is Ok,
            Err(m) => r matches Err(ToolError::InvalidPattern(e)) && e@ == m,
        },
{
    match regex_matcher(pattern) {
        Ok(m) => Ok(m),
        Err(e) => Err(ToolError::InvalidPattern(e)),
    }
}

/// What `String::from_utf8_lossy` makes of bytes: the decoded text, with
/// each invalid sequence replaced by U+FFFD.
pub uninterp spec fn lossy_utf8_of(bytes: Seq<u8>) -> Seq<char>;

/// `String::from_utf8_lossy`, owned. std documents that valid UTF-8 comes
/// back unchanged.
#[verifier::external_body]
fn lossy_utf8(bytes: &[u8]) -> (r: String)
    ensures
        r@ == lossy_utf8_of(bytes@),
        valid_utf8(bytes@) ==> r@ == decode_utf8(bytes@),
{
    String::from_utf8_lossy(bytes).into_owned()
}

/// The matches collected from one file, up to a budget.
pub struct MatchCollector {
    rel_path: String,
    remaining: usize,
    out: Vec<SearchMatch>,
}

pub open spec fn match_view(m: SearchMatch) -> (Seq<char>, u64, Seq<char>) {
    (m.path@, m.line_number, m.line@)
}

pub open spec fn matches_view(ms: Seq<SearchMatch>) -> Seq<(Seq<char>, u64, Seq<char>)> {
    ms.map_values(|m: SearchMatch| match_view(m))
}

impl MatchCollector {
    pub closed spec fn path_view(&self) -> Seq<char> {
        self.rel_path@
    }

    pub closed spec fn budget(&self) -> nat {
        self.remaining as nat
    }

    pub closed spec fn collected(&self) -> Seq<(Seq<char>, u64, Seq<char>)> {
        matches_view(self.out@)
    }

    /// A collector for the file at `rel_path` that keeps at most `remaining`
    /// matches.
    pub fn new(rel_path: String, remaining: usize) -> (c: MatchCollector)
        ensures
            c.path_view() == rel_path@,
            c.budget() == remaining,
            c.collected() == Seq::<(Seq<char>, u64, Seq<char>)>::empty(),
    {
        let c = MatchCollector { rel_path, remaining, out: Vec::new() };
        proof {
            assert(c.collected() =~= Seq::<(Seq<char>, u64, Seq<char>)>::empty());
        }
        c
    }

    /// Takes in one matching line (its bytes and line number): the line is
    /// recorded, without trailing whitespace, unless the budget is used up.
    /// Returns whether the search should go on.
    pub fn matched(&mut self, line: &[u8], line_number: Option<u64>) -> (go_on: bool)
        ensures
            final(self).path_view() == old(self).path_view(),
            final(self).budget() == old(self).budget(),
            old(self).collected().len() >= old(self).budget() ==> final(self).collected() == old(
                self,
            ).collected() && !go_on,
            old(self).collected().len() < old(self).budget() ==> final(self).collected() == old(
                self,
            ).collected().push(
                (
                    old(self).path_view(),
                    match line_number {
                        Some(n) => n,
                        None => 0,
                    },
                    trim_end_spec(lossy_utf8_of(line@)),
                ),
            ) && go_on == (final(self).collected().len() < final(self).budget()),
    {
        if self.out.len() >= self.remaining {
            return false;
        }
        let text = lossy_utf8(line);
        let trimmed = trim_end_chars(&chars_of(text.as_str()));
        let number = match line_number {
            Some(n) => n,
            None => 0,
        };
        let ghost before = self.out@;
        self.out.push(
            SearchMatch {
                path: self.rel_path.clone(),
                line_number: number,
                line: string_from_chars(&trimmed),
            },
        );
        proof {
            assert(matches_view(self.out@) =~= matches_view(before).push(
                (self.rel_path@, number, trimmed@),
            ));
        }
        self.out.len() < self.remaining
    }

    /// The collected matches.
    pub fn into_matches(self) -> (r: Vec<SearchMatch>)
        ensures
            matches_view(r@) == self.collected(),
    {
        self.out
    }
}

/// The matches of a whole search, never more than `max` of them.
pub struct SearchResults {
    max: usize,
    out: Vec<SearchMatch>,
}

impl SearchResults {
    #[verifier::type_invariant]
    closed spec fn within_limit(self) -> bool {
        self.out@.len() <= self.max
    }

    pub closed spec fn limit(&self) -> nat {
        self.max as nat
    }

    pub closed spec fn collected(&self) -> Seq<(Seq<char>, u64, Seq<char>)> {
        matches_view(self.out@)
    }

    /// How many more matches fit under the limit.
    pub open spec fn room(&self) -> nat {
        if self.collected().len() <= self.limit() {
            (self.limit() - self.collected().len()) as nat
        } else {
            0
        }
    }

    pub fn new(max: usize) -> (r: SearchResults)
        ensures
            r.limit() == max,
            r.collected() == Seq::<(Seq<char>, u64, Seq<char>)>::empty(),
    {
        let r = SearchResults { max, out: Vec::new() };
        proof {
            assert(r.collected() =~= Seq::<(Seq<char>, u64, Seq<char>)>::empty());
        }
        r
    }

    /// Whether the search has all the matches it may report (it never has
    /// more than that).
    pub fn is_full(&self) -> (r: bool)
        ensures
            r == (self.collected().len() >= self.limit()),
            self.collected().len() <= self.limit(),
    {
        proof {
            use_type_invariant(self);
        }
        self.out.len() >= self.max
    }

    /// How many more matches the search may report.
    pub fn remaining(&self) -> (r: usize)
        requires
            self.collected().len() < self.limit(),
        ensures
            r == self.limit() - self.collected().len(),
    {
        self.max - self.out.len()
    }

    /// Whether an entry of the walk is searched: only regular files are.
    pub fn searches(kind: EntryKind) -> (r: bool)
        ensures
            r == (kind == EntryKind::File),
    {
        kind == EntryKind::File
    }

    /// Adds the matches collected from one file, as many of them, in order,
    /// as fit under the limit (all of them when the file's collector was
    /// given `remaining()` as its budget).
    pub fn absorb(&mut self, found: Vec<SearchMatch>)
        ensures
            final(self).limit() == old(self).limit(),
            final(self).collected().len() <= final(self).limit(),
            final(self).collected() == old(self).collected() + matches_view(found@).take(
                if found@.len() <= old(self).room() {
                    found@.len() as int
                } else {
                    old(self).room() as int
                },
            ),
    {
        proof {
            use_type_invariant(&*self);
        }
        let room = self.max - self.out.len();
        let ghost before = self.out@;
        let ghost incoming = found@;
        let keep = if found.len() <= room {
            found.len()
        } else {
            room
        };
        let mut found = found;
        found.truncate(keep);
        let mut out: Vec<SearchMatch> = Vec::new();
        std::mem::swap(&mut out, &mut self.out);
        out.append(&mut found);
        proof {
            assert(out@ =~= before + incoming.subrange(0, keep as int));
            assert(matches_view(out@) =~= matches_view(before) + matches_view(incoming).take(
                keep as int,
            ));
        }
        self.out = out;
    }

    /// The matches of the search: never more than the limit.
    pub fn into_matches(self) -> (r: Vec<SearchMatch>)
        ensures
            matches_view(r@) == self.collected(),
            r@.len() <= self.limit(),
    {
        proof {
            use_type_invariant(&self);
        }
        self.out
    }
}

// ---------------------------------------------------------------------------
// Dependency manifests.

/// A manifest file and its text.
#[derive(Debug, Clone)]
pub struct ManifestFile {
    pub path: String,
    pub content: String,
}

/// The relative paths of the regular files of a walk named like a
/// dependency manifest, in walk order.
pub open spec fn manifest_paths(walk: Seq<Option<WalkEntry>>) -> Seq<Seq<char>>
    decreases walk.len(),
{
    if walk.len() == 0 {
        Seq::empty()
    } else {
        let rest = manifest_paths(walk.drop_last());
        match walk.last() {
            Some(e) => if e.kind == EntryKind::File && manifest_filenames().contains(e.file_name@) {
                rest.push(e.path@)
            } else {
                rest
            },
            None => rest,
        }
    }
}

/// The manifests of a walk (taken at most `MANIFEST_MAX_DEPTH` deep) to
/// read: regular files named like a dependency manifest.
pub fn manifest_candidates(walk: &Vec<Option<WalkEntry>>) -> (r: Vec<String>)
    ensures
        components_view(r@) == manifest_paths(walk@),
{
    let mut out: Vec<String> = Vec::new();
    let n = walk.len();
    let mut i: usize = 0;
    while i < n
        invariant
            n == walk@.len(),
            i <= n,
            components_view(out@) == manifest_paths(walk@.take(i as int)),
        decreases n - i,
    {
        proof {
            assert(walk@.take(i + 1).drop_last() =~= walk@.take(i as int));
        }
        match &walk[i] {
            Some(e) => {
                if e.kind == EntryKind::File && is_manifest_filename(e.file_name.as_str()) {
                    let ghost before = out@;
                    out.push(e.path.clone());
                    proof {
                        assert(components_view(out@) =~= components_view(before).push(e.path@));
                    }
                }
            },
            None => {},
        }
        i = i + 1;
    }
    proof {
        assert(walk@.take(n as int) =~= walk@);
    }
    out
}

/// The manifests that could be read, in order, from the read attempts made
/// for `manifest_candidates`.
pub open spec fn readable_manifests(reads: Seq<(String, Result<String, ToolError>)>) -> Seq<(Seq<char>, Seq<char>)>
    decreases reads.len(),
{
    if reads.len() == 0 {
        Seq::empty()
    } else {
        let rest = readable_manifests(reads.drop_last());
        match reads.last().1 {
            Ok(text) => rest.push((reads.last().0@, text@)),
            Err(_) => rest,
        }
    }
}

pub open spec fn manifests_view(ms: Seq<ManifestFile>) -> Seq<(Seq<char>, Seq<char>)> {
    ms.map_values(|m: ManifestFile| (m.path@, m.content@))
}

/// The dependency manifests found: every candidate that could be read, with
/// its text; unreadable ones are left out.
pub fn get_dependency_manifests(reads: Vec<(String, Result<String, ToolError>)>) -> (r: Result<
    Vec<ManifestFile>,
    ToolError,
>)
    ensures
        r matches Ok(ms) && manifests_view(ms@) == readable_manifests(reads@),
{
    let ghost all = reads@;
    let mut out: Vec<ManifestFile> = Vec::new();
    let mut rest = reads;
    let n = rest.len();
    let mut k: usize = 0;
    while rest.len() > 0
        invariant
            n == all.len(),
            k + rest@.len() == n,
            rest@ == all.skip(k as int),
            manifests_view(out@) == readable_manifests(all.take(k as int)),
        decreases rest@.len(),
    {
        let (path, outcome) = rest.remove(0);
        proof {
            assert(all.take(k + 1).drop_last() =~= all.take(k as int));
            assert(all[k as int] == (path, outcome));
            assert(rest@ =~= all.skip(k + 1));
        }
        match outcome {
            Ok(content) => {
                let ghost before = out@;
                out.push(ManifestFile { path, content });
                proof {
                    assert(manifests_view(out@) =~= manifests_view(before).push(
                        (all[k as int].0@, content@),
                    ));
                }
            },
            Err(_) => {},
        }
        k = k + 1;
    }
    proof {
        assert(all.take(n as int) =~= all);
    }
    Ok(out)
}

} // verus!
