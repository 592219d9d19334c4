//! The search-path resolver: given a command name, the directories of
//! the search path, and what the file system says about each candidate
//! file, classify the name as an executable, a file that exists but is
//! not executable, or nothing.
//!
//! The file-system facts come in from the caller as one probe per
//! directory, so resolution itself is a pure computation: the first
//! candidate that exists and is executable wins; a candidate that
//! exists without being executable does not stop the scan, because a
//! later directory may still hold an executable file of the same name,
//! and is reported only when the whole scan found no executable.

use vstd::prelude::*;
use vstd::string::*;

verus! {

/// A resolution outcome over character sequences, the model of
/// [`ResolutionResult`].
pub enum SpecResolution {
    Found(Seq<char>),
    FoundNotExecutable(Seq<char>),
    NotFound,
}

/// The outcome of resolving a command name: the path of the first
/// executable candidate, the path of the last candidate that exists
/// but is not executable when no executable one exists, or nothing.
#[derive(Clone, Debug, PartialEq, Eq)]
pub enum ResolutionResult {
    Found(String),
    FoundNotExecutable(String),
    NotFound,
}

impl View for ResolutionResult {
    type V = SpecResolution;

    open spec fn view(&self) -> SpecResolution {
        match self {
            ResolutionResult::Found(p) => SpecResolution::Found(p@),
            ResolutionResult::FoundNotExecutable(p) => SpecResolution::FoundNotExecutable(p@),
            ResolutionResult::NotFound => SpecResolution::NotFound,
        }
    }
}

/// What the file system says about one candidate path: whether an
/// entry exists there, and whether it is a regular file with at least
/// one executable permission bit.
#[derive(Clone, Copy, Debug, PartialEq, Eq, Structural)]
pub struct PathProbe {
    pub exists: bool,
    pub executable: bool,
}

/// Whether a file with these facts counts as executable: a regular
/// file with at least one of the three executable permission bits set.
pub fn is_executable_mode(is_file: bool, mode: u32) -> (r: bool)
    ensures
        r == (is_file && mode & 0o111 != 0),
{
    is_file && mode & 0o111 != 0
}

/// The candidate path for `name` in `dir`: the two joined with a
/// single path separator.
pub open spec fn candidate_path_spec(dir: Seq<char>, name: Seq<char>) -> Seq<char> {
    if dir.len() == 0 {
        name
    } else if dir[dir.len() - 1] == '/' {
        dir + name
    } else {
        dir + seq!['/'] + name
    }
}

/// The candidate path for `name` in `dir`.
pub fn candidate_path(dir: &str, name: &str) -> (p: String)
    ensures
        p@ == candidate_path_spec(dir@, name@),
{
    let dlen: usize = dir.unicode_len();
    if dlen == 0 {
        String::from_str(name)
    } else if dir.get_char(dlen - 1) == '/' {
        String::from_str(dir).concat(name)
    } else {
        proof {
            reveal_strlit("/");
            assert("/"@ =~= seq!['/']);
        }
        String::from_str(dir).concat("/").concat(name)
    }
}

/// The directories of a search-path text, read from the scan state
/// `cur`: colons separate, and empty pieces are kept.
pub open spec fn split_colon(s: Seq<char>, cur: Seq<char>) -> Seq<Seq<char>>
    decreases s.len(),
{
    if s.len() == 0 {
        seq![cur]
    } else if s[0] == ':' {
        seq![cur] + split_colon(s.drop_first(), Seq::<char>::empty())
    } else {
        split_colon(s.drop_first(), cur.push(s[0]))
    }
}

/// The directories of a search-path text.
pub open spec fn search_path_dirs(s: Seq<char>) -> Seq<Seq<char>> {
    split_colon(s, Seq::<char>::empty())
}

/// Split a search-path text into its directories at the colons.  Empty
/// pieces are kept: the text decides, not this function.
pub fn split_search_path(path_var: &str) -> (dirs: Vec<String>)
    ensures
        dirs.deep_view() == search_path_dirs(path_var@),
{
    let len: usize = path_var.unicode_len();
    let mut dirs: Vec<String> = Vec::new();
    let mut current = String::new();
    let mut i: usize = 0;
    proof {
        assert(path_var@.subrange(0, len as int) =~= path_var@);
        assert(dirs.deep_view() + search_path_dirs(path_var@) =~= search_path_dirs(path_var@));
    }
    while i < len
        invariant
            len == path_var@.len(),
            i <= len,
            search_path_dirs(path_var@) == dirs.deep_view() + split_colon(
                path_var@.subrange(i as int, len as int),
                current@,
            ),
        decreases len - i,
    {
        let ghost pre = path_var@.subrange(i as int, len as int);
        let ghost post = path_var@.subrange(i as int + 1, len as int);
        proof {
            assert(pre.drop_first() =~= post);
            assert(pre[0] == path_var@[i as int]);
        }
        let c = path_var.get_char(i);
        let ghost dirs0 = dirs.deep_view();
        let ghost current0 = current@;
        if c == ':' {
            dirs.push(current);
            current = String::new();
            proof {
                let t = split_colon(post, current@);
                assert(dirs.deep_view() =~= dirs0.push(current0));
                assert(dirs0.push(current0) + t =~= dirs0 + (seq![current0] + t));
                assert(current@ =~= Seq::<char>::empty());
            }
        } else {
            current.append(path_var.substring_char(i, i + 1));
            proof {
                assert(path_var@.subrange(i as int, i as int + 1) =~= seq![c]);
                assert(current@ =~= current0.push(c));
            }
        }
        i = i + 1;
    }
    proof {
        assert(path_var@.subrange(len as int, len as int) =~= Seq::<char>::empty());
    }
    let ghost dirs0 = dirs.deep_view();
    let ghost current0 = current@;
    dirs.push(current);
    proof {
        assert(dirs.deep_view() =~= dirs0.push(current0));
        assert(dirs0.push(current0) =~= dirs0 + seq![current0]);
    }
    dirs
}

/// The outcome of scanning the remaining directories and probes, with
/// `last_existing` the candidate path of the last file seen so far
/// that exists but is not executable.
pub open spec fn resolve_scan(
    name: Seq<char>,
    dirs: Seq<Seq<char>>,
    probes: Seq<PathProbe>,
    last_existing: Option<Seq<char>>,
) -> SpecResolution
    decreases dirs.len(),
{
    if dirs.len() == 0 || probes.len() == 0 {
        match last_existing {
            Some(p) => SpecResolution::FoundNotExecutable(p),
            None => SpecResolution::NotFound,
        }
    } else {
        let cand = candidate_path_spec(dirs[0], name);
        if probes[0].exists && probes[0].executable {
            SpecResolution::Found(cand)
        } else if probes[0].exists {
            resolve_scan(name, dirs.drop_first(), probes.drop_first(), Some(cand))
        } else {
            resolve_scan(name, dirs.drop_first(), probes.drop_first(), last_existing)
        }
    }
}

/// The outcome of resolving `name` against these directories and
/// probes.
pub open spec fn resolve_spec(name: Seq<char>, dirs: Seq<Seq<char>>, probes: Seq<
    PathProbe,
>) -> SpecResolution {
    resolve_scan(name, dirs, probes, None)
}

/// The scan behind the first-executable law, generalized over the
/// carried last-existing candidate, which cannot change the outcome
/// once an executable candidate lies ahead.
proof fn lemma_scan_finds_first_executable(
    name: Seq<char>,
    dirs: Seq<Seq<char>>,
    probes: Seq<PathProbe>,
    last_existing: Option<Seq<char>>,
    k: int,
)
    requires
        dirs.len() == probes.len(),
        0 <= k < probes.len(),
        probes[k].exists && probes[k].executable,
        forall|j: int| 0 <= j < k ==> !((#[trigger] probes[j]).exists && probes[j].executable),
    ensures
        resolve_scan(name, dirs, probes, last_existing) == SpecResolution::Found(
            candidate_path_spec(dirs[k], name),
        ),
    decreases k,
{
    if k > 0 {
        let dr = dirs.drop_first();
        let pr = probes.drop_first();
        assert(pr[k - 1] == probes[k]);
        assert(dr[k - 1] == dirs[k]);
        assert forall|j: int| 0 <= j < k - 1 implies !((#[trigger] pr[j]).exists
            && pr[j].executable) by {
            assert(pr[j] == probes[j + 1]);
        }
        let cand = candidate_path_spec(dirs[0], name);
        if probes[0].exists {
            lemma_scan_finds_first_executable(name, dr, pr, Some(cand), k - 1);
        } else {
            lemma_scan_finds_first_executable(name, dr, pr, last_existing, k - 1);
        }
    }
}

/// Law: the first candidate that exists and is executable wins,
/// whatever stands before it — in particular, an earlier candidate
/// that exists without being executable does not stop the scan.
pub proof fn lemma_resolve_finds_first_executable(
    name: Seq<char>,
    dirs: Seq<Seq<char>>,
    probes: Seq<PathProbe>,
    k: int,
)
    requires
        dirs.len() == probes.len(),
        0 <= k < probes.len(),
        probes[k].exists && probes[k].executable,
        forall|j: int| 0 <= j < k ==> !((#[trigger] probes[j]).exists && probes[j].executable),
    ensures
        resolve_spec(name, dirs, probes) == SpecResolution::Found(
            candidate_path_spec(dirs[k], name),
        ),
{
    lemma_scan_finds_first_executable(name, dirs, probes, None, k);
}

/// Law: a name whose candidate exists in no directory of the search
/// path resolves to nothing at all.
pub proof fn lemma_resolve_nothing_exists_not_found(
    name: Seq<char>,
    dirs: Seq<Seq<char>>,
    probes: Seq<PathProbe>,
)
    requires
        dirs.len() == probes.len(),
        forall|j: int| 0 <= j < probes.len() ==> !(#[trigger] probes[j]).exists,
    ensures
        resolve_spec(name, dirs, probes) is NotFound,
    decreases dirs.len(),
{
    if dirs.len() > 0 {
        let dr = dirs.drop_first();
        let pr = probes.drop_first();
        assert forall|j: int| 0 <= j < pr.len() implies !(#[trigger] pr[j]).exists by {
            assert(pr[j] == probes[j + 1]);
        }
        lemma_resolve_nothing_exists_not_found(name, dr, pr);
    }
}

/// Resolve a command name.  `probes[k]` must say what the file system
/// holds at the candidate path for `name` in `dirs[k]`.
pub fn resolve(name: &str, dirs: &Vec<String>, probes: &Vec<PathProbe>) -> (r: ResolutionResult)
    requires
        dirs@.len() == probes@.len(),
    ensures
        r@ == resolve_spec(name@, dirs.deep_view(), probes@),
{
    let mut last_existing: Option<String> = None;
    let mut i: usize = 0;
    proof {
        assert(dirs.deep_view().subrange(0, dirs.deep_view().len() as int) =~= dirs.deep_view());
        assert(probes@.subrange(0, probes@.len() as int) =~= probes@);
    }
    while i < dirs.len()
        invariant
            dirs@.len() == probes@.len(),
            dirs.deep_view().len() == dirs@.len(),
            i <= dirs@.len(),
            resolve_spec(name@, dirs.deep_view(), probes@) == resolve_scan(
                name@,
                dirs.deep_view().subrange(i as int, dirs@.len() as int),
                probes@.subrange(i as int, probes@.len() as int),
                last_existing.deep_view(),
            ),
        decreases dirs@.len() - i,
    {
        let ghost dpre = dirs.deep_view().subrange(i as int, dirs@.len() as int);
        let ghost dpost = dirs.deep_view().subrange(i as int + 1, dirs@.len() as int);
        let ghost ppre = probes@.subrange(i as int, probes@.len() as int);
        let ghost ppost = probes@.subrange(i as int + 1, probes@.len() as int);
        proof {
            assert(dpre.drop_first() =~= dpost);
            assert(ppre.drop_first() =~= ppost);
            assert(dpre[0] == dirs.deep_view()[i as int]);
            assert(ppre[0] == probes@[i as int]);
            assert(dirs.deep_view()[i as int] == dirs@[i as int]@);
        }
        let probe = probes[i];
        if probe.exists && probe.executable {
            return ResolutionResult::Found(candidate_path(dirs[i].as_str(), name));
        } else if probe.exists {
            last_existing = Some(candidate_path(dirs[i].as_str(), name));
        }
        i = i + 1;
    }
    proof {
        assert(dirs.deep_view().subrange(dirs@.len() as int, dirs@.len() as int) =~= Seq::<
            Seq<char>,
        >::empty());
        assert(probes@.subrange(probes@.len() as int, probes@.len() as int) =~= Seq::<
            PathProbe,
        >::empty());
    }
    match last_existing {
        Some(p) => ResolutionResult::FoundNotExecutable(p),
        None => ResolutionResult::NotFound,
    }
}

} // verus!
