use shell_core::resolver::candidate_path;
use shell_core::resolver::is_executable_mode;
use shell_core::resolver::resolve;
use shell_core::resolver::split_search_path;
use shell_core::resolver::PathProbe;
use shell_core::resolver::ResolutionResult;

fn strings(parts: &[&str]) -> Vec<String> {
    parts.iter().map(|p| p.to_string()).collect()
}

const ABSENT: PathProbe = PathProbe {
    exists: false,
    executable: false,
};
const PLAIN: PathProbe = PathProbe {
    exists: true,
    executable: false,
};
const RUNNABLE: PathProbe = PathProbe {
    exists: true,
    executable: true,
};

#[test]
fn search_path_splits_on_colons() {
    assert_eq!(split_search_path("/bin:/usr/bin"), strings(&["/bin", "/usr/bin"]));
}

#[test]
fn search_path_keeps_empty_pieces() {
    assert_eq!(split_search_path("/bin::/usr/bin"), strings(&["/bin", "", "/usr/bin"]));
    assert_eq!(split_search_path(""), strings(&[""]));
}

#[test]
fn candidate_joins_with_a_separator() {
    assert_eq!(candidate_path("/usr/bin", "foo"), "/usr/bin/foo");
}

#[test]
fn candidate_adds_no_second_separator() {
    assert_eq!(candidate_path("/usr/bin/", "foo"), "/usr/bin/foo");
}

#[test]
fn candidate_in_an_empty_dir_is_the_bare_name() {
    assert_eq!(candidate_path("", "foo"), "foo");
}

#[test]
fn first_executable_candidate_wins() {
    let dirs = strings(&["/a", "/b"]);
    let r = resolve("foo", &dirs, &vec![RUNNABLE, RUNNABLE]);
    assert_eq!(r, ResolutionResult::Found("/a/foo".to_string()));
}

#[test]
fn scan_passes_a_non_executable_match_for_a_later_executable_one() {
    let dirs = strings(&["/a", "/b"]);
    let r = resolve("foo", &dirs, &vec![PLAIN, RUNNABLE]);
    assert_eq!(r, ResolutionResult::Found("/b/foo".to_string()));
}

#[test]
fn only_non_executable_matches_report_the_last_one() {
    let dirs = strings(&["/a", "/b", "/c"]);
    let r = resolve("foo", &dirs, &vec![PLAIN, ABSENT, PLAIN]);
    assert_eq!(r, ResolutionResult::FoundNotExecutable("/c/foo".to_string()));
}

#[test]
fn a_name_that_exists_nowhere_is_not_found() {
    let dirs = strings(&["/a", "/b"]);
    let r = resolve("foo", &dirs, &vec![ABSENT, ABSENT]);
    assert_eq!(r, ResolutionResult::NotFound);
}

#[test]
fn an_empty_search_path_list_is_not_found() {
    let r = resolve("foo", &strings(&[]), &vec![]);
    assert_eq!(r, ResolutionResult::NotFound);
}

#[test]
fn executability_needs_a_regular_file_and_a_permission_bit() {
    assert!(is_executable_mode(true, 0o755));
    assert!(is_executable_mode(true, 0o100));
    assert!(is_executable_mode(true, 0o010));
    assert!(is_executable_mode(true, 0o001));
    assert!(!is_executable_mode(true, 0o644));
    assert!(!is_executable_mode(false, 0o755));
}
