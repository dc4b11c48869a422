//! Tests of input classification, candidate enumeration, and command
//! resolution.

use quickrun::resolver::candidate_paths;
use quickrun::resolver::default_extensions;
use quickrun::resolver::first_existing;
use quickrun::resolver::is_explicit_path;
use quickrun::resolver::resolve_on_path;
use quickrun::resolver::run_command;
use quickrun::text::split_list;
use quickrun::text::str_contains;
use quickrun::text::str_ends_with;
use quickrun::text::trim_str;

fn strings(v: &[&str]) -> Vec<String> {
    v.iter().map(|s| String::from(*s)).collect()
}

#[test]
fn classification_explicit_paths() {
    assert!(is_explicit_path("C:\\Windows\\notepad.exe"));
    assert!(is_explicit_path(".\\script.bat"));
    assert!(is_explicit_path("folder\\app.exe"));
    assert!(is_explicit_path("folder/app"));
    assert!(is_explicit_path("C:"));
    assert!(is_explicit_path("a:b"));
}

#[test]
fn classification_bare_commands() {
    assert!(!is_explicit_path("notepad"));
    assert!(!is_explicit_path("calc"));
    assert!(!is_explicit_path("foo.bat"));
    assert!(!is_explicit_path(""));
}

#[test]
fn search_order_directory_major() {
    let dirs = strings(&["D1", "D2"]);
    let exts = strings(&[".EXE", ".BAT"]);
    let cands = candidate_paths("foo", &dirs, &exts);
    assert_eq!(
        cands,
        strings(&["D1\\foo.EXE", "D1\\foo.BAT", "D2\\foo.EXE", "D2\\foo.BAT"])
    );
}

#[test]
fn second_directory_found_after_first_exhausted() {
    let dirs = strings(&["D1", "D2"]);
    let exts = strings(&[".EXE", ".BAT"]);
    let cands = candidate_paths("foo", &dirs, &exts);
    // Only D2\foo.BAT exists: every D1 candidate and D2\foo.EXE miss first.
    let present = vec![false, false, false, true];
    let hit = first_existing(&cands, &present);
    assert_eq!(hit, Some(String::from("D2\\foo.BAT")));
}

#[test]
fn first_hit_wins_in_order() {
    let dirs = strings(&["D1", "D2"]);
    let exts = strings(&[".EXE", ".BAT"]);
    let cands = candidate_paths("foo", &dirs, &exts);
    let present = vec![false, true, false, true];
    assert_eq!(first_existing(&cands, &present), Some(String::from("D1\\foo.BAT")));
}

#[test]
fn dotted_command_uses_exact_name_only() {
    let dirs = strings(&["D1", "D2"]);
    let exts = strings(&[".EXE", ".BAT"]);
    let cands = candidate_paths("foo.bat", &dirs, &exts);
    assert_eq!(cands, strings(&["D1\\foo.bat", "D2\\foo.bat"]));
    // The extension list makes no difference for a dotted command.
    let other = candidate_paths("foo.bat", &dirs, &strings(&[".COM"]));
    assert_eq!(cands, other);
}

#[test]
fn empty_directory_list_never_resolves() {
    let dirs: Vec<String> = Vec::new();
    let exts = strings(&[".EXE"]);
    assert_eq!(resolve_on_path("anything", &dirs, &exts), None);
}

#[test]
fn empty_input_is_rejected() {
    let dirs = strings(&["D1"]);
    let exts = strings(&[".EXE"]);
    assert_eq!(
        run_command("", &dirs, &exts),
        Err(String::from("Please enter a command"))
    );
    assert_eq!(
        run_command("   \t  ", &dirs, &exts),
        Err(String::from("Please enter a command"))
    );
}

#[test]
fn explicit_path_missing_file_is_an_error() {
    let dirs = strings(&["D1"]);
    let exts = strings(&[".EXE"]);
    let r = run_command("  C:\\surely\\missing\\prog.exe  ", &dirs, &exts);
    assert_eq!(
        r,
        Err(String::from("File not found: C:\\surely\\missing\\prog.exe"))
    );
}

#[test]
fn unresolved_bare_command_is_an_error() {
    let dirs = strings(&["no-such-dir-one", "no-such-dir-two"]);
    let exts = strings(&[".EXE", ".BAT"]);
    let r = run_command("nosuchprogramzz", &dirs, &exts);
    assert_eq!(
        r,
        Err(String::from(
            "'nosuchprogramzz' is not recognized as a command or program"
        ))
    );
}

#[test]
fn default_extension_list() {
    assert_eq!(default_extensions(), strings(&[".COM", ".EXE", ".BAT", ".CMD"]));
}

#[test]
fn split_keeps_order_and_empty_pieces() {
    assert_eq!(split_list("a;b;;c", ';'), strings(&["a", "b", "", "c"]));
    assert_eq!(split_list("", ';'), strings(&[""]));
    assert_eq!(split_list(";", ';'), strings(&["", ""]));
    assert_eq!(split_list("one", ';'), strings(&["one"]));
}

#[test]
fn trimming_strips_both_ends() {
    assert_eq!(trim_str("  hi\t"), String::from("hi"));
    assert_eq!(trim_str("hi"), String::from("hi"));
    assert_eq!(trim_str(" \r\n "), String::from(""));
    assert_eq!(trim_str("a b"), String::from("a b"));
}

#[test]
fn trimming_covers_unicode_whitespace() {
    // Vertical tab, no-break space, and ideographic space all trim,
    // exactly as `str::trim` would remove them.
    let input = "\u{0B}\u{A0} hi \u{3000}\u{2028}";
    assert_eq!(trim_str(input), String::from("hi"));
    assert_eq!(trim_str(input), String::from(input.trim()));
    assert_eq!(trim_str("\u{1680}\u{200A}"), String::from(""));
}

#[test]
fn substring_and_suffix_tests() {
    assert!(str_contains("quickrun-setup", "setup"));
    assert!(!str_contains("quickrun", "portable"));
    assert!(str_contains("abc", ""));
    assert!(str_ends_with("setup.exe", ".exe"));
    assert!(!str_ends_with("setup.msi", ".exe"));
    assert!(!str_ends_with("exe", ".exe"));
}
