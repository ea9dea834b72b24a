use linux_practice_lab::install::{plan_install, skip_install, staging_name, verification_failure};
use linux_practice_lab::integrity::{FileVerdict, Manifest, ManifestEntry, VerificationReport};
use linux_practice_lab::lesson::{ArrayItem, ParamValue, Validator};
use linux_practice_lab::sys::{
    parse_groups, parse_passwd, CommandOutput, FileKind, GroupEntry, PasswdEntry, ProcessFacts,
    SocketFacts,
};
use linux_practice_lab::validation::{CheckOutcome, FailureCategory};
use linux_practice_lab::validators::args::{apply_overrides, path};
use linux_practice_lab::validators::filesystem::{
    current_directory, directory_contains, directory_empty, directory_exists, directory_missing,
    file_checksum, file_contains, file_exists, file_group, file_line_count, file_matches_regex,
    file_missing, file_mode, file_owner, file_size, file_type, file_type_follows_links,
    hard_link_exists, read_failure, symbolic_link_exists, visible_entries,
};
use linux_practice_lab::validators::identity::{
    acl_contains, group_exists, group_membership, home_directory, login_shell, password_locked,
    sudo_arguments, sudo_permission, user_exists, user_missing,
};
use linux_practice_lab::validators::network::{
    default_route, dns_resolution, firewall_rule, http_status, interface_exists, interface_state,
    route_exists, tcp_connection, udp_listener, wait_seconds,
};
use linux_practice_lab::validators::package::{
    apt_cache_updated, dpkg_status, package_installed, package_removed, package_version,
    repository_configured,
};
use linux_practice_lab::validators::process::{
    background_job_running, candidate_processes, process_count, process_not_running,
    process_owner, process_running, process_signal_received, signal_log_path,
};
use linux_practice_lab::validators::script::{
    case_failure, fixture_cases, fixture_dir, idempotent_runs, idempotent_step, script_command,
    script_executable, script_exists, script_exit_code, stdout_exact, unit_test_verdict,
};
use linux_practice_lab::validators::service::{
    journal_arguments, port_listening, safe_unit, service_failed, service_state,
    service_state_query, unit_file_valid,
};
use linux_practice_lab::validators::{refused_by_registry, unhandled, Ctx};

fn text(s: &str) -> ParamValue {
    ParamValue::String(s.to_string())
}

fn integer(n: i64) -> ParamValue {
    ParamValue::Integer(n)
}

fn yes() -> ParamValue {
    ParamValue::Bool(true)
}

fn list(items: &[&str]) -> ParamValue {
    ParamValue::Array(items.iter().map(|s| ArrayItem::Text(s.to_string())).collect())
}

fn ran(status: i32, stdout: &str, stderr: &str) -> Result<CommandOutput, String> {
    Ok(CommandOutput {
        status,
        stdout: stdout.to_string(),
        stderr: stderr.to_string(),
        timed_out: false,
    })
}

fn passwd() -> Vec<PasswdEntry> {
    parse_passwd(
        "root:x:0:0:root:/root:/bin/bash\n\
         daemon:x:1:1:daemon:/usr/sbin:/usr/sbin/nologin\n\
         student:x:1000:1000:Student:/home/student:/bin/bash\n",
    )
    .unwrap()
}

fn groups() -> Vec<GroupEntry> {
    parse_groups("root:x:0:\nadm:x:4:student\nstudent:x:1000:\ndevelopers:x:1001:\n").unwrap()
}

fn process(pid: u32, ppid: u32, uid: u32, cmdline: &str) -> ProcessFacts {
    ProcessFacts {
        pid,
        ppid,
        uid,
        cmdline: cmdline.to_string(),
        comm: cmdline.split(' ').next().unwrap_or("").to_string(),
        session_id: 1,
        tpgid: -1,
        pgrp: pid,
    }
}

// --- filesystem -------------------------------------------------------------------------

#[test]
fn file_exists_passes_for_a_regular_file() {
    let v = Validator::new("file_exists").with("path", text("/tmp/present.txt"));
    let outcome = file_exists(&v, Some(FileKind::Regular));
    assert!(outcome.passed, "{}", outcome.message);
    assert_eq!(outcome.message, "/tmp/present.txt exists.");
}

#[test]
fn file_exists_distinguishes_a_directory_from_a_missing_path() {
    let v = Validator::new("file_exists").with("path", text("/tmp/dir"));
    let dir = file_exists(&v, Some(FileKind::Directory));
    assert!(!dir.passed);
    assert_eq!(dir.failure_category, Some(FailureCategory::WrongFileType));
    assert_eq!(dir.observed.as_deref(), Some("directory"));
    let missing = file_exists(&v, None);
    assert_eq!(missing.failure_category, Some(FailureCategory::WrongPath));
}

#[test]
fn directory_exists_names_the_closest_existing_parent() {
    let v = Validator::new("directory_exists").with("path", text("/tmp/a/b/c"));
    let outcome = directory_exists(&v, None, Some("/tmp/a"));
    assert!(!outcome.passed);
    assert_eq!(
        outcome.message,
        "The directory /tmp/a/b/c does not exist. The closest existing directory is /tmp/a."
    );
    let no_hint = directory_exists(&v, None, None);
    assert_eq!(no_hint.message, "The directory /tmp/a/b/c does not exist.");
}

#[test]
fn file_mode_compares_through_a_mask() {
    let exact = Validator::new("file_mode")
        .with("path", text("/tmp/f"))
        .with("mode", text("0640"));
    assert!(file_mode(&exact, Some(0o640)).passed);
    let wrong = file_mode(&exact, Some(0o644));
    assert!(!wrong.passed);
    assert_eq!(wrong.expected.as_deref(), Some("0640"));
    assert_eq!(wrong.observed.as_deref(), Some("0644"));

    let masked = Validator::new("file_mode")
        .with("path", text("/tmp/f"))
        .with("mode", text("0000"))
        .with("mask", text("0020"));
    assert!(file_mode(&masked, Some(0o755)).passed);
    let writable = file_mode(&masked, Some(0o775));
    assert!(!writable.passed);
    assert_eq!(writable.expected.as_deref(), Some("0000 in the bits 0020"));
}

#[test]
fn an_unparseable_mode_is_an_authoring_error() {
    let v = Validator::new("file_mode")
        .with("path", text("/tmp/f"))
        .with("mode", text("rwx"));
    let outcome = file_mode(&v, Some(0o644));
    assert!(outcome.errored);
    assert_eq!(outcome.message, "the mode parameter is not a valid octal mode");
}

#[test]
fn file_contains_can_ignore_case_and_indentation() {
    let content = Ok("server {\n    Listen 8080;\n}\n".to_string());
    let strict = Validator::new("file_contains")
        .with("path", text("/etc/site"))
        .with("text", text("listen 8080;"));
    assert!(!file_contains(&strict, content.clone()).passed);
    let relaxed = strict
        .clone()
        .with("caseSensitive", ParamValue::Bool(false))
        .with("trim", yes());
    assert!(file_contains(&relaxed, content.clone()).passed);
    let indented = Validator::new("file_contains")
        .with("path", text("/etc/site"))
        .with("text", text("{\nListen 8080;"))
        .with("trim", yes());
    assert!(file_contains(&indented, content).passed);
}

#[test]
fn a_file_that_cannot_be_read_reports_why() {
    let failure = read_failure("/etc/shadow", true, "Permission denied");
    assert_eq!(failure.kind, "read");
    assert_eq!(failure.message, "/etc/shadow could not be read (Permission denied).");
    assert_eq!(failure.failure_category, Some(FailureCategory::PermissionDenied));
    let v = Validator::new("file_contains")
        .with("path", text("/etc/shadow"))
        .with("text", text("x"));
    assert_eq!(file_contains(&v, Err(failure.clone())), failure);
}

#[test]
fn a_bad_regex_is_an_authoring_error_not_a_learner_failure() {
    let v = Validator::new("file_matches_regex")
        .with("path", text("/tmp/f"))
        .with("pattern", text("([unclosed"));
    let outcome = file_matches_regex(&v, Ok("anything".to_string()));
    assert!(outcome.errored);
    assert!(outcome.message.starts_with("the pattern is not a valid regex: "));
}

#[test]
fn a_regex_matches_at_line_starts_by_default() {
    let v = Validator::new("file_matches_regex")
        .with("path", text("/etc/hosts"))
        .with("pattern", text("^10\\.0\\.0\\.5\\s+web$"));
    assert!(file_matches_regex(&v, Ok("127.0.0.1 localhost\n10.0.0.5 web\n".to_string())).passed);
    let single = v.clone().with("multiline", ParamValue::Bool(false));
    let outcome = file_matches_regex(&single, Ok("127.0.0.1 localhost\n10.0.0.5 web\n".to_string()));
    assert!(!outcome.passed);
    assert_eq!(outcome.expected.as_deref(), Some("^10\\.0\\.0\\.5\\s+web$"));
}

#[test]
fn line_counting_matches_wc_l() {
    let v = Validator::new("file_line_count")
        .with("path", text("/tmp/f"))
        .with("equals", integer(3));
    assert!(file_line_count(&v, Ok("a\nb\nc\n".to_string())).passed);
    let short = file_line_count(&v, Ok("a\nb\n".to_string()));
    assert!(!short.passed);
    assert_eq!(short.expected.as_deref(), Some("exactly 3"));
    assert_eq!(short.observed.as_deref(), Some("2"));
}

#[test]
fn hard_link_detection_rejects_a_copy() {
    let v = Validator::new("hard_link_exists")
        .with("path", text("/tmp/a"))
        .with("linkTo", text("/tmp/b"));
    let linked = hard_link_exists(&v, Some(42), Some(42));
    assert!(linked.passed);
    assert_eq!(linked.message, "/tmp/a and /tmp/b are the same file (inode 42).");
    let copy = hard_link_exists(&v, Some(42), Some(43));
    assert!(!copy.passed);
    assert_eq!(copy.observed.as_deref(), Some("inodes 42 and 43"));
}

#[test]
fn symlink_target_is_compared_without_following_it() {
    let v = Validator::new("symbolic_link_exists")
        .with("path", text("/tmp/link"))
        .with("target", text("/tmp/real"));
    assert!(symbolic_link_exists(&v, Some(FileKind::Symlink), Some("/tmp/real")).passed);
    let elsewhere = symbolic_link_exists(&v, Some(FileKind::Symlink), Some("/tmp/other"));
    assert!(!elsewhere.passed);
    assert_eq!(elsewhere.observed.as_deref(), Some("/tmp/other"));
    let regular = symbolic_link_exists(&v, Some(FileKind::Regular), None);
    assert_eq!(regular.failure_category, Some(FailureCategory::WrongFileType));
    let broken = symbolic_link_exists(&v, Some(FileKind::Symlink), None);
    assert_eq!(broken.message, "/tmp/link is a broken symbolic link.");
}

#[test]
fn file_type_symlink_does_not_follow_the_link() {
    let v = Validator::new("file_type")
        .with("path", text("/tmp/link"))
        .with("fileType", text("symlink"));
    assert!(!file_type_follows_links(&v));
    assert!(file_type(&v, Some(FileKind::Symlink)).passed);
    let dir = Validator::new("file_type")
        .with("path", text("/tmp"))
        .with("fileType", text("directory"));
    assert!(file_type_follows_links(&dir));
    assert!(!file_type(&dir, Some(FileKind::Regular)).passed);
}

#[test]
fn file_size_uses_the_bounds() {
    let v = Validator::new("file_size")
        .with("path", text("/tmp/f"))
        .with("min", integer(10));
    assert!(file_size(&v, Some(10)).passed);
    let small = file_size(&v, Some(3));
    assert_eq!(small.expected.as_deref(), Some("at least 10 bytes"));
    assert_eq!(small.observed.as_deref(), Some("3 bytes"));
}

#[test]
fn owners_are_named_or_numbered() {
    let v = Validator::new("file_owner")
        .with("path", text("/srv/app"))
        .with("owner", text("student"));
    assert!(file_owner(&v, Some(1000), &passwd()).passed);
    let unknown = file_owner(&v, Some(4242), &passwd());
    assert_eq!(unknown.observed.as_deref(), Some("4242"));
    let g = Validator::new("file_group")
        .with("path", text("/srv/app"))
        .with("group", text("developers"));
    assert!(file_group(&g, Some(1001), &groups()).passed);
    assert_eq!(file_group(&g, Some(0), &groups()).observed.as_deref(), Some("root"));
}

#[test]
fn directory_contains_reports_exactly_what_is_missing() {
    let v = Validator::new("directory_contains")
        .with("path", text("/srv/site"))
        .with("entries", list(&["index.html", "style.css", "app.js"]));
    let outcome = directory_contains(&v, Ok(vec!["index.html".to_string()]));
    assert!(!outcome.passed);
    assert_eq!(outcome.message, "/srv/site is missing style.css, app.js.");
    assert_eq!(outcome.observed.as_deref(), Some("index.html"));
    let empty = directory_contains(&v, Ok(vec![]));
    assert_eq!(empty.observed.as_deref(), Some("an empty directory"));
}

#[test]
fn directory_contains_exact_rejects_extra_entries() {
    let v = Validator::new("directory_contains")
        .with("path", text("/srv/site"))
        .with("entries", list(&["a", "b"]))
        .with("exact", yes());
    let outcome = directory_contains(&v, Ok(vec!["a".to_string(), "b".to_string(), "junk".to_string()]));
    assert!(!outcome.passed);
    assert_eq!(outcome.message, "/srv/site also contains junk, which should not be there.");
    assert_eq!(outcome.expected.as_deref(), Some("only a, b"));
    assert!(directory_contains(&v, Ok(vec!["a".to_string(), "b".to_string()])).passed);
}

#[test]
fn directory_empty_ignores_hidden_files_when_asked() {
    let names = vec![".cache".to_string(), "b".to_string(), "a".to_string()];
    assert_eq!(visible_entries(names.clone(), false), vec!["a", "b"]);
    assert_eq!(visible_entries(names, true), vec![".cache", "a", "b"]);
    let v = Validator::new("directory_empty").with("path", text("/tmp/d"));
    assert!(directory_empty(&v, Ok(visible_entries(vec![".keep".to_string()], false))).passed);
    let busy = directory_empty(&v, Ok(visible_entries(vec![".keep".to_string()], true)));
    assert!(!busy.passed);
    assert_eq!(busy.observed.as_deref(), Some(".keep"));
}

#[test]
fn file_missing_passes_for_a_dangling_symlink_target_but_not_the_link() {
    let target = Validator::new("file_missing").with("path", text("/tmp/target"));
    assert!(file_missing(&target, false).passed);
    let link = Validator::new("file_missing").with("path", text("/tmp/link"));
    let outcome = file_missing(&link, true);
    assert!(!outcome.passed);
    assert_eq!(outcome.failure_category, Some(FailureCategory::FileAlreadyExists));
}

#[test]
fn directory_missing_accepts_a_file_in_its_place() {
    let v = Validator::new("directory_missing").with("path", text("/tmp/x"));
    assert!(directory_missing(&v, Some(FileKind::Regular)).passed);
    assert!(!directory_missing(&v, Some(FileKind::Directory)).passed);
}

#[test]
fn checksums_compare_ignoring_letter_case() {
    let v = Validator::new("file_checksum")
        .with("path", text("/tmp/f"))
        .with("sha256", text("ABCDEF"));
    assert!(file_checksum(&v, ran(0, "abcdef  /tmp/f\n", "")).passed);
    let other = file_checksum(&v, ran(0, "123456  /tmp/f\n", ""));
    assert_eq!(other.observed.as_deref(), Some("123456"));
    let missing = file_checksum(&v, ran(1, "", "No such file"));
    assert_eq!(missing.message, "/tmp/f could not be hashed. Does it exist?");
}

#[test]
fn the_working_directory_check_resolves_links_by_default() {
    let v = Validator::new("current_directory").with("path", text("/home/student/work"));
    let same = current_directory(&v, "student", Some(77), Some("/home/student/w"), ("/data/work", "/data/work"));
    assert!(same.passed);
    assert_eq!(same.message, "Your shell is in /home/student/w.");
    let raw = v.clone().with("resolveSymlinks", ParamValue::Bool(false));
    assert!(!current_directory(&raw, "student", Some(77), Some("/home/student/w"), ("/data/work", "/data/work")).passed);
    let no_shell = current_directory(&v, "student", None, None, ("", ""));
    assert!(no_shell.errored);
    assert_eq!(no_shell.message, "could not find an interactive shell for student to inspect");
}

// --- identity ---------------------------------------------------------------------------

#[test]
fn root_exists_on_any_linux_host() {
    let outcome = user_exists(&Validator::new("user_exists").with("user", text("root")), Some(&passwd()));
    assert!(outcome.passed, "{}", outcome.message);
    assert_eq!(outcome.observed.as_deref(), Some("uid 0"));
}

#[test]
fn root_fails_a_regular_user_uid_floor() {
    let outcome = user_exists(
        &Validator::new("user_exists")
            .with("user", text("root"))
            .with("uidMin", integer(1000)),
        Some(&passwd()),
    );
    assert!(!outcome.passed);
    assert!(outcome.message.contains("system"), "{}", outcome.message);
}

#[test]
fn an_invented_account_is_reported_missing() {
    let outcome = user_exists(
        &Validator::new("user_exists").with("user", text("definitely-not-a-user-xyzzy")),
        Some(&passwd()),
    );
    assert!(!outcome.passed);
    let inverse = user_missing(
        &Validator::new("user_missing").with("user", text("definitely-not-a-user-xyzzy")),
        Some(&passwd()),
    );
    assert!(inverse.passed);
}

#[test]
fn root_group_membership_is_detected_through_the_primary_gid() {
    let outcome = group_membership(
        &Validator::new("group_membership")
            .with("user", text("root"))
            .with("group", text("root")),
        Some(&passwd()),
        Some(&groups()),
    );
    assert!(outcome.passed, "{}", outcome.message);
}

#[test]
fn group_membership_failure_lists_the_groups_the_user_is_actually_in() {
    let outcome = group_membership(
        &Validator::new("group_membership")
            .with("user", text("student"))
            .with("group", text("developers")),
        Some(&passwd()),
        Some(&groups()),
    );
    assert!(!outcome.passed);
    assert_eq!(outcome.observed.as_deref(), Some("adm, student"));
    assert!(outcome.message.contains("already open"), "{}", outcome.message);
}

#[test]
fn login_shell_mismatch_reports_both_sides() {
    let outcome = login_shell(
        &Validator::new("login_shell")
            .with("user", text("root"))
            .with("shell", text("/definitely/not/a/shell")),
        Some(&passwd()),
    );
    assert!(!outcome.passed);
    assert_eq!(outcome.expected.as_deref(), Some("/definitely/not/a/shell"));
    assert_eq!(outcome.observed.as_deref(), Some("/bin/bash"));
}

#[test]
fn home_directory_must_exist_only_when_asked() {
    let lenient = home_directory(
        &Validator::new("home_directory")
            .with("user", text("root"))
            .with("path", text("/root")),
        Some(&passwd()),
        false,
    );
    assert!(lenient.passed, "{}", lenient.message);
    let strict = home_directory(
        &Validator::new("home_directory")
            .with("user", text("root"))
            .with("path", text("/root"))
            .with("mustExist", yes()),
        Some(&passwd()),
        false,
    );
    assert!(!strict.passed);
    assert!(strict.message.contains("does not exist"), "{}", strict.message);
}

#[test]
fn a_nonexistent_group_is_a_clear_failure_not_an_error() {
    let outcome = group_exists(
        &Validator::new("group_exists").with("group", text("definitely-not-a-group-xyzzy")),
        Some(&groups()),
    );
    assert!(!outcome.passed);
    assert!(!outcome.errored);
}

#[test]
fn an_unreadable_account_database_is_an_error() {
    let outcome = user_exists(&Validator::new("user_exists").with("user", text("root")), None);
    assert!(outcome.errored);
    assert_eq!(outcome.message, "could not read /etc/passwd");
}

#[test]
fn password_locking_reads_the_shadow_hash() {
    let shadow = "root:*:19000:0:99999:7:::\nstudent:$6$abc:19000:0:99999:7:::\n";
    let locked = Validator::new("password_locked").with("user", text("root"));
    let outcome = password_locked(&locked, Some(shadow));
    assert!(outcome.passed);
    assert_eq!(outcome.message, "The password for root is locked.");
    let student = Validator::new("password_locked").with("user", text("student"));
    let usable = password_locked(&student, Some(shadow));
    assert!(!usable.passed);
    assert_eq!(usable.observed.as_deref(), Some("not locked"));
    assert!(password_locked(&student, None).errored);
}

#[test]
fn sudo_rules_are_asked_of_sudo_itself() {
    let v = Validator::new("sudo_permission")
        .with("user", text("student"))
        .with("command", text("/usr/bin/apt"));
    assert_eq!(sudo_arguments(&v).unwrap(), vec!["-l", "-U", "student", "--", "/usr/bin/apt"]);
    let allowed = sudo_permission(&v, ran(0, "/usr/bin/apt\n", ""));
    assert!(allowed.passed);
    assert_eq!(allowed.message, "student may run /usr/bin/apt with sudo.");
    let general = Validator::new("sudo_permission").with("user", text("guest"));
    let denied = sudo_permission(&general, ran(0, "User guest is not allowed to run sudo on lab.\n", ""));
    assert!(!denied.passed);
    assert_eq!(denied.message, "guest cannot use sudo yet.");
}

#[test]
fn acl_entries_are_matched_line_by_line() {
    let out = "# file: srv\nuser::rwx\nuser:student:r-x\ndefault:user:student:rwx\n";
    let v = Validator::new("acl_contains")
        .with("path", text("/srv"))
        .with("entry", text("user:student:rwx"));
    assert!(!acl_contains(&v, ran(0, out, "")).passed);
    let default = v.clone().with("isDefault", yes());
    assert!(acl_contains(&default, ran(0, out, "")).passed);
    let missing = acl_contains(&v, ran(0, out, ""));
    assert_eq!(missing.observed.as_deref(), Some("user::rwx, user:student:r-x, default:user:student:rwx"));
}

// --- packages ---------------------------------------------------------------------------

#[test]
fn dpkg_status_splits_state_and_version() {
    let out = CommandOutput { status: 0, stdout: "installed 2.4.1-1\n".to_string(), stderr: String::new(), timed_out: false };
    assert_eq!(dpkg_status(&out), Some(("installed".to_string(), "2.4.1-1".to_string())));
    let unknown = CommandOutput { status: 1, stdout: String::new(), stderr: "no packages".to_string(), timed_out: false };
    assert_eq!(dpkg_status(&unknown), None);
}

#[test]
fn package_states_are_explained() {
    let v = Validator::new("package_installed").with("package", text("tree"));
    assert!(package_installed(&v, Some(("installed".to_string(), "2.1".to_string()))).passed);
    let config = package_installed(&v, Some(("config-files".to_string(), "2.1".to_string())));
    assert_eq!(config.message, "tree is known to the system but its state is 'config-files' rather than installed.");
    let purge = Validator::new("package_removed")
        .with("package", text("tree"))
        .with("purged", yes());
    assert!(!package_removed(&purge, Some(("config-files".to_string(), String::new()))).passed);
    assert!(package_removed(&purge, None).passed);
}

#[test]
fn a_missing_source_uri_is_reported_with_the_files_that_were_searched() {
    let v = Validator::new("repository_configured")
        .with("uri", text("file:/opt/linuxlab/repository"))
        .with("file", text("/definitely/not/a/sources.list"));
    let outcome = repository_configured(&v, &vec![]);
    assert!(!outcome.passed);
    assert!(!outcome.errored);
    let searched = repository_configured(
        &v,
        &vec![("/etc/apt/sources.list".to_string(), "deb http://deb.debian.org/debian trixie main\n".to_string())],
    );
    assert_eq!(searched.observed.as_deref(), Some("/etc/apt/sources.list"));
}

#[test]
fn commented_out_sources_do_not_count() {
    let v = Validator::new("repository_configured").with("uri", text("file:/opt/linuxlab/repository"));
    let sources = vec![(
        "/tmp/linuxlab.list".to_string(),
        "# deb [trusted=yes] file:/opt/linuxlab/repository stable main\n".to_string(),
    )];
    assert!(!repository_configured(&v, &sources).passed, "a commented line is not a configured source");
}

#[test]
fn an_active_source_line_counts() {
    let v = Validator::new("repository_configured").with("uri", text("file:/opt/linuxlab/repository"));
    let sources = vec![(
        "/tmp/linuxlab.list".to_string(),
        "deb [trusted=yes] file:/opt/linuxlab/repository stable main\n".to_string(),
    )];
    let outcome = repository_configured(&v, &sources);
    assert!(outcome.passed, "{}", outcome.message);
    assert_eq!(outcome.observed.as_deref(), Some("/tmp/linuxlab.list"));
}

#[test]
fn apt_freshness_failure_explains_the_fix() {
    let v = Validator::new("apt_cache_updated").with("maxAgeSeconds", integer(1));
    let stale = apt_cache_updated(&v, Some(7200));
    assert!(!stale.errored);
    assert!(stale.message.contains("apt update"), "{}", stale.message);
    assert_eq!(stale.expected.as_deref(), Some("refreshed within 1s"));
    let never = apt_cache_updated(&v, None);
    assert!(never.message.contains("apt update"));
    assert!(apt_cache_updated(&Validator::new("apt_cache_updated"), Some(3600)).passed);
}

#[test]
fn package_versions_are_compared_by_dpkg() {
    let v = Validator::new("package_version")
        .with("package", text("nginx"))
        .with("version", text("1.22"))
        .with("comparison", text("ge"));
    let ok = package_version(&v, Some(("installed".to_string(), "1.24".to_string())), ran(0, "", ""));
    assert_eq!(ok.message, "nginx 1.24 satisfies ge 1.22.");
    let old = package_version(&v, Some(("installed".to_string(), "1.18".to_string())), ran(1, "", ""));
    assert_eq!(old.expected.as_deref(), Some("ge 1.22"));
}

// --- processes --------------------------------------------------------------------------

#[test]
fn the_agent_never_matches_its_own_process_tree() {
    let all = vec![
        process(1, 0, 0, "/sbin/init"),
        process(100, 1, 0, "linuxlab-agent"),
        process(101, 100, 0, "runuser -u student -- bash -lc sleep 300"),
        process(102, 101, 1000, "bash -lc sleep 300"),
        process(103, 102, 1000, "sleep 300"),
        process(200, 1, 1000, "sleep 300"),
    ];
    let candidates = candidate_processes(&all, 100);
    let pids: Vec<u32> = candidates.iter().map(|p| p.pid).collect();
    assert_eq!(pids, vec![1, 200]);
}

#[test]
fn a_pattern_that_cannot_compile_is_an_authoring_error() {
    let outcome = process_running(
        &Validator::new("process_running").with("pattern", text("([bad")),
        &vec![],
        &passwd(),
    );
    assert!(outcome.errored);
    assert!(outcome.message.contains("not a valid regex"), "{}", outcome.message);
}

#[test]
fn nothing_matching_a_nonsense_pattern_is_running() {
    let candidates = vec![process(1, 0, 0, "/sbin/init")];
    let outcome = process_not_running(
        &Validator::new("process_not_running").with("pattern", text("definitely-not-a-real-process-xyzzy")),
        &candidates,
    );
    assert!(outcome.passed, "{}", outcome.message);
}

#[test]
fn init_is_visible_and_owned_by_root() {
    let candidates = vec![process(1, 0, 0, "/sbin/init splash")];
    let outcome = process_running(
        &Validator::new("process_running").with("pattern", text("^/sbin/init|systemd|^init$")),
        &candidates,
        &passwd(),
    );
    assert!(!outcome.errored, "{}", outcome.message);
    assert!(outcome.passed);
    assert_eq!(outcome.observed.as_deref(), Some("pid 1 (/sbin/init splash)"));
}

#[test]
fn process_running_reports_the_requirement_when_it_fails() {
    let outcome = process_running(
        &Validator::new("process_running")
            .with("pattern", text("definitely-not-a-real-process-xyzzy"))
            .with("minCount", integer(2)),
        &vec![process(1, 0, 0, "/sbin/init")],
        &passwd(),
    );
    assert!(!outcome.passed);
    assert!(outcome.expected.unwrap().contains("at least 2"));
    assert_eq!(outcome.observed.as_deref(), Some("no matching process"));
}

#[test]
fn owner_check_reports_a_nonexistent_user_clearly() {
    let outcome = process_owner(
        &Validator::new("process_owner")
            .with("pattern", text("definitely-not-a-real-process-xyzzy"))
            .with("owner", text("nosuchuser")),
        &vec![process(1, 0, 0, "/sbin/init")],
        &passwd(),
    );
    assert!(!outcome.passed);
    assert_eq!(outcome.failure_category, Some(FailureCategory::ProcessNotRunning));
}

#[test]
fn process_owners_are_listed_once_each() {
    let candidates = vec![
        process(10, 1, 1000, "python3 -m http.server"),
        process(11, 1, 0, "python3 -m http.server"),
        process(12, 1, 1000, "python3 -m http.server"),
    ];
    let outcome = process_owner(
        &Validator::new("process_owner")
            .with("pattern", text("http\\.server"))
            .with("owner", text("student")),
        &candidates,
        &passwd(),
    );
    assert!(!outcome.passed);
    assert_eq!(outcome.observed.as_deref(), Some("root, student"));
    let count = process_count(
        &Validator::new("process_count")
            .with("pattern", text("http\\.server"))
            .with("equals", integer(3)),
        &candidates,
    );
    assert!(count.passed);
    assert_eq!(count.message, "3 matching process(es) are running.");
}

#[test]
fn signal_handles_are_sanitised_against_path_traversal() {
    let v = Validator::new("process_signal_received")
        .with("handle", text("../../etc/shadow"))
        .with("signal", text("SIGTERM"));
    assert_eq!(signal_log_path(&v).unwrap(), "/run/linuxlab/signals/etcshadow");
    let outcome = process_signal_received(&v, None);
    assert!(!outcome.passed);
    assert!(!outcome.message.contains("/etc/shadow"), "{}", outcome.message);
}

#[test]
fn an_empty_signal_handle_is_an_authoring_error() {
    let v = Validator::new("process_signal_received")
        .with("handle", text("///"))
        .with("signal", text("SIGTERM"));
    assert!(process_signal_received(&v, None).errored);
    assert!(signal_log_path(&v).is_err());
}

#[test]
fn recorded_signals_are_compared_line_by_line() {
    let v = Validator::new("process_signal_received")
        .with("handle", text("worker"))
        .with("signal", text("SIGTERM"));
    assert!(process_signal_received(&v, Some("SIGHUP\n SIGTERM \n")).passed);
    let other = process_signal_received(&v, Some("SIGHUP\n"));
    assert_eq!(other.observed.as_deref(), Some("SIGHUP"));
    let none = process_signal_received(&v, Some("\n"));
    assert_eq!(none.observed.as_deref(), Some("no signals"));
}

#[test]
fn a_background_job_is_outside_the_foreground_group() {
    let mut job = process(300, 250, 1000, "sleep 600");
    job.pgrp = 300;
    job.tpgid = 250;
    let v = Validator::new("background_job_running").with("pattern", text("^sleep 600$"));
    assert!(background_job_running(&v, "student", &vec![job.clone()], &passwd()).passed);
    let mut foreground = job.clone();
    foreground.tpgid = 300;
    assert!(!background_job_running(&v, "student", &vec![foreground], &passwd()).passed);
    let detached = v.clone().with("detached", yes());
    assert!(!background_job_running(&detached, "student", &vec![job.clone()], &passwd()).passed);
    let mut orphan = job;
    orphan.ppid = 1;
    assert!(background_job_running(&detached, "student", &vec![orphan], &passwd()).passed);
}

// --- services ---------------------------------------------------------------------------

#[test]
fn unit_names_that_could_inject_flags_are_rejected() {
    for bad in ["--all", "-h", "nginx; rm -rf /", "nginx service", ""] {
        let v = Validator::new("service_active").with("unit", text(bad));
        assert!(safe_unit(&v).is_err(), "should reject {bad:?}");
    }
}

#[test]
fn ordinary_and_templated_unit_names_are_accepted() {
    for good in ["nginx.service", "report-api", "getty@tty1.service", "my_unit.timer"] {
        let v = Validator::new("service_active").with("unit", text(good));
        assert_eq!(safe_unit(&v).unwrap(), good);
    }
}

#[test]
fn service_states_compare_the_printed_word() {
    assert_eq!(service_state_query("service_disabled"), Some(("is-enabled", "enabled", false)));
    let v = Validator::new("service_active").with("unit", text("nginx.service"));
    let active = service_state(&v, "is-active", "active", true, ran(0, "active\n", ""));
    assert!(active.passed);
    assert_eq!(active.message, "nginx.service is active.");
    let inactive = service_state(&v, "is-active", "active", true, ran(3, "inactive\n", ""));
    assert_eq!(
        inactive.message,
        "nginx.service is inactive. Check `systemctl status nginx.service` and `journalctl -u nginx.service`."
    );
    let failed = service_failed(&v, ran(0, "failed\n", ""));
    assert!(failed.passed);
    let complaints = unit_file_valid(&v, ran(0, "", "nginx.service:3: Unknown key\n"));
    assert_eq!(complaints.observed.as_deref(), Some("nginx.service:3: Unknown key"));
}

#[test]
fn journal_queries_name_the_attempt_unit_and_priority() {
    let mut ctx = Ctx::for_test("student");
    ctx.attempt_started_at = Some(1_700_000_000);
    let v = Validator::new("journal_contains")
        .with("text", text("started"))
        .with("unit", text("report-api"));
    assert_eq!(
        journal_arguments(&ctx, &v),
        vec!["--no-pager", "--output=cat", "--since", "@1700000000", "-u", "report-api"]
    );
}

#[test]
fn a_closed_port_is_reported_with_what_is_actually_listening() {
    let sockets = vec![
        SocketFacts { local_address: "0.0.0.0".to_string(), port: 22, listening: true, inode: 1 },
        SocketFacts { local_address: "127.0.0.1".to_string(), port: 631, listening: true, inode: 2 },
    ];
    let outcome = port_listening(&Validator::new("port_listening").with("port", integer(0)), &sockets);
    assert!(!outcome.passed);
    assert_eq!(outcome.failure_category, Some(FailureCategory::WrongPort));
    assert_eq!(outcome.observed.as_deref(), Some("listening on 22, 631"));
}

#[test]
fn a_missing_port_parameter_is_an_internal_error() {
    let outcome = port_listening(&Validator::new("port_listening"), &vec![]);
    assert!(outcome.errored);
}

#[test]
fn protocol_defaults_to_tcp() {
    let outcome = port_listening(&Validator::new("port_listening").with("port", integer(0)), &vec![]);
    assert!(outcome.message.contains("tcp"), "{}", outcome.message);
    assert_eq!(outcome.observed.as_deref(), Some("no listening sockets"));
}

#[test]
fn a_loopback_bind_is_called_out() {
    let sockets = vec![SocketFacts { local_address: "127.0.0.1".to_string(), port: 8080, listening: true, inode: 3 }];
    let v = Validator::new("port_listening")
        .with("port", integer(8080))
        .with("address", text("0.0.0.0"));
    let outcome = port_listening(&v, &sockets);
    assert!(!outcome.passed);
    assert_eq!(outcome.observed.as_deref(), Some("127.0.0.1"));
    let any = port_listening(&Validator::new("port_listening").with("port", integer(8080)), &sockets);
    assert_eq!(any.observed.as_deref(), Some("127.0.0.1:8080"));
}

// --- network ----------------------------------------------------------------------------

#[test]
fn a_missing_port_is_an_internal_error_not_a_learner_failure() {
    let outcome = udp_listener(&Validator::new("udp_listener"), &vec![]);
    assert!(outcome.errored);
}

#[test]
fn udp_port_zero_is_never_bound() {
    let sockets = vec![SocketFacts { local_address: "0.0.0.0".to_string(), port: 53, listening: true, inode: 4 }];
    let outcome = udp_listener(&Validator::new("udp_listener").with("port", integer(0)), &sockets);
    assert!(!outcome.passed);
    assert!(!outcome.errored);
}

#[test]
fn interfaces_and_their_state_are_judged_from_ip_output() {
    let link = "1: lo: <LOOPBACK,UP,LOWER_UP> mtu 65536 state UNKNOWN\n2: eth0@if7: <BROADCAST,UP,LOWER_UP> mtu 1500 state UP\n";
    let exists = interface_exists(&Validator::new("interface_exists").with("interface", text("eth0")), ran(0, link, ""));
    assert!(exists.passed);
    let missing = interface_exists(&Validator::new("interface_exists").with("interface", text("eth1")), ran(0, link, ""));
    assert_eq!(missing.observed.as_deref(), Some("lo, eth0"));
    let up = Validator::new("interface_state")
        .with("interface", text("lo"))
        .with("state", text("up"));
    assert!(interface_state(&up, ran(0, "1: lo: <LOOPBACK,UP,LOWER_UP> mtu 65536 state UNKNOWN mode DEFAULT", "")).passed);
    let down = interface_state(&up, ran(0, "2: eth0: <BROADCAST> mtu 1500 state DOWN mode DEFAULT", ""));
    assert_eq!(down.observed.as_deref(), Some("down"));
}

#[test]
fn routes_are_matched_by_destination_and_gateway() {
    let table = "default via 10.0.0.1 dev eth0\n10.20.0.0/24 via 10.0.0.254 dev eth0\n";
    let v = Validator::new("route_exists")
        .with("destination", text("10.20.0.0/24"))
        .with("via", text("10.0.0.254"));
    assert!(route_exists(&v, ran(0, table, "")).passed);
    let wrong = route_exists(&v.clone().with("dev", text("eth1")), ran(0, table, ""));
    assert_eq!(wrong.expected.as_deref(), Some("dev eth1"));
    let default = default_route(&Validator::new("default_route"), ran(0, "default via 10.0.0.1 dev eth0\n", ""));
    assert_eq!(default.observed.as_deref(), Some("default via 10.0.0.1 dev eth0"));
}

#[test]
fn dns_and_connections_report_what_happened() {
    let v = Validator::new("dns_resolution")
        .with("name", text("web.lab"))
        .with("expect", text("10.0.0.5"));
    assert!(dns_resolution(&v, ran(0, "10.0.0.5\n", "")).passed);
    let nothing = dns_resolution(&v, ran(0, "\n", ""));
    assert_eq!(nothing.observed.as_deref(), Some("no answer"));
    let tcp = Validator::new("tcp_connection")
        .with("host", text("web.lab"))
        .with("port", integer(80));
    assert_eq!(tcp_connection(&tcp, ran(0, "", "")).message, "A TCP connection to web.lab:80 works.");
    assert_eq!(wait_seconds(&tcp, 3000), 3);
    assert_eq!(wait_seconds(&tcp.clone().with("timeoutMs", integer(1500)), 3000), 2);
    assert_eq!(wait_seconds(&tcp.clone().with("timeoutMs", integer(-5)), 3000), 1);
    assert_eq!(wait_seconds(&tcp.with("timeoutMs", integer(120000)), 3000), 30);
}

#[test]
fn http_and_firewall_checks_read_the_tool_output() {
    let v = Validator::new("http_status")
        .with("url", text("http://web.lab/"))
        .with("status", integer(200));
    assert!(http_status(&v, Ok(CommandOutput { status: 0, stdout: "200".to_string(), stderr: String::new(), timed_out: false })).passed);
    let missing = http_status(&v, Ok(CommandOutput { status: 0, stdout: "404".to_string(), stderr: String::new(), timed_out: false }));
    assert_eq!(missing.message, "http://web.lab/ returned 404 rather than 200.");
    let rule = Validator::new("firewall_rule").with("contains", text("tcp dport 22 accept"));
    assert!(firewall_rule(&rule, ran(0, "table inet filter {\n chain input {\n  tcp dport 22 accept\n }\n}\n", "")).passed);
    assert!(firewall_rule(&rule, ran(1, "", "permission denied")).errored);
}

// --- scripts ----------------------------------------------------------------------------

#[test]
fn fixture_paths_cannot_escape_the_lesson_root() {
    let ctx = Ctx::for_test("student");
    let validator = Validator::new("unit_test_passes")
        .with("path", text("/home/student/x.sh"))
        .with("fixture", text("../../../etc"));
    let resolved = fixture_dir(&ctx, &validator).unwrap();
    assert!(!resolved.contains(".."), "{resolved}");
    assert!(resolved.starts_with(ctx.lesson_root()));
    assert_eq!(resolved, format!("{}/fixtures/etc", ctx.lesson_root()));
}

#[test]
fn script_without_a_shebang_is_reported_as_a_syntax_problem() {
    let v = Validator::new("script_exists").with("path", text("/home/student/run.sh"));
    let outcome = script_exists(&v, Some(FileKind::Regular), Some("echo hi\n"));
    assert!(!outcome.passed);
    assert_eq!(outcome.failure_category, Some(FailureCategory::ScriptSyntaxFailure));
    assert_eq!(outcome.observed.as_deref(), Some("echo hi"));
    let empty = script_exists(&v, Some(FileKind::Regular), Some(""));
    assert_eq!(empty.observed.as_deref(), Some("an empty first line"));
}

#[test]
fn script_with_a_shebang_passes_and_the_interpreter_can_be_required() {
    let v = Validator::new("script_exists").with("path", text("/home/student/run.sh"));
    assert!(script_exists(&v, Some(FileKind::Regular), Some("#!/bin/bash\necho hi\n")).passed);
    let python = v.clone().with("interpreter", text("python3"));
    let outcome = script_exists(&python, Some(FileKind::Regular), Some("#!/bin/bash\n"));
    assert!(!outcome.passed);
    assert_eq!(outcome.expected.as_deref(), Some("python3"));
}

#[test]
fn executability_is_checked_against_the_actual_bits() {
    let v = Validator::new("script_executable").with("path", text("/srv/run.sh"));
    assert!(script_executable(&v, Some((0, 0, 0o755)), &passwd(), &groups()).passed);
    let plain = script_executable(&v, Some((0, 0, 0o644)), &passwd(), &groups());
    assert!(!plain.passed);
    assert_eq!(plain.expected.as_deref(), Some("execute bit 0111"));
    let by_group = v.clone().with("forUser", text("student"));
    let outcome = script_executable(&by_group, Some((0, 4, 0o740)), &passwd(), &groups());
    assert!(!outcome.passed);
    assert_eq!(outcome.message, "/srv/run.sh is not executable by group members including student. Add the execute bit with chmod.");
    assert!(script_executable(&by_group, Some((0, 4, 0o750)), &passwd(), &groups()).passed);
}

#[test]
fn exit_codes_and_exact_output_are_compared() {
    let v = Validator::new("script_exit_code")
        .with("path", text("/home/student/my script.sh"))
        .with("exitCode", integer(2))
        .with("args", list(&["a b", "it's"]));
    assert_eq!(script_command(&v, "/home/student/my script.sh"), "'/home/student/my script.sh' 'a b' 'it'\\''s'");
    assert!(script_exit_code(&v, Ok(CommandOutput { status: 2, stdout: String::new(), stderr: String::new(), timed_out: false })).passed);
    let zero = script_exit_code(&v, Ok(CommandOutput { status: 0, stdout: String::new(), stderr: String::new(), timed_out: false }));
    assert_eq!(zero.observed.as_deref(), Some("0"));
    let exact = Validator::new("stdout_exact")
        .with("command", text("sort names.txt"))
        .with("expected", text("alice\nbob\n"));
    assert!(stdout_exact(&exact, Ok(CommandOutput { status: 0, stdout: "alice\nbob".to_string(), stderr: String::new(), timed_out: false })).passed);
    let wrong = stdout_exact(&exact, Ok(CommandOutput { status: 0, stdout: "bob\nalice\n".to_string(), stderr: String::new(), timed_out: false }));
    assert_eq!(wrong.observed.as_deref(), Some("bob / alice"));
}

#[test]
fn hidden_cases_name_only_the_failing_case() {
    assert_eq!(
        fixture_cases(vec!["case-2".to_string(), "notes".to_string(), "case-1".to_string()]),
        vec!["case-1", "case-2"]
    );
    assert_eq!(case_failure("case-1", false, "3\n", "3"), None);
    assert_eq!(case_failure("case-2", false, "4", "3").as_deref(), Some("case-2: output did not match"));
    assert_eq!(case_failure("case-3", true, "", "3").as_deref(), Some("case-3: did not finish in time"));
    let verdict = unit_test_verdict("unit_test_passes", 3, &vec!["case-2: output did not match".to_string()]);
    assert_eq!(
        verdict.message,
        "Your solution worked for 2 of 3 test cases. The failing cases use different data from the example, so look for anything that assumes the sample values."
    );
    assert!(unit_test_verdict("unit_test_passes", 3, &vec![]).passed);
}

#[test]
fn repeated_runs_must_agree() {
    assert_eq!(idempotent_runs(&Validator::new("idempotent_result")), 2);
    assert_eq!(idempotent_runs(&Validator::new("idempotent_result").with("runs", integer(9))), 5);
    let first = CommandOutput { status: 0, stdout: "done".to_string(), stderr: String::new(), timed_out: false };
    let kept = idempotent_step("idempotent_result", 1, None, &first).unwrap();
    assert_eq!(kept, Some((0, "done".to_string())));
    let second = CommandOutput { status: 1, stdout: "exists".to_string(), stderr: String::new(), timed_out: false };
    let outcome = idempotent_step("idempotent_result", 2, kept, &second).unwrap_err();
    assert_eq!(outcome.expected.as_deref(), Some("exit 0 with the same output"));
    assert_eq!(outcome.observed.as_deref(), Some("exit 1 with different output"));
}

// --- dispatch and overrides -------------------------------------------------------------

#[test]
fn an_unhandled_tag_is_an_error() {
    let outcome = unhandled("quantum_state");
    assert!(outcome.errored);
    assert_eq!(outcome.message, "validator 'quantum_state' is declared as implemented but this agent has no handler for it");
}

#[test]
fn failure_category_override_is_applied() {
    let validator = Validator::new("file_exists")
        .with("path", text("/tmp/x"))
        .with("failureCategory", text("permission_denied"));
    let outcome = apply_overrides(&validator, CheckOutcome::fail("file_exists", "m", FailureCategory::WrongPath));
    assert_eq!(outcome.failure_category, Some(FailureCategory::PermissionDenied));
}

#[test]
fn weight_is_clamped_to_a_sane_range() {
    let heavy = Validator::new("file_exists")
        .with("path", text("/tmp/x"))
        .with("weight", integer(9_000));
    assert_eq!(apply_overrides(&heavy, CheckOutcome::pass("file_exists", "ok")).weight, 100);
    let zero = Validator::new("file_exists")
        .with("path", text("/tmp/x"))
        .with("weight", integer(0));
    assert_eq!(apply_overrides(&zero, CheckOutcome::pass("file_exists", "ok")).weight, 1);
}

#[test]
fn a_missing_param_yields_an_errored_outcome_not_a_panic() {
    let validator = Validator::new("file_exists");
    let outcome = path(&validator, "path").unwrap_err();
    assert!(outcome.errored);
    assert!(!outcome.passed);
}

// --- installation -----------------------------------------------------------------------

fn entry(path: &str, optional: bool) -> ManifestEntry {
    ManifestEntry { path: path.to_string(), sha256: "00".to_string(), size_bytes: 2, optional }
}

fn manifest(files: Vec<ManifestEntry>) -> Manifest {
    Manifest {
        runtime_version: "1.0.0".to_string(),
        qemu_version: "9.2.0".to_string(),
        image_version: "test-image".to_string(),
        files,
    }
}

#[test]
fn installation_verifies_before_it_activates() {
    let m = manifest(vec![entry("qemu-img.exe", false), entry("debian-base.raw.zst", true), entry("debian-base.raw", false)]);
    let (packaged, raw) = plan_install(&m, "1.0.0").unwrap();
    assert_eq!(packaged.files.len(), 2);
    assert_eq!(raw.path, "debian-base.raw");
    assert_eq!(
        plan_install(&m, "2.0.0").unwrap_err(),
        "the bundled runtime is version 1.0.0, but the application requires 2.0.0"
    );
    let optional = manifest(vec![entry("debian-base.raw", true)]);
    assert_eq!(plan_install(&optional, "1.0.0").unwrap_err(), "the materialised base image cannot be optional");
    let none = manifest(vec![entry("qemu-img.exe", false)]);
    assert!(plan_install(&none, "1.0.0").is_err());
    let report = VerificationReport { results: vec![("qemu-img.exe".to_string(), FileVerdict::Missing)] };
    assert!(verification_failure("the bundled runtime", &report).starts_with("the bundled runtime failed verification: "));
    assert!(!skip_install(false, Some((&m, &report)), "1.0.0"));
    let healthy = VerificationReport { results: vec![("qemu-img.exe".to_string(), FileVerdict::Intact)] };
    assert!(skip_install(false, Some((&m, &healthy)), "1.0.0"));
    assert!(!skip_install(true, Some((&m, &healthy)), "1.0.0"));
    assert_eq!(staging_name(4242), ".installing-4242");
}

#[test]
fn refused_validators_never_run() {
    let registry = linux_practice_lab::registry::Registry {
        schema_version: 1,
        failure_categories: vec![],
        common_params: vec![],
        validators: vec![],
    };
    let outcome = refused_by_registry(&registry, &Validator::new("quantum_state")).unwrap();
    assert!(outcome.errored);
    assert!(outcome.message.contains("cannot be checked"));
}
