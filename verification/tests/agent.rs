use linux_practice_lab::lesson::{ParamValue, Validator};
use linux_practice_lab::token::constant_time_eq;
use linux_practice_lab::validators::args::{apply_overrides, timeout, Bounds, MAX_TIMEOUT_MS};
use linux_practice_lab::validators::network::{
    extract_block, parse_addresses, parse_interface_names, parse_oper_state,
};
use linux_practice_lab::validators::process::truncate;
use linux_practice_lab::validators::script::{first_lines, shell_quote};
use linux_practice_lab::validators::{lesson_root_for, Ctx};
use linux_practice_lab::validation::{CheckOutcome, FailureCategory};

fn text(s: &str) -> ParamValue {
    ParamValue::String(s.to_string())
}

#[test]
fn interface_names_are_parsed_including_veth_suffixes() {
    let output = "1: lo: <LOOPBACK,UP,LOWER_UP> mtu 65536 qdisc noqueue state UNKNOWN\n\
                  2: eth0@if7: <BROADCAST,MULTICAST,UP,LOWER_UP> mtu 1500 state UP\n";
    assert_eq!(parse_interface_names(output), vec!["lo", "eth0"]);
}

#[test]
fn operational_state_is_read_from_the_state_field() {
    let up = "2: eth0: <BROADCAST,MULTICAST,UP,LOWER_UP> mtu 1500 qdisc noqueue state UP mode DEFAULT";
    assert_eq!(parse_oper_state(up).as_deref(), Some("up"));
    let down = "2: eth0: <BROADCAST,MULTICAST> mtu 1500 qdisc noop state DOWN mode DEFAULT";
    assert_eq!(parse_oper_state(down).as_deref(), Some("down"));
}

#[test]
fn addresses_are_parsed_for_both_families() {
    let output = "2: eth0    inet 10.20.0.10/24 brd 10.20.0.255 scope global eth0\n\
                  2: eth0    inet6 fe80::1/64 scope link\n";
    assert_eq!(parse_addresses(output), vec!["10.20.0.10/24", "fe80::1/64"]);
}

#[test]
fn an_interface_with_no_address_yields_an_empty_list() {
    assert!(parse_addresses("2: eth0    <no addresses>\n").is_empty());
}

#[test]
fn firewall_scoping_narrows_to_the_named_chain() {
    let ruleset = "table inet filter {\n\
                   \tchain input {\n\
                   \t\ttype filter hook input priority 0; policy drop;\n\
                   \t\ttcp dport 22 accept\n\
                   \t}\n\
                   \tchain output {\n\
                   \t\ttcp dport 8080 accept\n\
                   \t}\n\
                   }\n";
    let input_chain = extract_block(ruleset, Some("filter"), Some("input"));
    assert!(input_chain.contains("tcp dport 22 accept"));
    assert!(
        !input_chain.contains("tcp dport 8080 accept"),
        "a rule in another chain must not count: {input_chain}"
    );
}

#[test]
fn unscoped_firewall_matching_sees_the_whole_ruleset() {
    let ruleset = "table inet filter {\n\tchain input {\n\t\ttcp dport 22 accept\n\t}\n}\n";
    assert!(extract_block(ruleset, None, None).contains("dport 22"));
}

#[test]
fn truncation_keeps_output_readable_and_is_utf8_safe() {
    assert_eq!(truncate("short", 10), "short");
    let long = "ü".repeat(100);
    let truncated = truncate(&long, 10);
    assert_eq!(truncated.chars().count(), 11);
}

#[test]
fn shell_quoting_survives_spaces_and_quotes() {
    assert_eq!(shell_quote("plain"), "'plain'");
    assert_eq!(shell_quote("with space"), "'with space'");
    assert_eq!(shell_quote("it's"), r"'it'\''s'");
}

#[test]
fn output_previews_are_truncated_and_labelled() {
    assert_eq!(first_lines("", 3), "no output");
    assert_eq!(first_lines("a\nb", 3), "a / b");
    assert!(first_lines("a\nb\nc\nd", 3).ends_with('…'));
}

#[test]
fn bounds_handle_each_combination() {
    let exact = Bounds { equals: Some(5), min: None, max: None };
    assert!(exact.satisfied_by(5));
    assert!(!exact.satisfied_by(4));
    assert_eq!(exact.describe(), "exactly 5");

    let range = Bounds { equals: None, min: Some(2), max: Some(4) };
    assert!(range.satisfied_by(3));
    assert!(!range.satisfied_by(1));
    assert!(!range.satisfied_by(5));
    assert_eq!(range.describe(), "between 2 and 4");

    let lower = Bounds { equals: None, min: Some(1), max: None };
    assert!(lower.satisfied_by(1_000));
    assert_eq!(lower.describe(), "at least 1");
}

#[test]
fn author_message_replaces_a_generated_failure_message() {
    let validator = Validator::new("file_exists")
        .with("path", text("/tmp/x"))
        .with("message", text("Create the report before checking."));
    let outcome = apply_overrides(
        &validator,
        CheckOutcome::fail("file_exists", "generated text", FailureCategory::WrongPath),
    );
    assert_eq!(outcome.message, "Create the report before checking.");
}

#[test]
fn author_overrides_never_rewrite_a_pass_or_an_internal_error() {
    let validator = Validator::new("file_exists")
        .with("path", text("/tmp/x"))
        .with("message", text("custom"));

    let passed = apply_overrides(&validator, CheckOutcome::pass("file_exists", "ok"));
    assert_eq!(passed.message, "ok");

    let errored = apply_overrides(&validator, CheckOutcome::error("file_exists", "broken"));
    assert_eq!(errored.message, "broken", "authors must not mask agent bugs");
}

#[test]
fn timeouts_are_capped() {
    let long = Validator::new("stdout_exact").with("timeoutMs", ParamValue::Integer(10_000_000));
    assert_eq!(timeout(&long), Some(MAX_TIMEOUT_MS));
    let short = Validator::new("stdout_exact").with("timeoutMs", ParamValue::Integer(5_000));
    assert_eq!(timeout(&short), Some(5_000));
    let negative = Validator::new("stdout_exact").with("timeoutMs", ParamValue::Integer(-1));
    assert_eq!(timeout(&negative), None);
    assert_eq!(timeout(&Validator::new("stdout_exact")), None);
}

#[test]
fn lesson_roots_cannot_escape_the_lessons_directory() {
    let root = lesson_root_for("../../etc/shadow");
    assert!(!root.contains(".."));
    assert!(root.starts_with("/opt/linuxlab/lessons"));

    let empty = lesson_root_for("...");
    assert_eq!(empty, "/opt/linuxlab/lessons/unknown");
}

#[test]
fn a_validators_own_namespace_beats_the_lesson_default() {
    let mut ctx = Ctx::for_test("student");
    ctx.default_namespace = Some("student".into());
    let plain = Validator::new("interface_exists").with("interface", text("eth0"));
    assert_eq!(ctx.namespace_for(&plain).as_deref(), Some("student"));

    let explicit = plain.clone().with("namespace", text("web1"));
    assert_eq!(ctx.namespace_for(&explicit).as_deref(), Some("web1"));
}

#[test]
fn journal_queries_are_scoped_to_the_current_attempt() {
    let mut ctx = Ctx::for_test("student");
    assert_eq!(ctx.attempt_since_expression(), "-10min");
    ctx.attempt_started_at = Some(1_700_000_000);
    assert_eq!(ctx.attempt_since_expression(), "@1700000000");
}

#[test]
fn token_comparison_rejects_mismatches_and_length_differences() {
    assert!(constant_time_eq(b"abc123", b"abc123"));
    assert!(!constant_time_eq(b"abc123", b"abc124"));
    assert!(!constant_time_eq(b"abc", b"abcd"));
    assert!(!constant_time_eq(b"", b"x"));
    assert!(constant_time_eq(b"", b""));
}

use linux_practice_lab::handlers::{
    checkpoint_name, failed_units, file_name, installed_packages, invalid_token_message, is_browsable,
    lesson_script_path, listening_ports, malformed_request, outside_browsable, request_failure,
    resize_failure, resolve_lesson_script, shows_entry, sort_listing, terminal_size, usage_percent,
    DirEntryInfo,
};
use linux_practice_lab::sys::SocketFacts;

#[test]
fn lesson_scripts_cannot_be_read_from_outside_the_lesson_directory() {
    let err = resolve_lesson_script("m.01", "../../../etc/shadow", false).unwrap_err();
    assert!(err.contains("/opt/linuxlab/lessons/m.01/shadow"), "{err}");
    assert_eq!(
        lesson_script_path("m.01", "../../../etc/shadow").unwrap(),
        "/opt/linuxlab/lessons/m.01/shadow"
    );
    assert_eq!(
        resolve_lesson_script("m.01", "setup.sh", true).unwrap(),
        "/opt/linuxlab/lessons/m.01/setup.sh"
    );
    assert_eq!(lesson_script_path("m.01", "..").unwrap_err(), "'..' is not a script file name");
}

#[test]
fn file_names_follow_the_path_rules() {
    assert_eq!(file_name("a/b/c.sh").as_deref(), Some("c.sh"));
    assert_eq!(file_name("a/b/").as_deref(), Some("b"));
    assert_eq!(file_name("a/./."), Some("a".to_string()));
    assert_eq!(file_name("/"), None);
    assert_eq!(file_name("x/.."), None);
    assert_eq!(file_name("."), None);
}

#[test]
fn checkpoint_names_must_contain_something_usable() {
    let err = checkpoint_name("///").unwrap_err();
    assert!(err.contains("at least one letter"), "{err}");
    assert_eq!(checkpoint_name("before dangerous/mode").unwrap(), "beforedangerousmode");
    assert_eq!(checkpoint_name("step_1-b").unwrap(), "step_1-b");
}

#[test]
fn terminal_sizes_are_clamped() {
    assert_eq!(terminal_size(0, 0), (10, 20));
    assert_eq!(terminal_size(40, 120), (40, 120));
    assert_eq!(terminal_size(9999, 9999), (300, 500));
}

#[test]
fn system_tool_output_is_read() {
    let units = failed_units("nginx.service loaded failed failed A web server\n\nfoo.mount loaded failed failed Foo\n");
    assert_eq!(units, vec!["nginx.service", "foo.mount"]);
    let df = "Filesystem     1024-blocks    Used Available Capacity Mounted on\n/dev/vda         2031088 1234567    700000      64% /\n";
    assert_eq!(usage_percent(df), 64);
    assert_eq!(usage_percent("header only\n"), 0);
    assert_eq!(usage_percent("h\n/dev/vda 1 2 3 lots% /\n"), 0);
    let packages = installed_packages("bash\t5.2.15-2\ncoreutils\t9.1-1\nbroken line\n");
    assert_eq!(packages.len(), 2);
    assert_eq!(packages[1].name, "coreutils");
    assert_eq!(packages[1].version, "9.1-1");
}

#[test]
fn browsing_outside_the_allowed_roots_is_refused() {
    assert!(!is_browsable("/"));
    assert!(!is_browsable("/root"));
    assert!(!is_browsable("/homework"));
    assert!(is_browsable("/home"));
    assert!(is_browsable("/home/student/reports"));
    assert!(is_browsable("/var/log/syslog"));
    assert!(!is_browsable("/var"));
}

fn entry(name: &str, file_type: &str) -> DirEntryInfo {
    DirEntryInfo {
        name: name.into(),
        file_type: file_type.into(),
        size: 0,
        mode: "0644".into(),
        owner: "student".into(),
        group: "student".into(),
        link_target: None,
    }
}

#[test]
fn an_allowed_root_can_be_listed_and_is_ordered_directories_first() {
    let sorted = sort_listing(vec![
        entry("zeta.txt", "file"),
        entry("docs", "directory"),
        entry("alpha.txt", "file"),
        entry("bin", "directory"),
    ]);
    let names: Vec<&str> = sorted.iter().map(|e| e.name.as_str()).collect();
    assert_eq!(names, vec!["bin", "docs", "alpha.txt", "zeta.txt"]);
}

#[test]
fn hidden_entries_are_excluded_unless_requested() {
    assert!(!shows_entry(".hidden", false));
    assert!(shows_entry(".hidden", true));
    assert!(shows_entry("visible", false));
}

#[test]
fn listening_ports_are_sorted_and_unique() {
    let socket = |port: u16, listening: bool| SocketFacts {
        local_address: "0.0.0.0".into(),
        port,
        listening,
        inode: 1,
    };
    let ports = listening_ports(&vec![socket(80, true), socket(22, true), socket(80, true), socket(443, false)]);
    assert_eq!(ports, vec![22, 80]);
}

#[test]
fn refusals_name_what_failed_and_why() {
    assert_eq!(
        request_failure("record checkpoint", "///", "checkpoint names must contain at least one letter or digit"),
        "could not record checkpoint ///: checkpoint names must contain at least one letter or digit"
    );
    assert_eq!(request_failure("prepare", "m.01", "boom"), "could not prepare m.01: boom");
    assert_eq!(outside_browsable("/"), "/ is outside the directories this panel may browse");
    assert_eq!(invalid_token_message(), "invalid control token");
    assert_eq!(malformed_request("eof"), "malformed request: eof");
    assert_eq!(resize_failure("  stty: bad  \n"), "could not set the terminal size: stty: bad");
}
