use linux_practice_lab::lesson::ParamValue;
use linux_practice_lab::sys::{
    find_login_shell, format_mode, group_for_gid, groups_for_user, parse_env_file, parse_groups,
    parse_mode, parse_passwd, parse_proc_net, parse_status_uid, split_proc_stat, uid_for,
    user_for_uid, FileKind, ProcessFacts,
};

fn env_value<'a>(parsed: &'a [(String, String)], key: &str) -> &'a str {
    parsed.iter().find(|(k, _)| k == key).map(|(_, v)| v.as_str()).unwrap()
}

#[test]
fn passwd_parsing_extracts_the_fields_validators_need() {
    let entries = parse_passwd(
        "root:x:0:0:root:/root:/bin/bash\n\
         student:x:1000:1000:Student:/home/student:/bin/bash\n\
         # a comment\n\
         broken-line\n",
    )
    .unwrap();
    assert_eq!(entries.len(), 2);
    assert_eq!(entries[1].name, "student");
    assert_eq!(entries[1].uid, 1000);
    assert_eq!(entries[1].home, "/home/student");
    assert_eq!(entries[1].shell, "/bin/bash");
}

#[test]
fn a_mangled_passwd_line_is_skipped_not_fatal() {
    let entries = parse_passwd(
        "student:x:notanumber:1000:S:/home/student:/bin/bash\nroot:x:0:0:r:/root:/bin/sh",
    )
    .unwrap();
    assert_eq!(entries.len(), 1);
    assert_eq!(entries[0].name, "root");
}

#[test]
fn group_parsing_reads_members() {
    let groups = parse_groups("developers:x:1001:student,analyst\nempty:x:1002:\n").unwrap();
    assert_eq!(groups[0].members, vec!["student", "analyst"]);
    assert!(groups[1].members.is_empty());
}

#[test]
fn proc_stat_comm_containing_spaces_and_parens_is_split_correctly() {
    let (comm, rest) = split_proc_stat("42 (my (odd) program) S 1 42 42 1024 -1 4194304").unwrap();
    assert_eq!(comm, "my (odd) program");
    assert!(rest.starts_with("S 1 42 42"));
}

#[test]
fn status_uid_is_the_real_uid() {
    let status = "Name:\tbash\nState:\tS (sleeping)\nUid:\t1000\t1000\t1000\t1000\n";
    assert_eq!(parse_status_uid(status), Some(1000));
}

#[test]
fn file_kinds_are_decoded_from_the_mode() {
    assert_eq!(FileKind::from_mode(0o100644), FileKind::Regular);
    assert_eq!(FileKind::from_mode(0o040755), FileKind::Directory);
    assert_eq!(FileKind::from_mode(0o120777), FileKind::Symlink);
    assert_eq!(FileKind::from_mode(0o010644), FileKind::Fifo);
}

#[test]
fn modes_are_formatted_with_four_octal_digits() {
    assert_eq!(format_mode(0o100644), "0644");
    assert_eq!(format_mode(0o4755), "4755");
}

#[test]
fn modes_are_parsed_from_the_forms_authors_actually_write() {
    assert_eq!(parse_mode(&ParamValue::String("0644".to_string())), Some(0o644));
    assert_eq!(parse_mode(&ParamValue::String("644".to_string())), Some(0o644));
    assert_eq!(parse_mode(&ParamValue::String("0o600".to_string())), Some(0o600));
    assert_eq!(parse_mode(&ParamValue::Integer(420)), Some(420));
    assert_eq!(parse_mode(&ParamValue::String("rwx".to_string())), None);
}

#[test]
fn listening_tcp_sockets_are_recognised_and_bound_addresses_decoded() {
    let content = "  sl  local_address rem_address   st tx_queue rx_queue tr tm->when retrnsmt   uid  timeout inode\n\
                   0: 0100007F:1F90 00000000:0000 0A 00000000:00000000 00:00000000 00000000  1000        0 12345\n\
                   1: 0100007F:0016 0100007F:C001 01 00000000:00000000 00:00000000 00000000     0        0 12346\n";
    let sockets = parse_proc_net(content, false);
    assert_eq!(sockets.len(), 2);
    assert_eq!(sockets[0].port, 8080);
    assert_eq!(sockets[0].local_address, "127.0.0.1");
    assert!(sockets[0].listening);
    assert_eq!(sockets[0].inode, 12345);
    assert!(!sockets[1].listening, "ESTABLISHED is not LISTEN");
}

#[test]
fn a_wildcard_bind_decodes_to_all_interfaces() {
    let content = "  sl  local_address\n0: 00000000:0050 00000000:0000 0A 0 0 0 0 0 999\n";
    let sockets = parse_proc_net(content, false);
    assert_eq!(sockets[0].local_address, "0.0.0.0");
    assert_eq!(sockets[0].port, 80);
}

#[test]
fn udp_sockets_count_as_bound_without_a_listen_state() {
    let content = "  sl  local_address\n0: 00000000:0035 00000000:0000 07 0 0 0 0 0 555\n";
    let sockets = parse_proc_net(content, true);
    assert!(sockets[0].listening);
    assert_eq!(sockets[0].port, 53);
}

#[test]
fn ipv6_wildcard_is_decoded() {
    let hex = "0".repeat(32);
    let content = format!(
        "  sl  local_address\n0: {hex}:0050 00000000000000000000000000000000:0000 0A 0 0 0 0 0 777\n"
    );
    let sockets = parse_proc_net(&content, false);
    assert_eq!(sockets[0].local_address, "::");
}

#[test]
fn env_files_are_parsed_with_quotes_stripped() {
    let parsed =
        parse_env_file("# comment\nID=debian\nPRETTY_NAME=\"Debian GNU/Linux 13 (trixie)\"\n\n");
    assert_eq!(env_value(&parsed, "ID"), "debian");
    assert_eq!(env_value(&parsed, "PRETTY_NAME"), "Debian GNU/Linux 13 (trixie)");
    assert_eq!(parsed.len(), 2);
}

#[test]
fn a_repeated_env_key_keeps_the_last_value() {
    let parsed = parse_env_file("A=1\nB=2\nA=3\n");
    assert_eq!(parsed.len(), 2);
    assert_eq!(env_value(&parsed, "A"), "3");
}

fn facts(pid: u32, uid: u32, cmdline: &str, comm: &str, session_id: u32) -> ProcessFacts {
    ProcessFacts {
        pid,
        ppid: 1,
        uid,
        cmdline: cmdline.to_string(),
        comm: comm.to_string(),
        session_id,
        tpgid: -1,
        pgrp: pid,
    }
}

#[test]
fn match_text_falls_back_to_comm_for_an_empty_cmdline() {
    let mut facts = ProcessFacts {
        pid: 1,
        ppid: 0,
        uid: 0,
        cmdline: String::new(),
        comm: "kthreadd".into(),
        session_id: 1,
        tpgid: -1,
        pgrp: 1,
    };
    assert_eq!(facts.match_text(), "kthreadd");
    facts.cmdline = "/usr/sbin/nginx -g daemon off;".into();
    assert_eq!(facts.match_text(), "/usr/sbin/nginx -g daemon off;");
}

fn passwd() -> Vec<linux_practice_lab::sys::PasswdEntry> {
    parse_passwd(
        "root:x:0:0:root:/root:/bin/bash\nstudent:x:1000:1000:Student:/home/student:/bin/bash\n",
    )
    .unwrap()
}

#[test]
fn users_and_groups_are_resolved_both_ways() {
    let passwd = passwd();
    let groups =
        parse_groups("student:x:1000:\ndevelopers:x:1001:student,analyst\nadm:x:4:student\n")
            .unwrap();
    assert_eq!(uid_for("student", &passwd), Ok(1000));
    assert!(uid_for("ghost", &passwd).is_err());
    assert_eq!(user_for_uid(0, &passwd).as_deref(), Some("root"));
    assert_eq!(user_for_uid(4242, &passwd), None);
    assert_eq!(group_for_gid(1001, &groups).as_deref(), Some("developers"));
    let mine = groups_for_user("student", &passwd, &groups);
    assert_eq!(mine, vec!["adm", "developers", "student"]);
}

#[test]
fn the_login_shell_is_the_session_leader_of_the_learner() {
    let passwd = passwd();
    let processes = vec![
        facts(10, 0, "/sbin/agetty", "agetty", 10),
        facts(20, 1000, "-bash", "bash", 20),
        facts(21, 1000, "sleep 100", "sleep", 20),
    ];
    let shell = find_login_shell("student", &passwd, &processes);
    assert_eq!(shell.map(|p| p.pid), Some(20));
    assert!(find_login_shell("root", &passwd, &processes).is_none());
}
