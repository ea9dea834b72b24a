use linux_practice_lab::redact::{is_lab_password, redact_transcript, MASK};

#[test]
fn masks_password_assignments() {
    let out = redact_transcript("mysql -u root --password=hunter2 -e 'select 1'");
    assert!(!out.contains("hunter2"));
    assert!(out.contains(MASK));
    assert!(out.contains("mysql -u root"));
    assert!(out.contains("select 1"));
}

#[test]
fn masks_tokens_secrets_and_headers() {
    for line in [
        "export API_TOKEN=abc; curl -H 'authorization: Bearer xyz123' http://web1.lab",
        "echo secret=s3cr3t >> .env",
        "curl -d api_key=012345 http://web1.lab",
    ] {
        let out = redact_transcript(line);
        for leak in ["abc", "xyz123", "s3cr3t", "012345"] {
            assert!(!out.contains(leak), "leaked {leak} in {out}");
        }
    }
}

#[test]
fn is_case_insensitive_about_the_key() {
    let out = redact_transcript("PASSWORD=Hunter2");
    assert!(!out.contains("Hunter2"), "{out}");
}

#[test]
fn masks_several_values_on_one_line() {
    let out = redact_transcript("app --password=a --token=b");
    assert!(!out.contains("=a "));
    assert!(!out.contains("=b"));
    assert_eq!(out.matches(MASK).count(), 2, "{out}");
}

#[test]
fn leaves_ordinary_output_untouched() {
    let transcript = "total 8\ndrwxr-xr-x 2 student student 4096 Jan  1 10:00 reports\nls: cannot access 'nope': No such file or directory";
    assert_eq!(redact_transcript(transcript), transcript);
}

#[test]
fn an_empty_value_is_not_replaced_with_a_mask() {
    let out = redact_transcript("prompt: password=");
    assert_eq!(out, "prompt: password=");
}

#[test]
fn the_mask_itself_is_never_re_masked() {
    let once = redact_transcript("password=secret");
    assert_eq!(once, format!("password={MASK}"));
    assert_eq!(redact_transcript(&once), once);
}

#[test]
fn non_ascii_text_does_not_shift_the_masking_window() {
    let out = redact_transcript("çalışan token=gizli üstü");
    assert!(!out.contains("gizli"), "{out}");
    assert!(out.contains("çalışan"), "{out}");
    assert!(out.contains("üstü"), "{out}");
}

#[test]
fn line_structure_is_preserved() {
    let out = redact_transcript("a\nb\nc");
    assert_eq!(out.lines().count(), 3);
}

#[test]
fn the_documented_lab_password_is_recognised() {
    assert!(is_lab_password("linuxlab"));
    assert!(!is_lab_password("hunter2"));
}

#[test]
fn redaction_keeps_text_around_a_header_value() {
    let out = redact_transcript("curl -H \"Authorization:   Bearer abc\" x");
    assert_eq!(out, format!("curl -H \"Authorization:   {MASK}\" x"));
}

#[test]
fn line_endings_and_a_final_newline_come_back_as_they_were() {
    assert_eq!(redact_transcript("ls\n"), "ls\n");
    assert_eq!(redact_transcript("a\r\nb\r\n"), "a\r\nb\r\n");
    assert_eq!(redact_transcript("\n\nx"), "\n\nx");
    assert_eq!(
        redact_transcript("export TOKEN=abc\r\nls\n"),
        "export TOKEN=***redacted***\r\nls\n"
    );
    assert_eq!(
        redact_transcript("Authorization: Bearer abc\r\nls"),
        "Authorization: ***redacted***\r\nls"
    );
}
