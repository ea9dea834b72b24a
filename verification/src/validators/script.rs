//! Script and pipeline validators: the commands they run for the learner and what they
//! conclude from the results. A pipeline answer is also re-run against hidden fixtures, so
//! printing the sample's expected output is not enough.
use super::args::{self, is_missing_outcome};
use super::network::opt_text;
use super::{Ctx, errs, fails, passes, passes_with};
use crate::lesson::{ArrayItem, ParamValue, Validator};
use crate::paths::{join_path, join_spec};
use crate::sys::{CommandOutput, FileKind, GroupEntry, PasswdEntry, format_mode, format_mode_spec, gid_name, group_for_gid, groups_for_user, strip_both, strip_trailing, user_group_names};
use crate::text::{
    append, chars_of, contains, contains_chars, decimal, decimal_string, join, join_strings,
    lines, lines_of, owned, phrase, phrase2, replace_all, replace_chars, signed_decimal,
    signed_decimal_string, starts_with, string_of, strings_view, trim_end,
};
use crate::validation::{CheckOutcome, FailureCategory};
use vstd::prelude::*;

verus! {

/// `value` in single quotes, each quote inside written as `'\''`, so a path with a space or
/// a quote stays one shell word.
pub open spec fn shell_quote_spec(value: Seq<char>) -> Seq<char> {
    "'"@ + replace_all(value, "'"@, "'\\''"@) + "'"@
}

pub fn shell_quote(value: &str) -> (r: String)
    ensures
        r@ == shell_quote_spec(value@),
{
    let chars = chars_of(value);
    let quote = chars_of("'");
    let escaped = chars_of("'\\''");
    proof {
        reveal_strlit("'");
    }
    let body = replace_chars(&chars, &quote, &escaped);
    let mut r = owned("'");
    append(&mut r, string_of(&body).as_str());
    append(&mut r, "'");
    r
}

/// A preview of output: the first `limit` lines joined by ` / `, with ` …` when more were
/// cut, or `no output`.
pub open spec fn first_lines_spec(text: Seq<char>, limit: nat) -> Seq<char> {
    let ls = lines(text);
    if ls.len() == 0 {
        "no output"@
    } else if ls.len() > limit {
        join(ls.take(limit as int), " / "@) + " …"@
    } else {
        join(ls, " / "@)
    }
}

pub fn first_lines(text: &str, limit: usize) -> (r: String)
    ensures
        r@ == first_lines_spec(text@, limit as nat),
{
    let mut ls = lines_of(text);
    if ls.len() == 0 {
        return owned("no output");
    }
    let more = ls.len() > limit;
    if more {
        ls.truncate(limit);
        assert(strings_view(ls@) =~= lines(text@).take(limit as int));
    }
    let mut r = join_strings(&ls, " / ");
    if more {
        append(&mut r, " …");
    }
    r
}

fn cat2(a: &str, b: &str) -> (r: String)
    ensures
        r@ == a@ + b@,
{
    let mut r = owned(a);
    append(&mut r, b);
    r
}

/// A fixture name's characters that may name a directory: ASCII letters and digits, `-`,
/// `_` and `.`.
pub open spec fn fixture_chars(s: Seq<char>) -> Seq<char>
    decreases s.len(),
{
    if s.len() == 0 {
        Seq::empty()
    } else {
        let rest = fixture_chars(s.drop_last());
        let c = s.last();
        if crate::text::is_ascii_alphanumeric(c) || c == '-' || c == '_' || c == '.' {
            rest.push(c)
        } else {
            rest
        }
    }
}

/// Where a validator's hidden fixture lives: `fixtures/<name>` under the lesson root, the
/// name reduced to safe characters with dots trimmed from both ends; none when the validator
/// names no fixture or nothing usable is left.
pub open spec fn fixture_dir_spec(ctx: Ctx, v: Validator) -> Option<Seq<char>> {
    match v.str_param_spec("fixture"@) {
        None => None,
        Some(f) => {
            let safe = strip_both(fixture_chars(f), '.');
            if safe.len() == 0 {
                None
            } else {
                Some(join_spec(join_spec(ctx.lesson_root@, "fixtures"@), safe))
            }
        },
    }
}

/// The directory of the validator's hidden fixture, which the learner cannot read.
pub fn fixture_dir(ctx: &Ctx, v: &Validator) -> (r: Option<String>)
    requires
        v.wf(),
    ensures
        crate::vm_manager::opt_view(r) == fixture_dir_spec(*ctx, *v),
{
    let fixture = match args::optional_string(v, "fixture") {
        Some(f) => f,
        None => return None,
    };
    let chars = chars_of(fixture);
    let mut kept: Vec<char> = Vec::new();
    let mut i: usize = 0;
    while i < chars.len()
        invariant
            i <= chars@.len(),
            chars@ == fixture@,
            kept@ == fixture_chars(fixture@.take(i as int)),
        decreases chars.len() - i,
    {
        assert(fixture@.take(i + 1).drop_last() =~= fixture@.take(i as int));
        let c = chars[i];
        let alnum = ('0' <= c && c <= '9') || ('a' <= c && c <= 'z') || ('A' <= c && c <= 'Z');
        if alnum || c == '-' || c == '_' || c == '.' {
            kept.push(c);
        }
        i += 1;
    }
    assert(fixture@.take(fixture@.len() as int) =~= fixture@);
    let safe = crate::sys::strip_both_text(string_of(&kept).as_str(), '.');
    if safe.unicode_len() == 0 {
        return None;
    }
    let base = join_path(ctx.lesson_root.as_str(), "fixtures");
    Some(join_path(base.as_str(), safe.as_str()))
}

/// The first line of a file's text as `str::lines` yields it, or nothing.
pub open spec fn first_line(text: Seq<char>) -> Seq<char> {
    if lines(text).len() > 0 {
        lines(text)[0]
    } else {
        Seq::empty()
    }
}

/// `script_exists`: `path` is a regular file whose first line is a shebang, naming
/// `interpreter` when the validator gives one. `found` is what `stat` reported; `content` is
/// the file's text (invalid UTF-8 replaced), or `None` when it could not be read.
pub fn script_exists(v: &Validator, found: Option<FileKind>, content: Option<&str>) -> (r: CheckOutcome)
    requires
        v.wf(),
    ensures
        match v.str_param_spec("path"@) {
            None => is_missing_outcome(r, v.kind@, "path"@),
            Some(p) => match found {
                None => fails(r, v.kind@, p + " does not exist."@, FailureCategory::WrongPath, None, None),
                Some(k) => if k != FileKind::Regular {
                    fails(r, v.kind@, p + " is not a regular file."@, FailureCategory::WrongFileType, None, None)
                } else {
                    let line = match opt_text(content) {
                        Some(c) => first_line(c),
                        None => Seq::empty(),
                    };
                    if !starts_with(line, "#!"@) {
                        fails(
                            r,
                            v.kind@,
                            p + " has no shebang line. Without one, the kernel does not know which interpreter to use."@,
                            FailureCategory::ScriptSyntaxFailure,
                            Some("a first line starting with #!"@),
                            Some(
                                if line.len() == 0 {
                                    "an empty first line"@
                                } else {
                                    line
                                },
                            ),
                        )
                    } else {
                        match v.str_param_spec("interpreter"@) {
                            Some(i) if !contains(line, i) => fails(
                                r,
                                v.kind@,
                                p + " does not use "@ + i + "."@,
                                FailureCategory::ScriptSyntaxFailure,
                                Some(i),
                                Some(line),
                            ),
                            _ => passes(r, v.kind@, p + " exists and has a shebang."@),
                        }
                    }
                },
            },
        },
{
    let path = match args::path(v, "path") {
        Ok(p) => p,
        Err(o) => return o,
    };
    let kind = v.kind.as_str();
    match found {
        None => return CheckOutcome::fail(kind, cat2(path.as_str(), " does not exist.").as_str(), FailureCategory::WrongPath),
        Some(FileKind::Regular) => {},
        Some(_) => return CheckOutcome::fail(
            kind,
            cat2(path.as_str(), " is not a regular file.").as_str(),
            FailureCategory::WrongFileType,
        ),
    }
    let line = match content {
        Some(c) => {
            let ls = lines_of(c);
            if ls.len() > 0 {
                assert(strings_view(ls@)[0] == ls@[0]@);
                ls[0].clone()
            } else {
                String::new()
            }
        },
        None => String::new(),
    };
    let lc = chars_of(line.as_str());
    let bang = chars_of("#!");
    if !crate::text::starts_with_chars(&lc, &bang) {
        let seen = if lc.len() == 0 {
            owned("an empty first line")
        } else {
            line.clone()
        };
        return CheckOutcome::fail(
            kind,
            cat2(path.as_str(), " has no shebang line. Without one, the kernel does not know which interpreter to use.").as_str(),
            FailureCategory::ScriptSyntaxFailure,
        ).expected("a first line starting with #!").observed(seen.as_str());
    }
    match args::optional_string(v, "interpreter") {
        Some(i) => if !contains_chars(&lc, &chars_of(i)) {
            let mut m = phrase(path.as_str(), " does not use ", i);
            append(&mut m, ".");
            return CheckOutcome::fail(kind, m.as_str(), FailureCategory::ScriptSyntaxFailure).expected(i).observed(
                line.as_str(),
            );
        },
        None => {},
    }
    CheckOutcome::pass(kind, cat2(path.as_str(), " exists and has a shebang.").as_str())
}

/// The first account named `user`, if any.
pub open spec fn account(ps: Seq<PasswdEntry>, user: Seq<char>) -> Option<PasswdEntry> {
    super::identity::account_named(ps, user)
}

/// Which execute bit `script_executable` needs and whom it stands for: the owner's bit when
/// `user` owns the file, the group's when the file's group is one of theirs, the others' bit
/// otherwise.
pub open spec fn needed_bit(user: Seq<char>, uid: u32, gid: u32, passwd: Seq<PasswdEntry>, groups: Seq<GroupEntry>) -> (u32, Seq<char>) {
    let e = account(passwd, user)->0;
    if e.uid == uid {
        (0o100u32, "its owner "@ + user)
    } else if gid_name(groups, gid) matches Some(n) && user_group_names(user, passwd, groups).contains(n) {
        (0o010u32, "group members including "@ + user)
    } else {
        (0o001u32, "other users including "@ + user)
    }
}

/// `script_executable`: the file at `path` may be executed by `forUser` (anyone when not
/// given). `facts` is the owner, group and permission bits `stat` reported (`None` when
/// nothing is there); `passwd` and `groups` are the account and group databases.
pub fn script_executable(
    v: &Validator,
    facts: Option<(u32, u32, u32)>,
    passwd: &Vec<PasswdEntry>,
    groups: &Vec<GroupEntry>,
) -> (r: CheckOutcome)
    requires
        v.wf(),
    ensures
        match v.str_param_spec("path"@) {
            None => is_missing_outcome(r, v.kind@, "path"@),
            Some(p) => match facts {
                None => fails(r, v.kind@, p + " does not exist."@, FailureCategory::WrongPath, None, None),
                Some((uid, gid, bits)) => {
                    let user = v.str_param_spec("forUser"@);
                    match user {
                        Some(u) if account(passwd@, u) is None => fails(
                            r,
                            v.kind@,
                            "There is no account called "@ + u + "."@,
                            FailureCategory::TaskPartiallyCompleted,
                            None,
                            None,
                        ),
                        _ => {
                            let (bit, who) = match user {
                                None => (0o111u32, "anyone"@),
                                Some(u) => needed_bit(u, uid, gid, passwd@, groups@),
                            };
                            if bits & bit != 0 {
                                passes(r, v.kind@, p + " is executable by "@ + who + "."@)
                            } else {
                                fails(
                                    r,
                                    v.kind@,
                                    p + " is not executable by "@ + who + ". Add the execute bit with chmod."@,
                                    FailureCategory::WrongPermissions,
                                    Some("execute bit "@ + format_mode_spec(bit)),
                                    Some(format_mode_spec(bits)),
                                )
                            }
                        },
                    }
                },
            },
        },
{
    let path = match args::path(v, "path") {
        Ok(p) => p,
        Err(o) => return o,
    };
    let kind = v.kind.as_str();
    let (uid, gid, bits) = match facts {
        Some(f) => f,
        None => return CheckOutcome::fail(kind, cat2(path.as_str(), " does not exist.").as_str(), FailureCategory::WrongPath),
    };
    let (bit, who): (u32, String) = match args::optional_string(v, "forUser") {
        None => (0o111u32, owned("anyone")),
        Some(user) => match super::identity::find_account(passwd, user) {
            None => {
                return CheckOutcome::fail(
                    kind,
                    phrase("There is no account called ", user, ".").as_str(),
                    FailureCategory::TaskPartiallyCompleted,
                )
            },
            Some(i) => if passwd[i].uid == uid {
                (0o100u32, cat2("its owner ", user))
            } else {
                let mine = groups_for_user(user, passwd, groups);
                let in_group = match group_for_gid(gid, groups) {
                    Some(n) => crate::sys::contains_text(&mine, n.as_str()),
                    None => false,
                };
                if in_group {
                    (0o010u32, cat2("group members including ", user))
                } else {
                    (0o001u32, cat2("other users including ", user))
                }
            },
        },
    };
    if bits & bit != 0 {
        let mut m = phrase(path.as_str(), " is executable by ", who.as_str());
        append(&mut m, ".");
        CheckOutcome::pass(kind, m.as_str())
    } else {
        let mut m = phrase(path.as_str(), " is not executable by ", who.as_str());
        append(&mut m, ". Add the execute bit with chmod.");
        let wanted = cat2("execute bit ", format_mode(bit).as_str());
        CheckOutcome::fail(kind, m.as_str(), FailureCategory::WrongPermissions).expected(wanted.as_str()).observed(
            format_mode(bits).as_str(),
        )
    }
}

/// The failure for a command that ran out of time.
pub open spec fn too_slow(r: CheckOutcome, kind: Seq<char>) -> bool {
    fails(
        r,
        kind,
        "The command did not finish in time. An unbounded loop or a command waiting for input will do this."@,
        FailureCategory::ScriptLogicFailure,
        None,
        None,
    )
}

fn too_slow_outcome(kind: &str) -> (r: CheckOutcome)
    ensures
        too_slow(r, kind@),
{
    CheckOutcome::fail(
        kind,
        "The command did not finish in time. An unbounded loop or a command waiting for input will do this.",
        FailureCategory::ScriptLogicFailure,
    )
}

/// The quoted string items of the `args` array, in order.
pub open spec fn quoted_args(items: Seq<ArrayItem>) -> Seq<Seq<char>> {
    args::text_items(items).map_values(|a: Seq<char>| shell_quote_spec(a))
}

/// The command line `script_exit_code` runs: the quoted script path, a space, then the
/// quoted `args`, space-separated.
pub open spec fn script_command_spec(v: Validator, path: Seq<char>) -> Seq<char> {
    shell_quote_spec(path) + " "@ + match v.param("args"@) {
        Some(ParamValue::Array(items)) => join(quoted_args(items@), " "@),
        _ => Seq::empty(),
    }
}

/// The shell command that runs the script at `path` with the validator's `args`.
pub fn script_command(v: &Validator, path: &str) -> (r: String)
    requires
        v.wf(),
    ensures
        r@ == script_command_spec(*v, path@),
{
    let mut quoted: Vec<String> = Vec::new();
    match v.get("args") {
        Some(ParamValue::Array(items)) => {
            let texts = match args::string_list(v, "args") {
                Ok(t) => t,
                Err(_) => Vec::new(),
            };
            assert(strings_view(texts@) == args::text_items(items@));
            let mut i: usize = 0;
            while i < texts.len()
                invariant
                    i <= texts@.len(),
                    strings_view(quoted@) == strings_view(texts@).take(i as int).map_values(
                        |a: Seq<char>| shell_quote_spec(a),
                    ),
                decreases texts.len() - i,
            {
                let ghost before = strings_view(quoted@);
                quoted.push(shell_quote(texts[i].as_str()));
                proof {
                    let f = |a: Seq<char>| shell_quote_spec(a);
                    assert(strings_view(quoted@) =~= before.push(shell_quote_spec(texts@[i as int]@)));
                    assert(strings_view(texts@)[i as int] == texts@[i as int]@);
                    assert(strings_view(texts@).take(i + 1).map_values(f) =~= strings_view(texts@).take(
                        i as int,
                    ).map_values(f).push(shell_quote_spec(texts@[i as int]@)));
                }
                i += 1;
            }
            assert(strings_view(texts@).take(texts@.len() as int) =~= strings_view(texts@));
        },
        _ => {},
    }
    let tail = join_strings(&quoted, " ");
    proof {
        match v.param("args"@) {
            Some(ParamValue::Array(items)) => {},
            _ => {
                assert(strings_view(quoted@) =~= Seq::<Seq<char>>::empty());
            },
        }
    }
    phrase(shell_quote(path).as_str(), " ", tail.as_str())
}

/// `script_exit_code`: running the script at `path` (with `args`, and `stdin` when given)
/// exits with `exitCode`. `output` is the run's result, or the errored outcome of a run that
/// could not start.
pub fn script_exit_code(v: &Validator, output: Result<CommandOutput, CheckOutcome>) -> (r: CheckOutcome)
    requires
        v.wf(),
    ensures
        match v.str_param_spec("path"@) {
            None => is_missing_outcome(r, v.kind@, "path"@),
            Some(_) => match v.i64_param_spec("exitCode"@) {
                None => errs(r, v.kind@, "the exitCode parameter is missing or not a number"@),
                Some(want) => match output {
                    Err(o) => r == o,
                    Ok(out) => if out.timed_out {
                        too_slow(r, v.kind@)
                    } else if out.status as i64 == want {
                        passes(r, v.kind@, "The script exited with "@ + signed_decimal(want as int) + "."@)
                    } else {
                        fails(
                            r,
                            v.kind@,
                            "The script exited with "@ + signed_decimal(out.status as int) + " rather than "@
                                + signed_decimal(want as int)
                                + ". Exit codes are how other programs learn whether your script succeeded."@,
                            FailureCategory::ScriptLogicFailure,
                            Some(signed_decimal(want as int)),
                            Some(signed_decimal(out.status as int)),
                        )
                    },
                },
            },
        },
{
    let _path = match args::path(v, "path") {
        Ok(p) => p,
        Err(o) => return o,
    };
    let kind = v.kind.as_str();
    let want = match args::optional_integer(v, "exitCode") {
        Some(w) => w,
        None => return CheckOutcome::error(kind, "the exitCode parameter is missing or not a number"),
    };
    let out = match output {
        Ok(out) => out,
        Err(o) => return o,
    };
    if out.timed_out {
        return too_slow_outcome(kind);
    }
    let wanted = signed_decimal_string(want);
    if out.status as i64 == want {
        CheckOutcome::pass(kind, phrase("The script exited with ", wanted.as_str(), ".").as_str())
    } else {
        let got = signed_decimal_string(out.status as i64);
        let m = phrase2(
            "The script exited with ",
            got.as_str(),
            " rather than ",
            wanted.as_str(),
            ". Exit codes are how other programs learn whether your script succeeded.",
        );
        CheckOutcome::fail(kind, m.as_str(), FailureCategory::ScriptLogicFailure).expected(wanted.as_str()).observed(
            got.as_str(),
        )
    }
}

fn without_trailing(s: &str, c: char) -> (r: String)
    ensures
        r@ == strip_trailing(s@, c),
{
    let chars = chars_of(s);
    let mut end: usize = chars.len();
    assert(chars@.take(end as int) =~= chars@);
    while end > 0 && chars[end - 1] == c
        invariant
            end <= chars@.len(),
            chars@ == s@,
            strip_trailing(s@, c) == strip_trailing(chars@.take(end as int), c),
        decreases end,
    {
        assert(chars@.take(end as int).drop_last() =~= chars@.take(end - 1));
        end -= 1;
    }
    let kept = crate::text::chars_from_to(&chars, 0, end);
    string_of(&kept)
}

/// `stdout_exact`: the output of `command` is exactly `expected`, trailing newlines aside
/// unless `trimTrailingNewline` is false. `output` is the run's result, or the errored
/// outcome of a run that could not start.
pub fn stdout_exact(v: &Validator, output: Result<CommandOutput, CheckOutcome>) -> (r: CheckOutcome)
    requires
        v.wf(),
    ensures
        match (v.str_param_spec("command"@), v.str_param_spec("expected"@)) {
            (None, _) => is_missing_outcome(r, v.kind@, "command"@),
            (Some(_), None) => is_missing_outcome(r, v.kind@, "expected"@),
            (Some(_), Some(want)) => match output {
                Err(o) => r == o,
                Ok(out) => if out.timed_out {
                    too_slow(r, v.kind@)
                } else {
                    let trim = v.bool_param_spec("trimTrailingNewline"@) != Some(false);
                    let actual = if trim {
                        strip_trailing(out.stdout@, '\n')
                    } else {
                        out.stdout@
                    };
                    let wanted = if trim {
                        strip_trailing(want, '\n')
                    } else {
                        want
                    };
                    if actual == wanted {
                        passes(r, v.kind@, "The output is exactly right."@)
                    } else {
                        fails(
                            r,
                            v.kind@,
                            "The output is not what the task asked for. Build the pipeline up one stage at a time and compare each stage."@,
                            FailureCategory::PipelineOutputIncorrect,
                            Some(first_lines_spec(wanted, 6)),
                            Some(first_lines_spec(actual, 6)),
                        )
                    }
                },
            },
        },
{
    let _command = match args::string(v, "command") {
        Ok(c) => c,
        Err(o) => return o,
    };
    let expected = match args::string(v, "expected") {
        Ok(e) => e,
        Err(o) => return o,
    };
    let kind = v.kind.as_str();
    let out = match output {
        Ok(out) => out,
        Err(o) => return o,
    };
    if out.timed_out {
        return too_slow_outcome(kind);
    }
    let trim = args::flag_or(v, "trimTrailingNewline", true);
    let actual = if trim {
        without_trailing(out.stdout.as_str(), '\n')
    } else {
        out.stdout.clone()
    };
    let wanted = if trim {
        without_trailing(expected, '\n')
    } else {
        owned(expected)
    };
    if crate::text::same_text(actual.as_str(), wanted.as_str()) {
        CheckOutcome::pass(kind, "The output is exactly right.")
    } else {
        CheckOutcome::fail(
            kind,
            "The output is not what the task asked for. Build the pipeline up one stage at a time and compare each stage.",
            FailureCategory::PipelineOutputIncorrect,
        ).expected(first_lines(wanted.as_str(), 6).as_str()).observed(first_lines(actual.as_str(), 6).as_str())
    }
}

/// `stdout_contains`: the output of `command` contains `text`.
pub fn stdout_contains(v: &Validator, output: Result<CommandOutput, CheckOutcome>) -> (r: CheckOutcome)
    requires
        v.wf(),
    ensures
        match (v.str_param_spec("command"@), v.str_param_spec("text"@)) {
            (None, _) => is_missing_outcome(r, v.kind@, "command"@),
            (Some(_), None) => is_missing_outcome(r, v.kind@, "text"@),
            (Some(_), Some(t)) => match output {
                Err(o) => r == o,
                Ok(out) => if out.timed_out {
                    too_slow(r, v.kind@)
                } else if contains(out.stdout@, t) {
                    passes(r, v.kind@, "The output contains what the task asked for."@)
                } else {
                    fails(
                        r,
                        v.kind@,
                        "The output does not contain what the task asked for."@,
                        FailureCategory::PipelineOutputIncorrect,
                        Some(t),
                        Some(first_lines_spec(out.stdout@, 6)),
                    )
                },
            },
        },
{
    let _command = match args::string(v, "command") {
        Ok(c) => c,
        Err(o) => return o,
    };
    let needle = match args::string(v, "text") {
        Ok(t) => t,
        Err(o) => return o,
    };
    let kind = v.kind.as_str();
    let out = match output {
        Ok(out) => out,
        Err(o) => return o,
    };
    if out.timed_out {
        return too_slow_outcome(kind);
    }
    if contains_chars(&chars_of(out.stdout.as_str()), &chars_of(needle)) {
        CheckOutcome::pass(kind, "The output contains what the task asked for.")
    } else {
        CheckOutcome::fail(
            kind,
            "The output does not contain what the task asked for.",
            FailureCategory::PipelineOutputIncorrect,
        ).expected(needle).observed(first_lines(out.stdout.as_str(), 6).as_str())
    }
}

/// `stderr_contains`: the error output of `command` contains `text` (a redirect lesson's
/// check, so a run that timed out is judged on what it wrote).
pub fn stderr_contains(v: &Validator, output: Result<CommandOutput, CheckOutcome>) -> (r: CheckOutcome)
    requires
        v.wf(),
    ensures
        match (v.str_param_spec("command"@), v.str_param_spec("text"@)) {
            (None, _) => is_missing_outcome(r, v.kind@, "command"@),
            (Some(_), None) => is_missing_outcome(r, v.kind@, "text"@),
            (Some(_), Some(t)) => match output {
                Err(o) => r == o,
                Ok(out) => if contains(out.stderr@, t) {
                    passes(r, v.kind@, "The error output is as expected."@)
                } else {
                    fails(
                        r,
                        v.kind@,
                        "The error output does not contain what the task asked for. Remember that errors go to a different stream from normal output."@,
                        FailureCategory::IncorrectRedirect,
                        Some(t),
                        Some(first_lines_spec(out.stderr@, 6)),
                    )
                },
            },
        },
{
    let _command = match args::string(v, "command") {
        Ok(c) => c,
        Err(o) => return o,
    };
    let needle = match args::string(v, "text") {
        Ok(t) => t,
        Err(o) => return o,
    };
    let kind = v.kind.as_str();
    let out = match output {
        Ok(out) => out,
        Err(o) => return o,
    };
    if contains_chars(&chars_of(out.stderr.as_str()), &chars_of(needle)) {
        CheckOutcome::pass(kind, "The error output is as expected.")
    } else {
        CheckOutcome::fail(
            kind,
            "The error output does not contain what the task asked for. Remember that errors go to a different stream from normal output.",
            FailureCategory::IncorrectRedirect,
        ).expected(needle).observed(first_lines(out.stderr.as_str(), 6).as_str())
    }
}

/// The names of a fixture's case directories, in `String` order: those starting with
/// `case-`.
pub open spec fn case_names(names: Seq<Seq<char>>) -> Seq<Seq<char>>
    decreases names.len(),
{
    if names.len() == 0 {
        Seq::empty()
    } else {
        let rest = case_names(names.drop_last());
        if starts_with(names.last(), "case-"@) {
            rest.push(names.last())
        } else {
            rest
        }
    }
}

/// The hidden test cases of a fixture, from the names of its subdirectories: those named
/// `case-*`, sorted.
pub fn fixture_cases(directories: Vec<String>) -> (r: Vec<String>)
    ensures
        strings_view(r@) == super::filesystem::sorted_names(case_names(strings_view(directories@))),
{
    let mut kept: Vec<String> = Vec::new();
    let mut i: usize = 0;
    let prefix = chars_of("case-");
    while i < directories.len()
        invariant
            i <= directories@.len(),
            prefix@ == "case-"@,
            strings_view(kept@) == case_names(strings_view(directories@).take(i as int)),
        decreases directories.len() - i,
    {
        assert(strings_view(directories@).take(i + 1).drop_last() =~= strings_view(directories@).take(i as int));
        assert(strings_view(directories@).take(i + 1).last() == directories@[i as int]@);
        let ghost before = strings_view(kept@);
        if crate::text::starts_with_chars(&chars_of(directories[i].as_str()), &prefix) {
            kept.push(directories[i].clone());
            assert(strings_view(kept@) =~= before.push(directories@[i as int]@));
        }
        i += 1;
    }
    assert(strings_view(directories@).take(directories@.len() as int) =~= strings_view(directories@));
    let r = super::filesystem::visible_entries(kept, true);
    proof {
        lemma_shown_all(strings_view(kept@));
    }
    r
}

proof fn lemma_shown_all(names: Seq<Seq<char>>)
    ensures
        super::filesystem::shown_names(names, true) == names,
    decreases names.len(),
{
    if names.len() > 0 {
        lemma_shown_all(names.drop_last());
        assert(names.drop_last().push(names.last()) =~= names);
    }
}

/// What a hidden case's run says: nothing when it printed what was expected (trailing white
/// space aside), otherwise why it failed, naming only the case.
pub open spec fn case_failure_spec(name: Seq<char>, timed_out: bool, stdout: Seq<char>, expected: Seq<char>) -> Option<Seq<char>> {
    if timed_out {
        Some(name + ": did not finish in time"@)
    } else if trim_end(stdout) != trim_end(expected) {
        Some(name + ": output did not match"@)
    } else {
        None
    }
}

pub fn case_failure(name: &str, timed_out: bool, stdout: &str, expected: &str) -> (r: Option<String>)
    ensures
        crate::vm_manager::opt_view(r) == case_failure_spec(name@, timed_out, stdout@, expected@),
{
    if timed_out {
        return Some(cat2(name, ": did not finish in time"));
    }
    let a = crate::text::trim_end_text(stdout);
    let b = crate::text::trim_end_text(expected);
    if !crate::text::same_text(a.as_str(), b.as_str()) {
        Some(cat2(name, ": output did not match"))
    } else {
        None
    }
}

/// `unit_test_passes`, once every hidden case has run: all `total` cases passed, or which
/// of them failed (never their inputs, or the fixture would stop being hidden).
pub fn unit_test_verdict(kind: &str, total: usize, failures: &Vec<String>) -> (r: CheckOutcome)
    requires
        failures@.len() <= total,
    ensures
        if failures@.len() == 0 {
            passes(
                r,
                kind@,
                "Your solution produced the right answer for all "@ + decimal(total as nat)
                    + " test cases, including the hidden ones."@,
            )
        } else {
            fails(
                r,
                kind@,
                "Your solution worked for "@ + decimal((total - failures@.len()) as nat) + " of "@
                    + decimal(total as nat)
                    + " test cases. The failing cases use different data from the example, so look for anything that assumes the sample values."@,
                FailureCategory::ScriptLogicFailure,
                None,
                Some(join(strings_view(failures@), "; "@)),
            )
        },
{
    let all = decimal_string(total as u64);
    if failures.len() == 0 {
        CheckOutcome::pass(
            kind,
            phrase("Your solution produced the right answer for all ", all.as_str(), " test cases, including the hidden ones.").as_str(),
        )
    } else {
        let good = decimal_string((total - failures.len()) as u64);
        let m = phrase2(
            "Your solution worked for ",
            good.as_str(),
            " of ",
            all.as_str(),
            " test cases. The failing cases use different data from the example, so look for anything that assumes the sample values.",
        );
        let shown = join_strings(failures, "; ");
        CheckOutcome::fail(kind, m.as_str(), FailureCategory::ScriptLogicFailure).observed(shown.as_str())
    }
}

/// The severity `shellcheck_passes` reports at: the validator's `severity`, `warning` by
/// default.
pub open spec fn severity_spec(v: Validator) -> Seq<char> {
    match v.str_param_spec("severity"@) {
        Some(s) => s,
        None => "warning"@,
    }
}

/// The codes the validator tells shellcheck to ignore, comma-separated.
pub open spec fn excludes_spec(v: Validator) -> Seq<char> {
    match v.param("exclude"@) {
        Some(ParamValue::Array(items)) => join(args::text_items(items@), ","@),
        _ => Seq::empty(),
    }
}

/// The `shellcheck` arguments for the script at `path`.
pub fn shellcheck_arguments(v: &Validator, path: &str) -> (r: Vec<String>)
    requires
        v.wf(),
    ensures
        strings_view(r@) == seq!["--format=gcc"@, "--severity"@, severity_spec(*v)] + (if excludes_spec(*v).len() > 0 {
            seq!["--exclude"@, excludes_spec(*v)]
        } else {
            Seq::empty()
        }) + seq!["--"@, path@],
{
    let severity = match args::optional_string(v, "severity") {
        Some(s) => owned(s),
        None => owned("warning"),
    };
    let excludes = match v.get("exclude") {
        Some(ParamValue::Array(_)) => match args::string_list(v, "exclude") {
            Ok(list) => join_strings(&list, ","),
            Err(_) => String::new(),
        },
        _ => String::new(),
    };
    let mut a: Vec<String> = Vec::new();
    a.push(owned("--format=gcc"));
    a.push(owned("--severity"));
    a.push(severity);
    let ghost head = strings_view(a@);
    if excludes.unicode_len() > 0 {
        a.push(owned("--exclude"));
        a.push(excludes);
    }
    let ghost mid = strings_view(a@);
    a.push(owned("--"));
    a.push(owned(path));
    proof {
        assert(head =~= seq!["--format=gcc"@, "--severity"@, severity_spec(*v)]);
        let ex = if excludes_spec(*v).len() > 0 {
            seq!["--exclude"@, excludes_spec(*v)]
        } else {
            Seq::<Seq<char>>::empty()
        };
        assert(mid =~= head + ex);
        assert(strings_view(a@) =~= mid + seq!["--"@, path@]);
    }
    a
}

/// `shellcheck_passes`: shellcheck finds nothing at or above the severity in the script at
/// `path`. `output` is the run with [`shellcheck_arguments`], or why it could not run.
pub fn shellcheck_passes(v: &Validator, output: Result<CommandOutput, String>) -> (r: CheckOutcome)
    requires
        v.wf(),
    ensures
        match v.str_param_spec("path"@) {
            None => is_missing_outcome(r, v.kind@, "path"@),
            Some(_) => match output {
                Err(e) => errs(r, v.kind@, e@),
                Ok(out) => if out.status == 0 && !out.timed_out {
                    passes(r, v.kind@, "shellcheck reports no problems at or above "@ + severity_spec(*v) + "."@)
                } else {
                    fails(
                        r,
                        v.kind@,
                        "shellcheck found problems in the script."@,
                        FailureCategory::ScriptSyntaxFailure,
                        None,
                        Some(join(if lines(out.stdout@).len() > 5 {
                            lines(out.stdout@).take(5)
                        } else {
                            lines(out.stdout@)
                        }, " / "@)),
                    )
                },
            },
        },
{
    let _path = match args::path(v, "path") {
        Ok(p) => p,
        Err(o) => return o,
    };
    let severity = match args::optional_string(v, "severity") {
        Some(s) => owned(s),
        None => owned("warning"),
    };
    let kind = v.kind.as_str();
    let out = match output {
        Ok(out) => out,
        Err(e) => return CheckOutcome::error(kind, e.as_str()),
    };
    if out.success() {
        CheckOutcome::pass(kind, phrase("shellcheck reports no problems at or above ", severity.as_str(), ".").as_str())
    } else {
        let mut ls = lines_of(out.stdout.as_str());
        if ls.len() > 5 {
            ls.truncate(5);
            assert(strings_view(ls@) =~= lines(out.stdout@).take(5));
        }
        let shown = join_strings(&ls, " / ");
        CheckOutcome::fail(kind, "shellcheck found problems in the script.", FailureCategory::ScriptSyntaxFailure).observed(
            shown.as_str(),
        )
    }
}

/// Where `side_effect_exists` runs its command: the learner's home directory, as the
/// terminal does (`/root` for root).
pub open spec fn home_of(user: Seq<char>) -> Seq<char> {
    if user == "root"@ {
        "/root"@
    } else {
        join_spec("/home"@, user)
    }
}

pub fn side_effect_dir(ctx: &Ctx) -> (r: String)
    ensures
        r@ == home_of(ctx.subject_user@),
{
    let root = crate::text::same_text(ctx.subject_user.as_str(), "root");
    proof {
        reveal_strlit("root");
    }
    if root {
        owned("/root")
    } else {
        join_path("/home", ctx.subject_user.as_str())
    }
}

/// `side_effect_exists` for a command that did not finish in time.
pub fn side_effect_timed_out(kind: &str) -> (r: CheckOutcome)
    ensures
        fails(r, kind@, "The command did not finish in time."@, FailureCategory::ScriptLogicFailure, None, None),
{
    CheckOutcome::fail(kind, "The command did not finish in time.", FailureCategory::ScriptLogicFailure)
}

/// `side_effect_exists`, once the nested validators have run on the state the command left:
/// `failed` holds the messages of those that did not pass.
pub fn side_effect_verdict(kind: &str, failed: &Vec<String>) -> (r: CheckOutcome)
    ensures
        if failed@.len() == 0 {
            passes(r, kind@, "Running the command produced the expected result."@)
        } else {
            fails(
                r,
                kind@,
                "The command ran, but it did not have the effect the task asked for."@,
                FailureCategory::ScriptLogicFailure,
                None,
                Some(join(strings_view(failed@), "; "@)),
            )
        },
{
    if failed.len() == 0 {
        CheckOutcome::pass(kind, "Running the command produced the expected result.")
    } else {
        let shown = join_strings(failed, "; ");
        CheckOutcome::fail(
            kind,
            "The command ran, but it did not have the effect the task asked for.",
            FailureCategory::ScriptLogicFailure,
        ).observed(shown.as_str())
    }
}

/// How many times `idempotent_result` runs its command: `runs`, two by default, kept
/// within two to five.
pub open spec fn runs_spec(v: Validator) -> i64 {
    let n = match v.i64_param_spec("runs"@) {
        Some(n) => n,
        None => 2,
    };
    if n < 2 {
        2
    } else if n > 5 {
        5
    } else {
        n
    }
}

pub fn idempotent_runs(v: &Validator) -> (r: i64)
    requires
        v.wf(),
    ensures
        r == runs_spec(*v),
        2 <= r <= 5,
{
    let n = match args::optional_integer(v, "runs") {
        Some(n) => n,
        None => 2,
    };
    if n < 2 {
        2
    } else if n > 5 {
        5
    } else {
        n
    }
}

/// One run of `idempotent_result`: the run numbered `attempt` either stops the check (it ran
/// out of time, or its exit status and output differ from the first run's) or leaves the
/// first run's result to compare the next runs with.
pub fn idempotent_step(
    kind: &str,
    attempt: i64,
    first: Option<(i32, String)>,
    output: &CommandOutput,
) -> (r: Result<Option<(i32, String)>, CheckOutcome>)
    ensures
        if output.timed_out {
            r matches Err(o) && fails(
                o,
                kind@,
                "Run "@ + signed_decimal(attempt as int) + " did not finish in time."@,
                FailureCategory::ScriptLogicFailure,
                None,
                None,
            )
        } else {
            match first {
                None => r matches Ok(Some((status, out))) && status == output.status && out@ == output.stdout@,
                Some((status, out)) => if status == output.status && out@ == output.stdout@ {
                    r matches Ok(Some((s2, o2))) && s2 == status && o2@ == out@
                } else {
                    r matches Err(o) && fails(
                        o,
                        kind@,
                        "Run "@ + signed_decimal(attempt as int)
                            + " produced a different result from the first run. A script that is safe to re-run should reach the same state every time."@,
                        FailureCategory::ScriptLogicFailure,
                        Some("exit "@ + signed_decimal(status as int) + " with the same output"@),
                        Some("exit "@ + signed_decimal(output.status as int) + " with different output"@),
                    )
                },
            }
        },
{
    let n = signed_decimal_string(attempt);
    if output.timed_out {
        return Err(CheckOutcome::fail(
            kind,
            phrase("Run ", n.as_str(), " did not finish in time.").as_str(),
            FailureCategory::ScriptLogicFailure,
        ));
    }
    match first {
        None => Ok(Some((output.status, output.stdout.clone()))),
        Some((status, out)) => if status == output.status && crate::text::same_text(out.as_str(), output.stdout.as_str()) {
            Ok(Some((status, out)))
        } else {
            let was = signed_decimal_string(status as i64);
            let now = signed_decimal_string(output.status as i64);
            Err(CheckOutcome::fail(
                kind,
                phrase(
                    "Run ",
                    n.as_str(),
                    " produced a different result from the first run. A script that is safe to re-run should reach the same state every time.",
                ).as_str(),
                FailureCategory::ScriptLogicFailure,
            ).expected(phrase("exit ", was.as_str(), " with the same output").as_str()).observed(
                phrase("exit ", now.as_str(), " with different output").as_str(),
            ))
        },
    }
}

/// `idempotent_result` when every run matched the first.
pub fn idempotent_verdict(kind: &str, runs: i64) -> (r: CheckOutcome)
    ensures
        passes(
            r,
            kind@,
            "Running the command "@ + signed_decimal(runs as int) + " times produced the same result each time."@,
        ),
{
    let n = signed_decimal_string(runs);
    CheckOutcome::pass(kind, phrase("Running the command ", n.as_str(), " times produced the same result each time.").as_str())
}

/// Before any hidden case runs, `unit_test_passes` needs the script's `path`, a usable
/// `fixture`, that fixture installed (`fixture_installed`) and the script present
/// (`script_present`); it then has the script path and the fixture directory.
pub fn unit_test_setup(
    ctx: &Ctx,
    v: &Validator,
    fixture_installed: bool,
    script_present: bool,
) -> (r: Result<(String, String), CheckOutcome>)
    requires
        v.wf(),
    ensures
        match v.str_param_spec("path"@) {
            None => r matches Err(o) && is_missing_outcome(o, v.kind@, "path"@),
            Some(p) => match fixture_dir_spec(*ctx, *v) {
                None => r matches Err(o) && errs(o, v.kind@, "the fixture parameter is missing or unusable"@),
                Some(f) => if !fixture_installed {
                    r matches Err(o) && errs(o, v.kind@, "the fixture directory "@ + f + " is not installed"@)
                } else if !script_present {
                    r matches Err(o) && fails(o, v.kind@, p + " does not exist."@, FailureCategory::WrongPath, None, None)
                } else {
                    r matches Ok((path, dir)) && path@ == p && dir@ == f
                },
            },
        },
{
    let path = match args::path(v, "path") {
        Ok(p) => p,
        Err(o) => return Err(o),
    };
    let kind = v.kind.as_str();
    let fixture = match fixture_dir(ctx, v) {
        Some(f) => f,
        None => return Err(CheckOutcome::error(kind, "the fixture parameter is missing or unusable")),
    };
    if !fixture_installed {
        return Err(CheckOutcome::error(kind, phrase("the fixture directory ", fixture.as_str(), " is not installed").as_str()));
    }
    if !script_present {
        return Err(CheckOutcome::fail(kind, cat2(path.as_str(), " does not exist.").as_str(), FailureCategory::WrongPath));
    }
    Ok((path, fixture))
}

/// `unit_test_passes` for a fixture with no `case-*` directories.
pub fn no_cases(kind: &str, fixture: &str) -> (r: CheckOutcome)
    ensures
        errs(r, kind@, "the fixture "@ + fixture@ + " contains no cases"@),
{
    CheckOutcome::error(kind, phrase("the fixture ", fixture, " contains no cases").as_str())
}

/// The command that runs the script at `path` on one hidden case: the quoted path, a space,
/// and the case's `args` file, trimmed.
pub fn case_command(path: &str, arguments: &str) -> (r: String)
    ensures
        r@ == shell_quote_spec(path@) + " "@ + crate::text::trim(arguments@),
{
    phrase(shell_quote(path).as_str(), " ", crate::text::trimmed(arguments).as_str())
}

proof fn lemma_fixture_chars(s: Seq<char>)
    ensures
        forall|i: int| 0 <= i < fixture_chars(s).len() ==> {
            let c = #[trigger] fixture_chars(s)[i];
            crate::text::is_ascii_alphanumeric(c) || c == '-' || c == '_' || c == '.'
        },
    decreases s.len(),
{
    if s.len() > 0 {
        lemma_fixture_chars(s.drop_last());
        let before = fixture_chars(s.drop_last());
        let k = fixture_chars(s);
        assert forall|i: int| 0 <= i < k.len() implies ({
            let c = #[trigger] k[i];
            crate::text::is_ascii_alphanumeric(c) || c == '-' || c == '_' || c == '.'
        }) by {
            if i < before.len() {
                assert(k[i] == before[i]);
            }
        }
    }
}

/// Fixture paths cannot escape the lesson root: whatever a lesson package names as its
/// fixture, the directory is one name under `fixtures` in the lesson root, made of ASCII
/// letters, digits, `-`, `_` and `.`, neither starting nor ending with a dot (so never `.`
/// or `..`, and never a path of its own).
pub proof fn lemma_fixture_stays_in_lesson(ctx: Ctx, v: Validator)
    ensures
        fixture_dir_spec(ctx, v) matches Some(d) ==> exists|name: Seq<char>| {
            &&& d == join_spec(join_spec(ctx.lesson_root@, "fixtures"@), name)
            &&& name.len() > 0
            &&& name[0] != '.'
            &&& name.last() != '.'
            &&& forall|i: int| 0 <= i < name.len() ==> {
                let c = #[trigger] name[i];
                crate::text::is_ascii_alphanumeric(c) || c == '-' || c == '_' || c == '.'
            }
        },
{
    match v.str_param_spec("fixture"@) {
        None => {},
        Some(f) => {
            let k = fixture_chars(f);
            let safe = strip_both(k, '.');
            lemma_fixture_chars(f);
            super::lemma_strip_both_inside(k, '.');
            if safe.len() > 0 {
                let (a, b) = choose|a: int, b: int| 0 <= a <= b <= k.len() && safe == k.subrange(a, b);
                assert forall|i: int| 0 <= i < safe.len() implies ({
                    let c = #[trigger] safe[i];
                    crate::text::is_ascii_alphanumeric(c) || c == '-' || c == '_' || c == '.'
                }) by {
                    assert(safe[i] == k[a + i]);
                }
            }
        },
    }
}

} // verus!
