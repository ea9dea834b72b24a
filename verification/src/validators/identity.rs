//! Account, group, sudo, password and ACL validators: what each one concludes from the
//! account databases and command output the agent read.
use super::args::{self, is_missing_outcome};
use super::network::opt_text;
use super::{errs, fails, passes, passes_with};
use crate::sys::{CommandOutput, GroupEntry, PasswdEntry, gid_name, group_for_gid, groups_for_user, strictly_sorted, user_group_names};
use crate::text::{
    append, chars_of, contains, contains_chars, decimal, decimal_string, join, join_strings,
    lines, lines_of, owned, phrase, phrase2, signed_decimal, signed_decimal_string, split_on,
    starts_with, strings_view, trim, trimmed,
};
use crate::validation::{CheckOutcome, FailureCategory};
use crate::lesson::Validator;
use vstd::prelude::*;

verus! {

fn cat2(a: &str, b: &str) -> (r: String)
    ensures
        r@ == a@ + b@,
{
    let mut r = owned(a);
    append(&mut r, b);
    r
}

/// The first account named `user`.
pub open spec fn account_named(passwd: Seq<PasswdEntry>, user: Seq<char>) -> Option<PasswdEntry>
    decreases passwd.len(),
{
    if passwd.len() == 0 {
        None
    } else if passwd[0].name@ == user {
        Some(passwd[0])
    } else {
        account_named(passwd.drop_first(), user)
    }
}

/// The first group named `group`.
pub open spec fn group_named(groups: Seq<GroupEntry>, group: Seq<char>) -> Option<GroupEntry>
    decreases groups.len(),
{
    if groups.len() == 0 {
        None
    } else if groups[0].name@ == group {
        Some(groups[0])
    } else {
        group_named(groups.drop_first(), group)
    }
}

pub fn find_account(passwd: &Vec<PasswdEntry>, user: &str) -> (r: Option<usize>)
    ensures
        match r {
            Some(i) => i < passwd@.len() && account_named(passwd@, user@) == Some(passwd@[i as int]),
            None => account_named(passwd@, user@) is None,
        },
{
    let mut i: usize = 0;
    assert(passwd@.skip(0) =~= passwd@);
    while i < passwd.len()
        invariant
            i <= passwd@.len(),
            account_named(passwd@, user@) == account_named(passwd@.skip(i as int), user@),
        decreases passwd.len() - i,
    {
        assert(passwd@.skip(i as int).drop_first() =~= passwd@.skip(i + 1));
        if crate::text::same_text(passwd[i].name.as_str(), user) {
            return Some(i);
        }
        i += 1;
    }
    None
}

fn find_group(groups: &Vec<GroupEntry>, group: &str) -> (r: Option<usize>)
    ensures
        match r {
            Some(i) => i < groups@.len() && group_named(groups@, group@) == Some(groups@[i as int]),
            None => group_named(groups@, group@) is None,
        },
{
    let mut i: usize = 0;
    assert(groups@.skip(0) =~= groups@);
    while i < groups.len()
        invariant
            i <= groups@.len(),
            group_named(groups@, group@) == group_named(groups@.skip(i as int), group@),
        decreases groups.len() - i,
    {
        assert(groups@.skip(i as int).drop_first() =~= groups@.skip(i + 1));
        if crate::text::same_text(groups[i].name.as_str(), group) {
            return Some(i);
        }
        i += 1;
    }
    None
}

/// The failure for an account that does not exist.
pub open spec fn no_account(r: CheckOutcome, kind: Seq<char>, user: Seq<char>) -> bool {
    fails(r, kind, "There is no account called "@ + user + "."@, FailureCategory::TaskPartiallyCompleted, None, None)
}

fn no_account_outcome(kind: &str, user: &str) -> (r: CheckOutcome)
    ensures
        no_account(r, kind@, user@),
{
    CheckOutcome::fail(
        kind,
        phrase("There is no account called ", user, ".").as_str(),
        FailureCategory::TaskPartiallyCompleted,
    )
}

/// The failure for a group that does not exist.
pub open spec fn no_group(r: CheckOutcome, kind: Seq<char>, group: Seq<char>) -> bool {
    fails(r, kind, "There is no group called "@ + group + "."@, FailureCategory::TaskPartiallyCompleted, None, None)
}

fn no_group_outcome(kind: &str, group: &str) -> (r: CheckOutcome)
    ensures
        no_group(r, kind@, group@),
{
    CheckOutcome::fail(
        kind,
        phrase("There is no group called ", group, ".").as_str(),
        FailureCategory::TaskPartiallyCompleted,
    )
}

/// `user_exists`: an account named `user` exists and, when `uidMin` is given, has a uid of at
/// least that, which tells a real account from a reused system uid. `passwd` is the accounts
/// of `/etc/passwd`, or `None` when it could not be read.
pub fn user_exists(v: &Validator, passwd: Option<&Vec<PasswdEntry>>) -> (r: CheckOutcome)
    requires
        v.wf(),
    ensures
        match v.str_param_spec("user"@) {
            None => is_missing_outcome(r, v.kind@, "user"@),
            Some(u) => match passwd {
                None => errs(r, v.kind@, "could not read /etc/passwd"@),
                Some(ps) => match account_named(ps@, u) {
                    None => no_account(r, v.kind@, u),
                    Some(e) => match v.i64_param_spec("uidMin"@) {
                        Some(min) if (e.uid as i64) < min => fails(
                            r,
                            v.kind@,
                            "The account "@ + u + " exists but has uid "@ + decimal(e.uid as nat)
                                + ", which is in the system range rather than the regular user range."@,
                            FailureCategory::TaskPartiallyCompleted,
                            Some("uid of at least "@ + signed_decimal(min as int)),
                            Some(decimal(e.uid as nat)),
                        ),
                        _ => passes_with(
                            r,
                            v.kind@,
                            "The account "@ + u + " exists."@,
                            Some("uid "@ + decimal(e.uid as nat)),
                        ),
                    },
                },
            },
        },
{
    let user = match args::string(v, "user") {
        Ok(u) => u,
        Err(o) => return o,
    };
    let kind = v.kind.as_str();
    let ps = match passwd {
        Some(ps) => ps,
        None => return CheckOutcome::error(kind, "could not read /etc/passwd"),
    };
    let i = match find_account(ps, user) {
        Some(i) => i,
        None => return no_account_outcome(kind, user),
    };
    let uid = ps[i].uid;
    let shown = decimal_string(uid as u64);
    match args::optional_integer(v, "uidMin") {
        Some(min) => if (uid as i64) < min {
            let limit = signed_decimal_string(min);
            let message = phrase2(
                "The account ",
                user,
                " exists but has uid ",
                shown.as_str(),
                ", which is in the system range rather than the regular user range.",
            );
            return CheckOutcome::fail(kind, message.as_str(), FailureCategory::TaskPartiallyCompleted).expected(
                cat2("uid of at least ", limit.as_str()).as_str(),
            ).observed(shown.as_str());
        },
        None => {},
    }
    CheckOutcome::pass(kind, phrase("The account ", user, " exists.").as_str()).observed(
        cat2("uid ", shown.as_str()).as_str(),
    )
}

/// `user_missing`: no account is named `user`.
pub fn user_missing(v: &Validator, passwd: Option<&Vec<PasswdEntry>>) -> (r: CheckOutcome)
    requires
        v.wf(),
    ensures
        match v.str_param_spec("user"@) {
            None => is_missing_outcome(r, v.kind@, "user"@),
            Some(u) => match passwd {
                None => errs(r, v.kind@, "could not read /etc/passwd"@),
                Some(ps) => if account_named(ps@, u) is Some {
                    fails(
                        r,
                        v.kind@,
                        "The account "@ + u + " still exists."@,
                        FailureCategory::TaskPartiallyCompleted,
                        None,
                        None,
                    )
                } else {
                    passes(r, v.kind@, "There is no account called "@ + u + "."@)
                },
            },
        },
{
    let user = match args::string(v, "user") {
        Ok(u) => u,
        Err(o) => return o,
    };
    let kind = v.kind.as_str();
    let ps = match passwd {
        Some(ps) => ps,
        None => return CheckOutcome::error(kind, "could not read /etc/passwd"),
    };
    match find_account(ps, user) {
        Some(_) => CheckOutcome::fail(
            kind,
            phrase("The account ", user, " still exists.").as_str(),
            FailureCategory::TaskPartiallyCompleted,
        ),
        None => CheckOutcome::pass(kind, phrase("There is no account called ", user, ".").as_str()),
    }
}

/// `group_exists`: a group named `group` exists. `groups` is the groups of `/etc/group`, or
/// `None` when it could not be read.
pub fn group_exists(v: &Validator, groups: Option<&Vec<GroupEntry>>) -> (r: CheckOutcome)
    requires
        v.wf(),
    ensures
        match v.str_param_spec("group"@) {
            None => is_missing_outcome(r, v.kind@, "group"@),
            Some(g) => match groups {
                None => errs(r, v.kind@, "could not read /etc/group"@),
                Some(gs) => if group_named(gs@, g) is Some {
                    passes(r, v.kind@, "The group "@ + g + " exists."@)
                } else {
                    no_group(r, v.kind@, g)
                },
            },
        },
{
    let group = match args::string(v, "group") {
        Ok(g) => g,
        Err(o) => return o,
    };
    let kind = v.kind.as_str();
    let gs = match groups {
        Some(gs) => gs,
        None => return CheckOutcome::error(kind, "could not read /etc/group"),
    };
    match find_group(gs, group) {
        Some(_) => CheckOutcome::pass(kind, phrase("The group ", group, " exists.").as_str()),
        None => no_group_outcome(kind, group),
    }
}

/// The names of a user's groups as `group_membership` reports them: sorted, each once,
/// joined with commas.
pub open spec fn listed_groups(text: Seq<char>, user: Seq<char>, passwd: Seq<PasswdEntry>, groups: Seq<GroupEntry>) -> bool {
    exists|s: Seq<Seq<char>>|
        strictly_sorted(s) && s.to_set() == user_group_names(user, passwd, groups) && text == join(s, ", "@)
}

/// `group_membership`: `user` belongs to `group`, as a listed member or through their
/// primary group; with `primary` set, `group` must be their primary group. `passwd` and
/// `groups` are the account and group databases, `None` where one could not be read.
pub fn group_membership(
    v: &Validator,
    passwd: Option<&Vec<PasswdEntry>>,
    groups: Option<&Vec<GroupEntry>>,
) -> (r: CheckOutcome)
    requires
        v.wf(),
    ensures
        match (v.str_param_spec("user"@), v.str_param_spec("group"@)) {
            (None, _) => is_missing_outcome(r, v.kind@, "user"@),
            (Some(_), None) => is_missing_outcome(r, v.kind@, "group"@),
            (Some(u), Some(g)) => match passwd {
                None => errs(r, v.kind@, "could not read /etc/passwd"@),
                Some(ps) => match account_named(ps@, u) {
                    None => no_account(r, v.kind@, u),
                    Some(e) => match groups {
                        None => errs(r, v.kind@, "could not read /etc/group"@),
                        Some(gs) => match group_named(gs@, g) {
                            None => no_group(r, v.kind@, g),
                            Some(t) => if v.bool_param_spec("primary"@) == Some(true) {
                                if e.gid == t.gid {
                                    passes(r, v.kind@, g + " is the primary group of "@ + u + "."@)
                                } else {
                                    fails(
                                        r,
                                        v.kind@,
                                        g + " is not the primary group of "@ + u + "."@,
                                        FailureCategory::WrongOwnership,
                                        Some(g),
                                        Some(
                                            match gid_name(gs@, e.gid) {
                                                Some(n) => n,
                                                None => decimal(e.gid as nat),
                                            },
                                        ),
                                    )
                                }
                            } else if strings_view(t.members@).contains(u) || e.gid == t.gid {
                                passes(r, v.kind@, u + " is a member of "@ + g + "."@)
                            } else {
                                &&& r.kind@ == v.kind@
                                &&& !r.passed
                                &&& !r.errored
                                &&& r.message@ == u + " is not in the "@ + g
                                    + " group. Note that adding a user to a group does not change the groups of sessions that are already open."@
                                &&& r.failure_category == Some(FailureCategory::WrongOwnership)
                                &&& crate::vm_manager::opt_view(r.expected) == Some(g)
                                &&& r.observed matches Some(o) && listed_groups(o@, u, ps@, gs@)
                                &&& r.weight == 1
                            },
                        },
                    },
                },
            },
        },
{
    let user = match args::string(v, "user") {
        Ok(u) => u,
        Err(o) => return o,
    };
    let group = match args::string(v, "group") {
        Ok(g) => g,
        Err(o) => return o,
    };
    let kind = v.kind.as_str();
    let ps = match passwd {
        Some(ps) => ps,
        None => return CheckOutcome::error(kind, "could not read /etc/passwd"),
    };
    let i = match find_account(ps, user) {
        Some(i) => i,
        None => return no_account_outcome(kind, user),
    };
    let gs = match groups {
        Some(gs) => gs,
        None => return CheckOutcome::error(kind, "could not read /etc/group"),
    };
    let k = match find_group(gs, group) {
        Some(k) => k,
        None => return no_group_outcome(kind, group),
    };
    let gid = ps[i].gid;
    let target = &gs[k];
    if args::flag(v, "primary") {
        if gid == target.gid {
            let mut message = phrase(group, " is the primary group of ", user);
            append(&mut message, ".");
            return CheckOutcome::pass(kind, message.as_str());
        }
        let actual = match group_for_gid(gid, gs) {
            Some(n) => n,
            None => decimal_string(gid as u64),
        };
        let mut message = phrase(group, " is not the primary group of ", user);
        append(&mut message, ".");
        return CheckOutcome::fail(kind, message.as_str(), FailureCategory::WrongOwnership).expected(group).observed(
            actual.as_str(),
        );
    }
    let listed = crate::sys::contains_text(&target.members, user);
    if listed || gid == target.gid {
        let mut message = phrase(user, " is a member of ", group);
        append(&mut message, ".");
        CheckOutcome::pass(kind, message.as_str())
    } else {
        let names = groups_for_user(user, ps, gs);
        let shown = join_strings(&names, ", ");
        let message = phrase(
            user,
            " is not in the ",
            cat2(
                group,
                " group. Note that adding a user to a group does not change the groups of sessions that are already open.",
            ).as_str(),
        );
        assert(message@ =~= user@ + " is not in the "@ + group@
            + " group. Note that adding a user to a group does not change the groups of sessions that are already open."@);
        CheckOutcome::fail(kind, message.as_str(), FailureCategory::WrongOwnership).expected(group).observed(
            shown.as_str(),
        )
    }
}

/// What `sudo_permission` asks about: running `command` with sudo, or sudo at all.
pub open spec fn sudo_subject(command: Option<Seq<char>>) -> Seq<char> {
    match command {
        Some(c) => "run "@ + c + " with sudo"@,
        None => "use sudo"@,
    }
}

/// The arguments of the `sudo` run that answers `sudo_permission`: sudo's own listing of
/// what `user` may do, narrowed to `command` when the validator names one, so drop-in rules
/// and group rules count exactly as sudo counts them.
pub fn sudo_arguments(v: &Validator) -> (r: Result<Vec<String>, CheckOutcome>)
    requires
        v.wf(),
    ensures
        match v.str_param_spec("user"@) {
            None => r matches Err(o) && is_missing_outcome(o, v.kind@, "user"@),
            Some(u) => r matches Ok(a) && strings_view(a@) == match v.str_param_spec("command"@) {
                Some(c) => seq!["-l"@, "-U"@, u, "--"@, c],
                None => seq!["-l"@, "-U"@, u],
            },
        },
{
    let user = match args::string(v, "user") {
        Ok(u) => u,
        Err(o) => return Err(o),
    };
    let mut a: Vec<String> = Vec::new();
    a.push(owned("-l"));
    a.push(owned("-U"));
    a.push(owned(user));
    match args::optional_string(v, "command") {
        Some(c) => {
            a.push(owned("--"));
            a.push(owned(c));
        },
        None => {},
    }
    proof {
        match v.str_param_spec("command"@) {
            Some(c) => assert(strings_view(a@) =~= seq!["-l"@, "-U"@, user@, "--"@, c]),
            None => assert(strings_view(a@) =~= seq!["-l"@, "-U"@, user@]),
        }
    }
    Ok(a)
}

/// `sudo_permission`: `user` may (or, with `allowed` false, may not) use sudo, or run
/// `command` with it. `output` is what the run with [`sudo_arguments`] gave, or why it could
/// not run: naming a command, sudo exits zero only when that command is permitted; otherwise
/// it also says "not allowed to run sudo" when nothing is.
pub fn sudo_permission(v: &Validator, output: Result<CommandOutput, String>) -> (r: CheckOutcome)
    requires
        v.wf(),
    ensures
        match v.str_param_spec("user"@) {
            None => is_missing_outcome(r, v.kind@, "user"@),
            Some(u) => match output {
                Err(e) => errs(r, v.kind@, e@),
                Ok(out) => {
                    let command = v.str_param_spec("command"@);
                    let ok = out.status == 0 && !out.timed_out;
                    let allowed = if command is Some {
                        ok
                    } else {
                        ok && !contains(out.stdout@, "not allowed to run sudo"@)
                    };
                    let wanted = v.bool_param_spec("allowed"@) != Some(false);
                    let subject = sudo_subject(command);
                    if allowed && wanted {
                        passes(r, v.kind@, u + " may "@ + subject + "."@)
                    } else if !allowed && !wanted {
                        passes(r, v.kind@, u + " may not "@ + subject + "."@)
                    } else if allowed {
                        fails(
                            r,
                            v.kind@,
                            u + " can still "@ + subject + ", but should not be able to."@,
                            FailureCategory::PermissionDenied,
                            None,
                            None,
                        )
                    } else {
                        fails(
                            r,
                            v.kind@,
                            u + " cannot "@ + subject + " yet."@,
                            FailureCategory::PermissionDenied,
                            None,
                            None,
                        )
                    }
                },
            },
        },
{
    let user = match args::string(v, "user") {
        Ok(u) => u,
        Err(o) => return o,
    };
    let wanted = args::flag_or(v, "allowed", true);
    let command = args::optional_string(v, "command");
    let kind = v.kind.as_str();
    let out = match output {
        Ok(out) => out,
        Err(e) => return CheckOutcome::error(kind, e.as_str()),
    };
    let allowed = match command {
        Some(_) => out.success(),
        None => out.success() && !contains_chars(
            &chars_of(out.stdout.as_str()),
            &chars_of("not allowed to run sudo"),
        ),
    };
    let subject = match command {
        Some(c) => phrase("run ", c, " with sudo"),
        None => owned("use sudo"),
    };
    let s = subject.as_str();
    if allowed && wanted {
        let mut m = phrase(user, " may ", s);
        append(&mut m, ".");
        CheckOutcome::pass(kind, m.as_str())
    } else if !allowed && !wanted {
        let mut m = phrase(user, " may not ", s);
        append(&mut m, ".");
        CheckOutcome::pass(kind, m.as_str())
    } else if allowed {
        let mut m = phrase(user, " can still ", s);
        append(&mut m, ", but should not be able to.");
        CheckOutcome::fail(kind, m.as_str(), FailureCategory::PermissionDenied)
    } else {
        let mut m = phrase(user, " cannot ", s);
        append(&mut m, " yet.");
        CheckOutcome::fail(kind, m.as_str(), FailureCategory::PermissionDenied)
    }
}

/// The password hash field of `user` in shadow-file lines: the second field of the first
/// line whose first field is `user` (empty when the line has no second field).
pub open spec fn shadow_hash(ls: Seq<Seq<char>>, user: Seq<char>) -> Option<Seq<char>>
    decreases ls.len(),
{
    if ls.len() == 0 {
        None
    } else {
        let f = split_on(ls[0], ':');
        if f[0] == user {
            Some(
                if f.len() > 1 {
                    f[1]
                } else {
                    Seq::empty()
                },
            )
        } else {
            shadow_hash(ls.drop_first(), user)
        }
    }
}

/// A locked password: an empty hash, or one starting with `!` or `*`.
pub open spec fn is_locked(hash: Seq<char>) -> bool {
    hash.len() == 0 || hash[0] == '!' || hash[0] == '*'
}

pub open spec fn locked_word(locked: bool) -> Seq<char> {
    if locked {
        "locked"@
    } else {
        "not locked"@
    }
}

proof fn lemma_split_nonempty(s: Seq<char>, d: char)
    ensures
        split_on(s, d).len() >= 1,
    decreases s.len(),
{
    if s.len() > 0 {
        lemma_split_nonempty(s.drop_last(), d);
    }
}

fn find_hash(ls: &Vec<String>, user: &str) -> (r: Option<String>)
    ensures
        crate::vm_manager::opt_view(r) == shadow_hash(strings_view(ls@), user@),
{
    let ghost lv = strings_view(ls@);
    let mut i: usize = 0;
    assert(lv.skip(0) =~= lv);
    while i < ls.len()
        invariant
            i <= ls@.len(),
            lv == strings_view(ls@),
            shadow_hash(lv, user@) == shadow_hash(lv.skip(i as int), user@),
        decreases ls.len() - i,
    {
        assert(lv.skip(i as int).drop_first() =~= lv.skip(i + 1));
        assert(lv.skip(i as int)[0] == ls@[i as int]@);
        let fields = crate::text::split_chars(&chars_of(ls[i].as_str()), ':');
        proof {
            lemma_split_nonempty(ls@[i as int]@, ':');
        }
        assert(strings_view(fields@)[0] == fields@[0]@);
        if crate::text::same_text(fields[0].as_str(), user) {
            if fields.len() > 1 {
                assert(strings_view(fields@)[1] == fields@[1]@);
                return Some(fields[1].clone());
            } else {
                return Some(String::new());
            }
        }
        i += 1;
    }
    None
}

/// `password_locked`: the password of `user` is locked (or, with `locked` false, usable).
/// `shadow` is the text of `/etc/shadow`, or `None` when it could not be read.
pub fn password_locked(v: &Validator, shadow: Option<&str>) -> (r: CheckOutcome)
    requires
        v.wf(),
    ensures
        match v.str_param_spec("user"@) {
            None => is_missing_outcome(r, v.kind@, "user"@),
            Some(u) => match opt_text(shadow) {
                None => errs(r, v.kind@, "could not read /etc/shadow; the agent must run as root"@),
                Some(text) => match shadow_hash(lines(text), u) {
                    None => fails(
                        r,
                        v.kind@,
                        "There is no shadow entry for "@ + u + "."@,
                        FailureCategory::TaskPartiallyCompleted,
                        None,
                        None,
                    ),
                    Some(h) => {
                        let locked = is_locked(h);
                        let wanted = v.bool_param_spec("locked"@) != Some(false);
                        if locked == wanted {
                            passes(
                                r,
                                v.kind@,
                                "The password for "@ + u + " is "@ + (if locked {
                                    "locked"@
                                } else {
                                    "usable"@
                                }) + "."@,
                            )
                        } else {
                            fails(
                                r,
                                v.kind@,
                                "The password for "@ + u + " is "@ + locked_word(locked) + "."@,
                                FailureCategory::PermissionDenied,
                                Some(locked_word(wanted)),
                                Some(locked_word(locked)),
                            )
                        }
                    },
                },
            },
        },
{
    let user = match args::string(v, "user") {
        Ok(u) => u,
        Err(o) => return o,
    };
    let wanted = args::flag_or(v, "locked", true);
    let kind = v.kind.as_str();
    let text = match shadow {
        Some(t) => t,
        None => return CheckOutcome::error(kind, "could not read /etc/shadow; the agent must run as root"),
    };
    let ls = lines_of(text);
    let h = match find_hash(&ls, user) {
        Some(h) => h,
        None => {
            return CheckOutcome::fail(
                kind,
                phrase("There is no shadow entry for ", user, ".").as_str(),
                FailureCategory::TaskPartiallyCompleted,
            )
        },
    };
    let hc = chars_of(h.as_str());
    let locked = hc.len() == 0 || hc[0] == '!' || hc[0] == '*';
    let word = if locked {
        "locked"
    } else {
        "not locked"
    };
    proof {
        reveal_strlit("locked");
        reveal_strlit("not locked");
    }
    if locked == wanted {
        let state = if locked {
            "locked"
        } else {
            "usable"
        };
        CheckOutcome::pass(kind, phrase2("The password for ", user, " is ", state, ".").as_str())
    } else {
        let want_word = if wanted {
            "locked"
        } else {
            "not locked"
        };
        CheckOutcome::fail(
            kind,
            phrase2("The password for ", user, " is ", word, ".").as_str(),
            FailureCategory::PermissionDenied,
        ).expected(want_word).observed(word)
    }
}

/// `login_shell`: the login shell recorded for `user` is `shell`.
pub fn login_shell(v: &Validator, passwd: Option<&Vec<PasswdEntry>>) -> (r: CheckOutcome)
    requires
        v.wf(),
    ensures
        match (v.str_param_spec("user"@), v.str_param_spec("shell"@)) {
            (None, _) => is_missing_outcome(r, v.kind@, "user"@),
            (Some(_), None) => is_missing_outcome(r, v.kind@, "shell"@),
            (Some(u), Some(sh)) => match passwd {
                None => errs(r, v.kind@, "could not read /etc/passwd"@),
                Some(ps) => match account_named(ps@, u) {
                    None => no_account(r, v.kind@, u),
                    Some(e) => if e.shell@ == sh {
                        passes(r, v.kind@, "The login shell for "@ + u + " is "@ + sh + "."@)
                    } else {
                        fails(
                            r,
                            v.kind@,
                            "The login shell for "@ + u + " is not what the task asked for."@,
                            FailureCategory::TaskPartiallyCompleted,
                            Some(sh),
                            Some(e.shell@),
                        )
                    },
                },
            },
        },
{
    let user = match args::string(v, "user") {
        Ok(u) => u,
        Err(o) => return o,
    };
    let expected = match args::string(v, "shell") {
        Ok(s) => s,
        Err(o) => return o,
    };
    let kind = v.kind.as_str();
    let ps = match passwd {
        Some(ps) => ps,
        None => return CheckOutcome::error(kind, "could not read /etc/passwd"),
    };
    let i = match find_account(ps, user) {
        Some(i) => i,
        None => return no_account_outcome(kind, user),
    };
    let shell = ps[i].shell.as_str();
    if crate::text::same_text(shell, expected) {
        let mut message = phrase2("The login shell for ", user, " is ", expected, ".");
        CheckOutcome::pass(kind, message.as_str())
    } else {
        CheckOutcome::fail(
            kind,
            phrase("The login shell for ", user, " is not what the task asked for.").as_str(),
            FailureCategory::TaskPartiallyCompleted,
        ).expected(expected).observed(shell)
    }
}

/// `home_directory`: the home directory recorded for `user` is `path` and, with
/// `mustExist`, that directory exists (creating an account does not create it unless asked
/// to). `home_exists` is whether `path` is a directory.
pub fn home_directory(v: &Validator, passwd: Option<&Vec<PasswdEntry>>, home_exists: bool) -> (r: CheckOutcome)
    requires
        v.wf(),
    ensures
        match (v.str_param_spec("user"@), v.str_param_spec("path"@)) {
            (None, _) => is_missing_outcome(r, v.kind@, "user"@),
            (Some(_), None) => is_missing_outcome(r, v.kind@, "path"@),
            (Some(u), Some(p)) => match passwd {
                None => errs(r, v.kind@, "could not read /etc/passwd"@),
                Some(ps) => match account_named(ps@, u) {
                    None => no_account(r, v.kind@, u),
                    Some(e) => if e.home@ != p {
                        fails(
                            r,
                            v.kind@,
                            "The home directory recorded for "@ + u + " is not what the task asked for."@,
                            FailureCategory::TaskPartiallyCompleted,
                            Some(p),
                            Some(e.home@),
                        )
                    } else if v.bool_param_spec("mustExist"@) == Some(true) && !home_exists {
                        fails(
                            r,
                            v.kind@,
                            u + " is configured with the home directory "@ + p
                                + ", but that directory does not exist. Creating a user does not create their home directory unless you ask for it."@,
                            FailureCategory::WrongPath,
                            None,
                            None,
                        )
                    } else {
                        passes(r, v.kind@, "The home directory for "@ + u + " is "@ + p + "."@)
                    },
                },
            },
        },
{
    let user = match args::string(v, "user") {
        Ok(u) => u,
        Err(o) => return o,
    };
    let expected = match args::string(v, "path") {
        Ok(p) => p,
        Err(o) => return o,
    };
    let kind = v.kind.as_str();
    let ps = match passwd {
        Some(ps) => ps,
        None => return CheckOutcome::error(kind, "could not read /etc/passwd"),
    };
    let i = match find_account(ps, user) {
        Some(i) => i,
        None => return no_account_outcome(kind, user),
    };
    let home = ps[i].home.as_str();
    if !crate::text::same_text(home, expected) {
        return CheckOutcome::fail(
            kind,
            phrase("The home directory recorded for ", user, " is not what the task asked for.").as_str(),
            FailureCategory::TaskPartiallyCompleted,
        ).expected(expected).observed(home);
    }
    if args::flag(v, "mustExist") && !home_exists {
        let mut m = phrase(user, " is configured with the home directory ", expected);
        append(
            &mut m,
            ", but that directory does not exist. Creating a user does not create their home directory unless you ask for it.",
        );
        return CheckOutcome::fail(kind, m.as_str(), FailureCategory::WrongPath);
    }
    CheckOutcome::pass(kind, phrase2("The home directory for ", user, " is ", expected, ".").as_str())
}

/// The ACL lines `getfacl --omit-header` printed: each line trimmed, without blank lines and
/// comments.
pub open spec fn acl_lines(ls: Seq<Seq<char>>) -> Seq<Seq<char>>
    decreases ls.len(),
{
    if ls.len() == 0 {
        Seq::empty()
    } else {
        let rest = acl_lines(ls.drop_last());
        let t = trim(ls.last());
        if t.len() > 0 && t[0] != '#' {
            rest.push(t)
        } else {
            rest
        }
    }
}

/// An ACL line is `entry`, as a default entry exactly when `default` is asked for.
pub open spec fn acl_line_is(line: Seq<char>, entry: Seq<char>, default: bool) -> bool {
    let is_default = starts_with(line, "default:"@);
    let body = if is_default {
        line.skip(8)
    } else {
        line
    };
    is_default == default && body == entry
}

fn acl_line_matches(line: &str, entry: &str, default: bool) -> (r: bool)
    ensures
        r == acl_line_is(line@, entry@, default),
{
    let c = chars_of(line);
    let prefix = chars_of("default:");
    proof {
        reveal_strlit("default:");
    }
    let is_default = crate::text::starts_with_chars(&c, &prefix);
    if is_default != default {
        return false;
    }
    let body = if is_default {
        crate::text::chars_from(&c, 8)
    } else {
        c
    };
    crate::text::chars_equal(&body, &chars_of(entry))
}

/// `acl_contains`: the ACL of `path` has the line `entry` (as a default entry when
/// `isDefault` is set). `output` is what `getfacl --omit-header -- <path>` gave, or why it
/// could not run.
pub fn acl_contains(v: &Validator, output: Result<CommandOutput, String>) -> (r: CheckOutcome)
    requires
        v.wf(),
    ensures
        match (v.str_param_spec("path"@), v.str_param_spec("entry"@)) {
            (None, _) => is_missing_outcome(r, v.kind@, "path"@),
            (Some(_), None) => is_missing_outcome(r, v.kind@, "entry"@),
            (Some(p), Some(e)) => match output {
                Err(err) => errs(r, v.kind@, err@),
                Ok(out) => if !(out.status == 0 && !out.timed_out) {
                    fails(
                        r,
                        v.kind@,
                        "Could not read the ACL of "@ + p + ". Does it exist?"@,
                        FailureCategory::WrongPath,
                        None,
                        None,
                    )
                } else {
                    let ls = acl_lines(lines(out.stdout@));
                    let default = v.bool_param_spec("isDefault"@) == Some(true);
                    if exists|i: int| 0 <= i < ls.len() && acl_line_is(#[trigger] ls[i], e, default) {
                        passes(r, v.kind@, p + " has the expected ACL entry."@)
                    } else {
                        fails(
                            r,
                            v.kind@,
                            p + " does not have the expected ACL entry."@,
                            FailureCategory::WrongPermissions,
                            Some(
                                if default {
                                    "default:"@ + e
                                } else {
                                    e
                                },
                            ),
                            Some(join(ls, ", "@)),
                        )
                    }
                },
            },
        },
{
    let path = match args::path(v, "path") {
        Ok(p) => p,
        Err(o) => return o,
    };
    let entry = match args::string(v, "entry") {
        Ok(e) => e,
        Err(o) => return o,
    };
    let default = args::flag(v, "isDefault");
    let kind = v.kind.as_str();
    let out = match output {
        Ok(out) => out,
        Err(e) => return CheckOutcome::error(kind, e.as_str()),
    };
    if !out.success() {
        return CheckOutcome::fail(
            kind,
            phrase("Could not read the ACL of ", path.as_str(), ". Does it exist?").as_str(),
            FailureCategory::WrongPath,
        );
    }
    let raw = lines_of(out.stdout.as_str());
    let ghost rv = strings_view(raw@);
    let mut kept: Vec<String> = Vec::new();
    let mut i: usize = 0;
    while i < raw.len()
        invariant
            i <= raw@.len(),
            rv == strings_view(raw@),
            strings_view(kept@) == acl_lines(rv.take(i as int)),
        decreases raw.len() - i,
    {
        assert(rv.take(i + 1).drop_last() =~= rv.take(i as int));
        assert(rv.take(i + 1).last() == raw@[i as int]@);
        let t = trimmed(raw[i].as_str());
        let tc = chars_of(t.as_str());
        let ghost before = strings_view(kept@);
        if tc.len() > 0 && tc[0] != '#' {
            kept.push(t);
            assert(strings_view(kept@) =~= before.push(trim(raw@[i as int]@)));
        }
        i += 1;
    }
    assert(rv.take(raw@.len() as int) =~= rv);
    let ghost kv = strings_view(kept@);
    let mut found = false;
    let mut j: usize = 0;
    while j < kept.len()
        invariant
            j <= kept@.len(),
            kv == strings_view(kept@),
            found == exists|k: int| 0 <= k < j && acl_line_is(#[trigger] kv[k], entry@, default),
        decreases kept.len() - j,
    {
        assert(kv[j as int] == kept@[j as int]@);
        if acl_line_matches(kept[j].as_str(), entry, default) {
            found = true;
        }
        j += 1;
    }
    if found {
        CheckOutcome::pass(kind, cat2(path.as_str(), " has the expected ACL entry.").as_str())
    } else {
        let wanted = if default {
            cat2("default:", entry)
        } else {
            owned(entry)
        };
        let seen = join_strings(&kept, ", ");
        CheckOutcome::fail(
            kind,
            cat2(path.as_str(), " does not have the expected ACL entry.").as_str(),
            FailureCategory::WrongPermissions,
        ).expected(wanted.as_str()).observed(seen.as_str())
    }
}

} // verus!
