//! Filesystem validators: what each one concludes from what the agent observed.
//!
//! The agent looks at the real filesystem (`stat`, `lstat`, reading a file, listing a
//! directory) and hands the observation here; the verdict and its wording are decided below.
//! Nothing consults shell history: reaching the required state by an unexpected route passes.
use super::args::{self, Bounds, describe_spec, is_missing_outcome};
use super::network::opt_text;
use super::{errs, errs_with_prefix, fails, invalid_pattern, passes};
use crate::pattern::{compile, regex_compiles, regex_matches};
use crate::sys::{
    CommandOutput, FileKind, GroupEntry, PasswdEntry, format_mode, format_mode_spec, gid_name,
    group_for_gid, parse_mode, parse_mode_spec, uid_name, user_for_uid,
};
use crate::text::{
    append, chars_of, contains, contains_chars, decimal, decimal_string, join, join_strings,
    lines, lines_of, lowercase_of, owned, phrase, phrase2, signed_decimal, signed_decimal_string,
    strings_view, trim, trimmed, words, words_of,
};
use crate::validation::{CheckOutcome, FailureCategory};
use crate::lesson::Validator;
use vstd::prelude::*;

verus! {

fn cat2(a: &str, b: &str) -> (r: String)
    ensures
        r@ == a@ + b@,
{
    let mut r = owned(a);
    append(&mut r, b);
    r
}

fn cat4(a: &str, b: &str, c: &str, d: &str) -> (r: String)
    ensures
        r@ == a@ + b@ + c@ + d@,
{
    let mut r = phrase(a, b, c);
    append(&mut r, d);
    r
}

/// The failure for a path that is not where the task wants it.
fn wrong_path(kind: &str, message: &str) -> (r: CheckOutcome)
    ensures
        fails(r, kind@, message@, FailureCategory::WrongPath, None, None),
{
    CheckOutcome::fail(kind, message, FailureCategory::WrongPath)
}

/// `file_exists`: `path` names a regular file. `found` is what `stat` reported: the kind of
/// object there, or `None` when nothing is.
pub fn file_exists(v: &Validator, found: Option<FileKind>) -> (r: CheckOutcome)
    requires
        v.wf(),
    ensures
        match v.str_param_spec("path"@) {
            None => is_missing_outcome(r, v.kind@, "path"@),
            Some(p) => match found {
                Some(FileKind::Regular) => passes(r, v.kind@, p + " exists."@),
                Some(k) => fails(
                    r,
                    v.kind@,
                    p + " exists but is a "@ + k.name_spec() + ", not a file."@,
                    FailureCategory::WrongFileType,
                    Some("regular file"@),
                    Some(k.name_spec()),
                ),
                None => fails(r, v.kind@, p + " does not exist."@, FailureCategory::WrongPath, None, None),
            },
        },
{
    let path = match args::path(v, "path") {
        Ok(p) => p,
        Err(o) => return o,
    };
    let kind = v.kind.as_str();
    match found {
        Some(FileKind::Regular) => CheckOutcome::pass(kind, cat2(path.as_str(), " exists.").as_str()),
        Some(k) => CheckOutcome::fail(
            kind,
            cat4(path.as_str(), " exists but is a ", k.as_str(), ", not a file.").as_str(),
            FailureCategory::WrongFileType,
        ).expected("regular file").observed(k.as_str()),
        None => wrong_path(kind, cat2(path.as_str(), " does not exist.").as_str()),
    }
}

/// `file_missing`: nothing at all is at `path`, not even a dangling link. `present` is whether
/// `lstat` found anything.
pub fn file_missing(v: &Validator, present: bool) -> (r: CheckOutcome)
    requires
        v.wf(),
    ensures
        match v.str_param_spec("path"@) {
            None => is_missing_outcome(r, v.kind@, "path"@),
            Some(p) => if present {
                fails(r, v.kind@, p + " still exists."@, FailureCategory::FileAlreadyExists, None, None)
            } else {
                passes(r, v.kind@, p + " is gone."@)
            },
        },
{
    let path = match args::path(v, "path") {
        Ok(p) => p,
        Err(o) => return o,
    };
    if present {
        CheckOutcome::fail(
            v.kind.as_str(),
            cat2(path.as_str(), " still exists.").as_str(),
            FailureCategory::FileAlreadyExists,
        )
    } else {
        CheckOutcome::pass(v.kind.as_str(), cat2(path.as_str(), " is gone.").as_str())
    }
}

/// The hint naming the closest directory that does exist, or nothing.
pub open spec fn closest_hint(closest: Option<Seq<char>>) -> Seq<char> {
    match closest {
        Some(c) => " The closest existing directory is "@ + c + "."@,
        None => Seq::empty(),
    }
}

/// `directory_exists`: `path` names a directory. `found` is what `stat` reported; `closest`
/// is the deepest ancestor of `path` that is a directory, which the agent looks up when
/// nothing is there, so a learner sees where a missing `mkdir -p` left off.
pub fn directory_exists(v: &Validator, found: Option<FileKind>, closest: Option<&str>) -> (r: CheckOutcome)
    requires
        v.wf(),
    ensures
        match v.str_param_spec("path"@) {
            None => is_missing_outcome(r, v.kind@, "path"@),
            Some(p) => match found {
                Some(FileKind::Directory) => passes(r, v.kind@, "The directory "@ + p + " exists."@),
                Some(k) => fails(
                    r,
                    v.kind@,
                    p + " exists but is a "@ + k.name_spec() + ", not a directory."@,
                    FailureCategory::WrongFileType,
                    Some("directory"@),
                    Some(k.name_spec()),
                ),
                None => fails(
                    r,
                    v.kind@,
                    "The directory "@ + p + " does not exist."@ + closest_hint(opt_text(closest)),
                    FailureCategory::WrongPath,
                    None,
                    None,
                ),
            },
        },
{
    let path = match args::path(v, "path") {
        Ok(p) => p,
        Err(o) => return o,
    };
    let kind = v.kind.as_str();
    match found {
        Some(FileKind::Directory) => CheckOutcome::pass(
            kind,
            phrase("The directory ", path.as_str(), " exists.").as_str(),
        ),
        Some(k) => CheckOutcome::fail(
            kind,
            cat4(path.as_str(), " exists but is a ", k.as_str(), ", not a directory.").as_str(),
            FailureCategory::WrongFileType,
        ).expected("directory").observed(k.as_str()),
        None => {
            let mut message = phrase("The directory ", path.as_str(), " does not exist.");
            match closest {
                Some(c) => {
                    let hint = phrase(" The closest existing directory is ", c, ".");
                    append(&mut message, hint.as_str());
                },
                None => {
                    assert(message@ + Seq::<char>::empty() =~= message@);
                },
            }
            wrong_path(kind, message.as_str())
        },
    }
}

/// `directory_missing`: `path` is not a directory (a file there is fine). `found` is what
/// `lstat` reported.
pub fn directory_missing(v: &Validator, found: Option<FileKind>) -> (r: CheckOutcome)
    requires
        v.wf(),
    ensures
        match v.str_param_spec("path"@) {
            None => is_missing_outcome(r, v.kind@, "path"@),
            Some(p) => if found == Some(FileKind::Directory) {
                fails(
                    r,
                    v.kind@,
                    "The directory "@ + p + " still exists."@,
                    FailureCategory::FileAlreadyExists,
                    None,
                    None,
                )
            } else {
                passes(r, v.kind@, p + " is not a directory."@)
            },
        },
{
    let path = match args::path(v, "path") {
        Ok(p) => p,
        Err(o) => return o,
    };
    match found {
        Some(FileKind::Directory) => CheckOutcome::fail(
            v.kind.as_str(),
            phrase("The directory ", path.as_str(), " still exists.").as_str(),
            FailureCategory::FileAlreadyExists,
        ),
        _ => CheckOutcome::pass(v.kind.as_str(), cat2(path.as_str(), " is not a directory.").as_str()),
    }
}

/// `symbolic_link_exists`: `path` is a symbolic link and, when the validator names a
/// `target`, points at it. `found` is what `lstat` reported; `actual` is where the link
/// points (`readlink`, or the fully resolved path when the validator sets `resolved`), or
/// `None` when that could not be read.
pub fn symbolic_link_exists(v: &Validator, found: Option<FileKind>, actual: Option<&str>) -> (r: CheckOutcome)
    requires
        v.wf(),
    ensures
        match v.str_param_spec("path"@) {
            None => is_missing_outcome(r, v.kind@, "path"@),
            Some(p) => match found {
                None => fails(r, v.kind@, p + " does not exist."@, FailureCategory::WrongPath, None, None),
                Some(k) => if k != FileKind::Symlink {
                    fails(
                        r,
                        v.kind@,
                        p + " exists but is a "@ + k.name_spec() + ", not a symbolic link."@,
                        FailureCategory::WrongFileType,
                        Some("symbolic link"@),
                        Some(k.name_spec()),
                    )
                } else {
                    match v.str_param_spec("target"@) {
                        None => passes(r, v.kind@, p + " is a symbolic link."@),
                        Some(t) => match opt_text(actual) {
                            Some(a) => if a == t {
                                passes(r, v.kind@, p + " points at "@ + t + "."@)
                            } else {
                                fails(
                                    r,
                                    v.kind@,
                                    p + " points somewhere else."@,
                                    FailureCategory::WrongPath,
                                    Some(t),
                                    Some(a),
                                )
                            },
                            None => fails(
                                r,
                                v.kind@,
                                p + " is a broken symbolic link."@,
                                FailureCategory::WrongPath,
                                None,
                                None,
                            ),
                        },
                    }
                },
            },
        },
{
    let path = match args::path(v, "path") {
        Ok(p) => p,
        Err(o) => return o,
    };
    let kind = v.kind.as_str();
    let k = match found {
        Some(k) => k,
        None => return wrong_path(kind, cat2(path.as_str(), " does not exist.").as_str()),
    };
    match k {
        FileKind::Symlink => {},
        _ => {
            return CheckOutcome::fail(
                kind,
                cat4(path.as_str(), " exists but is a ", k.as_str(), ", not a symbolic link.").as_str(),
                FailureCategory::WrongFileType,
            ).expected("symbolic link").observed(k.as_str());
        },
    }
    let target = match args::optional_string(v, "target") {
        Some(t) => t,
        None => return CheckOutcome::pass(kind, cat2(path.as_str(), " is a symbolic link.").as_str()),
    };
    match actual {
        Some(a) => if crate::text::same_text(a, target) {
            CheckOutcome::pass(kind, cat4(path.as_str(), " points at ", target, ".").as_str())
        } else {
            CheckOutcome::fail(
                kind,
                cat2(path.as_str(), " points somewhere else.").as_str(),
                FailureCategory::WrongPath,
            ).expected(target).observed(a)
        },
        None => CheckOutcome::fail(
            kind,
            cat2(path.as_str(), " is a broken symbolic link.").as_str(),
            FailureCategory::WrongPath,
        ),
    }
}

/// `hard_link_exists`: `path` and `linkTo` are one file. `path_inode` and `link_inode` are
/// the inode numbers `lstat` reported for each, or `None` where nothing was there.
pub fn hard_link_exists(v: &Validator, path_inode: Option<u64>, link_inode: Option<u64>) -> (r: CheckOutcome)
    requires
        v.wf(),
    ensures
        match (v.str_param_spec("path"@), v.str_param_spec("linkTo"@)) {
            (None, _) => is_missing_outcome(r, v.kind@, "path"@),
            (Some(_), None) => is_missing_outcome(r, v.kind@, "linkTo"@),
            (Some(p), Some(l)) => match (path_inode, link_inode) {
                (Some(a), Some(b)) => if a == b {
                    passes(
                        r,
                        v.kind@,
                        p + " and "@ + l + " are the same file (inode "@ + decimal(a as nat) + ")."@,
                    )
                } else {
                    fails(
                        r,
                        v.kind@,
                        p + " and "@ + l
                            + " are separate files rather than hard links to one inode. A copy is not a link."@,
                        FailureCategory::WrongFileType,
                        Some("one shared inode"@),
                        Some("inodes "@ + decimal(a as nat) + " and "@ + decimal(b as nat)),
                    )
                },
                _ => fails(
                    r,
                    v.kind@,
                    p + " and "@ + l + " must both exist for a hard link to be checked."@,
                    FailureCategory::WrongPath,
                    None,
                    None,
                ),
            },
        },
{
    let path = match args::path(v, "path") {
        Ok(p) => p,
        Err(o) => return o,
    };
    let link_to = match args::path(v, "linkTo") {
        Ok(p) => p,
        Err(o) => return o,
    };
    let kind = v.kind.as_str();
    match (path_inode, link_inode) {
        (Some(a), Some(b)) => if a == b {
            let number = decimal_string(a);
            let mut message = phrase2(
                path.as_str(),
                " and ",
                link_to.as_str(),
                " are the same file (inode ",
                number.as_str(),
            );
            append(&mut message, ").");
            CheckOutcome::pass(kind, message.as_str())
        } else {
            let message = cat4(
                path.as_str(),
                " and ",
                link_to.as_str(),
                " are separate files rather than hard links to one inode. A copy is not a link.",
            );
            let first = decimal_string(a);
            let second = decimal_string(b);
            let observed = cat4("inodes ", first.as_str(), " and ", second.as_str());
            CheckOutcome::fail(kind, message.as_str(), FailureCategory::WrongFileType).expected(
                "one shared inode",
            ).observed(observed.as_str())
        },
        _ => wrong_path(
            kind,
            cat4(
                path.as_str(),
                " and ",
                link_to.as_str(),
                " must both exist for a hard link to be checked.",
            ).as_str(),
        ),
    }
}

/// Whether `file_type` looks through a symbolic link (`stat`) rather than at it (`lstat`):
/// only a check for a symbolic link must not follow the link, or every link would look like
/// its target.
pub fn file_type_follows_links(v: &Validator) -> (r: bool)
    requires
        v.wf(),
    ensures
        r == (v.str_param_spec("fileType"@) != Some("symlink"@)),
{
    match args::optional_string(v, "fileType") {
        Some(t) => {
            let same = crate::text::same_text(t, "symlink");
            proof {
                reveal_strlit("symlink");
            }
            !same
        },
        None => true,
    }
}

/// `file_type`: `path` is the kind of object `fileType` names. `found` is what `stat` (or
/// `lstat`, see [`file_type_follows_links`]) reported.
pub fn file_type(v: &Validator, found: Option<FileKind>) -> (r: CheckOutcome)
    requires
        v.wf(),
    ensures
        match (v.str_param_spec("path"@), v.str_param_spec("fileType"@)) {
            (None, _) => is_missing_outcome(r, v.kind@, "path"@),
            (Some(_), None) => is_missing_outcome(r, v.kind@, "fileType"@),
            (Some(p), Some(t)) => match found {
                Some(k) => if k.name_spec() == t {
                    passes(r, v.kind@, p + " is a "@ + t + "."@)
                } else {
                    fails(
                        r,
                        v.kind@,
                        p + " is the wrong kind of object."@,
                        FailureCategory::WrongFileType,
                        Some(t),
                        Some(k.name_spec()),
                    )
                },
                None => fails(r, v.kind@, p + " does not exist."@, FailureCategory::WrongPath, None, None),
            },
        },
{
    let path = match args::path(v, "path") {
        Ok(p) => p,
        Err(o) => return o,
    };
    let expected = match args::string(v, "fileType") {
        Ok(t) => t,
        Err(o) => return o,
    };
    let kind = v.kind.as_str();
    match found {
        Some(k) => if crate::text::same_text(k.as_str(), expected) {
            CheckOutcome::pass(kind, cat4(path.as_str(), " is a ", expected, ".").as_str())
        } else {
            CheckOutcome::fail(
                kind,
                cat2(path.as_str(), " is the wrong kind of object.").as_str(),
                FailureCategory::WrongFileType,
            ).expected(expected).observed(k.as_str())
        },
        None => wrong_path(kind, cat2(path.as_str(), " does not exist.").as_str()),
    }
}

/// `file_size`: the size of `path`, read as a signed number, is within the validator's
/// bounds. `size` is what `stat` reported, or `None` when nothing is there.
pub fn file_size(v: &Validator, size: Option<u64>) -> (r: CheckOutcome)
    requires
        v.wf(),
    ensures
        match v.str_param_spec("path"@) {
            None => is_missing_outcome(r, v.kind@, "path"@),
            Some(p) => {
                let b = Bounds {
                    equals: v.i64_param_spec("equals"@),
                    min: v.i64_param_spec("min"@),
                    max: v.i64_param_spec("max"@),
                };
                match size {
                    Some(n) => if b.holds(n as i64) {
                        passes(r, v.kind@, p + " is "@ + decimal(n as nat) + " bytes."@)
                    } else {
                        fails(
                            r,
                            v.kind@,
                            p + " is not the expected size."@,
                            FailureCategory::WrongFileContents,
                            Some(describe_spec(b) + " bytes"@),
                            Some(decimal(n as nat) + " bytes"@),
                        )
                    },
                    None => fails(r, v.kind@, p + " does not exist."@, FailureCategory::WrongPath, None, None),
                }
            },
        },
{
    let path = match args::path(v, "path") {
        Ok(p) => p,
        Err(o) => return o,
    };
    let bounds = Bounds::read(v);
    let kind = v.kind.as_str();
    match size {
        Some(n) => {
            let number = decimal_string(n);
            if bounds.satisfied_by(n as i64) {
                CheckOutcome::pass(kind, cat4(path.as_str(), " is ", number.as_str(), " bytes.").as_str())
            } else {
                let wanted = bounds.describe();
                CheckOutcome::fail(
                    kind,
                    cat2(path.as_str(), " is not the expected size.").as_str(),
                    FailureCategory::WrongFileContents,
                ).expected(cat2(wanted.as_str(), " bytes").as_str()).observed(cat2(number.as_str(), " bytes").as_str())
            }
        },
        None => wrong_path(kind, cat2(path.as_str(), " does not exist.").as_str()),
    }
}

/// Who owns a file, as `ls -l` shows it: the account name, or the number when no account
/// has that uid.
pub open spec fn owner_text(passwd: Seq<PasswdEntry>, uid: u32) -> Seq<char> {
    match uid_name(passwd, uid) {
        Some(n) => n,
        None => decimal(uid as nat),
    }
}

/// The group of a file, as `ls -l` shows it: the group name, or the number.
pub open spec fn group_text(groups: Seq<GroupEntry>, gid: u32) -> Seq<char> {
    match gid_name(groups, gid) {
        Some(n) => n,
        None => decimal(gid as nat),
    }
}

/// `file_owner`: `path` belongs to the account `owner`. `uid` is the owner `stat` reported
/// (`None` when nothing is there) and `passwd` the accounts read from `/etc/passwd`.
pub fn file_owner(v: &Validator, uid: Option<u32>, passwd: &Vec<PasswdEntry>) -> (r: CheckOutcome)
    requires
        v.wf(),
    ensures
        match (v.str_param_spec("path"@), v.str_param_spec("owner"@)) {
            (None, _) => is_missing_outcome(r, v.kind@, "path"@),
            (Some(_), None) => is_missing_outcome(r, v.kind@, "owner"@),
            (Some(p), Some(o)) => match uid {
                None => fails(r, v.kind@, p + " does not exist."@, FailureCategory::WrongPath, None, None),
                Some(u) => if owner_text(passwd@, u) == o {
                    passes(r, v.kind@, p + " is owned by "@ + o + "."@)
                } else {
                    fails(
                        r,
                        v.kind@,
                        p + " has the wrong owner."@,
                        FailureCategory::WrongOwnership,
                        Some(o),
                        Some(owner_text(passwd@, u)),
                    )
                },
            },
        },
{
    let path = match args::path(v, "path") {
        Ok(p) => p,
        Err(o) => return o,
    };
    let expected = match args::string(v, "owner") {
        Ok(t) => t,
        Err(o) => return o,
    };
    let kind = v.kind.as_str();
    let u = match uid {
        Some(u) => u,
        None => return wrong_path(kind, cat2(path.as_str(), " does not exist.").as_str()),
    };
    let actual = match user_for_uid(u, passwd) {
        Some(name) => name,
        None => decimal_string(u as u64),
    };
    if crate::text::same_text(actual.as_str(), expected) {
        CheckOutcome::pass(kind, cat4(path.as_str(), " is owned by ", expected, ".").as_str())
    } else {
        CheckOutcome::fail(
            kind,
            cat2(path.as_str(), " has the wrong owner.").as_str(),
            FailureCategory::WrongOwnership,
        ).expected(expected).observed(actual.as_str())
    }
}

/// `file_group`: `path` belongs to the group `group`. `gid` is the group `stat` reported
/// (`None` when nothing is there) and `groups` the groups read from `/etc/group`.
pub fn file_group(v: &Validator, gid: Option<u32>, groups: &Vec<GroupEntry>) -> (r: CheckOutcome)
    requires
        v.wf(),
    ensures
        match (v.str_param_spec("path"@), v.str_param_spec("group"@)) {
            (None, _) => is_missing_outcome(r, v.kind@, "path"@),
            (Some(_), None) => is_missing_outcome(r, v.kind@, "group"@),
            (Some(p), Some(g)) => match gid {
                None => fails(r, v.kind@, p + " does not exist."@, FailureCategory::WrongPath, None, None),
                Some(n) => if group_text(groups@, n) == g {
                    passes(r, v.kind@, p + " belongs to group "@ + g + "."@)
                } else {
                    fails(
                        r,
                        v.kind@,
                        p + " has the wrong group."@,
                        FailureCategory::WrongOwnership,
                        Some(g),
                        Some(group_text(groups@, n)),
                    )
                },
            },
        },
{
    let path = match args::path(v, "path") {
        Ok(p) => p,
        Err(o) => return o,
    };
    let expected = match args::string(v, "group") {
        Ok(t) => t,
        Err(o) => return o,
    };
    let kind = v.kind.as_str();
    let n = match gid {
        Some(n) => n,
        None => return wrong_path(kind, cat2(path.as_str(), " does not exist.").as_str()),
    };
    let actual = match group_for_gid(n, groups) {
        Some(name) => name,
        None => decimal_string(n as u64),
    };
    if crate::text::same_text(actual.as_str(), expected) {
        CheckOutcome::pass(kind, cat4(path.as_str(), " belongs to group ", expected, ".").as_str())
    } else {
        CheckOutcome::fail(
            kind,
            cat2(path.as_str(), " has the wrong group.").as_str(),
            FailureCategory::WrongOwnership,
        ).expected(expected).observed(actual.as_str())
    }
}

/// A mode parameter read as an octal mode, if it is one.
pub open spec fn mode_param(v: Validator, key: Seq<char>) -> Option<u32> {
    match v.param(key) {
        Some(value) => parse_mode_spec(value),
        None => None,
    }
}

fn read_mode(v: &Validator, key: &str) -> (r: Option<u32>)
    ensures
        r == mode_param(*v, key@),
{
    match v.get(key) {
        Some(value) => parse_mode(value),
        None => None,
    }
}

/// What `file_mode` says it wanted: the mode, and the bits it looked at when a mask narrows
/// the comparison.
pub open spec fn wanted_mode(mode: u32, mask: u32) -> Seq<char> {
    if mask == 0o7777u32 {
        format_mode_spec(mode)
    } else {
        format_mode_spec(mode) + " in the bits "@ + format_mode_spec(mask)
    }
}

/// `file_mode`: the permission bits of `path` agree with `mode` in every bit of `mask`
/// (all twelve by default), so a task can say "the group must not write" without
/// dictating the rest. `permissions` is what `stat` reported (mode & 0o7777), or `None`.
pub fn file_mode(v: &Validator, permissions: Option<u32>) -> (r: CheckOutcome)
    requires
        v.wf(),
    ensures
        match v.str_param_spec("path"@) {
            None => is_missing_outcome(r, v.kind@, "path"@),
            Some(p) => match mode_param(*v, "mode"@) {
                None => errs(r, v.kind@, "the mode parameter is not a valid octal mode"@),
                Some(mode) => {
                    let mask = match mode_param(*v, "mask"@) {
                        Some(m) => m,
                        None => 0o7777u32,
                    };
                    match permissions {
                        None => fails(r, v.kind@, p + " does not exist."@, FailureCategory::WrongPath, None, None),
                        Some(bits) => if bits & mask == mode & mask {
                            passes(r, v.kind@, p + " has permissions "@ + format_mode_spec(bits) + "."@)
                        } else {
                            fails(
                                r,
                                v.kind@,
                                p + " does not have the required permissions."@,
                                FailureCategory::WrongPermissions,
                                Some(wanted_mode(mode, mask)),
                                Some(format_mode_spec(bits)),
                            )
                        },
                    }
                },
            },
        },
{
    let path = match args::path(v, "path") {
        Ok(p) => p,
        Err(o) => return o,
    };
    let kind = v.kind.as_str();
    let mode = match read_mode(v, "mode") {
        Some(m) => m,
        None => return CheckOutcome::error(kind, "the mode parameter is not a valid octal mode"),
    };
    let mask = match read_mode(v, "mask") {
        Some(m) => m,
        None => 0o7777u32,
    };
    let bits = match permissions {
        Some(b) => b,
        None => return wrong_path(kind, cat2(path.as_str(), " does not exist.").as_str()),
    };
    let shown = format_mode(bits);
    if bits & mask == mode & mask {
        CheckOutcome::pass(kind, cat4(path.as_str(), " has permissions ", shown.as_str(), ".").as_str())
    } else {
        let wanted = if mask == 0o7777u32 {
            format_mode(mode)
        } else {
            let a = format_mode(mode);
            let b = format_mode(mask);
            phrase(a.as_str(), " in the bits ", b.as_str())
        };
        CheckOutcome::fail(
            kind,
            cat2(path.as_str(), " does not have the required permissions.").as_str(),
            FailureCategory::WrongPermissions,
        ).expected(wanted.as_str()).observed(shown.as_str())
    }
}

/// The failure for a file the agent could not read: a permission problem when the system
/// said so, otherwise a path that is not what the task wants.
pub fn read_failure(path: &str, permission_denied: bool, error: &str) -> (r: CheckOutcome)
    ensures
        fails(
            r,
            "read"@,
            path@ + " could not be read ("@ + error@ + ")."@,
            if permission_denied {
                FailureCategory::PermissionDenied
            } else {
                FailureCategory::WrongPath
            },
            None,
            None,
        ),
{
    let category = if permission_denied {
        FailureCategory::PermissionDenied
    } else {
        FailureCategory::WrongPath
    };
    CheckOutcome::fail("read", cat4(path, " could not be read (", error, ").").as_str(), category)
}

/// The failure for a directory the agent could not list, classified as for [`read_failure`].
pub fn listing_failure(path: &str, permission_denied: bool, error: &str) -> (r: CheckOutcome)
    ensures
        fails(
            r,
            "read_dir"@,
            path@ + " could not be listed ("@ + error@ + ")."@,
            if permission_denied {
                FailureCategory::PermissionDenied
            } else {
                FailureCategory::WrongPath
            },
            None,
            None,
        ),
{
    let category = if permission_denied {
        FailureCategory::PermissionDenied
    } else {
        FailureCategory::WrongPath
    };
    CheckOutcome::fail("read_dir", cat4(path, " could not be listed (", error, ").").as_str(), category)
}

/// Text as `file_contains` compares it: with every line trimmed (when asked), then lower-cased
/// (unless the comparison is case sensitive).
pub open spec fn normalised(text: Seq<char>, trim_lines: bool, case_sensitive: bool) -> Seq<char> {
    let t = if trim_lines {
        join(lines(text).map_values(|l: Seq<char>| trim(l)), "\n"@)
    } else {
        text
    };
    if case_sensitive {
        t
    } else {
        lowercase_of(t)
    }
}

fn normalise(text: &str, trim_lines: bool, case_sensitive: bool) -> (r: String)
    ensures
        r@ == normalised(text@, trim_lines, case_sensitive),
{
    let t = if trim_lines {
        let ls = lines_of(text);
        let mut trimmed_lines: Vec<String> = Vec::new();
        let mut i: usize = 0;
        while i < ls.len()
            invariant
                i <= ls@.len(),
                strings_view(ls@) == lines(text@),
                strings_view(trimmed_lines@) == strings_view(ls@).take(i as int).map_values(
                    |l: Seq<char>| trim(l),
                ),
            decreases ls.len() - i,
        {
            let t = trimmed(ls[i].as_str());
            let ghost prev = strings_view(trimmed_lines@);
            let ghost line = ls@[i as int]@;
            trimmed_lines.push(t);
            proof {
                let f = |l: Seq<char>| trim(l);
                assert(strings_view(trimmed_lines@) =~= prev.push(trim(line)));
                assert(strings_view(ls@)[i as int] == line);
                assert(strings_view(ls@).take(i + 1).map_values(f) =~= strings_view(ls@).take(
                    i as int,
                ).map_values(f).push(trim(line)));
            }
            i += 1;
        }
        assert(strings_view(ls@).take(ls@.len() as int) =~= strings_view(ls@));
        join_strings(&trimmed_lines, "\n")
    } else {
        owned(text)
    };
    if case_sensitive {
        t
    } else {
        crate::text::to_lowercase(t.as_str())
    }
}

/// `file_contains`: the file at `path` holds `text`, compared line-trimmed when `trim` is
/// set and case-insensitively when `caseSensitive` is false. `content` is the file read as
/// text, or the failure reading it produced.
pub fn file_contains(v: &Validator, content: Result<String, CheckOutcome>) -> (r: CheckOutcome)
    requires
        v.wf(),
    ensures
        match (v.str_param_spec("path"@), v.str_param_spec("text"@)) {
            (None, _) => is_missing_outcome(r, v.kind@, "path"@),
            (Some(_), None) => is_missing_outcome(r, v.kind@, "text"@),
            (Some(p), Some(t)) => match content {
                Err(o) => r == o,
                Ok(c) => {
                    let trim_lines = v.bool_param_spec("trim"@) == Some(true);
                    let case_sensitive = v.bool_param_spec("caseSensitive"@) != Some(false);
                    if contains(
                        normalised(c@, trim_lines, case_sensitive),
                        normalised(t, trim_lines, case_sensitive),
                    ) {
                        passes(r, v.kind@, p + " contains the expected text."@)
                    } else {
                        fails(
                            r,
                            v.kind@,
                            p + " does not contain the expected text."@,
                            FailureCategory::WrongFileContents,
                            Some(t),
                            None,
                        )
                    }
                },
            },
        },
{
    let path = match args::path(v, "path") {
        Ok(p) => p,
        Err(o) => return o,
    };
    let needle = match args::string(v, "text") {
        Ok(t) => t,
        Err(o) => return o,
    };
    let c = match content {
        Ok(c) => c,
        Err(o) => return o,
    };
    let case_sensitive = args::flag_or(v, "caseSensitive", true);
    let trim_lines = args::flag(v, "trim");
    let hay = normalise(c.as_str(), trim_lines, case_sensitive);
    let pin = normalise(needle, trim_lines, case_sensitive);
    let kind = v.kind.as_str();
    if contains_chars(&chars_of(hay.as_str()), &chars_of(pin.as_str())) {
        CheckOutcome::pass(kind, cat2(path.as_str(), " contains the expected text.").as_str())
    } else {
        CheckOutcome::fail(
            kind,
            cat2(path.as_str(), " does not contain the expected text.").as_str(),
            FailureCategory::WrongFileContents,
        ).expected(needle)
    }
}

/// `file_matches_regex`: the file at `path` matches the regular expression `pattern`,
/// case-insensitively when `caseSensitive` is false and with `^`/`$` at line breaks unless
/// `multiline` is false. `content` is the file read as text, or the failure reading it
/// produced. A pattern that does not compile is the lesson's fault, reported as an error
/// naming the reason.
pub fn file_matches_regex(v: &Validator, content: Result<String, CheckOutcome>) -> (r: CheckOutcome)
    requires
        v.wf(),
    ensures
        match (v.str_param_spec("path"@), v.str_param_spec("pattern"@)) {
            (None, _) => is_missing_outcome(r, v.kind@, "path"@),
            (Some(_), None) => is_missing_outcome(r, v.kind@, "pattern"@),
            (Some(p), Some(pat)) => match content {
                Err(o) => r == o,
                Ok(c) => {
                    let ci = v.bool_param_spec("caseSensitive"@) == Some(false);
                    let ml = v.bool_param_spec("multiline"@) != Some(false);
                    if !regex_compiles(pat, ci, ml) {
                        errs_with_prefix(r, v.kind@, "the pattern is not a valid regex: "@)
                    } else if regex_matches(pat, ci, ml, c@) {
                        passes(r, v.kind@, p + " matches the expected pattern."@)
                    } else {
                        fails(
                            r,
                            v.kind@,
                            p + " does not match the expected pattern."@,
                            FailureCategory::WrongFileContents,
                            Some(pat),
                            None,
                        )
                    }
                },
            },
        },
{
    let path = match args::path(v, "path") {
        Ok(p) => p,
        Err(o) => return o,
    };
    let pattern = match args::string(v, "pattern") {
        Ok(t) => t,
        Err(o) => return o,
    };
    let c = match content {
        Ok(c) => c,
        Err(o) => return o,
    };
    let kind = v.kind.as_str();
    let ci = !args::flag_or(v, "caseSensitive", true);
    let ml = args::flag_or(v, "multiline", true);
    let compiled = match compile(pattern, ci, ml) {
        Ok(p) => p,
        Err(e) => return invalid_pattern(kind, "the pattern is not a valid regex: ", e.as_str()),
    };
    if compiled.is_match(c.as_str()) {
        CheckOutcome::pass(kind, cat2(path.as_str(), " matches the expected pattern.").as_str())
    } else {
        CheckOutcome::fail(
            kind,
            cat2(path.as_str(), " does not match the expected pattern.").as_str(),
            FailureCategory::WrongFileContents,
        ).expected(pattern)
    }
}

/// `file_line_count`: the number of lines in the file at `path`, counted by line
/// terminators the way `wc -l` does, is within the bounds. `content` is the file read as
/// text, or the failure reading it produced.
pub fn file_line_count(v: &Validator, content: Result<String, CheckOutcome>) -> (r: CheckOutcome)
    requires
        v.wf(),
    ensures
        match v.str_param_spec("path"@) {
            None => is_missing_outcome(r, v.kind@, "path"@),
            Some(p) => match content {
                Err(o) => r == o,
                Ok(c) => {
                    let b = Bounds {
                        equals: v.i64_param_spec("equals"@),
                        min: v.i64_param_spec("min"@),
                        max: v.i64_param_spec("max"@),
                    };
                    let n = lines(c@).len() as i64;
                    if b.holds(n) {
                        passes(r, v.kind@, p + " has "@ + signed_decimal(n as int) + " lines."@)
                    } else {
                        fails(
                            r,
                            v.kind@,
                            p + " does not have the expected number of lines."@,
                            FailureCategory::WrongFileContents,
                            Some(describe_spec(b)),
                            Some(signed_decimal(n as int)),
                        )
                    }
                },
            },
        },
{
    let path = match args::path(v, "path") {
        Ok(p) => p,
        Err(o) => return o,
    };
    let c = match content {
        Ok(c) => c,
        Err(o) => return o,
    };
    let bounds = Bounds::read(v);
    let ls = lines_of(c.as_str());
    assert(ls@.len() == strings_view(ls@).len());
    let n = ls.len() as i64;
    let shown = signed_decimal_string(n);
    let kind = v.kind.as_str();
    if bounds.satisfied_by(n) {
        CheckOutcome::pass(kind, cat4(path.as_str(), " has ", shown.as_str(), " lines.").as_str())
    } else {
        let wanted = bounds.describe();
        CheckOutcome::fail(
            kind,
            cat2(path.as_str(), " does not have the expected number of lines.").as_str(),
            FailureCategory::WrongFileContents,
        ).expected(wanted.as_str()).observed(shown.as_str())
    }
}

/// A character's code with ASCII capitals folded to lower case.
pub open spec fn ascii_folded(c: char) -> u32 {
    if 'A' <= c && c <= 'Z' {
        (c as u32 + 32) as u32
    } else {
        c as u32
    }
}

/// `str::eq_ignore_ascii_case`.
pub open spec fn same_ignoring_ascii_case(a: Seq<char>, b: Seq<char>) -> bool {
    a.len() == b.len() && forall|i: int| 0 <= i < a.len() ==> ascii_folded(#[trigger] a[i]) == ascii_folded(b[i])
}

fn fold(c: char) -> (r: u32)
    ensures
        r == ascii_folded(c),
{
    if 'A' <= c && c <= 'Z' {
        c as u32 + 32
    } else {
        c as u32
    }
}

pub fn eq_ignore_ascii_case(a: &str, b: &str) -> (r: bool)
    ensures
        r == same_ignoring_ascii_case(a@, b@),
{
    let x = chars_of(a);
    let y = chars_of(b);
    if x.len() != y.len() {
        return false;
    }
    let mut i: usize = 0;
    while i < x.len()
        invariant
            i <= x@.len() == y@.len(),
            x@ == a@,
            y@ == b@,
            forall|j: int| 0 <= j < i ==> ascii_folded(#[trigger] x@[j]) == ascii_folded(y@[j]),
        decreases x.len() - i,
    {
        if fold(x[i]) != fold(y[i]) {
            return false;
        }
        i += 1;
    }
    true
}

/// The first word of a command's trimmed output, or nothing.
pub open spec fn first_word(output: Seq<char>) -> Seq<char> {
    let w = words(trim(output));
    if w.len() > 0 {
        w[0]
    } else {
        Seq::empty()
    }
}

/// `file_checksum`: the SHA-256 of the file at `path`, as `sha256sum -- <path>` printed it,
/// equals `sha256` up to letter case. `output` is what running that command gave, or why it
/// could not be run.
pub fn file_checksum(v: &Validator, output: Result<CommandOutput, String>) -> (r: CheckOutcome)
    requires
        v.wf(),
    ensures
        match (v.str_param_spec("path"@), v.str_param_spec("sha256"@)) {
            (None, _) => is_missing_outcome(r, v.kind@, "path"@),
            (Some(_), None) => is_missing_outcome(r, v.kind@, "sha256"@),
            (Some(p), Some(want)) => match output {
                Err(e) => errs(r, v.kind@, e@),
                Ok(out) => if !(out.status == 0 && !out.timed_out) {
                    fails(
                        r,
                        v.kind@,
                        p + " could not be hashed. Does it exist?"@,
                        FailureCategory::WrongPath,
                        None,
                        None,
                    )
                } else if same_ignoring_ascii_case(first_word(out.stdout@), want) {
                    passes(r, v.kind@, p + " has the expected contents."@)
                } else {
                    fails(
                        r,
                        v.kind@,
                        p + " does not have the expected contents."@,
                        FailureCategory::WrongFileContents,
                        Some(want),
                        Some(first_word(out.stdout@)),
                    )
                },
            },
        },
{
    let path = match args::path(v, "path") {
        Ok(p) => p,
        Err(o) => return o,
    };
    let expected = match args::string(v, "sha256") {
        Ok(t) => t,
        Err(o) => return o,
    };
    let kind = v.kind.as_str();
    let out = match output {
        Ok(out) => out,
        Err(e) => return CheckOutcome::error(kind, e.as_str()),
    };
    if !out.success() {
        return wrong_path(kind, cat2(path.as_str(), " could not be hashed. Does it exist?").as_str());
    }
    let t = out.stdout_trimmed();
    let ws = words_of(t.as_str());
    let actual = if ws.len() > 0 {
        assert(strings_view(ws@)[0] == ws@[0]@);
        ws[0].clone()
    } else {
        String::new()
    };
    assert(actual@ == first_word(out.stdout@));
    if eq_ignore_ascii_case(actual.as_str(), expected) {
        CheckOutcome::pass(kind, cat2(path.as_str(), " has the expected contents.").as_str())
    } else {
        CheckOutcome::fail(
            kind,
            cat2(path.as_str(), " does not have the expected contents.").as_str(),
            FailureCategory::WrongFileContents,
        ).expected(expected).observed(actual.as_str())
    }
}

/// A name `ls` hides without `-a`.
pub open spec fn is_hidden(name: Seq<char>) -> bool {
    name.len() > 0 && name[0] == '.'
}

/// The names a listing keeps: all of them, or those not hidden.
pub open spec fn shown_names(names: Seq<Seq<char>>, include_hidden: bool) -> Seq<Seq<char>>
    decreases names.len(),
{
    if names.len() == 0 {
        Seq::empty()
    } else {
        let rest = shown_names(names.drop_last(), include_hidden);
        if include_hidden || !is_hidden(names.last()) {
            rest.push(names.last())
        } else {
            rest
        }
    }
}

/// Where an insertion puts `n` into the sorted `s`.
pub open spec fn name_slot(s: Seq<Seq<char>>, n: Seq<char>) -> int
    decreases s.len(),
{
    if s.len() == 0 {
        0
    } else if crate::text::text_less(n, s.last()) {
        name_slot(s.drop_last(), n)
    } else {
        s.len() as int
    }
}

/// The names in `String` order (`Vec::sort`).
pub open spec fn sorted_names(names: Seq<Seq<char>>) -> Seq<Seq<char>>
    decreases names.len(),
{
    if names.len() == 0 {
        Seq::empty()
    } else {
        let s = sorted_names(names.drop_last());
        s.insert(name_slot(s, names.last()), names.last())
    }
}

/// A directory listing as the validators compare it: the entry names, without hidden ones
/// unless asked for, sorted.
pub fn visible_entries(names: Vec<String>, include_hidden: bool) -> (r: Vec<String>)
    ensures
        strings_view(r@) == sorted_names(shown_names(strings_view(names@), include_hidden)),
{
    let mut kept: Vec<String> = Vec::new();
    let mut i: usize = 0;
    while i < names.len()
        invariant
            i <= names@.len(),
            strings_view(kept@) == shown_names(strings_view(names@).take(i as int), include_hidden),
        decreases names.len() - i,
    {
        let ghost before = strings_view(kept@);
        assert(strings_view(names@).take(i + 1).drop_last() =~= strings_view(names@).take(i as int));
        assert(strings_view(names@).take(i + 1).last() == names@[i as int]@);
        if crate::handlers::shows_entry(names[i].as_str(), include_hidden) {
            kept.push(names[i].clone());
            assert(strings_view(kept@) =~= before.push(names@[i as int]@));
        }
        i += 1;
    }
    assert(strings_view(names@).take(names@.len() as int) =~= strings_view(names@));
    let ghost orig = strings_view(kept@);
    let mut sorted: Vec<String> = Vec::new();
    let mut j: usize = 0;
    while j < kept.len()
        invariant
            j <= kept@.len(),
            orig == strings_view(kept@),
            strings_view(sorted@) == sorted_names(orig.take(j as int)),
        decreases kept.len() - j,
    {
        let e = kept[j].clone();
        let ghost s = strings_view(sorted@);
        let mut k: usize = sorted.len();
        assert(s.take(k as int) =~= s);
        while k > 0 && crate::text::text_less_exec(e.as_str(), sorted[k - 1].as_str())
            invariant
                k <= sorted@.len(),
                s == strings_view(sorted@),
                name_slot(s, e@) == name_slot(s.take(k as int), e@),
            decreases k,
        {
            assert(s.take(k as int).drop_last() =~= s.take(k - 1));
            assert(s.take(k as int).last() == sorted@[k - 1]@);
            k -= 1;
        }
        proof {
            if k > 0 {
                assert(s.take(k as int).last() == sorted@[k - 1]@);
            }
            assert(orig.take(j + 1).drop_last() =~= orig.take(j as int));
            assert(orig.take(j + 1).last() == e@);
        }
        sorted.insert(k, e);
        assert(strings_view(sorted@) =~= s.insert(k as int, e@));
        j += 1;
    }
    assert(orig.take(kept@.len() as int) =~= orig);
    sorted
}

/// The names of `xs` that `ys` does not hold, in order.
pub open spec fn absent_from(xs: Seq<Seq<char>>, ys: Seq<Seq<char>>) -> Seq<Seq<char>>
    decreases xs.len(),
{
    if xs.len() == 0 {
        Seq::empty()
    } else {
        let rest = absent_from(xs.drop_last(), ys);
        if ys.contains(xs.last()) {
            rest
        } else {
            rest.push(xs.last())
        }
    }
}

fn holds_name(ys: &Vec<String>, x: &str) -> (r: bool)
    ensures
        r == strings_view(ys@).contains(x@),
{
    let mut i: usize = 0;
    while i < ys.len()
        invariant
            i <= ys@.len(),
            forall|j: int| 0 <= j < i ==> strings_view(ys@)[j] != x@,
        decreases ys.len() - i,
    {
        if crate::text::same_text(ys[i].as_str(), x) {
            assert(strings_view(ys@)[i as int] == x@);
            return true;
        }
        i += 1;
    }
    false
}

fn absent(xs: &Vec<String>, ys: &Vec<String>) -> (r: Vec<String>)
    ensures
        strings_view(r@) == absent_from(strings_view(xs@), strings_view(ys@)),
{
    let mut out: Vec<String> = Vec::new();
    let mut i: usize = 0;
    while i < xs.len()
        invariant
            i <= xs@.len(),
            strings_view(out@) == absent_from(strings_view(xs@).take(i as int), strings_view(ys@)),
        decreases xs.len() - i,
    {
        let ghost before = strings_view(out@);
        assert(strings_view(xs@).take(i + 1).drop_last() =~= strings_view(xs@).take(i as int));
        assert(strings_view(xs@).take(i + 1).last() == xs@[i as int]@);
        if !holds_name(ys, xs[i].as_str()) {
            out.push(xs[i].clone());
            assert(strings_view(out@) =~= before.push(xs@[i as int]@));
        }
        i += 1;
    }
    assert(strings_view(xs@).take(xs@.len() as int) =~= strings_view(xs@));
    out
}

/// `directory_contains`: every name in `entries` is in the directory at `path`, and, when
/// `exact` is set, nothing else is. `listing` is the directory's names as
/// [`visible_entries`] gives them (hidden ones only when `includeHidden` is not false), or
/// the failure listing it produced.
pub fn directory_contains(v: &Validator, listing: Result<Vec<String>, CheckOutcome>) -> (r: CheckOutcome)
    requires
        v.wf(),
    ensures
        match v.str_param_spec("path"@) {
            None => is_missing_outcome(r, v.kind@, "path"@),
            Some(p) => match v.param("entries"@) {
                Some(crate::lesson::ParamValue::Array(items)) => {
                    let expected = args::text_items(items@);
                    match listing {
                        Err(o) => r == o,
                        Ok(names) => {
                            let actual = strings_view(names@);
                            let missing = absent_from(expected, actual);
                            let extra = absent_from(actual, expected);
                            if missing.len() > 0 {
                                fails(
                                    r,
                                    v.kind@,
                                    p + " is missing "@ + join(missing, ", "@) + "."@,
                                    FailureCategory::TaskPartiallyCompleted,
                                    Some(join(expected, ", "@)),
                                    Some(
                                        if actual.len() == 0 {
                                            "an empty directory"@
                                        } else {
                                            join(actual, ", "@)
                                        },
                                    ),
                                )
                            } else if v.bool_param_spec("exact"@) == Some(true) && extra.len() > 0 {
                                fails(
                                    r,
                                    v.kind@,
                                    p + " also contains "@ + join(extra, ", "@) + ", which should not be there."@,
                                    FailureCategory::TaskPartiallyCompleted,
                                    Some("only "@ + join(expected, ", "@)),
                                    Some(join(actual, ", "@)),
                                )
                            } else {
                                passes(r, v.kind@, p + " contains everything the task asked for."@)
                            }
                        },
                    }
                },
                _ => is_missing_outcome(r, v.kind@, "entries"@),
            },
        },
{
    let path = match args::path(v, "path") {
        Ok(p) => p,
        Err(o) => return o,
    };
    let expected = match args::string_list(v, "entries") {
        Ok(e) => e,
        Err(o) => return o,
    };
    let actual = match listing {
        Ok(a) => a,
        Err(o) => return o,
    };
    let kind = v.kind.as_str();
    let missing = absent(&expected, &actual);
    if missing.len() > 0 {
        let names = join_strings(&missing, ", ");
        let wanted = join_strings(&expected, ", ");
        let seen = if actual.len() == 0 {
            owned("an empty directory")
        } else {
            join_strings(&actual, ", ")
        };
        return CheckOutcome::fail(
            kind,
            cat4(path.as_str(), " is missing ", names.as_str(), ".").as_str(),
            FailureCategory::TaskPartiallyCompleted,
        ).expected(wanted.as_str()).observed(seen.as_str());
    }
    if args::flag(v, "exact") {
        let extra = absent(&actual, &expected);
        if extra.len() > 0 {
            let names = join_strings(&extra, ", ");
            let wanted = join_strings(&expected, ", ");
            let seen = join_strings(&actual, ", ");
            return CheckOutcome::fail(
                kind,
                cat4(path.as_str(), " also contains ", names.as_str(), ", which should not be there.").as_str(),
                FailureCategory::TaskPartiallyCompleted,
            ).expected(cat2("only ", wanted.as_str()).as_str()).observed(seen.as_str());
        }
    }
    CheckOutcome::pass(kind, cat2(path.as_str(), " contains everything the task asked for.").as_str())
}

/// `directory_empty`: the directory at `path` lists nothing (hidden entries count unless
/// `includeHidden` is false). `listing` is as for [`directory_contains`].
pub fn directory_empty(v: &Validator, listing: Result<Vec<String>, CheckOutcome>) -> (r: CheckOutcome)
    requires
        v.wf(),
    ensures
        match v.str_param_spec("path"@) {
            None => is_missing_outcome(r, v.kind@, "path"@),
            Some(p) => match listing {
                Err(o) => r == o,
                Ok(names) => if names@.len() == 0 {
                    passes(r, v.kind@, p + " is empty."@)
                } else {
                    fails(
                        r,
                        v.kind@,
                        p + " is not empty yet."@,
                        FailureCategory::TaskPartiallyCompleted,
                        None,
                        Some(join(strings_view(names@), ", "@)),
                    )
                },
            },
        },
{
    let path = match args::path(v, "path") {
        Ok(p) => p,
        Err(o) => return o,
    };
    let actual = match listing {
        Ok(a) => a,
        Err(o) => return o,
    };
    let kind = v.kind.as_str();
    if actual.len() == 0 {
        CheckOutcome::pass(kind, cat2(path.as_str(), " is empty.").as_str())
    } else {
        let seen = join_strings(&actual, ", ");
        CheckOutcome::fail(
            kind,
            cat2(path.as_str(), " is not empty yet.").as_str(),
            FailureCategory::TaskPartiallyCompleted,
        ).observed(seen.as_str())
    }
}

/// `current_directory`: the learner's interactive shell is in `path`. `user` is the learner,
/// `shell` the process id of their login shell (`None` when none was found), `cwd` that
/// shell's working directory (`None` when it could not be read), and `resolved` the task's
/// path and `cwd` with symbolic links resolved (each left as it is when it cannot be); the
/// resolved forms are compared unless `resolveSymlinks` is false.
pub fn current_directory(
    v: &Validator,
    user: &str,
    shell: Option<u32>,
    cwd: Option<&str>,
    resolved: (&str, &str),
) -> (r: CheckOutcome)
    requires
        v.wf(),
    ensures
        match v.str_param_spec("path"@) {
            None => is_missing_outcome(r, v.kind@, "path"@),
            Some(p) => match shell {
                None => errs(
                    r,
                    v.kind@,
                    "could not find an interactive shell for "@ + user@ + " to inspect"@,
                ),
                Some(pid) => match opt_text(cwd) {
                    None => errs(
                        r,
                        v.kind@,
                        "could not read the working directory of process "@ + decimal(pid as nat),
                    ),
                    Some(a) => {
                        let same = if v.bool_param_spec("resolveSymlinks"@) != Some(false) {
                            resolved.0@ == resolved.1@
                        } else {
                            p == a
                        };
                        if same {
                            passes(r, v.kind@, "Your shell is in "@ + a + "."@)
                        } else {
                            fails(
                                r,
                                v.kind@,
                                "Your shell is not in the directory the task asked for. Run pwd to see where you are."@,
                                FailureCategory::WrongWorkingDirectory,
                                Some(p),
                                Some(a),
                            )
                        }
                    },
                },
            },
        },
{
    let expected = match args::path(v, "path") {
        Ok(p) => p,
        Err(o) => return o,
    };
    let kind = v.kind.as_str();
    let pid = match shell {
        Some(pid) => pid,
        None => return CheckOutcome::error(
            kind,
            phrase("could not find an interactive shell for ", user, " to inspect").as_str(),
        ),
    };
    let actual = match cwd {
        Some(a) => a,
        None => {
            let number = decimal_string(pid as u64);
            return CheckOutcome::error(
                kind,
                cat2("could not read the working directory of process ", number.as_str()).as_str(),
            );
        },
    };
    let same = if args::flag_or(v, "resolveSymlinks", true) {
        crate::text::same_text(resolved.0, resolved.1)
    } else {
        crate::text::same_text(expected.as_str(), actual)
    };
    if same {
        CheckOutcome::pass(kind, phrase("Your shell is in ", actual, ".").as_str())
    } else {
        CheckOutcome::fail(
            kind,
            "Your shell is not in the directory the task asked for. Run pwd to see where you are.",
            FailureCategory::WrongWorkingDirectory,
        ).expected(expected.as_str()).observed(actual)
    }
}

} // verus!
