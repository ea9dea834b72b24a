//! What the guest agent decides when it checks a learner's work: parameter access, the
//! per-request context, and the parsers and text helpers the validators share.
pub mod args;
pub mod filesystem;
pub mod identity;
pub mod network;
pub mod package;
pub mod process;
pub mod script;
pub mod service;

use crate::lesson::Validator;
use crate::paths::{join_path, join_spec};
use crate::sys::strip_both;
use crate::text::{append, chars_of, owned, signed_decimal, signed_decimal_string, string_of};
use crate::validation::{CheckOutcome, FailureCategory};
use crate::overlay::is_name_char;
use vstd::prelude::*;

verus! {

/// `o` is a passing outcome of `kind` saying `message`, observing `observed`.
pub open spec fn passes_with(o: CheckOutcome, kind: Seq<char>, message: Seq<char>, observed: Option<Seq<char>>) -> bool {
    &&& o.kind@ == kind
    &&& o.passed
    &&& !o.errored
    &&& o.message@ == message
    &&& o.failure_category is None
    &&& o.expected is None
    &&& crate::vm_manager::opt_view(o.observed) == observed
    &&& o.weight == 1
}

/// `o` is a passing outcome of `kind` saying `message`, with nothing else set.
pub open spec fn passes(o: CheckOutcome, kind: Seq<char>, message: Seq<char>) -> bool {
    passes_with(o, kind, message, None)
}

/// `o` is a learner failure of `kind` in `category`, saying `message`, with the given
/// expected and observed values.
pub open spec fn fails(
    o: CheckOutcome,
    kind: Seq<char>,
    message: Seq<char>,
    category: FailureCategory,
    expected: Option<Seq<char>>,
    observed: Option<Seq<char>>,
) -> bool {
    &&& o.kind@ == kind
    &&& !o.passed
    &&& !o.errored
    &&& o.message@ == message
    &&& o.failure_category == Some(category)
    &&& crate::vm_manager::opt_view(o.expected) == expected
    &&& crate::vm_manager::opt_view(o.observed) == observed
    &&& o.weight == 1
}

/// `o` says the check of `kind` could not run, with `message`.
pub open spec fn errs(o: CheckOutcome, kind: Seq<char>, message: Seq<char>) -> bool {
    &&& o.kind@ == kind
    &&& !o.passed
    &&& o.errored
    &&& o.message@ == message
    &&& o.failure_category is None
    &&& o.expected is None
    &&& o.observed is None
    &&& o.weight == 1
}

/// `o` says the check of `kind` could not run, with a message that begins with `prefix`.
pub open spec fn errs_with_prefix(o: CheckOutcome, kind: Seq<char>, prefix: Seq<char>) -> bool {
    &&& o.kind@ == kind
    &&& !o.passed
    &&& o.errored
    &&& crate::text::starts_with(o.message@, prefix)
    &&& o.failure_category is None
    &&& o.expected is None
    &&& o.observed is None
    &&& o.weight == 1
}

/// The error for a pattern the regex engine refused: `prefix`, then its reason.
pub fn invalid_pattern(kind: &str, prefix: &str, reason: &str) -> (r: CheckOutcome)
    ensures
        errs_with_prefix(r, kind@, prefix@),
{
    let mut message = owned(prefix);
    append(&mut message, reason);
    assert(message@.take(prefix@.len() as int) =~= prefix@);
    CheckOutcome::error(kind, message.as_str())
}

/// Before a validator runs: the error outcome when the registry refuses it (an unknown or
/// unimplemented tag, a missing or wrongly typed parameter), so a broken lesson package is
/// reported as such and never passes.
pub fn refused_by_registry(registry: &crate::registry::Registry, v: &crate::lesson::Validator) -> (r: Option<CheckOutcome>)
    ensures
        match crate::registry::check_spec(*registry, *v) {
            None => r is None,
            Some(e) => r matches Some(o) && errs(o, v.kind@, "the task cannot be checked: "@ + crate::registry::error_message(e)),
        },
{
    match registry.check(v) {
        Ok(()) => None,
        Err(e) => {
            let mut message = owned("the task cannot be checked: ");
            append(&mut message, e.message().as_str());
            Some(CheckOutcome::error(v.kind.as_str(), message.as_str()))
        },
    }
}

/// The outcome for a tag the registry calls implemented but no validator module handles.
pub fn unhandled(kind: &str) -> (r: CheckOutcome)
    ensures
        errs(r, kind@, "validator '"@ + kind@ + "' is declared as implemented but this agent has no handler for it"@),
{
    let mut message = owned("validator '");
    append(&mut message, kind);
    append(&mut message, "' is declared as implemented but this agent has no handler for it");
    CheckOutcome::error(kind, message.as_str())
}

/// Per-request context shared by every validator.
#[derive(Debug, Clone, PartialEq, Eq)]
pub struct Ctx {
    /// The learner whose shell state and permissions are inspected.
    pub subject_user: String,
    /// Unix seconds when this attempt began; scopes journal queries.
    pub attempt_started_at: Option<i64>,
    /// Namespace applied to network validators that do not name their own.
    pub default_namespace: Option<String>,
    /// Where this lesson's assets live.
    pub lesson_root: String,
}

/// A lesson id's characters that may name a directory: letters, digits, `-`, `_`, `.`.
pub open spec fn keep_safe(s: Seq<char>) -> Seq<char>
    decreases s.len(),
{
    if s.len() == 0 {
        Seq::empty()
    } else if is_name_char(s.last()) || s.last() == '.' {
        keep_safe(s.drop_last()).push(s.last())
    } else {
        keep_safe(s.drop_last())
    }
}

/// The directory a lesson's assets live in: the id with everything but safe characters
/// dropped and dots trimmed from both ends, under the fixed lessons root.
pub open spec fn lesson_root_spec(lesson_id: Seq<char>) -> Seq<char> {
    let safe = strip_both(keep_safe(lesson_id), '.');
    join_spec(
        "/opt/linuxlab/lessons"@,
        if safe.len() == 0 {
            "unknown"@
        } else {
            safe
        },
    )
}

proof fn lemma_keep_safe(s: Seq<char>)
    ensures
        forall|i: int|
            0 <= i < keep_safe(s).len() ==> is_name_char(#[trigger] keep_safe(s)[i]) || keep_safe(s)[i]
                == '.',
    decreases s.len(),
{
    if s.len() > 0 {
        lemma_keep_safe(s.drop_last());
        let before = keep_safe(s.drop_last());
        let k = keep_safe(s);
        assert forall|i: int| 0 <= i < k.len() implies is_name_char(#[trigger] k[i]) || k[i] == '.' by {
            if i < before.len() {
                assert(k[i] == before[i]);
            }
        }
    }
}

proof fn lemma_strip_both_inside(s: Seq<char>, c: char)
    ensures
        exists|a: int, b: int| 0 <= a <= b <= s.len() && strip_both(s, c) == s.subrange(a, b),
        strip_both(s, c).len() > 0 ==> strip_both(s, c)[0] != c && strip_both(s, c).last() != c,
    decreases s.len(),
{
    lemma_strip_leading(s, c);
    let l = crate::sys::strip_leading(s, c);
    let a = choose|a: int| 0 <= a <= s.len() && l == s.skip(a);
    lemma_strip_trailing(l, c);
    let b = choose|b: int| 0 <= b <= l.len() && crate::sys::strip_trailing(l, c) == l.take(b);
    assert(l.take(b) =~= s.subrange(a, a + b));
    if strip_both(s, c).len() > 0 {
        assert(strip_both(s, c)[0] == l[0]);
    }
}

proof fn lemma_strip_leading(s: Seq<char>, c: char)
    ensures
        exists|a: int| 0 <= a <= s.len() && crate::sys::strip_leading(s, c) == s.skip(a),
        crate::sys::strip_leading(s, c).len() > 0 ==> crate::sys::strip_leading(s, c)[0] != c,
    decreases s.len(),
{
    if s.len() > 0 && s[0] == c {
        lemma_strip_leading(s.drop_first(), c);
        let a = choose|a: int|
            0 <= a <= s.drop_first().len() && crate::sys::strip_leading(s.drop_first(), c)
                == s.drop_first().skip(a);
        assert(s.drop_first().skip(a) =~= s.skip(a + 1));
    } else {
        assert(s.skip(0) =~= s);
    }
}

proof fn lemma_strip_trailing(s: Seq<char>, c: char)
    ensures
        exists|b: int| 0 <= b <= s.len() && crate::sys::strip_trailing(s, c) == s.take(b),
        crate::sys::strip_trailing(s, c).len() > 0 ==> crate::sys::strip_trailing(s, c).last() != c,
    decreases s.len(),
{
    if s.len() > 0 && s.last() == c {
        lemma_strip_trailing(s.drop_last(), c);
        let b = choose|b: int|
            0 <= b <= s.drop_last().len() && crate::sys::strip_trailing(s.drop_last(), c)
                == s.drop_last().take(b);
        assert(s.drop_last().take(b) =~= s.take(b));
    } else {
        assert(s.take(s.len() as int) =~= s);
    }
}

/// The last component of a lesson's assets directory: the id's safe characters with dots
/// trimmed from both ends, or `unknown` when nothing is left.
pub open spec fn lesson_dir_name(lesson_id: Seq<char>) -> Seq<char> {
    let safe = strip_both(keep_safe(lesson_id), '.');
    if safe.len() == 0 {
        "unknown"@
    } else {
        safe
    }
}

/// A directory name that cannot leave its parent: not empty, made of letters, digits, `-`,
/// `_` and `.`, and neither starting nor ending with a dot (so never `.` or `..`).
pub open spec fn contained_name(name: Seq<char>) -> bool {
    &&& name.len() > 0
    &&& forall|i: int| 0 <= i < name.len() ==> is_name_char(#[trigger] name[i]) || name[i] == '.'
    &&& name[0] != '.'
    &&& name.last() != '.'
}

/// Whatever a lesson package calls its lesson, its assets directory is one contained name
/// directly under the lessons root.
pub proof fn lemma_lesson_root_stays_inside(lesson_id: Seq<char>)
    ensures
        lesson_root_spec(lesson_id) == "/opt/linuxlab/lessons/"@ + lesson_dir_name(lesson_id),
        contained_name(lesson_dir_name(lesson_id)),
{
    reveal_strlit("unknown");
    reveal_strlit("/opt/linuxlab/lessons");
    reveal_strlit("/opt/linuxlab/lessons/");
    reveal_strlit("/");
    let k = keep_safe(lesson_id);
    lemma_keep_safe(lesson_id);
    lemma_strip_both_inside(k, '.');
    let safe = strip_both(k, '.');
    if safe.len() > 0 {
        let (a, b) = choose|a: int, b: int| 0 <= a <= b <= k.len() && safe == k.subrange(a, b);
        assert forall|i: int| 0 <= i < safe.len() implies is_name_char(#[trigger] safe[i]) || safe[i]
            == '.' by {
            assert(safe[i] == k[a + i]);
        }
        assert(safe[0] != '/');
    }
    let name = if safe.len() == 0 {
        "unknown"@
    } else {
        safe
    };
    assert("/opt/linuxlab/lessons"@ + "/"@ + name =~= "/opt/linuxlab/lessons/"@ + name);
}

/// The directory a lesson's assets live in.
pub fn lesson_root_for(lesson_id: &str) -> (r: String)
    ensures
        r@ == lesson_root_spec(lesson_id@),
{
    let chars = chars_of(lesson_id);
    let mut kept: Vec<char> = Vec::new();
    let mut i: usize = 0;
    while i < chars.len()
        invariant
            i <= chars@.len(),
            kept@ == keep_safe(chars@.take(i as int)),
        decreases chars.len() - i,
    {
        assert(chars@.take(i + 1).drop_last() =~= chars@.take(i as int));
        let c = chars[i];
        let alnum = ('0' <= c && c <= '9') || ('a' <= c && c <= 'z') || ('A' <= c && c <= 'Z');
        if alnum || c == '-' || c == '_' || c == '.' {
            kept.push(c);
        }
        i += 1;
    }
    assert(chars@.take(chars@.len() as int) =~= chars@);
    let kept_text = string_of(&kept);
    let safe = crate::sys::strip_both_text(kept_text.as_str(), '.');
    if safe.unicode_len() == 0 {
        join_path("/opt/linuxlab/lessons", "unknown")
    } else {
        join_path("/opt/linuxlab/lessons", safe.as_str())
    }
}

/// The `journalctl --since` expression for an attempt: its start as an `@`-prefixed Unix
/// timestamp, or the last ten minutes when the start is unknown.
pub open spec fn since_spec(started: Option<i64>) -> Seq<char> {
    match started {
        Some(seconds) => "@"@ + signed_decimal(seconds as int),
        None => "-10min"@,
    }
}

impl Ctx {
    pub fn new(subject_user: &str, lesson_id: &str) -> (r: Ctx)
        ensures
            r.subject_user@ == subject_user@,
            r.lesson_root_view() == lesson_root_spec(lesson_id@),
            r.attempt_started_at is None,
            r.default_namespace is None,
    {
        Ctx {
            subject_user: owned(subject_user),
            lesson_root: lesson_root_for(lesson_id),
            attempt_started_at: None,
            default_namespace: None,
        }
    }

    /// A context for a fixed test lesson.
    pub fn for_test(subject_user: &str) -> (r: Ctx)
        ensures
            r.subject_user@ == subject_user@,
            r.lesson_root_view() == lesson_root_spec("test.lesson.01"@),
            r.attempt_started_at is None,
            r.default_namespace is None,
    {
        Ctx::new(subject_user, "test.lesson.01")
    }

    pub open spec fn lesson_root_view(self) -> Seq<char> {
        self.lesson_root@
    }

    pub fn lesson_root(&self) -> (r: &str)
        ensures
            r@ == self.lesson_root_view(),
    {
        self.lesson_root.as_str()
    }

    /// A validator's own `namespace` wins over the lesson-wide default.
    pub fn namespace_for(&self, validator: &Validator) -> (r: Option<String>)
        requires
            validator.wf(),
        ensures
            match validator.str_param_spec("namespace"@) {
                Some(n) => r matches Some(s) && s@ == n,
                None => match self.default_namespace {
                    Some(d) => r matches Some(s) && s@ == d@,
                    None => r is None,
                },
            },
    {
        match validator.str_param("namespace") {
            Some(n) => Some(owned(n)),
            None => match &self.default_namespace {
                Some(d) => Some(d.clone()),
                None => None,
            },
        }
    }

    /// `journalctl --since` expression covering this attempt only.
    pub fn attempt_since_expression(&self) -> (r: String)
        ensures
            r@ == since_spec(self.attempt_started_at),
    {
        match self.attempt_started_at {
            Some(seconds) => {
                let mut r = owned("@");
                let digits = signed_decimal_string(seconds);
                append(&mut r, digits.as_str());
                r
            },
            None => owned("-10min"),
        }
    }
}

} // verus!
