//! Process and job validators: which processes are the learner's, which of them a pattern
//! matches, and what each validator concludes. The agent reads `/proc`; everything from
//! there on is decided here. The agent's own process tree is never a candidate, or a check
//! for `sleep 300` would match the `runuser` the agent itself just ran.
use super::args::{self, Bounds, describe_spec as bounds_text, is_missing_outcome};
use super::filesystem::owner_text;
use super::identity::{account_named, find_account};
use super::{errs, errs_with_prefix, fails, invalid_pattern, passes, passes_with};
use crate::lesson::Validator;
use crate::pattern::{Pattern, compile, regex_compiles, regex_matches};
use crate::sys::{PasswdEntry, ProcessFacts, insert_sorted, strictly_sorted, user_for_uid};
use crate::text::{
    append, chars_of, contains, contains_chars, decimal, decimal_string, join, join_strings,
    lines, lines_of, owned, phrase, phrase2, signed_decimal, signed_decimal_string, string_of,
    strings_view, trim, trimmed,
};
use crate::validation::{CheckOutcome, FailureCategory};
use vstd::prelude::*;

verus! {

/// At most `max` characters of `text`, with an ellipsis when some were cut.
pub open spec fn truncate_spec(text: Seq<char>, max: nat) -> Seq<char> {
    if text.len() <= max {
        text
    } else {
        text.take(max as int) + "…"@
    }
}

/// Shortens text by characters, never splitting one.
pub fn truncate(text: &str, max: usize) -> (r: String)
    ensures
        r@ == truncate_spec(text@, max as nat),
{
    let chars = chars_of(text);
    if chars.len() <= max {
        return owned(text);
    }
    let kept = crate::text::chars_from_to(&chars, 0, max);
    let mut r = string_of(&kept);
    append(&mut r, "…");
    assert(kept@ =~= text@.take(max as int));
    r
}

/// What processes are matched against: the command line, or the executable name when the
/// command line is blank.
pub open spec fn match_text_spec(p: ProcessFacts) -> Seq<char> {
    if trim(p.cmdline@).len() == 0 {
        p.comm@
    } else {
        p.cmdline@
    }
}

pub open spec fn process_label(p: ProcessFacts) -> Seq<char> {
    "pid "@ + decimal(p.pid as nat) + " ("@ + truncate_spec(match_text_spec(p), 60) + ")"@
}

/// The first `limit` processes, each as `pid N (command)`, or a note that none matched.
pub open spec fn describe_spec(ps: Seq<ProcessFacts>, limit: nat) -> Seq<char> {
    if ps.len() == 0 {
        "no matching process"@
    } else {
        join(
            (if ps.len() > limit {
                ps.take(limit as int)
            } else {
                ps
            }).map_values(|p: ProcessFacts| process_label(p)),
            ", "@,
        )
    }
}

pub fn describe(processes: &Vec<ProcessFacts>, limit: usize) -> (r: String)
    ensures
        r@ == describe_spec(processes@, limit as nat),
{
    if processes.len() == 0 {
        return owned("no matching process");
    }
    let count = if processes.len() > limit {
        limit
    } else {
        processes.len()
    };
    let ghost shown = if processes@.len() > limit {
        processes@.take(limit as int)
    } else {
        processes@
    };
    let mut labels: Vec<String> = Vec::new();
    let mut i: usize = 0;
    while i < count
        invariant
            i <= count <= processes@.len(),
            shown.len() == count,
            forall|j: int| 0 <= j < count ==> shown[j] == processes@[j],
            strings_view(labels@) == shown.take(i as int).map_values(|p: ProcessFacts| process_label(p)),
        decreases count - i,
    {
        let p = &processes[i];
        let mut label = owned("pid ");
        append(&mut label, decimal_string(p.pid as u64).as_str());
        append(&mut label, " (");
        append(&mut label, truncate(p.match_text(), 60).as_str());
        append(&mut label, ")");
        assert(label@ == process_label(*p));
        let ghost before = strings_view(labels@);
        labels.push(label);
        assert(strings_view(labels@) =~= before.push(process_label(*p)));
        assert(shown[i as int] == processes@[i as int]);
        assert(strings_view(labels@) =~= shown.take(i + 1).map_values(
            |p: ProcessFacts| process_label(p),
        ));
        i += 1;
    }
    assert(shown.take(count as int) =~= shown);
    join_strings(&labels, ", ")
}

fn cat2(a: &str, b: &str) -> (r: String)
    ensures
        r@ == a@ + b@,
{
    let mut r = owned(a);
    append(&mut r, b);
    r
}

fn has_pid(v: &Vec<u32>, x: u32) -> (r: bool)
    ensures
        r == v@.contains(x),
{
    let mut i: usize = 0;
    while i < v.len()
        invariant
            i <= v@.len(),
            forall|j: int| 0 <= j < i ==> v@[j] != x,
        decreases v.len() - i,
    {
        if v[i] == x {
            return true;
        }
        i += 1;
    }
    false
}

/// The pids of processes whose parent is in `tree` and which are not in it yet, in order.
pub open spec fn children_in(all: Seq<ProcessFacts>, tree: Seq<u32>) -> Seq<u32>
    decreases all.len(),
{
    if all.len() == 0 {
        Seq::empty()
    } else {
        let rest = children_in(all.drop_last(), tree);
        let p = all.last();
        if tree.contains(p.ppid) && !tree.contains(p.pid) {
            rest.push(p.pid)
        } else {
            rest
        }
    }
}

/// `tree` grown by up to `rounds` generations of children.
pub open spec fn own_tree(all: Seq<ProcessFacts>, tree: Seq<u32>, rounds: nat) -> Seq<u32>
    decreases rounds,
{
    if rounds == 0 {
        tree
    } else {
        let c = children_in(all, tree);
        if c.len() == 0 {
            tree
        } else {
            own_tree(all, tree + c, (rounds - 1) as nat)
        }
    }
}

/// The processes whose pid is not in `tree`, in order.
pub open spec fn outside_tree(all: Seq<ProcessFacts>, tree: Seq<u32>) -> Seq<ProcessFacts>
    decreases all.len(),
{
    if all.len() == 0 {
        Seq::empty()
    } else {
        let rest = outside_tree(all.drop_last(), tree);
        if tree.contains(all.last().pid) {
            rest
        } else {
            rest.push(all.last())
        }
    }
}

/// What the validators may match: every process except the agent and four generations of
/// its descendants (`runuser`, a shell and its command are the deepest the agent spawns).
pub open spec fn candidates_spec(all: Seq<ProcessFacts>, agent: u32) -> Seq<ProcessFacts> {
    outside_tree(all, own_tree(all, seq![agent], 4))
}

fn children_of(all: &Vec<ProcessFacts>, tree: &Vec<u32>) -> (r: Vec<u32>)
    ensures
        r@ == children_in(all@, tree@),
{
    let mut out: Vec<u32> = Vec::new();
    let mut i: usize = 0;
    while i < all.len()
        invariant
            i <= all@.len(),
            out@ == children_in(all@.take(i as int), tree@),
        decreases all.len() - i,
    {
        assert(all@.take(i + 1).drop_last() =~= all@.take(i as int));
        assert(all@.take(i + 1).last() == all@[i as int]);
        if has_pid(tree, all[i].ppid) && !has_pid(tree, all[i].pid) {
            out.push(all[i].pid);
        }
        i += 1;
    }
    assert(all@.take(all@.len() as int) =~= all@);
    out
}

/// Everything the learner is running: `all` (read from `/proc`) without the process tree of
/// the agent, whose pid is `agent`.
pub fn candidate_processes(all: &Vec<ProcessFacts>, agent: u32) -> (r: Vec<ProcessFacts>)
    ensures
        r@ == candidates_spec(all@, agent),
{
    let mut tree: Vec<u32> = Vec::new();
    tree.push(agent);
    assert(tree@ =~= seq![agent]);
    let mut round: usize = 0;
    while round < 4
        invariant
            round <= 4,
            own_tree(all@, seq![agent], 4) == own_tree(all@, tree@, (4 - round) as nat),
        ensures
            own_tree(all@, seq![agent], 4) == tree@,
        decreases 4 - round,
    {
        let children = children_of(all, &tree);
        if children.len() == 0 {
            assert(own_tree(all@, tree@, (4 - round) as nat) == tree@);
            break;
        }
        let ghost before = tree@;
        let mut k: usize = 0;
        while k < children.len()
            invariant
                k <= children@.len(),
                tree@ == before + children@.take(k as int),
            decreases children.len() - k,
        {
            tree.push(children[k]);
            k += 1;
            assert(tree@ =~= before + children@.take(k as int));
        }
        assert(children@.take(children@.len() as int) =~= children@);
        round += 1;
    }
    let mut out: Vec<ProcessFacts> = Vec::new();
    let mut i: usize = 0;
    let ghost t = tree@;
    while i < all.len()
        invariant
            i <= all@.len(),
            t == tree@,
            out@ == outside_tree(all@.take(i as int), t),
        decreases all.len() - i,
    {
        assert(all@.take(i + 1).drop_last() =~= all@.take(i as int));
        assert(all@.take(i + 1).last() == all@[i as int]);
        if !has_pid(&tree, all[i].pid) {
            out.push(all[i].duplicate());
        }
        i += 1;
    }
    assert(all@.take(all@.len() as int) =~= all@);
    out
}

/// The processes whose match text `pattern` (with these flags) matches, in order.
pub open spec fn matching_spec(pattern: Seq<char>, ci: bool, ml: bool, ps: Seq<ProcessFacts>) -> Seq<ProcessFacts>
    decreases ps.len(),
{
    if ps.len() == 0 {
        Seq::empty()
    } else {
        let rest = matching_spec(pattern, ci, ml, ps.drop_last());
        if regex_matches(pattern, ci, ml, match_text_spec(ps.last())) {
            rest.push(ps.last())
        } else {
            rest
        }
    }
}

fn matching(pattern: &Pattern, ps: &Vec<ProcessFacts>) -> (r: Vec<ProcessFacts>)
    ensures
        r@ == matching_spec(pattern.source(), pattern.case_insensitive(), pattern.multi_line(), ps@),
{
    let mut out: Vec<ProcessFacts> = Vec::new();
    let mut i: usize = 0;
    while i < ps.len()
        invariant
            i <= ps@.len(),
            out@ == matching_spec(pattern.source(), pattern.case_insensitive(), pattern.multi_line(), ps@.take(i as int)),
        decreases ps.len() - i,
    {
        assert(ps@.take(i + 1).drop_last() =~= ps@.take(i as int));
        assert(ps@.take(i + 1).last() == ps@[i as int]);
        if pattern.is_match(ps[i].match_text()) {
            out.push(ps[i].duplicate());
        }
        i += 1;
    }
    assert(ps@.take(ps@.len() as int) =~= ps@);
    out
}

/// The processes `pattern` matches among the candidates, as `Regex::new(pattern)` matches.
pub open spec fn found_spec(pattern: Seq<char>, candidates: Seq<ProcessFacts>) -> Seq<ProcessFacts> {
    matching_spec(pattern, false, false, candidates)
}

/// The message prefix for a pattern that does not compile.
pub open spec fn bad_pattern(pattern: Seq<char>) -> Seq<char> {
    "the pattern '"@ + pattern + "' is not a valid regex: "@
}

fn compile_or_error(kind: &str, pattern: &str) -> (r: Result<Pattern, CheckOutcome>)
    ensures
        match r {
            Ok(p) => regex_compiles(pattern@, false, false) && p.source() == pattern@ && !p.case_insensitive()
                && !p.multi_line(),
            Err(o) => !regex_compiles(pattern@, false, false) && errs_with_prefix(o, kind@, bad_pattern(pattern@)),
        },
{
    match compile(pattern, false, false) {
        Ok(p) => Ok(p),
        Err(e) => Err(invalid_pattern(kind, phrase("the pattern '", pattern, "' is not a valid regex: ").as_str(), e.as_str())),
    }
}

/// The processes of `ps` run by `uid`, in order.
pub open spec fn run_by(ps: Seq<ProcessFacts>, uid: u32) -> Seq<ProcessFacts>
    decreases ps.len(),
{
    if ps.len() == 0 {
        Seq::empty()
    } else {
        let rest = run_by(ps.drop_last(), uid);
        if ps.last().uid == uid {
            rest.push(ps.last())
        } else {
            rest
        }
    }
}

fn keep_uid(ps: &Vec<ProcessFacts>, uid: u32) -> (r: Vec<ProcessFacts>)
    ensures
        r@ == run_by(ps@, uid),
{
    let mut out: Vec<ProcessFacts> = Vec::new();
    let mut i: usize = 0;
    while i < ps.len()
        invariant
            i <= ps@.len(),
            out@ == run_by(ps@.take(i as int), uid),
        decreases ps.len() - i,
    {
        assert(ps@.take(i + 1).drop_last() =~= ps@.take(i as int));
        assert(ps@.take(i + 1).last() == ps@[i as int]);
        if ps[i].uid == uid {
            out.push(ps[i].duplicate());
        }
        i += 1;
    }
    assert(ps@.take(ps@.len() as int) =~= ps@);
    out
}

/// How many matching processes `process_running` wants: `minCount`, one when not given, and
/// never fewer than one.
pub open spec fn required_count(v: Validator) -> usize {
    let m = match v.i64_param_spec("minCount"@) {
        Some(m) => m,
        None => 1,
    };
    (if m < 1 {
        1
    } else {
        m
    }) as usize
}

/// `process_running`: at least `minCount` (default one) candidate processes match
/// `pattern`, counting only those of `owner` when it is given. `candidates` are the
/// processes [`candidate_processes`] leaves; `passwd` the accounts of `/etc/passwd`.
pub fn process_running(v: &Validator, candidates: &Vec<ProcessFacts>, passwd: &Vec<PasswdEntry>) -> (r: CheckOutcome)
    requires
        v.wf(),
    ensures
        match v.str_param_spec("pattern"@) {
            None => is_missing_outcome(r, v.kind@, "pattern"@),
            Some(pat) => if !regex_compiles(pat, false, false) {
                errs_with_prefix(r, v.kind@, bad_pattern(pat))
            } else {
                let all = found_spec(pat, candidates@);
                match v.str_param_spec("owner"@) {
                    Some(o) if account_named(passwd@, o) is None => fails(
                        r,
                        v.kind@,
                        "There is no user called "@ + o + "."@,
                        FailureCategory::WrongOwnership,
                        None,
                        None,
                    ),
                    _ => {
                        let found = match v.str_param_spec("owner"@) {
                            Some(o) => run_by(all, account_named(passwd@, o)->0.uid),
                            None => all,
                        };
                        let need = required_count(*v);
                        if found.len() >= need {
                            passes_with(
                                r,
                                v.kind@,
                                "Found "@ + decimal(found.len()) + " matching process(es)."@,
                                Some(describe_spec(found, 3)),
                            )
                        } else {
                            fails(
                                r,
                                v.kind@,
                                "No process matching '"@ + pat + "' is running."@,
                                FailureCategory::ProcessNotRunning,
                                Some("at least "@ + decimal(need as nat) + " matching '"@ + pat + "'"@),
                                Some(describe_spec(found, 3)),
                            )
                        }
                    },
                }
            },
        },
{
    let pattern_text = match args::string(v, "pattern") {
        Ok(p) => p,
        Err(o) => return o,
    };
    let kind = v.kind.as_str();
    let pattern = match compile_or_error(kind, pattern_text) {
        Ok(p) => p,
        Err(o) => return o,
    };
    let mut found = matching(&pattern, candidates);
    match args::optional_string(v, "owner") {
        Some(owner) => match find_account(passwd, owner) {
            Some(i) => {
                found = keep_uid(&found, passwd[i].uid);
            },
            None => {
                return CheckOutcome::fail(
                    kind,
                    phrase("There is no user called ", owner, ".").as_str(),
                    FailureCategory::WrongOwnership,
                );
            },
        },
        None => {},
    }
    let configured = match args::optional_integer(v, "minCount") {
        Some(m) => m,
        None => 1,
    };
    let required = (if configured < 1 {
        1
    } else {
        configured
    }) as usize;
    let shown = describe(&found, 3);
    if found.len() >= required {
        let count = decimal_string(found.len() as u64);
        CheckOutcome::pass(kind, phrase("Found ", count.as_str(), " matching process(es).").as_str()).observed(
            shown.as_str(),
        )
    } else {
        let need = decimal_string(required as u64);
        let mut wanted = phrase("at least ", need.as_str(), " matching '");
        append(&mut wanted, pattern_text);
        append(&mut wanted, "'");
        CheckOutcome::fail(
            kind,
            phrase("No process matching '", pattern_text, "' is running.").as_str(),
            FailureCategory::ProcessNotRunning,
        ).expected(wanted.as_str()).observed(shown.as_str())
    }
}

/// `process_not_running`: no candidate process matches `pattern`.
pub fn process_not_running(v: &Validator, candidates: &Vec<ProcessFacts>) -> (r: CheckOutcome)
    requires
        v.wf(),
    ensures
        match v.str_param_spec("pattern"@) {
            None => is_missing_outcome(r, v.kind@, "pattern"@),
            Some(pat) => if !regex_compiles(pat, false, false) {
                errs_with_prefix(r, v.kind@, bad_pattern(pat))
            } else if found_spec(pat, candidates@).len() == 0 {
                passes(r, v.kind@, "Nothing matching '"@ + pat + "' is running."@)
            } else {
                fails(
                    r,
                    v.kind@,
                    "A process matching '"@ + pat + "' is still running."@,
                    FailureCategory::ProcessNotRunning,
                    None,
                    Some(describe_spec(found_spec(pat, candidates@), 3)),
                )
            },
        },
{
    let pattern_text = match args::string(v, "pattern") {
        Ok(p) => p,
        Err(o) => return o,
    };
    let kind = v.kind.as_str();
    let pattern = match compile_or_error(kind, pattern_text) {
        Ok(p) => p,
        Err(o) => return o,
    };
    let found = matching(&pattern, candidates);
    if found.len() == 0 {
        CheckOutcome::pass(kind, phrase("Nothing matching '", pattern_text, "' is running.").as_str())
    } else {
        let shown = describe(&found, 3);
        CheckOutcome::fail(
            kind,
            phrase("A process matching '", pattern_text, "' is still running.").as_str(),
            FailureCategory::ProcessNotRunning,
        ).observed(shown.as_str())
    }
}

/// The owners of the processes, as `ls -l` names them.
pub open spec fn owners_of(ps: Seq<ProcessFacts>, passwd: Seq<PasswdEntry>) -> Seq<Seq<char>> {
    ps.map_values(|p: ProcessFacts| owner_text(passwd, p.uid))
}

/// `process_owner`: every candidate process matching `pattern` runs as `owner`.
pub fn process_owner(v: &Validator, candidates: &Vec<ProcessFacts>, passwd: &Vec<PasswdEntry>) -> (r: CheckOutcome)
    requires
        v.wf(),
    ensures
        match (v.str_param_spec("pattern"@), v.str_param_spec("owner"@)) {
            (None, _) => is_missing_outcome(r, v.kind@, "pattern"@),
            (Some(_), None) => is_missing_outcome(r, v.kind@, "owner"@),
            (Some(pat), Some(o)) => if !regex_compiles(pat, false, false) {
                errs_with_prefix(r, v.kind@, bad_pattern(pat))
            } else {
                let found = found_spec(pat, candidates@);
                let owners = owners_of(found, passwd@);
                if found.len() == 0 {
                    fails(
                        r,
                        v.kind@,
                        "No process matching '"@ + pat + "' is running, so its owner cannot be checked."@,
                        FailureCategory::ProcessNotRunning,
                        None,
                        None,
                    )
                } else if forall|i: int| 0 <= i < owners.len() ==> #[trigger] owners[i] == o {
                    passes(r, v.kind@, "The process runs as "@ + o + "."@)
                } else {
                    &&& r.kind@ == v.kind@
                    &&& !r.passed
                    &&& !r.errored
                    &&& r.message@ == "The process is not running as the expected user."@
                    &&& r.failure_category == Some(FailureCategory::WrongOwnership)
                    &&& crate::vm_manager::opt_view(r.expected) == Some(o)
                    &&& r.observed matches Some(seen) && exists|s: Seq<Seq<char>>|
                        strictly_sorted(s) && s.to_set() == owners.to_set() && seen@ == join(s, ", "@)
                    &&& r.weight == 1
                }
            },
        },
{
    let pattern_text = match args::string(v, "pattern") {
        Ok(p) => p,
        Err(o) => return o,
    };
    let expected = match args::string(v, "owner") {
        Ok(o) => o,
        Err(o) => return o,
    };
    let kind = v.kind.as_str();
    let pattern = match compile_or_error(kind, pattern_text) {
        Ok(p) => p,
        Err(o) => return o,
    };
    let found = matching(&pattern, candidates);
    if found.len() == 0 {
        return CheckOutcome::fail(
            kind,
            phrase("No process matching '", pattern_text, "' is running, so its owner cannot be checked.").as_str(),
            FailureCategory::ProcessNotRunning,
        );
    }
    let ghost owners = owners_of(found@, passwd@);
    let mut all_match = true;
    let mut distinct: Vec<String> = Vec::new();
    let mut i: usize = 0;
    while i < found.len()
        invariant
            i <= found@.len(),
            owners == owners_of(found@, passwd@),
            owners.len() == found@.len(),
            all_match == forall|j: int| 0 <= j < i ==> #[trigger] owners[j] == expected@,
            strictly_sorted(strings_view(distinct@)),
            strings_view(distinct@).to_set() == owners.take(i as int).to_set(),
        decreases found.len() - i,
    {
        let name = match user_for_uid(found[i].uid, passwd) {
            Some(n) => n,
            None => decimal_string(found[i].uid as u64),
        };
        assert(name@ == owners[i as int]);
        if !crate::text::same_text(name.as_str(), expected) {
            all_match = false;
        }
        let ghost before = owners.take(i as int).to_set();
        insert_sorted(&mut distinct, name);
        assert(owners.take(i + 1) =~= owners.take(i as int).push(owners[i as int]));
        assert(owners.take(i + 1).to_set() =~= before.insert(owners[i as int])) by {
            owners.take(i as int).lemma_push_to_set_commute(owners[i as int]);
        }
        i += 1;
    }
    assert(owners.take(found@.len() as int) =~= owners);
    if all_match {
        CheckOutcome::pass(kind, phrase("The process runs as ", expected, ".").as_str())
    } else {
        let shown = join_strings(&distinct, ", ");
        CheckOutcome::fail(
            kind,
            "The process is not running as the expected user.",
            FailureCategory::WrongOwnership,
        ).expected(expected).observed(shown.as_str())
    }
}

/// `process_count`: the number of candidate processes matching `pattern` is within the
/// bounds.
pub fn process_count(v: &Validator, candidates: &Vec<ProcessFacts>) -> (r: CheckOutcome)
    requires
        v.wf(),
    ensures
        match v.str_param_spec("pattern"@) {
            None => is_missing_outcome(r, v.kind@, "pattern"@),
            Some(pat) => if !regex_compiles(pat, false, false) {
                errs_with_prefix(r, v.kind@, bad_pattern(pat))
            } else {
                let b = Bounds {
                    equals: v.i64_param_spec("equals"@),
                    min: v.i64_param_spec("min"@),
                    max: v.i64_param_spec("max"@),
                };
                let n = found_spec(pat, candidates@).len() as i64;
                if b.holds(n) {
                    passes(r, v.kind@, signed_decimal(n as int) + " matching process(es) are running."@)
                } else {
                    fails(
                        r,
                        v.kind@,
                        "The number of processes matching '"@ + pat + "' is not what the task asked for."@,
                        FailureCategory::ProcessNotRunning,
                        Some(bounds_text(b)),
                        Some(signed_decimal(n as int)),
                    )
                }
            },
        },
{
    let pattern_text = match args::string(v, "pattern") {
        Ok(p) => p,
        Err(o) => return o,
    };
    let kind = v.kind.as_str();
    let pattern = match compile_or_error(kind, pattern_text) {
        Ok(p) => p,
        Err(o) => return o,
    };
    let bounds = Bounds::read(v);
    let found = matching(&pattern, candidates);
    let actual = found.len() as i64;
    let shown = signed_decimal_string(actual);
    if bounds.satisfied_by(actual) {
        CheckOutcome::pass(kind, cat2(shown.as_str(), " matching process(es) are running.").as_str())
    } else {
        let wanted = bounds.describe();
        CheckOutcome::fail(
            kind,
            phrase("The number of processes matching '", pattern_text, "' is not what the task asked for.").as_str(),
            FailureCategory::ProcessNotRunning,
        ).expected(wanted.as_str()).observed(shown.as_str())
    }
}

/// `process_command`: some candidate process matching `pattern` was started with a command
/// line containing `contains`.
pub fn process_command(v: &Validator, candidates: &Vec<ProcessFacts>) -> (r: CheckOutcome)
    requires
        v.wf(),
    ensures
        match (v.str_param_spec("pattern"@), v.str_param_spec("contains"@)) {
            (None, _) => is_missing_outcome(r, v.kind@, "pattern"@),
            (Some(_), None) => is_missing_outcome(r, v.kind@, "contains"@),
            (Some(pat), Some(needle)) => if !regex_compiles(pat, false, false) {
                errs_with_prefix(r, v.kind@, bad_pattern(pat))
            } else {
                let found = found_spec(pat, candidates@);
                if found.len() == 0 {
                    fails(
                        r,
                        v.kind@,
                        "No process matching '"@ + pat + "' is running."@,
                        FailureCategory::ProcessNotRunning,
                        None,
                        None,
                    )
                } else if exists|i: int| 0 <= i < found.len() && contains(match_text_spec(#[trigger] found[i]), needle) {
                    passes(r, v.kind@, "A matching process was started with '"@ + needle + "'."@)
                } else {
                    fails(
                        r,
                        v.kind@,
                        "The process is running but was not started with '"@ + needle + "'."@,
                        FailureCategory::ProcessNotRunning,
                        Some(needle),
                        Some(describe_spec(found, 2)),
                    )
                }
            },
        },
{
    let pattern_text = match args::string(v, "pattern") {
        Ok(p) => p,
        Err(o) => return o,
    };
    let needle = match args::string(v, "contains") {
        Ok(n) => n,
        Err(o) => return o,
    };
    let kind = v.kind.as_str();
    let pattern = match compile_or_error(kind, pattern_text) {
        Ok(p) => p,
        Err(o) => return o,
    };
    let found = matching(&pattern, candidates);
    if found.len() == 0 {
        return CheckOutcome::fail(
            kind,
            phrase("No process matching '", pattern_text, "' is running.").as_str(),
            FailureCategory::ProcessNotRunning,
        );
    }
    let wanted = chars_of(needle);
    let mut any = false;
    let mut i: usize = 0;
    while i < found.len()
        invariant
            i <= found@.len(),
            wanted@ == needle@,
            any == exists|j: int| 0 <= j < i && contains(match_text_spec(#[trigger] found@[j]), needle@),
        decreases found.len() - i,
    {
        if contains_chars(&chars_of(found[i].match_text()), &wanted) {
            any = true;
        }
        i += 1;
    }
    if any {
        CheckOutcome::pass(kind, phrase("A matching process was started with '", needle, "'.").as_str())
    } else {
        let shown = describe(&found, 2);
        CheckOutcome::fail(
            kind,
            phrase("The process is running but was not started with '", needle, "'.").as_str(),
            FailureCategory::ProcessNotRunning,
        ).expected(needle).observed(shown.as_str())
    }
}

/// A signal handle with everything but ASCII letters, digits, `-` and `_` removed, so it can
/// only name a file directly under the signal log directory.
pub open spec fn safe_handle(h: Seq<char>) -> Seq<char>
    decreases h.len(),
{
    if h.len() == 0 {
        Seq::empty()
    } else {
        let rest = safe_handle(h.drop_last());
        let c = h.last();
        if crate::text::is_ascii_alphanumeric(c) || c == '-' || c == '_' {
            rest.push(c)
        } else {
            rest
        }
    }
}

fn sanitise_handle(h: &str) -> (r: String)
    ensures
        r@ == safe_handle(h@),
{
    let c = chars_of(h);
    let mut out: Vec<char> = Vec::new();
    let mut i: usize = 0;
    while i < c.len()
        invariant
            i <= c@.len(),
            c@ == h@,
            out@ == safe_handle(h@.take(i as int)),
        decreases c.len() - i,
    {
        assert(h@.take(i + 1).drop_last() =~= h@.take(i as int));
        let ch = c[i];
        let alnum = ('0' <= ch && ch <= '9') || ('a' <= ch && ch <= 'z') || ('A' <= ch && ch <= 'Z');
        if alnum || ch == '-' || ch == '_' {
            out.push(ch);
        }
        i += 1;
    }
    assert(h@.take(h@.len() as int) =~= h@);
    string_of(&out)
}

/// Where the lesson's signal wrapper logs the signals that the process under `handle`
/// received: `/run/linuxlab/signals/<handle>`, with the handle sanitised; an error outcome
/// when no usable handle is left.
pub fn signal_log_path(v: &Validator) -> (r: Result<String, CheckOutcome>)
    requires
        v.wf(),
    ensures
        match v.str_param_spec("handle"@) {
            None => r matches Err(o) && is_missing_outcome(o, v.kind@, "handle"@),
            Some(h) => if safe_handle(h).len() == 0 {
                r matches Err(o) && errs(o, v.kind@, "the handle parameter is empty after sanitising"@)
            } else {
                r matches Ok(p) && p@ == "/run/linuxlab/signals/"@ + safe_handle(h)
            },
        },
{
    let handle = match args::string(v, "handle") {
        Ok(h) => h,
        Err(o) => return Err(o),
    };
    let safe = sanitise_handle(handle);
    if safe.unicode_len() == 0 {
        return Err(CheckOutcome::error(v.kind.as_str(), "the handle parameter is empty after sanitising"));
    }
    Ok(cat2("/run/linuxlab/signals/", safe.as_str()))
}

/// The signals a log records: its lines, trimmed, without blank ones.
pub open spec fn signals_seen(ls: Seq<Seq<char>>) -> Seq<Seq<char>>
    decreases ls.len(),
{
    if ls.len() == 0 {
        Seq::empty()
    } else {
        let rest = signals_seen(ls.drop_last());
        let t = trim(ls.last());
        if t.len() > 0 {
            rest.push(t)
        } else {
            rest
        }
    }
}

/// `process_signal_received`: the process the lesson launched under `handle` received
/// `signal`. There is no asking a live process what it was sent, so the lesson runs it under
/// a wrapper that logs each signal; `log` is that log's text, or `None` when there is none
/// (`SIGKILL` cannot be trapped, so then the process was not stopped at all).
pub fn process_signal_received(v: &Validator, log: Option<&str>) -> (r: CheckOutcome)
    requires
        v.wf(),
    ensures
        match (v.str_param_spec("handle"@), v.str_param_spec("signal"@)) {
            (None, _) => is_missing_outcome(r, v.kind@, "handle"@),
            (Some(_), None) => is_missing_outcome(r, v.kind@, "signal"@),
            (Some(h), Some(sig)) => if safe_handle(h).len() == 0 {
                errs(r, v.kind@, "the handle parameter is empty after sanitising"@)
            } else {
                match super::network::opt_text(log) {
                    None => if sig == "SIGKILL"@ {
                        fails(
                            r,
                            v.kind@,
                            "The process was not stopped, or the lesson's signal wrapper is not running."@,
                            FailureCategory::ProcessNotRunning,
                            None,
                            None,
                        )
                    } else {
                        fails(
                            r,
                            v.kind@,
                            "No signal has been recorded for '"@ + safe_handle(h) + "' yet."@,
                            FailureCategory::ProcessNotRunning,
                            None,
                            None,
                        )
                    },
                    Some(text) => {
                        let seen = signals_seen(lines(text));
                        if seen.contains(sig) {
                            passes(r, v.kind@, "The process received "@ + sig + "."@)
                        } else {
                            fails(
                                r,
                                v.kind@,
                                "The process has not received "@ + sig + "."@,
                                FailureCategory::ProcessNotRunning,
                                Some(sig),
                                Some(
                                    if seen.len() == 0 {
                                        "no signals"@
                                    } else {
                                        join(seen, ", "@)
                                    },
                                ),
                            )
                        }
                    },
                }
            },
        },
{
    let handle = match args::string(v, "handle") {
        Ok(h) => h,
        Err(o) => return o,
    };
    let expected = match args::string(v, "signal") {
        Ok(s) => s,
        Err(o) => return o,
    };
    let kind = v.kind.as_str();
    let safe = sanitise_handle(handle);
    if safe.unicode_len() == 0 {
        return CheckOutcome::error(kind, "the handle parameter is empty after sanitising");
    }
    let text = match log {
        Some(t) => t,
        None => {
            let kill = crate::text::same_text(expected, "SIGKILL");
            proof {
                reveal_strlit("SIGKILL");
            }
            if kill {
                return CheckOutcome::fail(
                    kind,
                    "The process was not stopped, or the lesson's signal wrapper is not running.",
                    FailureCategory::ProcessNotRunning,
                );
            }
            return CheckOutcome::fail(
                kind,
                phrase("No signal has been recorded for '", safe.as_str(), "' yet.").as_str(),
                FailureCategory::ProcessNotRunning,
            );
        },
    };
    let raw = lines_of(text);
    let ghost rv = strings_view(raw@);
    let mut seen: Vec<String> = Vec::new();
    let mut i: usize = 0;
    while i < raw.len()
        invariant
            i <= raw@.len(),
            rv == strings_view(raw@),
            strings_view(seen@) == signals_seen(rv.take(i as int)),
        decreases raw.len() - i,
    {
        assert(rv.take(i + 1).drop_last() =~= rv.take(i as int));
        assert(rv.take(i + 1).last() == raw@[i as int]@);
        let t = trimmed(raw[i].as_str());
        let ghost before = strings_view(seen@);
        if t.unicode_len() > 0 {
            seen.push(t);
            assert(strings_view(seen@) =~= before.push(trim(raw@[i as int]@)));
        }
        i += 1;
    }
    assert(rv.take(raw@.len() as int) =~= rv);
    if crate::sys::contains_text(&seen, expected) {
        CheckOutcome::pass(kind, phrase("The process received ", expected, ".").as_str())
    } else {
        let shown = if seen.len() == 0 {
            owned("no signals")
        } else {
            join_strings(&seen, ", ")
        };
        CheckOutcome::fail(
            kind,
            phrase("The process has not received ", expected, ".").as_str(),
            FailureCategory::ProcessNotRunning,
        ).expected(expected).observed(shown.as_str())
    }
}

/// The processes of `ps` reparented to init (`nohup`, `disown`).
pub open spec fn detached_spec(ps: Seq<ProcessFacts>) -> Seq<ProcessFacts>
    decreases ps.len(),
{
    if ps.len() == 0 {
        Seq::empty()
    } else {
        let rest = detached_spec(ps.drop_last());
        if ps.last().ppid == 1 {
            rest.push(ps.last())
        } else {
            rest
        }
    }
}

/// A process is in the background when its group is not the terminal's foreground group.
pub open spec fn in_background(p: ProcessFacts) -> bool {
    p.tpgid < 0 || (p.pgrp as i32) != p.tpgid
}

/// `background_job_running`: a process of the learner `user` matching `pattern` runs in the
/// background (not in the terminal's foreground group) or, with `detached`, independently of
/// the learner's shell (reparented to init).
pub fn background_job_running(
    v: &Validator,
    user: &str,
    candidates: &Vec<ProcessFacts>,
    passwd: &Vec<PasswdEntry>,
) -> (r: CheckOutcome)
    requires
        v.wf(),
    ensures
        match v.str_param_spec("pattern"@) {
            None => is_missing_outcome(r, v.kind@, "pattern"@),
            Some(pat) => if !regex_compiles(pat, false, false) {
                errs_with_prefix(r, v.kind@, bad_pattern(pat))
            } else {
                match account_named(passwd@, user@) {
                    None => errs(r, v.kind@, "there is no user called "@ + user@),
                    Some(e) => {
                        let found = run_by(found_spec(pat, candidates@), e.uid);
                        if found.len() == 0 {
                            fails(
                                r,
                                v.kind@,
                                "Nothing matching '"@ + pat + "' is running."@,
                                FailureCategory::ProcessNotRunning,
                                None,
                                None,
                            )
                        } else if v.bool_param_spec("detached"@) == Some(true) {
                            if detached_spec(found).len() == 0 {
                                fails(
                                    r,
                                    v.kind@,
                                    "The job is running but is still attached to your shell, so it would stop when you log out."@,
                                    FailureCategory::ProcessNotRunning,
                                    Some("a process reparented to init"@),
                                    Some(describe_spec(found, 2)),
                                )
                            } else {
                                passes(r, v.kind@, "The job is running independently of your shell."@)
                            }
                        } else if exists|i: int| 0 <= i < found.len() && in_background(#[trigger] found[i]) {
                            passes(r, v.kind@, "The job is running in the background."@)
                        } else {
                            fails(
                                r,
                                v.kind@,
                                "The command is running in the foreground. Suspend it with Ctrl+Z and resume it with bg, or start it with a trailing &."@,
                                FailureCategory::ProcessNotRunning,
                                None,
                                Some(describe_spec(found, 2)),
                            )
                        }
                    },
                }
            },
        },
{
    let pattern_text = match args::string(v, "pattern") {
        Ok(p) => p,
        Err(o) => return o,
    };
    let kind = v.kind.as_str();
    let pattern = match compile_or_error(kind, pattern_text) {
        Ok(p) => p,
        Err(o) => return o,
    };
    let uid = match find_account(passwd, user) {
        Some(i) => passwd[i].uid,
        None => return CheckOutcome::error(kind, cat2("there is no user called ", user).as_str()),
    };
    let all = matching(&pattern, candidates);
    let found = keep_uid(&all, uid);
    if found.len() == 0 {
        return CheckOutcome::fail(
            kind,
            phrase("Nothing matching '", pattern_text, "' is running.").as_str(),
            FailureCategory::ProcessNotRunning,
        );
    }
    if args::flag(v, "detached") {
        let mut any_detached = false;
        let mut i: usize = 0;
        while i < found.len()
            invariant
                i <= found@.len(),
                any_detached == (detached_spec(found@.take(i as int)).len() > 0),
            decreases found.len() - i,
        {
            assert(found@.take(i + 1).drop_last() =~= found@.take(i as int));
            assert(found@.take(i + 1).last() == found@[i as int]);
            if found[i].ppid == 1 {
                any_detached = true;
            }
            i += 1;
        }
        assert(found@.take(found@.len() as int) =~= found@);
        if !any_detached {
            let shown = describe(&found, 2);
            return CheckOutcome::fail(
                kind,
                "The job is running but is still attached to your shell, so it would stop when you log out.",
                FailureCategory::ProcessNotRunning,
            ).expected("a process reparented to init").observed(shown.as_str());
        }
        return CheckOutcome::pass(kind, "The job is running independently of your shell.");
    }
    let mut any_background = false;
    let mut j: usize = 0;
    while j < found.len()
        invariant
            j <= found@.len(),
            any_background == exists|k: int| 0 <= k < j && in_background(#[trigger] found@[k]),
        decreases found.len() - j,
    {
        let p = &found[j];
        if p.tpgid < 0 || (p.pgrp as i32) != p.tpgid {
            any_background = true;
        }
        j += 1;
    }
    if any_background {
        CheckOutcome::pass(kind, "The job is running in the background.")
    } else {
        let shown = describe(&found, 2);
        CheckOutcome::fail(
            kind,
            "The command is running in the foreground. Suspend it with Ctrl+Z and resume it with bg, or start it with a trailing &.",
            FailureCategory::ProcessNotRunning,
        ).observed(shown.as_str())
    }
}

proof fn lemma_outside_tree(all: Seq<ProcessFacts>, tree: Seq<u32>)
    ensures
        forall|i: int| 0 <= i < outside_tree(all, tree).len() ==> !tree.contains(#[trigger] outside_tree(all, tree)[i].pid),
    decreases all.len(),
{
    if all.len() > 0 {
        lemma_outside_tree(all.drop_last(), tree);
        let rest = outside_tree(all.drop_last(), tree);
        let o = outside_tree(all, tree);
        assert forall|i: int| 0 <= i < o.len() implies !tree.contains(#[trigger] o[i].pid) by {
            if i < rest.len() {
                assert(o[i] == rest[i]);
            }
        }
    }
}

proof fn lemma_own_tree_keeps(all: Seq<ProcessFacts>, tree: Seq<u32>, rounds: nat, pid: u32)
    requires
        tree.contains(pid),
    ensures
        own_tree(all, tree, rounds).contains(pid),
    decreases rounds,
{
    if rounds > 0 {
        let c = children_in(all, tree);
        if c.len() > 0 {
            let k = choose|k: int| 0 <= k < tree.len() && tree[k] == pid;
            assert((tree + c)[k] == pid);
            lemma_own_tree_keeps(all, tree + c, (rounds - 1) as nat, pid);
        }
    }
}

/// The agent never matches its own process tree: no process the validators may match is
/// the agent itself, or one of the descendants it grew to exclude.
pub proof fn lemma_agent_is_never_a_candidate(all: Seq<ProcessFacts>, agent: u32)
    ensures
        forall|i: int| 0 <= i < candidates_spec(all, agent).len() ==> {
            let p = #[trigger] candidates_spec(all, agent)[i];
            &&& p.pid != agent
            &&& !own_tree(all, seq![agent], 4).contains(p.pid)
        },
{
    let tree = own_tree(all, seq![agent], 4);
    assert(seq![agent][0] == agent);
    lemma_own_tree_keeps(all, seq![agent], 4, agent);
    lemma_outside_tree(all, tree);
}

/// A signal log always lies directly in the signal log directory: the sanitised handle is
/// made only of ASCII letters, digits, `-` and `_`, so it holds no `/` and cannot be `..`.
pub proof fn lemma_signal_log_stays_in_its_directory(handle: Seq<char>)
    ensures
        forall|i: int| 0 <= i < safe_handle(handle).len() ==> {
            let c = #[trigger] safe_handle(handle)[i];
            crate::text::is_ascii_alphanumeric(c) || c == '-' || c == '_'
        },
    decreases handle.len(),
{
    if handle.len() > 0 {
        lemma_signal_log_stays_in_its_directory(handle.drop_last());
        let before = safe_handle(handle.drop_last());
        let k = safe_handle(handle);
        assert forall|i: int| 0 <= i < k.len() implies ({
            let c = #[trigger] k[i];
            crate::text::is_ascii_alphanumeric(c) || c == '-' || c == '_'
        }) by {
            if i < before.len() {
                assert(k[i] == before[i]);
            }
        }
    }
}

} // verus!
