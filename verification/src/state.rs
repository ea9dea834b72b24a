//! The desktop's per-session learning state: the attempts at each task, and whether the
//! virtual machine can take commands.
use crate::hints::{AttemptState, HintOutcome};
use crate::lesson::Task;
use crate::text::{owned, phrase, same_text, starts_with};
use crate::validation::FailureCategory;
use crate::vm::VmState;
use vstd::prelude::*;

verus! {

/// The key an attempt is filed under.
pub open spec fn attempt_key_spec(lesson_id: Seq<char>, task_id: Seq<char>) -> Seq<char> {
    lesson_id + "/"@ + task_id
}

/// The key an attempt is filed under: the lesson id, a slash, and the task id.
pub fn attempt_key(lesson_id: &str, task_id: &str) -> (r: String)
    ensures
        r@ == attempt_key_spec(lesson_id@, task_id@),
{
    phrase(lesson_id, "/", task_id)
}

/// Why commands cannot be sent to the guest in this state; nothing when it is ready.
pub open spec fn not_ready_text(state: VmState) -> Option<Seq<char>> {
    match state {
        VmState::Ready => None,
        VmState::Stopped => Some("Linux is not running yet."@),
        VmState::Starting | VmState::BootingGuest => Some("Linux is still starting."@),
        VmState::Paused => Some("Linux is paused. Resume it to carry on."@),
        VmState::Stopping => Some("Linux is shutting down."@),
        VmState::Unbootable => Some(
            "The Linux practice environment is no longer bootable. Restore a snapshot or create a fresh environment."@,
        ),
        VmState::Failed => Some("Linux could not be started. See the Environment panel for details."@),
    }
}

/// What the learner is told when a command needs a running guest and there is none.
pub fn not_ready_message(state: VmState) -> (r: Option<&'static str>)
    ensures
        match not_ready_text(state) {
            Some(t) => r matches Some(m) && m@ == t,
            None => r is None,
        },
{
    match state {
        VmState::Ready => None,
        VmState::Stopped => Some("Linux is not running yet."),
        VmState::Starting | VmState::BootingGuest => Some("Linux is still starting."),
        VmState::Paused => Some("Linux is paused. Resume it to carry on."),
        VmState::Stopping => Some("Linux is shutting down."),
        VmState::Unbootable => Some(
            "The Linux practice environment is no longer bootable. Restore a snapshot or create a fresh environment.",
        ),
        VmState::Failed => Some("Linux could not be started. See the Environment panel for details."),
    }
}

/// The attempt a task starts from when it has none yet.
pub open spec fn fresh_attempt(a: AttemptState, lesson_id: Seq<char>, task_id: Seq<char>) -> bool {
    &&& a.lesson_id@ == lesson_id
    &&& a.task_id@ == task_id
    &&& a.hints_revealed == 0
    &&& !a.solution_revealed
    &&& a.failed_checks == 0
    &&& a.failure_categories@.len() == 0
    &&& !a.passed
}

/// The attempts, keyed by [`attempt_key`]; a later entry for a key replaces an earlier one.
pub open spec fn attempts_map(es: Seq<(String, AttemptState)>) -> Map<Seq<char>, AttemptState>
    decreases es.len(),
{
    if es.len() == 0 {
        Map::empty()
    } else {
        attempts_map(es.drop_last()).insert(es.last().0@, es.last().1)
    }
}

/// Where an update to the task's attempt starts from: the recorded attempt, or a fresh one.
pub open spec fn starting_point(
    book: Map<Seq<char>, AttemptState>,
    lesson_id: Seq<char>,
    task_id: Seq<char>,
    a: AttemptState,
) -> bool {
    let key = attempt_key_spec(lesson_id, task_id);
    if book.contains_key(key) {
        a == book[key]
    } else {
        fresh_attempt(a, lesson_id, task_id)
    }
}

/// The keys are pairwise distinct.
pub open spec fn distinct_keys(es: Seq<(String, AttemptState)>) -> bool {
    forall|i: int, j: int| 0 <= i < es.len() && 0 <= j < es.len() && i != j ==> es[i].0@ != es[j].0@
}

proof fn lemma_absent(es: Seq<(String, AttemptState)>, key: Seq<char>)
    ensures
        attempts_map(es).contains_key(key) <==> exists|j: int| 0 <= j < es.len() && (#[trigger] es[j]).0@ == key,
    decreases es.len(),
{
    if es.len() > 0 {
        let rest = es.drop_last();
        lemma_absent(rest, key);
        if exists|j: int| 0 <= j < rest.len() && (#[trigger] rest[j]).0@ == key {
            let j = choose|j: int| 0 <= j < rest.len() && (#[trigger] rest[j]).0@ == key;
            assert(es[j] == rest[j]);
        }
        if exists|j: int| 0 <= j < es.len() && (#[trigger] es[j]).0@ == key {
            let j = choose|j: int| 0 <= j < es.len() && (#[trigger] es[j]).0@ == key;
            if j < es.len() - 1 {
                assert(rest[j] == es[j]);
            }
        }
    }
}

proof fn lemma_map_of_distinct(es: Seq<(String, AttemptState)>)
    requires
        distinct_keys(es),
    ensures
        forall|i: int| 0 <= i < es.len() ==> #[trigger] attempts_map(es).contains_key(es[i].0@) && attempts_map(es)[es[i].0@] == es[i].1,
    decreases es.len(),
{
    if es.len() > 0 {
        let rest = es.drop_last();
        assert(distinct_keys(rest)) by {
            assert forall|i: int, j: int| 0 <= i < rest.len() && 0 <= j < rest.len() && i != j implies rest[i].0@ != rest[j].0@ by {
                assert(rest[i] == es[i] && rest[j] == es[j]);
            }
        }
        lemma_map_of_distinct(rest);
        assert forall|i: int| 0 <= i < es.len() implies #[trigger] attempts_map(es).contains_key(es[i].0@) && attempts_map(es)[es[i].0@] == es[i].1 by {
            if i < es.len() - 1 {
                assert(rest[i] == es[i]);
                assert(attempts_map(rest).contains_key(rest[i].0@));
                assert(es[i].0@ != es.last().0@);
            }
        }
    }
}

proof fn lemma_remove_distinct(es: Seq<(String, AttemptState)>, i: int)
    requires
        distinct_keys(es),
        0 <= i < es.len(),
    ensures
        distinct_keys(es.remove(i)),
        attempts_map(es.remove(i)) == attempts_map(es).remove(es[i].0@),
    decreases es.len(),
{
    let n = es.remove(i);
    assert forall|x: int, y: int| 0 <= x < n.len() && 0 <= y < n.len() && x != y implies n[x].0@ != n[y].0@ by {
        let xo = if x < i { x } else { x + 1 };
        let yo = if y < i { y } else { y + 1 };
        assert(n[x] == es[xo] && n[y] == es[yo]);
    }
    let rest = es.drop_last();
    assert(distinct_keys(rest)) by {
        assert forall|a: int, b: int| 0 <= a < rest.len() && 0 <= b < rest.len() && a != b implies rest[a].0@ != rest[b].0@ by {
            assert(rest[a] == es[a] && rest[b] == es[b]);
        }
    }
    if i == es.len() - 1 {
        assert(n =~= rest);
        lemma_absent(rest, es[i].0@);
        assert(!attempts_map(rest).contains_key(es[i].0@)) by {
            if attempts_map(rest).contains_key(es[i].0@) {
                let j = choose|j: int| 0 <= j < rest.len() && (#[trigger] rest[j]).0@ == es[i].0@;
                assert(rest[j] == es[j]);
            }
        }
        assert(attempts_map(es).remove(es[i].0@) =~= attempts_map(rest));
    } else {
        lemma_remove_distinct(rest, i);
        assert(n =~= rest.remove(i).push(es.last()));
        assert(n.drop_last() =~= rest.remove(i));
        assert(rest[i] == es[i]);
        assert(es.last().0@ != es[i].0@);
        assert(attempts_map(n) =~= attempts_map(es).remove(es[i].0@));
    }
}

/// The attempt is a copy of one filed under the lesson.
pub open spec fn filed_under(book: Map<Seq<char>, AttemptState>, lesson_id: Seq<char>, a: AttemptState) -> bool {
    exists|k: Seq<char>| #[trigger] book.contains_key(k) && starts_with(k, lesson_id + "/"@) && book[k].same_as(a)
}

/// The attempts of the current session, one per task.
#[derive(Debug)]
pub struct AttemptBook {
    entries: Vec<(String, AttemptState)>,
}

impl View for AttemptBook {
    type V = Map<Seq<char>, AttemptState>;

    closed spec fn view(&self) -> Map<Seq<char>, AttemptState> {
        attempts_map(self.entries@)
    }
}

impl AttemptBook {
    /// No key is filed twice.
    pub closed spec fn wf(self) -> bool {
        distinct_keys(self.entries@)
    }

    pub fn new() -> (r: AttemptBook)
        ensures
            r.wf(),
            r@ == Map::<Seq<char>, AttemptState>::empty(),
    {
        AttemptBook { entries: Vec::new() }
    }

    /// Takes the task's attempt out of the book, or a fresh one; the caller puts it back.
    fn take(&mut self, lesson_id: &str, task_id: &str) -> (r: (String, AttemptState))
        requires
            old(self).wf(),
        ensures
            final(self).wf(),
            r.0@ == attempt_key_spec(lesson_id@, task_id@),
            starting_point(old(self)@, lesson_id@, task_id@, r.1),
            !final(self)@.contains_key(r.0@),
            final(self)@ == old(self)@.remove(r.0@),
    {
        let key = attempt_key(lesson_id, task_id);
        let ghost es = self.entries@;
        proof {
            lemma_map_of_distinct(es);
        }
        let mut i: usize = 0;
        while i < self.entries.len()
            invariant
                i <= es.len(),
                es == self.entries@,
                es == old(self).entries@,
                key@ == attempt_key_spec(lesson_id@, task_id@),
                distinct_keys(es),
                forall|j: int| 0 <= j < i ==> (#[trigger] es[j]).0@ != key@,
            decreases self.entries.len() - i,
        {
            if same_text(self.entries[i].0.as_str(), key.as_str()) {
                let e = self.entries.remove(i);
                assert(e == es[i as int]);
                let (k, a) = e;
                proof {
                    lemma_remove_distinct(es, i as int);
                    assert(self.entries@ =~= es.remove(i as int));
                    lemma_map_of_distinct(es);
                }
                return (k, a);
            }
            i += 1;
        }
        proof {
            lemma_absent(es, key@);
            assert(attempts_map(es).remove(key@) =~= attempts_map(es));
        }
        (key, AttemptState::new(lesson_id, task_id))
    }

    /// Files the attempt under its key, which the book does not hold.
    fn put(&mut self, key: String, a: AttemptState)
        requires
            old(self).wf(),
            !old(self)@.contains_key(key@),
        ensures
            final(self).wf(),
            final(self)@ == old(self)@.insert(key@, a),
    {
        let ghost es = self.entries@;
        proof {
            lemma_absent(es, key@);
        }
        let ghost kv = key@;
        self.entries.push((key, a));
        proof {
            let n = self.entries@;
            assert(n.drop_last() =~= es);
            assert forall|x: int, y: int| 0 <= x < n.len() && 0 <= y < n.len() && x != y implies n[x].0@ != n[y].0@ by {
                if x < es.len() && y < es.len() {
                    assert(n[x] == es[x] && n[y] == es[y]);
                } else if x < es.len() {
                    assert(n[x] == es[x]);
                } else {
                    assert(n[y] == es[y]);
                }
            }
        }
    }

    /// Counts a pass for the task.
    pub fn record_pass(&mut self, lesson_id: &str, task_id: &str)
        requires
            old(self).wf(),
        ensures
            final(self).wf(),
            exists|b: AttemptState|
                starting_point(old(self)@, lesson_id@, task_id@, b) && #[trigger] final(self)@ == old(self)@.insert(
                    attempt_key_spec(lesson_id@, task_id@),
                    AttemptState { passed: true, ..b },
                ),
    {
        let (key, mut a) = self.take(lesson_id, task_id);
        let ghost b = a;
        a.record_pass();
        self.put(key, a);
        assert(old(self)@.remove(key@).insert(key@, a) =~= old(self)@.insert(key@, a));
    }

    /// Counts a failed check for the task, remembering its category once.
    pub fn record_failure(&mut self, lesson_id: &str, task_id: &str, category: Option<FailureCategory>)
        requires
            old(self).wf(),
            forall|k: Seq<char>| old(self)@.contains_key(k) ==> #[trigger] old(self)@[k].failed_checks < u32::MAX,
        ensures
            final(self).wf(),
            exists|b: AttemptState, a: AttemptState|
                starting_point(old(self)@, lesson_id@, task_id@, b) && #[trigger] final(self)@ == old(self)@.insert(
                    attempt_key_spec(lesson_id@, task_id@),
                    a,
                ) && a.failed_checks == b.failed_checks + 1 && a.lesson_id == b.lesson_id && a.task_id
                    == b.task_id && a.hints_revealed == b.hints_revealed && a.solution_revealed
                    == b.solution_revealed && a.passed == b.passed && match category {
                    Some(c) => if b.failure_categories@.contains(c) {
                        a.failure_categories@ == b.failure_categories@
                    } else {
                        a.failure_categories@ == b.failure_categories@.push(c)
                    },
                    None => a.failure_categories@ == b.failure_categories@,
                },
    {
        let (key, mut a) = self.take(lesson_id, task_id);
        let ghost b = a;
        a.record_failure(category);
        self.put(key, a);
        assert(old(self)@.remove(key@).insert(key@, a) =~= old(self)@.insert(key@, a));
    }

    /// Reveals the task's next hint, if the lesson allows hints.
    pub fn reveal_next_hint(&mut self, lesson_id: &str, task_id: &str, task: &Task, hints_allowed: bool) -> (r: HintOutcome)
        requires
            old(self).wf(),
        ensures
            final(self).wf(),
            exists|b: AttemptState, a: AttemptState|
                starting_point(old(self)@, lesson_id@, task_id@, b) && #[trigger] final(self)@ == old(self)@.insert(
                    attempt_key_spec(lesson_id@, task_id@),
                    a,
                ) && (if hints_allowed && b.hints_revealed < task.hints@.len() {
                    a == AttemptState { hints_revealed: (b.hints_revealed + 1) as usize, ..b }
                    && (r matches HintOutcome::Hint(h) && h.index == b.hints_revealed)
                } else {
                    a == b && !(r is Hint)
                }),
    {
        let (key, mut a) = self.take(lesson_id, task_id);
        let ghost b = a;
        let r = a.reveal_next_hint(task, hints_allowed);
        self.put(key, a);
        assert(old(self)@.remove(key@).insert(key@, a) =~= old(self)@.insert(key@, a));
        r
    }

    /// Marks the task's worked solution as shown, unless the lesson is an assessment.
    pub fn reveal_solution(&mut self, lesson_id: &str, task_id: &str, hints_allowed: bool) -> (r: Option<&'static str>)
        requires
            old(self).wf(),
        ensures
            final(self).wf(),
            exists|b: AttemptState|
                starting_point(old(self)@, lesson_id@, task_id@, b) && #[trigger] final(self)@ == old(self)@.insert(
                    attempt_key_spec(lesson_id@, task_id@),
                    if hints_allowed {
                        AttemptState { solution_revealed: true, ..b }
                    } else {
                        b
                    },
                ),
            hints_allowed <==> r is None,
    {
        let (key, mut a) = self.take(lesson_id, task_id);
        let ghost b = a;
        let r = a.reveal_solution(hints_allowed);
        self.put(key, a);
        assert(old(self)@.remove(key@).insert(key@, a) =~= old(self)@.insert(key@, a));
        r
    }

    /// Copies of the attempts filed under the lesson: each such attempt once.
    pub fn lesson_attempts(&self, lesson_id: &str) -> (r: Vec<AttemptState>)
        requires
            self.wf(),
        ensures
            forall|i: int| 0 <= i < r@.len() ==> filed_under(self@, lesson_id@, #[trigger] r@[i]),
            forall|k: Seq<char>|
                #[trigger] self@.contains_key(k) && starts_with(k, lesson_id@ + "/"@) ==> exists|i: int| 0 <= i < r@.len() && self@[k].same_as(r@[i]),
    {
        let prefix = phrase(lesson_id, "/", "");
        proof {
            reveal_strlit("");
        }
        let ghost es = self.entries@;
        proof {
            lemma_map_of_distinct(es);
        }
        let mut out: Vec<AttemptState> = Vec::new();
        let ghost mut ks: Seq<Seq<char>> = Seq::empty();
        let mut n: usize = 0;
        while n < self.entries.len()
            invariant
                n <= es.len(),
                es == self.entries@,
                distinct_keys(es),
                prefix@ == lesson_id@ + "/"@,
                ks.len() == out@.len(),
                forall|i: int| 0 <= i < ks.len() ==> #[trigger] attempts_map(es).contains_key(ks[i]) && starts_with(ks[i], prefix@) && attempts_map(es)[ks[i]].same_as(out@[i]),
                forall|j: int| 0 <= j < n && starts_with(#[trigger] es[j].0@, prefix@) ==> exists|i: int| 0 <= i < out@.len() && es[j].1.same_as(out@[i]),
            decreases self.entries.len() - n,
        {
            if crate::text::starts_with_text(self.entries[n].0.as_str(), prefix.as_str()) {
                let copy = self.entries[n].1.duplicate();
                let ghost before = out@;
                out.push(copy);
                proof {
                    lemma_map_of_distinct(es);
                    let kn = es[n as int].0@;
                    assert(attempts_map(es).contains_key(es[n as int].0@));
                    ks = ks.push(kn);
                    assert forall|i: int| 0 <= i < ks.len() implies #[trigger] attempts_map(es).contains_key(ks[i]) && starts_with(ks[i], prefix@) && attempts_map(es)[ks[i]].same_as(out@[i]) by {
                        if i < before.len() {
                            assert(out@[i] == before[i]);
                        }
                    }
                    assert forall|j: int| 0 <= j < n + 1 && starts_with(#[trigger] es[j].0@, prefix@) implies exists|i: int| 0 <= i < out@.len() && es[j].1.same_as(out@[i]) by {
                        if j < n {
                            let i = choose|i: int| 0 <= i < before.len() && es[j].1.same_as(before[i]);
                            assert(out@[i] == before[i]);
                        } else {
                            assert(es[j].1.same_as(out@[before.len() as int]));
                        }
                    }
                }
            }
            n += 1;
        }
        proof {
            lemma_map_of_distinct(es);
            assert(self@ == attempts_map(es));
            assert forall|i: int| 0 <= i < out@.len() implies filed_under(self@, lesson_id@, #[trigger] out@[i]) by {
                assert(self@.contains_key(ks[i]));
            }
            assert forall|k: Seq<char>| #[trigger] attempts_map(es).contains_key(k) && starts_with(k, prefix@) implies exists|i: int| 0 <= i < out@.len() && attempts_map(es)[k].same_as(out@[i]) by {
                lemma_absent(es, k);
                let j = choose|j: int| 0 <= j < es.len() && (#[trigger] es[j]).0@ == k;
                assert(starts_with(es[j].0@, prefix@));
                assert(attempts_map(es)[es[j].0@] == es[j].1);
            }
        }
        out
    }
}


/// Keeping only the entries whose key passes keeps exactly those keys' attempts.
proof fn lemma_filter_restrict(es: Seq<(String, AttemptState)>, prefix: Seq<char>)
    ensures
        attempts_map(es.filter(|e: (String, AttemptState)| !starts_with(e.0@, prefix)))
            == attempts_map(es).restrict(Set::new(|k: Seq<char>| !starts_with(k, prefix))),
        distinct_keys(es) ==> distinct_keys(es.filter(|e: (String, AttemptState)| !starts_with(e.0@, prefix))),
    decreases es.len(),
{
    let f = |e: (String, AttemptState)| !starts_with(e.0@, prefix);
    let keep = Set::new(|k: Seq<char>| !starts_with(k, prefix));
    reveal(Seq::filter);
    if es.len() == 0 {
        assert(es.filter(f) =~= Seq::<(String, AttemptState)>::empty());
        assert(attempts_map(es).restrict(keep) =~= Map::<Seq<char>, AttemptState>::empty());
    } else {
        let rest = es.drop_last();
        lemma_filter_restrict(rest, prefix);
        assert(es.filter(f) == if f(es.last()) { rest.filter(f).push(es.last()) } else { rest.filter(f) });
        if f(es.last()) {
            assert(es.filter(f).drop_last() =~= rest.filter(f));
        }
        assert(attempts_map(es.filter(f)) =~= attempts_map(es).restrict(keep));
        if distinct_keys(es) {
            assert(distinct_keys(rest)) by {
                assert forall|a: int, b: int| 0 <= a < rest.len() && 0 <= b < rest.len() && a != b implies rest[a].0@ != rest[b].0@ by {
                    assert(rest[a] == es[a] && rest[b] == es[b]);
                }
            }
            let fr = kept_entries(rest, prefix);
            let fe = kept_entries(es, prefix);
            assert(fr == rest.filter(f));
            assert(fe == es.filter(f));
            if f(es.last()) {
                lemma_filter_subset(rest, prefix);
                assert forall|a: int, b: int| 0 <= a < fe.len() && 0 <= b < fe.len() && a != b implies fe[a].0@ != fe[b].0@ by {
                    if a < fr.len() && b < fr.len() {
                        assert(fe[a] == fr[a] && fe[b] == fr[b]);
                    } else if a < fr.len() {
                        assert(fe[a] == fr[a]);
                        let ia = choose|i: int| 0 <= i < rest.len() && rest[i] == fr[a];
                        assert(rest[ia] == es[ia]);
                    } else {
                        assert(fe[b] == fr[b]);
                        let ib = choose|i: int| 0 <= i < rest.len() && rest[i] == fr[b];
                        assert(rest[ib] == es[ib]);
                    }
                }
            }
        }
    }
}

/// The entries whose key does not start with `prefix`.
pub open spec fn kept_entries(es: Seq<(String, AttemptState)>, prefix: Seq<char>) -> Seq<(String, AttemptState)> {
    es.filter(|e: (String, AttemptState)| !starts_with(e.0@, prefix))
}

/// Every entry that survives filtering was an entry before.
proof fn lemma_filter_subset(es: Seq<(String, AttemptState)>, prefix: Seq<char>)
    ensures
        forall|a: int| 0 <= a < kept_entries(es, prefix).len() ==> exists|i: int|
            0 <= i < es.len() && es[i] == #[trigger] kept_entries(es, prefix)[a],
    decreases es.len(),
{
    let f = |e: (String, AttemptState)| !starts_with(e.0@, prefix);
    reveal(Seq::filter);
    if es.len() > 0 {
        let rest = es.drop_last();
        lemma_filter_subset(rest, prefix);
        let fr = kept_entries(rest, prefix);
        let fe = kept_entries(es, prefix);
        assert(fr == rest.filter(f));
        assert(fe == es.filter(f));
        assert forall|a: int| 0 <= a < fe.len() implies exists|i: int| 0 <= i < es.len() && es[i] == #[trigger] fe[a] by {
            if a < fr.len() {
                assert(fe[a] == fr[a]);
                let i = choose|i: int| 0 <= i < rest.len() && rest[i] == fr[a];
                assert(es[i] == rest[i]);
            } else {
                assert(fe[a] == es.last());
                assert(es[es.len() - 1] == es.last());
            }
        }
    }
}

impl AttemptBook {
    /// Forgets every attempt filed under the lesson.
    pub fn clear_lesson(&mut self, lesson_id: &str)
        requires
            old(self).wf(),
        ensures
            final(self).wf(),
            final(self)@ == old(self)@.restrict(Set::new(|k: Seq<char>| !starts_with(k, lesson_id@ + "/"@))),
    {
        let prefix = phrase(lesson_id, "/", "");
        proof {
            reveal_strlit("");
        }
        let ghost es = self.entries@;
        let ghost f = |e: (String, AttemptState)| !starts_with(e.0@, prefix@);
        let mut kept: Vec<(String, AttemptState)> = Vec::new();
        let mut rest: Vec<(String, AttemptState)> = Vec::new();
        std::mem::swap(&mut rest, &mut self.entries);
        let ghost mut done: int = 0;
        assert(es.take(0) =~= Seq::<(String, AttemptState)>::empty());
        assert(es.skip(0) =~= es);
        while rest.len() > 0
            invariant
                0 <= done <= es.len(),
                rest@ == es.skip(done),
                prefix@ == lesson_id@ + "/"@,
                f == (|e: (String, AttemptState)| !starts_with(e.0@, prefix@)),
                kept@ == es.take(done).filter(f),
            decreases rest.len(),
        {
            let e = rest.remove(0);
            assert(e == es[done]);
            assert(es.take(done + 1).drop_last() =~= es.take(done));
            reveal(Seq::filter);
            if !crate::text::starts_with_text(e.0.as_str(), prefix.as_str()) {
                kept.push(e);
            }
            proof {
                done = done + 1;
                assert(rest@ =~= es.skip(done));
            }
        }
        assert(es.take(es.len() as int) =~= es);
        self.entries = kept;
        proof {
            lemma_filter_restrict(es, prefix@);
        }
    }
}

} // verus!
