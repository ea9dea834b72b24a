//! What the progress store decides: how settings and statuses are written down and read
//! back, and that a lesson's recorded mastery never goes down. The database itself is the
//! application's.
use crate::progress::{LessonProgress, LessonStatus, MasteryStatus};
use crate::text::{append, chars_from, chars_of, decimal, decimal_string, owned, parse_u32, parse_unsigned, same_text, starts_with, starts_with_chars, string_of};
use crate::validation::FailureCategory;
use vstd::prelude::*;

verus! {

/// How long typed commands are kept.
#[derive(Debug, Clone, Copy, PartialEq, Eq, Structural)]
pub enum HistoryRetention {
    DoNotSave,
    LastSession,
    Days(u32),
    Forever,
}

pub open spec fn retention_setting(r: HistoryRetention) -> Seq<char> {
    match r {
        HistoryRetention::DoNotSave => "none"@,
        HistoryRetention::LastSession => "session"@,
        HistoryRetention::Days(d) => "days:"@ + decimal(d as nat),
        HistoryRetention::Forever => "forever"@,
    }
}

/// A stored setting read back: `session`, `forever`, or `days:` and a number; anything
/// else (unknown or absent) is the privacy-preserving default, not saving.
pub open spec fn parse_retention_spec(value: Seq<char>) -> HistoryRetention {
    if value == "session"@ {
        HistoryRetention::LastSession
    } else if value == "forever"@ {
        HistoryRetention::Forever
    } else if starts_with(value, "days:"@) && parse_unsigned(
        value.skip(5),
        10,
        u32::MAX as nat,
    ) is Some {
        HistoryRetention::Days(parse_unsigned(value.skip(5), 10, u32::MAX as nat)->0 as u32)
    } else {
        HistoryRetention::DoNotSave
    }
}

impl HistoryRetention {
    pub fn as_setting(self) -> (r: String)
        ensures
            r@ == retention_setting(self),
    {
        match self {
            HistoryRetention::DoNotSave => owned("none"),
            HistoryRetention::LastSession => owned("session"),
            HistoryRetention::Days(d) => {
                let mut r = owned("days:");
                append(&mut r, decimal_string(d as u64).as_str());
                r
            },
            HistoryRetention::Forever => owned("forever"),
        }
    }

    pub fn parse(value: &str) -> (r: HistoryRetention)
        ensures
            r == parse_retention_spec(value@),
    {
        proof {
            reveal_strlit("days:");
        }
        if same_text(value, "session") {
            return HistoryRetention::LastSession;
        }
        if same_text(value, "forever") {
            return HistoryRetention::Forever;
        }
        let chars = chars_of(value);
        let prefix = chars_of("days:");
        if starts_with_chars(&chars, &prefix) {
            let rest = string_of(&chars_from(&chars, 5));
            if let Some(d) = parse_u32(rest.as_str()) {
                return HistoryRetention::Days(d);
            }
        }
        HistoryRetention::DoNotSave
    }
}

proof fn lemma_digit_char(k: nat)
    requires
        k < 10,
    ensures
        crate::text::digit_value(crate::text::digit_char(k), 10) == Some(k),
        crate::text::digit_char(k) != '+',
{
    assert(crate::text::digit_char(k) as int == '0' as int + k);
}

proof fn lemma_decimal_parses(n: nat)
    ensures
        crate::text::all_digits(decimal(n), 10),
        crate::text::digits_value(decimal(n), 10) == n,
        decimal(n).len() > 0,
        decimal(n)[0] != '+',
    decreases n,
{
    lemma_digit_char(n % 10);
    if n < 10 {
        assert(n % 10 == n);
        assert(decimal(n).drop_last() =~= Seq::<char>::empty());
        assert(decimal(n).last() == crate::text::digit_char(n));
        assert(crate::text::digits_value(decimal(n).drop_last(), 10) == 0);
        assert(crate::text::digits_value(decimal(n), 10) == n);
    }
    if n >= 10 {
        lemma_decimal_parses(n / 10);
        let d = decimal(n);
        let before = decimal(n / 10);
        assert(d.drop_last() =~= before);
        assert(d.last() == crate::text::digit_char(n % 10));
        assert(crate::text::digits_value(d, 10) == crate::text::digits_value(before, 10) * 10 + n % 10);
        assert(n == (n / 10) * 10 + n % 10);
        assert(crate::text::digits_value(before, 10) == n / 10);
        assert(crate::text::digits_value(d, 10) == n);
        assert forall|i: int| 0 <= i < d.len() implies (#[trigger] crate::text::digit_value(d[i], 10)) is Some by {
            if i < d.len() - 1 {
                assert(d[i] == before[i]);
            }
        }
        assert(d[0] == before[0]);
    }
}

/// Writing a retention setting and reading it back gives the same retention.
pub proof fn lemma_retention_roundtrip(r: HistoryRetention)
    ensures
        parse_retention_spec(retention_setting(r)) == r,
{
    reveal_strlit("none");
    reveal_strlit("session");
    reveal_strlit("forever");
    reveal_strlit("days:");
    match r {
        HistoryRetention::Days(d) => {
            let s = retention_setting(r);
            lemma_decimal_parses(d as nat);
            assert(s.skip(5) =~= decimal(d as nat));
            assert(s.take(5) =~= "days:"@);
            assert(s != "session"@) by {
                assert(s[0] == 'd');
            }
            assert(s != "forever"@) by {
                assert(s[0] == 'd');
            }
        },
        HistoryRetention::DoNotSave => {
            assert(retention_setting(r) != "session"@);
            assert(retention_setting(r) != "forever"@);
            assert(!starts_with(retention_setting(r), "days:"@));
        },
        _ => {},
    }
}

pub open spec fn status_text(s: LessonStatus) -> Seq<char> {
    match s {
        LessonStatus::NotStarted => "not-started"@,
        LessonStatus::InProgress => "in-progress"@,
        LessonStatus::Passed => "passed"@,
        LessonStatus::NeedsReview => "needs-review"@,
    }
}

/// A stored status read back; anything unrecognised reads as not started.
pub open spec fn parse_status_spec(value: Seq<char>) -> LessonStatus {
    if value == "passed"@ {
        LessonStatus::Passed
    } else if value == "needs-review"@ {
        LessonStatus::NeedsReview
    } else if value == "in-progress"@ {
        LessonStatus::InProgress
    } else {
        LessonStatus::NotStarted
    }
}

/// How a lesson status is stored.
pub fn status_str(status: LessonStatus) -> (r: &'static str)
    ensures
        r@ == status_text(status),
{
    match status {
        LessonStatus::NotStarted => "not-started",
        LessonStatus::InProgress => "in-progress",
        LessonStatus::Passed => "passed",
        LessonStatus::NeedsReview => "needs-review",
    }
}

pub fn parse_status(value: &str) -> (r: LessonStatus)
    ensures
        r == parse_status_spec(value@),
{
    if same_text(value, "passed") {
        LessonStatus::Passed
    } else if same_text(value, "needs-review") {
        LessonStatus::NeedsReview
    } else if same_text(value, "in-progress") {
        LessonStatus::InProgress
    } else {
        LessonStatus::NotStarted
    }
}

/// A status written and read back is the same status.
pub proof fn lemma_status_roundtrip(s: LessonStatus)
    ensures
        parse_status_spec(status_text(s)) == s,
{
    reveal_strlit("not-started");
    reveal_strlit("in-progress");
    reveal_strlit("passed");
    reveal_strlit("needs-review");
    match s {
        LessonStatus::NotStarted => {
            assert("not-started"@.len() == 11 && "passed"@.len() == 6);
            assert("not-started"@ != "passed"@);
            assert("not-started"@.len() == 11 && "needs-review"@.len() == 12);
            assert("not-started"@ != "needs-review"@);
            assert("not-started"@[0] != "in-progress"@[0]);
        },
        LessonStatus::InProgress => {
            assert("in-progress"@.len() == 11 && "passed"@.len() == 6);
            assert("in-progress"@ != "passed"@);
            assert("in-progress"@.len() == 11 && "needs-review"@.len() == 12);
            assert("in-progress"@ != "needs-review"@);
        },
        LessonStatus::NeedsReview => {
            assert("needs-review"@.len() == 12 && "passed"@.len() == 6);
            assert("needs-review"@ != "passed"@);
        },
        LessonStatus::Passed => {},
    }
}

pub open spec fn mastery_text(m: MasteryStatus) -> Seq<char> {
    match m {
        MasteryStatus::Mastered => "mastered"@,
        MasteryStatus::Strong => "strong"@,
        MasteryStatus::Passed => "passed"@,
        MasteryStatus::NeedsReview => "needs-review"@,
        MasteryStatus::ReviewRequired => "review-required"@,
    }
}

pub open spec fn parse_mastery_spec(value: Seq<char>) -> Option<MasteryStatus> {
    if value == "mastered"@ {
        Some(MasteryStatus::Mastered)
    } else if value == "strong"@ {
        Some(MasteryStatus::Strong)
    } else if value == "passed"@ {
        Some(MasteryStatus::Passed)
    } else if value == "needs-review"@ {
        Some(MasteryStatus::NeedsReview)
    } else if value == "review-required"@ {
        Some(MasteryStatus::ReviewRequired)
    } else {
        None
    }
}

/// How a mastery status is stored.
pub fn mastery_str(mastery: MasteryStatus) -> (r: &'static str)
    ensures
        r@ == mastery_text(mastery),
{
    match mastery {
        MasteryStatus::Mastered => "mastered",
        MasteryStatus::Strong => "strong",
        MasteryStatus::Passed => "passed",
        MasteryStatus::NeedsReview => "needs-review",
        MasteryStatus::ReviewRequired => "review-required",
    }
}

pub fn parse_mastery(value: &str) -> (r: Option<MasteryStatus>)
    ensures
        r == parse_mastery_spec(value@),
{
    if same_text(value, "mastered") {
        Some(MasteryStatus::Mastered)
    } else if same_text(value, "strong") {
        Some(MasteryStatus::Strong)
    } else if same_text(value, "passed") {
        Some(MasteryStatus::Passed)
    } else if same_text(value, "needs-review") {
        Some(MasteryStatus::NeedsReview)
    } else if same_text(value, "review-required") {
        Some(MasteryStatus::ReviewRequired)
    } else {
        None
    }
}

/// A mastery written and read back is the same mastery.
pub proof fn lemma_mastery_roundtrip(m: MasteryStatus)
    ensures
        parse_mastery_spec(mastery_text(m)) == Some(m),
{
    reveal_strlit("mastered");
    reveal_strlit("strong");
    reveal_strlit("passed");
    reveal_strlit("needs-review");
    reveal_strlit("review-required");
    match m {
        MasteryStatus::Passed => {
            assert("passed"@.len() == 6 && "mastered"@.len() == 8);
            assert("passed"@ != "mastered"@);
            assert("passed"@[0] != "strong"@[0]);
        },
        MasteryStatus::Strong => {
            assert("strong"@.len() == 6 && "mastered"@.len() == 8);
            assert("strong"@ != "mastered"@);
        },
        MasteryStatus::NeedsReview => {
            assert("needs-review"@.len() == 12 && "mastered"@.len() == 8);
            assert("needs-review"@ != "mastered"@);
            assert("needs-review"@.len() == 12 && "strong"@.len() == 6);
            assert("needs-review"@ != "strong"@);
            assert("needs-review"@.len() == 12 && "passed"@.len() == 6);
            assert("needs-review"@ != "passed"@);
        },
        MasteryStatus::ReviewRequired => {
            assert("review-required"@.len() == 15 && "mastered"@.len() == 8);
            assert("review-required"@ != "mastered"@);
            assert("review-required"@.len() == 15 && "strong"@.len() == 6);
            assert("review-required"@ != "strong"@);
            assert("review-required"@.len() == 15 && "passed"@.len() == 6);
            assert("review-required"@ != "passed"@);
            assert("review-required"@.len() == 15 && "needs-review"@.len() == 12);
            assert("review-required"@ != "needs-review"@);
        },
        MasteryStatus::Mastered => {},
    }
}

/// The mastery a lesson keeps after an attempt: the stronger of what it had and what this
/// attempt earned, since practising must never cost credit already earned.
pub open spec fn best_mastery_spec(previous: Option<MasteryStatus>, earned: MasteryStatus) -> MasteryStatus {
    match previous {
        Some(p) => if p.rank() >= earned.rank() {
            p
        } else {
            earned
        },
        None => earned,
    }
}

pub fn best_mastery(previous: Option<MasteryStatus>, earned: MasteryStatus) -> (r: MasteryStatus)
    ensures
        r == best_mastery_spec(previous, earned),
{
    match previous {
        Some(p) => p.stronger(earned),
        None => earned,
    }
}

/// Recorded mastery never goes down: whatever an attempt earns, the kept mastery is at least
/// as strong as both what the lesson had and what was earned.
pub proof fn lemma_mastery_never_downgrades(previous: Option<MasteryStatus>, earned: MasteryStatus)
    ensures
        best_mastery_spec(previous, earned).rank() >= earned.rank(),
        previous matches Some(p) ==> best_mastery_spec(previous, earned).rank() >= p.rank(),
        best_mastery_spec(previous, earned) == earned || previous == Some(best_mastery_spec(previous, earned)),
{
}

/// The status a completed lesson is stored with: needing review when its kept mastery is
/// at or below needs-review, otherwise passed.
pub fn completion_status(best: MasteryStatus) -> (r: LessonStatus)
    ensures
        r == if best.rank() <= MasteryStatus::NeedsReview.rank() {
            LessonStatus::NeedsReview
        } else {
            LessonStatus::Passed
        },
{
    if best.needs_revisiting() {
        LessonStatus::NeedsReview
    } else {
        LessonStatus::Passed
    }
}

/// How a failure category is stored: its snake-case key.
pub fn failure_category_key(category: FailureCategory) -> (r: String)
    ensures
        r@ == category.key_spec(),
{
    owned(category.key())
}

/// The schema version the migrations bring a database to.
pub fn latest_version() -> (r: i64)
    ensures
        r == 1,
{
    1
}

/// The retention a profile has: its stored `history.retention` setting, read back, or not
/// saving at all when it has none.
pub fn stored_retention(value: Option<&str>) -> (r: HistoryRetention)
    ensures
        r == match value {
            Some(v) => parse_retention_spec(v@),
            None => HistoryRetention::DoNotSave,
        },
{
    match value {
        Some(v) => HistoryRetention::parse(v),
        None => HistoryRetention::DoNotSave,
    }
}

/// Whether a typed command is stored at all: never when the learner chose not to save.
pub fn keeps_commands(retention: HistoryRetention) -> (r: bool)
    ensures
        r == (retention != HistoryRetention::DoNotSave),
{
    match retention {
        HistoryRetention::DoNotSave => false,
        _ => true,
    }
}

/// Which stored commands enforcing a retention deletes.
#[derive(Debug, Clone, Copy, PartialEq, Eq, Structural)]
pub enum PruneRule {
    /// Every command of the profile.
    All,
    /// Every command typed in another session than the current one.
    OtherSessions,
    /// Every command recorded before this Unix time.
    OlderThan(i64),
    /// None.
    Nothing,
}

/// The seconds in a day.
pub open spec fn day_seconds() -> int {
    86400
}

/// What enforcing `retention` at Unix time `now` deletes: everything when nothing is to be
/// saved, other sessions' commands when only the last session is kept, commands older than
/// the kept number of days, nothing when history is kept forever.
pub open spec fn prune_rule_spec(retention: HistoryRetention, now: i64) -> PruneRule {
    match retention {
        HistoryRetention::DoNotSave => PruneRule::All,
        HistoryRetention::LastSession => PruneRule::OtherSessions,
        HistoryRetention::Days(d) => PruneRule::OlderThan((now - d * day_seconds()) as i64),
        HistoryRetention::Forever => PruneRule::Nothing,
    }
}

pub fn prune_rule(retention: HistoryRetention, now: i64) -> (r: PruneRule)
    requires
        retention matches HistoryRetention::Days(d) ==> now - d * day_seconds() >= i64::MIN,
    ensures
        r == prune_rule_spec(retention, now),
{
    match retention {
        HistoryRetention::DoNotSave => PruneRule::All,
        HistoryRetention::LastSession => PruneRule::OtherSessions,
        HistoryRetention::Days(d) => PruneRule::OlderThan(now - (d as i64) * 86400),
        HistoryRetention::Forever => PruneRule::Nothing,
    }
}

/// Whether `rule` deletes a command typed in `session` at `created_at`, the current session
/// being `current`.
pub open spec fn deletes(rule: PruneRule, current: Seq<char>, session: Seq<char>, created_at: i64) -> bool {
    match rule {
        PruneRule::All => true,
        PruneRule::OtherSessions => session != current,
        PruneRule::OlderThan(cutoff) => created_at < cutoff,
        PruneRule::Nothing => false,
    }
}

/// Retention keeps what it promises: enforcing it never deletes a command of the current
/// session unless nothing is to be saved, keeps everything recorded within the kept number
/// of days, and keeps everything when history is kept forever.
pub proof fn lemma_pruning_keeps_what_retention_promises(
    retention: HistoryRetention,
    now: i64,
    current: Seq<char>,
    session: Seq<char>,
    created_at: i64,
)
    requires
        retention matches HistoryRetention::Days(d) ==> now - d * day_seconds() >= i64::MIN,
    ensures
        retention == HistoryRetention::Forever ==> !deletes(prune_rule_spec(retention, now), current, session, created_at),
        retention == HistoryRetention::LastSession ==> (deletes(prune_rule_spec(retention, now), current, session, created_at)
            <==> session != current),
        retention matches HistoryRetention::Days(d) ==> (deletes(prune_rule_spec(retention, now), current, session, created_at)
            <==> created_at < now - d * day_seconds()),
        retention == HistoryRetention::DoNotSave ==> deletes(prune_rule_spec(retention, now), current, session, created_at),
{
}

/// The status a lesson is recorded with once its best mastery is known.
pub open spec fn completion_status_spec(best: MasteryStatus) -> LessonStatus {
    if best.rank() <= MasteryStatus::NeedsReview.rank() {
        LessonStatus::NeedsReview
    } else {
        LessonStatus::Passed
    }
}

/// The mastery a lesson's earlier record holds, if any.
pub open spec fn recorded_mastery(existing: Option<&LessonProgress>) -> Option<MasteryStatus> {
    match existing {
        Some(p) => p.mastery,
        None => None,
    }
}

/// The record of a lesson after it is completed with `earned` mastery at `now`: the better of
/// the recorded and the earned mastery, one more attempt, the hints added, the solution
/// flag kept once set, the first completion time kept, and this attempt as the last. Without
/// an earlier record, this is the first attempt, started and completed now.
pub fn merge_completion(
    existing: Option<&LessonProgress>,
    profile_id: i64,
    lesson_id: &str,
    earned: MasteryStatus,
    hints_used: u32,
    solution_revealed: bool,
    now: i64,
) -> (r: LessonProgress)
    requires
        existing matches Some(p) ==> p.attempts < u32::MAX && p.hints_used + hints_used <= u32::MAX,
    ensures
        r.profile_id == profile_id,
        r.lesson_id@ == lesson_id@,
        r.mastery == Some(best_mastery_spec(recorded_mastery(existing), earned)),
        r.mastery.unwrap().rank() >= earned.rank(),
        recorded_mastery(existing) matches Some(m) ==> r.mastery.unwrap().rank() >= m.rank(),
        r.status == completion_status_spec(r.mastery.unwrap()),
        r.mastery_score == r.mastery.unwrap().score_spec(),
        r.last_attempt_at == Some(now),
        match existing {
            None => r.attempts == 1 && r.hints_used == hints_used && r.solution_revealed == solution_revealed
                && r.first_started_at == Some(now) && r.completed_at == Some(now),
            Some(p) => r.attempts == p.attempts + 1 && r.hints_used == p.hints_used + hints_used
                && r.solution_revealed == (p.solution_revealed || solution_revealed)
                && r.first_started_at == p.first_started_at && r.completed_at == (match p.completed_at {
                    Some(t) => Some(t),
                    None => Some(now),
                }),
        },
{
    let previous = match existing {
        Some(p) => p.mastery,
        None => None,
    };
    let best = best_mastery(previous, earned);
    proof {
        lemma_mastery_never_downgrades(previous, earned);
    }
    let status = completion_status(best);
    match existing {
        None => LessonProgress {
            profile_id,
            lesson_id: owned(lesson_id),
            status,
            attempts: 1,
            hints_used,
            solution_revealed,
            mastery: Some(best),
            mastery_score: best.score(),
            first_started_at: Some(now),
            completed_at: Some(now),
            last_attempt_at: Some(now),
        },
        Some(p) => LessonProgress {
            profile_id,
            lesson_id: owned(lesson_id),
            status,
            attempts: p.attempts + 1,
            hints_used: p.hints_used + hints_used,
            solution_revealed: p.solution_revealed || solution_revealed,
            mastery: Some(best),
            mastery_score: best.score(),
            first_started_at: p.first_started_at,
            completed_at: match p.completed_at {
                Some(t) => Some(t),
                None => Some(now),
            },
            last_attempt_at: Some(now),
        },
    }
}

} // verus!
