//! Progression rules.
//!
//! Three modes coexist. Guided Path unlocks sequentially; Open Library never blocks access but
//! warns; Assessment Mode strips hints and examples. Nothing here can make a lesson
//! permanently unreachable: a learner who gets stuck can always switch to Open Library.
use crate::catalog::Catalog;
use crate::progress::{LessonStatus, MasteryStatus};
use crate::sys::{filter_map_spec, lemma_filter_map_step};
use crate::text::{append, copy_strings, join, join_strings, owned, same_text, strings_view};
use vstd::prelude::*;

verus! {

#[derive(Debug, Clone, Copy, PartialEq, Eq, Structural)]
pub enum ProgressionMode {
    GuidedPath,
    OpenLibrary,
    Assessment,
}

impl Default for ProgressionMode {
    fn default() -> (r: ProgressionMode)
        ensures
            r == ProgressionMode::GuidedPath,
    {
        ProgressionMode::GuidedPath
    }
}

#[derive(Debug, Clone, Copy, PartialEq, Eq, Structural)]
pub struct LessonState {
    pub status: LessonStatus,
    pub mastery: Option<MasteryStatus>,
}

impl LessonState {
    /// A lesson passed with the given mastery.
    pub fn passed(mastery: MasteryStatus) -> (r: LessonState)
        ensures
            r == (LessonState { status: LessonStatus::Passed, mastery: Some(mastery) }),
    {
        LessonState { status: LessonStatus::Passed, mastery: Some(mastery) }
    }

    pub open spec fn is_passed_spec(self) -> bool {
        self.status == LessonStatus::Passed
    }

    fn is_passed(&self) -> (r: bool)
        ensures
            r == self.is_passed_spec(),
    {
        match self.status {
            LessonStatus::Passed => true,
            _ => false,
        }
    }
}

/// What the learner has done so far, keyed by lesson id.
#[derive(Debug, Clone)]
pub struct ProgressIndex {
    entries: Vec<(String, LessonState)>,
}

/// The map a list of entries describes: a later entry for an id replaces an earlier one.
pub open spec fn entries_map(es: Seq<(String, LessonState)>) -> Map<Seq<char>, LessonState>
    decreases es.len(),
{
    if es.len() == 0 {
        Map::empty()
    } else {
        entries_map(es.drop_last()).insert(es.last().0@, es.last().1)
    }
}

impl View for ProgressIndex {
    type V = Map<Seq<char>, LessonState>;

    closed spec fn view(&self) -> Map<Seq<char>, LessonState> {
        entries_map(self.entries@)
    }
}

impl ProgressIndex {
    /// An empty index.
    pub fn new() -> (r: ProgressIndex)
        ensures
            r@ == Map::<Seq<char>, LessonState>::empty(),
    {
        ProgressIndex { entries: Vec::new() }
    }

    /// Records the state of one lesson, replacing what was there.
    pub fn insert(&mut self, lesson_id: String, state: LessonState)
        ensures
            final(self)@ == old(self)@.insert(lesson_id@, state),
    {
        self.entries.push((lesson_id, state));
        proof {
            let es = self.entries@;
            assert(es.drop_last() =~= old(self).entries@);
        }
    }

    /// The state recorded for a lesson.
    pub fn get(&self, lesson_id: &str) -> (r: Option<LessonState>)
        ensures
            r == (if self@.contains_key(lesson_id@) {
                Some(self@[lesson_id@])
            } else {
                None
            }),
    {
        let ghost es = self.entries@;
        assert(self@ == entries_map(es));
        let mut i: usize = self.entries.len();
        assert(es.take(i as int) =~= es);
        while i > 0
            invariant
                i <= es.len(),
                es == self.entries@,
                entries_map(es).contains_key(lesson_id@) == entries_map(es.take(i as int)).contains_key(lesson_id@),
                entries_map(es).contains_key(lesson_id@) ==> entries_map(es)[lesson_id@] == entries_map(es.take(i as int))[lesson_id@],
            decreases i,
        {
            let ghost pre = es.take(i as int);
            assert(pre.drop_last() =~= es.take(i - 1));
            assert(pre.last() == es[i - 1]);
            if same_text(self.entries[i - 1].0.as_str(), lesson_id) {
                return Some(self.entries[i - 1].1);
            }
            i -= 1;
        }
        None
    }

    /// Whether the lesson is recorded as passed.
    pub fn is_passed(&self, lesson_id: &str) -> (r: bool)
        ensures
            r == passed_in(self@, lesson_id@),
    {
        match self.get(lesson_id) {
            Some(s) => s.is_passed(),
            None => false,
        }
    }
}

/// Whether the index records the lesson as passed. A lesson that needs review still counts.
pub open spec fn passed_in(progress: Map<Seq<char>, LessonState>, id: Seq<char>) -> bool {
    progress.contains_key(id) && progress[id].is_passed_spec()
}

#[derive(Debug, Clone, PartialEq, Eq)]
pub struct Availability {
    pub lesson_id: String,
    /// Whether the lesson can be opened at all.
    pub unlocked: bool,
    /// Prerequisites that are not yet passed.
    pub missing_prerequisites: Vec<String>,
}

/// The warning shown for a lesson opened before its prerequisites.
pub open spec fn warning_text(missing: Seq<Seq<char>>) -> Seq<char> {
    "This lesson builds on "@ + join(missing, ", "@)
        + ". You can still open it, but it may assume things you have not covered."@
}

impl Availability {
    /// A warning naming the prerequisites not yet passed, if there are any.
    pub fn warning(&self) -> (r: Option<String>)
        ensures
            self.missing_prerequisites@.len() == 0 ==> r is None,
            self.missing_prerequisites@.len() > 0 ==> (r matches Some(w) && w@ == warning_text(
                strings_view(self.missing_prerequisites@),
            )),
    {
        if self.missing_prerequisites.len() == 0 {
            return None;
        }
        let mut text = owned("This lesson builds on ");
        let names = join_strings(&self.missing_prerequisites, ", ");
        append(&mut text, names.as_str());
        append(
            &mut text,
            ". You can still open it, but it may assume things you have not covered.",
        );
        Some(text)
    }
}


/// The prerequisites of the lesson, in order, that are not yet passed; none for a lesson the
/// catalogue does not hold.
pub open spec fn missing_prerequisites(catalog: Catalog, id: Seq<char>, progress: Map<Seq<char>, LessonState>) -> Seq<Seq<char>> {
    match catalog.find_lesson(id) {
        Some(l) => strings_view(l.prerequisites@).filter(|p: Seq<char>| !passed_in(progress, p)),
        None => Seq::empty(),
    }
}

/// Guided Path opens a lesson once its prerequisites are passed; the other modes always do.
pub open spec fn unlocked_in(mode: ProgressionMode, missing: Seq<Seq<char>>) -> bool {
    mode != ProgressionMode::GuidedPath || missing.len() == 0
}

/// The first id in `ids` whose lesson is not passed.
pub open spec fn first_unpassed(ids: Seq<Seq<char>>, progress: Map<Seq<char>, LessonState>) -> Option<int>
    decreases ids.len(),
{
    if ids.len() == 0 {
        None
    } else {
        match first_unpassed(ids.drop_last(), progress) {
            Some(i) => Some(i),
            None => if !passed_in(progress, ids.last()) {
                Some(ids.len() - 1)
            } else {
                None
            },
        }
    }
}

/// The ids whose recorded mastery is `m`, in order.
pub open spec fn with_mastery(ids: Seq<Seq<char>>, progress: Map<Seq<char>, LessonState>, m: MasteryStatus) -> Seq<Seq<char>> {
    ids.filter(|id: Seq<char>| progress.contains_key(id) && progress[id].mastery == Some(m))
}

/// The lessons worth revisiting, weakest first and in teaching order among equals.
pub open spec fn weakest_first(ids: Seq<Seq<char>>, progress: Map<Seq<char>, LessonState>) -> Seq<Seq<char>> {
    with_mastery(ids, progress, MasteryStatus::ReviewRequired) + with_mastery(ids, progress, MasteryStatus::NeedsReview)
}

/// The mastery scores recorded for the ids, in order.
pub open spec fn scores_of(ids: Seq<Seq<char>>, progress: Map<Seq<char>, LessonState>) -> Seq<u8> {
    filter_map_spec(ids, |id: Seq<char>| if progress.contains_key(id) {
        match progress[id].mastery {
            Some(m) => Some(m.score_spec()),
            None => None,
        }
    } else {
        None
    })
}

pub open spec fn sum_of(s: Seq<u8>) -> nat
    decreases s.len(),
{
    if s.len() == 0 {
        0
    } else {
        sum_of(s.drop_last()) + s.last() as nat
    }
}

/// The average score, rounded down; zero when nothing was attempted.
pub open spec fn average_score(s: Seq<u8>) -> nat {
    if s.len() == 0 {
        0
    } else {
        sum_of(s) / s.len()
    }
}

proof fn lemma_sum_bound(s: Seq<u8>)
    requires
        forall|i: int| 0 <= i < s.len() ==> #[trigger] s[i] <= 100,
    ensures
        sum_of(s) <= 100 * s.len(),
    decreases s.len(),
{
    if s.len() > 0 {
        lemma_sum_bound(s.drop_last());
    }
}

/// Progression through a catalogue in one of the three modes.
pub struct Progression<'a> {
    catalog: &'a Catalog,
    mode: ProgressionMode,
}

impl<'a> Progression<'a> {
    pub closed spec fn catalog(self) -> Catalog {
        *self.catalog
    }

    pub closed spec fn mode(self) -> ProgressionMode {
        self.mode
    }

    pub fn new(catalog: &'a Catalog, mode: ProgressionMode) -> (r: Progression<'a>)
        ensures
            r.catalog() == *catalog,
            r.mode() == mode,
    {
        Progression { catalog, mode }
    }

    /// Whether the lesson can be opened, and which prerequisites are still missing.
    pub fn availability(&self, lesson_id: &str, progress: &ProgressIndex) -> (r: Availability)
        ensures
            r.lesson_id@ == lesson_id@,
            strings_view(r.missing_prerequisites@) == missing_prerequisites(self.catalog(), lesson_id@, progress@),
            r.unlocked == unlocked_in(self.mode(), missing_prerequisites(self.catalog(), lesson_id@, progress@)),
    {
        let mut missing: Vec<String> = Vec::new();
        match self.catalog.lesson(lesson_id) {
            Some(lesson) => {
                let ghost ps = strings_view(lesson.prerequisites@);
                let ghost keep = |p: Seq<char>| !passed_in(progress@, p);
                let mut n: usize = 0;
                while n < lesson.prerequisites.len()
                    invariant
                        n <= lesson.prerequisites@.len(),
                        ps == strings_view(lesson.prerequisites@),
                        keep == (|p: Seq<char>| !passed_in(progress@, p)),
                        strings_view(missing@) == ps.take(n as int).filter(keep),
                    decreases lesson.prerequisites.len() - n,
                {
                    let ghost before = strings_view(missing@);
                    assert(ps.take(n + 1).drop_last() =~= ps.take(n as int));
                    reveal(Seq::filter);
                    let p = lesson.prerequisites[n].as_str();
                    if !progress.is_passed(p) {
                        missing.push(owned(p));
                        assert(strings_view(missing@) =~= before.push(ps[n as int]));
                    }
                    n += 1;
                }
                assert(ps.take(ps.len() as int) =~= ps);
            },
            None => {
                assert(strings_view(missing@) =~= Seq::<Seq<char>>::empty());
            },
        }
        let unlocked = match self.mode {
            ProgressionMode::OpenLibrary | ProgressionMode::Assessment => true,
            ProgressionMode::GuidedPath => missing.len() == 0,
        };
        Availability { lesson_id: owned(lesson_id), unlocked, missing_prerequisites: missing }
    }

    /// The lesson "Continue" opens: the first core lesson that is not yet passed.
    pub fn next_lesson(&self, progress: &ProgressIndex) -> (r: Option<&'a str>)
        ensures
            match first_unpassed(self.catalog().core_ids(), progress@) {
                Some(i) => r matches Some(s) && s@ == self.catalog().core_ids()[i],
                None => r is None,
            },
    {
        let ids = self.catalog.core_lesson_ids();
        let ghost iv = strings_view(ids@);
        let mut n: usize = 0;
        assert(iv.take(0) =~= Seq::<Seq<char>>::empty());
        while n < ids.len()
            invariant
                n <= ids@.len(),
                iv == strings_view(ids@),
                iv == self.catalog().core_ids(),
                first_unpassed(iv.take(n as int), progress@) is None,
            decreases ids.len() - n,
        {
            assert(iv.take(n + 1).drop_last() =~= iv.take(n as int));
            assert(iv.take(n + 1).last() == ids@[n as int]@);
            if !progress.is_passed(ids[n].as_str()) {
                proof {
                    lemma_first_unpassed_prefix(iv, progress@, n + 1);
                }
                return Some(ids[n].as_str());
            }
            n += 1;
        }
        assert(iv.take(iv.len() as int) =~= iv);
        None
    }

    /// The ids in teaching order whose recorded mastery is `m`.
    fn core_with_mastery(&self, progress: &ProgressIndex, m: MasteryStatus) -> (r: Vec<&'a str>)
        ensures
            r@.map_values(|s: &str| s@) == with_mastery(self.catalog().core_ids(), progress@, m),
    {
        let ids = self.catalog.core_lesson_ids();
        let ghost iv = strings_view(ids@);
        let ghost keep = |id: Seq<char>| progress@.contains_key(id) && progress@[id].mastery == Some(m);
        let mut out: Vec<&'a str> = Vec::new();
        let mut n: usize = 0;
        while n < ids.len()
            invariant
                n <= ids@.len(),
                iv == strings_view(ids@),
                iv == self.catalog().core_ids(),
                keep == (|id: Seq<char>| progress@.contains_key(id) && progress@[id].mastery == Some(m)),
                out@.map_values(|s: &str| s@) == iv.take(n as int).filter(keep),
            decreases ids.len() - n,
        {
            let ghost before = out@.map_values(|s: &str| s@);
            assert(iv.take(n + 1).drop_last() =~= iv.take(n as int));
            reveal(Seq::filter);
            let id = ids[n].as_str();
            match progress.get(id) {
                Some(state) => {
                    if state.mastery == Some(m) {
                        out.push(id);
                        assert(out@.map_values(|s: &str| s@) =~= before.push(iv[n as int]));
                    }
                },
                None => {},
            }
            n += 1;
        }
        assert(iv.take(iv.len() as int) =~= iv);
        out
    }

    /// Lessons worth revisiting, weakest first, at most `limit` of them.
    pub fn review_recommendations(&self, progress: &ProgressIndex, limit: usize) -> (r: Vec<&'a str>)
        ensures
            r@.map_values(|s: &str| s@) == (if weakest_first(self.catalog().core_ids(), progress@).len() <= limit {
                weakest_first(self.catalog().core_ids(), progress@)
            } else {
                weakest_first(self.catalog().core_ids(), progress@).take(limit as int)
            }),
    {
        let first = self.core_with_mastery(progress, MasteryStatus::ReviewRequired);
        let second = self.core_with_mastery(progress, MasteryStatus::NeedsReview);
        let ghost all = weakest_first(self.catalog().core_ids(), progress@);
        let ghost fv = first@.map_values(|s: &str| s@);
        let ghost sv = second@.map_values(|s: &str| s@);
        assert(all =~= fv + sv);
        let mut out: Vec<&'a str> = Vec::new();
        let mut n: usize = 0;
        while n < first.len() && out.len() < limit
            invariant
                n <= first@.len(),
                out@.len() == n,
                n <= limit,
                out@.map_values(|s: &str| s@) == all.take(n as int),
                all == fv + sv,
                fv == first@.map_values(|s: &str| s@),
            decreases first.len() - n,
        {
            out.push(first[n]);
            n += 1;
            assert(out@.map_values(|s: &str| s@) =~= all.take(n as int));
        }
        let mut m: usize = 0;
        while m < second.len() && out.len() < limit
            invariant
                m <= second@.len(),
                n <= first@.len(),
                out@.len() == n + m,
                out@.len() <= limit,
                m > 0 ==> n == first@.len(),
                n == first@.len() || out@.len() == limit,
                out@.map_values(|s: &str| s@) == all.take(out@.len() as int),
                all == fv + sv,
                fv == first@.map_values(|s: &str| s@),
                sv == second@.map_values(|s: &str| s@),
            decreases second.len() - m,
        {
            out.push(second[m]);
            m += 1;
            assert(out@.map_values(|s: &str| s@) =~= all.take(out@.len() as int));
        }
        proof {
            if all.len() <= limit {
                if out@.len() < limit {
                    assert(out@.len() == all.len());
                }
                assert(all.take(all.len() as int) =~= all);
            }
        }
        out
    }

    /// How many core lessons are passed.
    pub fn completed_core_lessons(&self, progress: &ProgressIndex) -> (r: usize)
        ensures
            r == self.catalog().core_ids().filter(|id: Seq<char>| passed_in(progress@, id)).len(),
    {
        let ids = self.catalog.core_lesson_ids();
        let ghost iv = strings_view(ids@);
        let ghost keep = |id: Seq<char>| passed_in(progress@, id);
        let mut count: usize = 0;
        let mut n: usize = 0;
        while n < ids.len()
            invariant
                n <= ids@.len(),
                iv == strings_view(ids@),
                iv == self.catalog().core_ids(),
                keep == (|id: Seq<char>| passed_in(progress@, id)),
                count == iv.take(n as int).filter(keep).len(),
                count <= n,
            decreases ids.len() - n,
        {
            assert(iv.take(n + 1).drop_last() =~= iv.take(n as int));
            reveal(Seq::filter);
            if progress.is_passed(ids[n].as_str()) {
                count += 1;
            }
            n += 1;
        }
        assert(iv.take(iv.len() as int) =~= iv);
        count
    }

    /// The average mastery score across attempted core lessons, rounded down; zero before
    /// anything is attempted.
    pub fn mastery_percent(&self, progress: &ProgressIndex) -> (r: u8)
        ensures
            r == average_score(scores_of(self.catalog().core_ids(), progress@)),
    {
        let ids = self.catalog.core_lesson_ids();
        let ghost iv = strings_view(ids@);
        let ghost f = |id: Seq<char>| if progress@.contains_key(id) {
            match progress@[id].mastery {
                Some(m) => Some(m.score_spec()),
                None => None,
            }
        } else {
            None
        };
        let mut total: u128 = 0;
        let mut count: u128 = 0;
        let ghost mut scores: Seq<u8> = Seq::empty();
        let mut n: usize = 0;
        while n < ids.len()
            invariant
                n <= ids@.len(),
                iv == strings_view(ids@),
                iv == self.catalog().core_ids(),
                f == (|id: Seq<char>| if progress@.contains_key(id) {
                    match progress@[id].mastery {
                        Some(m) => Some(m.score_spec()),
                        None => None,
                    }
                } else {
                    None
                }),
                scores == filter_map_spec(iv.take(n as int), f),
                count == scores.len(),
                total == sum_of(scores),
                count <= n,
                total <= 100 * count,
            decreases ids.len() - n,
        {
            proof {
                lemma_filter_map_step(iv, f, n as int);
            }
            match progress.get(ids[n].as_str()) {
                Some(state) => match state.mastery {
                    Some(m) => {
                        let score = m.score();
                        proof {
                            assert(scores.push(score).drop_last() =~= scores);
                            scores = scores.push(score);
                        }
                        total = total + score as u128;
                        count = count + 1;
                    },
                    None => {},
                },
                None => {},
            }
            n += 1;
        }
        assert(iv.take(iv.len() as int) =~= iv);
        if count == 0 {
            return 0;
        }
        let avg = total / count;
        assert(avg <= 100) by (nonlinear_arith)
            requires
                total <= 100 * count,
                count > 0,
                avg == total / count,
        ;
        avg as u8
    }
}

proof fn lemma_first_unpassed_prefix(ids: Seq<Seq<char>>, progress: Map<Seq<char>, LessonState>, n: int)
    requires
        0 < n <= ids.len(),
        first_unpassed(ids.take(n), progress) is Some,
    ensures
        first_unpassed(ids, progress) == first_unpassed(ids.take(n), progress),
    decreases ids.len() - n,
{
    if n < ids.len() {
        assert(ids.take(n + 1).drop_last() =~= ids.take(n));
        lemma_first_unpassed_prefix(ids, progress, n + 1);
    } else {
        assert(ids.take(n) =~= ids);
    }
}


proof fn lemma_filter_excludes(s: Seq<Seq<char>>, f: spec_fn(Seq<char>) -> bool, x: Seq<char>)
    requires
        !f(x),
    ensures
        !s.filter(f).contains(x),
    decreases s.len(),
{
    reveal(Seq::filter);
    if s.len() > 0 {
        lemma_filter_excludes(s.drop_last(), f, x);
        if f(s.last()) {
            assert(s.filter(f) =~= s.drop_last().filter(f).push(s.last()));
            if s.filter(f).contains(x) {
                let i = choose|i: int| 0 <= i < s.filter(f).len() && s.filter(f)[i] == x;
                if i < s.drop_last().filter(f).len() {
                    assert(s.drop_last().filter(f)[i] == x);
                }
            }
        }
    }
}

proof fn lemma_filter_empty(s: Seq<Seq<char>>, f: spec_fn(Seq<char>) -> bool)
    ensures
        s.filter(f).len() == 0 <==> forall|i: int| 0 <= i < s.len() ==> !f(#[trigger] s[i]),
    decreases s.len(),
{
    reveal(Seq::filter);
    if s.len() > 0 {
        lemma_filter_empty(s.drop_last(), f);
        if forall|i: int| 0 <= i < s.len() - 1 ==> !f(#[trigger] s.drop_last()[i]) {
            assert forall|i: int| 0 <= i < s.len() - 1 implies !f(#[trigger] s[i]) by {
                assert(s.drop_last()[i] == s[i]);
            }
        }
        if forall|i: int| 0 <= i < s.len() ==> !f(#[trigger] s[i]) {
            assert forall|i: int| 0 <= i < s.len() - 1 implies !f(#[trigger] s.drop_last()[i]) by {
                assert(s.drop_last()[i] == s[i]);
            }
            assert(!f(s[s.len() - 1]));
        }
    }
}

/// Open Library and Assessment Mode never lock a lesson, so no lesson is ever out of reach.
pub proof fn lemma_other_modes_never_block(catalog: Catalog, id: Seq<char>, progress: Map<Seq<char>, LessonState>)
    ensures
        unlocked_in(ProgressionMode::OpenLibrary, missing_prerequisites(catalog, id, progress)),
        unlocked_in(ProgressionMode::Assessment, missing_prerequisites(catalog, id, progress)),
{
}

/// Guided Path opens a lesson exactly when each of its prerequisites is recorded as passed.
pub proof fn lemma_guided_path_unlocks_when_prerequisites_pass(
    catalog: Catalog,
    id: Seq<char>,
    progress: Map<Seq<char>, LessonState>,
)
    ensures
        unlocked_in(ProgressionMode::GuidedPath, missing_prerequisites(catalog, id, progress)) <==> match catalog.find_lesson(id) {
            Some(l) => forall|i: int|
                0 <= i < l.prerequisites@.len() ==> passed_in(progress, #[trigger] l.prerequisites@[i]@),
            None => true,
        },
{
    match catalog.find_lesson(id) {
        Some(l) => {
            let ps = strings_view(l.prerequisites@);
            let f = |p: Seq<char>| !passed_in(progress, p);
            lemma_filter_empty(ps, f);
            assert forall|i: int| 0 <= i < l.prerequisites@.len() implies ps[i] == #[trigger] l.prerequisites@[i]@ by {}
        },
        None => {},
    }
}

/// Passing a prerequisite, with any mastery, takes it off the lesson's missing list: needing
/// review never blocks progression.
pub proof fn lemma_passing_clears_a_prerequisite(
    catalog: Catalog,
    id: Seq<char>,
    progress: Map<Seq<char>, LessonState>,
    prerequisite: Seq<char>,
    mastery: MasteryStatus,
)
    ensures
        !missing_prerequisites(
            catalog,
            id,
            progress.insert(prerequisite, LessonState { status: LessonStatus::Passed, mastery: Some(mastery) }),
        ).contains(prerequisite),
{
    let after = progress.insert(prerequisite, LessonState { status: LessonStatus::Passed, mastery: Some(mastery) });
    match catalog.find_lesson(id) {
        Some(l) => {
            lemma_filter_excludes(strings_view(l.prerequisites@), |p: Seq<char>| !passed_in(after, p), prerequisite);
        },
        None => {},
    }
}

} // verus!
