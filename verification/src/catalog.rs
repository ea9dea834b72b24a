//! The lesson catalogue: the modules of the core and optional packs and the lessons they list.
//!
//! Assembly is strict: a mislabelled package, an unknown validator or a prerequisite cycle is
//! reported rather than skipped, because a lesson that silently fails to load looks to the
//! learner like a curriculum with a hole in it.
use crate::lesson::{Lesson, Module, ResetPolicy, Task};
use crate::registry::{check_spec, error_message, Registry};
use crate::sys::{filter_map_spec, insert_sorted, lemma_filter_map_step, strictly_sorted};
use crate::text::{append, join, owned, phrase, phrase2, same_text, strings_view, text_less, text_less_exec,
    lemma_text_less_irreflexive, lemma_text_less_total, lemma_text_less_transitive,
};
use vstd::prelude::*;

verus! {

#[derive(Debug, Clone, PartialEq, Eq)]
pub struct CatalogIssue {
    pub source: String,
    pub message: String,
}

/// How an issue reads: its source, a colon, and the message.
pub open spec fn issue_text(i: CatalogIssue) -> Seq<char> {
    i.source@ + ": "@ + i.message@
}

impl CatalogIssue {
    /// The issue as one line of text.
    pub fn to_string(&self) -> (r: String)
        ensures
            r@ == issue_text(*self),
    {
        phrase(self.source.as_str(), ": ", self.message.as_str())
    }
}

/// One lesson file read for an entry of a module's lesson list.
#[derive(Debug, Clone)]
pub struct LessonFile {
    /// The id the module lists.
    pub listed_id: String,
    /// Where the file was read from, for messages.
    pub path: String,
    pub lesson: Lesson,
}

/// A module manifest with its listed lessons in order, each read or the reason it could not be.
#[derive(Debug, Clone)]
pub struct ModulePackage {
    pub module: Module,
    pub lessons: Vec<Result<LessonFile, String>>,
}

/// Whether the module belongs to the core pack.
pub open spec fn is_core(m: Module) -> bool {
    m.pack@ == "core"@
}

/// `a` is taught strictly before `b`: core packs first, then by module number.
pub open spec fn teaches_before(a: Module, b: Module) -> bool {
    (is_core(a) && !is_core(b)) || (is_core(a) == is_core(b) && a.number < b.number)
}

/// Where a stable insertion puts `p` into `s`: after every package not taught after it.
pub open spec fn teaching_slot(s: Seq<ModulePackage>, p: ModulePackage) -> int
    decreases s.len(),
{
    if s.len() == 0 {
        0
    } else if teaches_before(p.module, s.last().module) {
        teaching_slot(s.drop_last(), p)
    } else {
        s.len() as int
    }
}

/// The packages in teaching order; packages with equal keys keep their relative order.
pub open spec fn teaching_order(ps: Seq<ModulePackage>) -> Seq<ModulePackage>
    decreases ps.len(),
{
    if ps.len() == 0 {
        Seq::empty()
    } else {
        let s = teaching_order(ps.drop_last());
        s.insert(teaching_slot(s, ps.last()), ps.last())
    }
}

proof fn lemma_teaching_slot_bounds(s: Seq<ModulePackage>, p: ModulePackage)
    ensures
        0 <= teaching_slot(s, p) <= s.len(),
    decreases s.len(),
{
    if s.len() > 0 && teaches_before(p.module, s.last().module) {
        lemma_teaching_slot_bounds(s.drop_last(), p);
    }
}

fn is_core_exec(m: &Module) -> (r: bool)
    ensures
        r == is_core(*m),
{
    same_text(m.pack.as_str(), "core")
}

fn teaches_before_exec(a: &Module, b: &Module) -> (r: bool)
    ensures
        r == teaches_before(*a, *b),
{
    let ac = is_core_exec(a);
    let bc = is_core_exec(b);
    (ac && !bc) || (ac == bc && a.number < b.number)
}

/// Sorts the packages into teaching order, keeping the given order among equals.
fn sort_packages(packages: Vec<ModulePackage>) -> (r: Vec<ModulePackage>)
    ensures
        r@ == teaching_order(packages@),
{
    let ghost orig = packages@;
    let mut rest = packages;
    let mut sorted: Vec<ModulePackage> = Vec::new();
    let ghost mut moved: int = 0;
    assert(orig.take(0) =~= Seq::<ModulePackage>::empty());
    assert(orig.skip(0) =~= orig);
    while rest.len() > 0
        invariant
            0 <= moved <= orig.len(),
            rest@ == orig.skip(moved),
            sorted@ == teaching_order(orig.take(moved)),
        decreases rest.len(),
    {
        let p = rest.remove(0);
        assert(p == orig[moved]);
        let mut k: usize = sorted.len();
        assert(sorted@.take(k as int) =~= sorted@);
        while k > 0 && teaches_before_exec(&p.module, &sorted[k - 1].module)
            invariant
                k <= sorted@.len(),
                teaching_slot(sorted@, p) == teaching_slot(sorted@.take(k as int), p),
            decreases k,
        {
            assert(sorted@.take(k as int).drop_last() =~= sorted@.take(k - 1));
            k -= 1;
        }
        proof {
            if k > 0 {
                assert(sorted@.take(k as int).last() == sorted@[k - 1]);
            }
            assert(orig.take(moved + 1).drop_last() =~= orig.take(moved));
            assert(orig.take(moved + 1).last() == orig[moved]);
        }
        sorted.insert(k, p);
        proof {
            moved = moved + 1;
            assert(rest@ =~= orig.skip(moved));
        }
    }
    assert(orig.take(orig.len() as int) =~= orig);
    sorted
}

/// What has been loaded so far: lessons in load order, the core path, and the modules.
pub struct Loaded {
    pub lessons: Seq<Lesson>,
    pub core_order: Seq<Seq<char>>,
    pub modules: Seq<Module>,
}

/// Whether some loaded lesson has the id.
pub open spec fn has_lesson_id(ls: Seq<Lesson>, id: Seq<char>) -> bool {
    exists|i: int| 0 <= i < ls.len() && #[trigger] ls[i].id@ == id
}

/// Why a lesson file listed by module `m` does not fit what is loaded, if it does not.
pub open spec fn file_problem(ls: Seq<Lesson>, m: Module, file: LessonFile) -> Option<Seq<char>> {
    let id = file.lesson.id@;
    let listed = file.listed_id@;
    if id != listed {
        Some(file.path@ + " declares id "@ + id + " but is listed as "@ + listed)
    } else if file.lesson.module@ != m.id@ {
        Some("lesson "@ + id + " says it belongs to module "@ + file.lesson.module@
            + " but is listed by "@ + m.id@)
    } else if has_lesson_id(ls, listed) {
        Some("duplicate lesson id "@ + listed)
    } else {
        None
    }
}

/// Adds one lesson file listed by module `m`, or says why it does not fit.
pub open spec fn load_file(st: Loaded, m: Module, f: Result<LessonFile, String>) -> Result<Loaded, Seq<char>> {
    match f {
        Err(e) => Err(e@),
        Ok(file) => match file_problem(st.lessons, m, file) {
            Some(p) => Err(p),
            None => Ok(Loaded {
                lessons: st.lessons.push(file.lesson),
                core_order: if is_core(m) {
                    st.core_order.push(file.listed_id@)
                } else {
                    st.core_order
                },
                modules: st.modules,
            }),
        },
    }
}

/// Adds a module's lesson files in order, stopping at the first that does not fit.
pub open spec fn load_files(st: Loaded, m: Module, fs: Seq<Result<LessonFile, String>>) -> Result<Loaded, Seq<char>>
    decreases fs.len(),
{
    if fs.len() == 0 {
        Ok(st)
    } else {
        match load_files(st, m, fs.drop_last()) {
            Err(e) => Err(e),
            Ok(s) => load_file(s, m, fs.last()),
        }
    }
}

/// Loads packages in the order given, stopping at the first problem.
pub open spec fn load_packages(ps: Seq<ModulePackage>) -> Result<Loaded, Seq<char>>
    decreases ps.len(),
{
    if ps.len() == 0 {
        Ok(Loaded { lessons: Seq::empty(), core_order: Seq::empty(), modules: Seq::empty() })
    } else {
        match load_packages(ps.drop_last()) {
            Err(e) => Err(e),
            Ok(st) => match load_files(st, ps.last().module, ps.last().lessons@) {
                Err(e) => Err(e),
                Ok(s) => Ok(
                    Loaded { lessons: s.lessons, core_order: s.core_order, modules: s.modules.push(ps.last().module) },
                ),
            },
        }
    }
}

/// The lesson ids are pairwise distinct.
pub open spec fn distinct_ids(ls: Seq<Lesson>) -> bool {
    forall|i: int, j: int| 0 <= i < ls.len() && 0 <= j < ls.len() && i != j ==> ls[i].id@ != ls[j].id@
}

/// The lessons are in strictly ascending order of id.
pub open spec fn sorted_by_id(ls: Seq<Lesson>) -> bool {
    forall|i: int, j: int| 0 <= i < j < ls.len() ==> text_less(#[trigger] ls[i].id@, #[trigger] ls[j].id@)
}

fn has_id_exec(ls: &Vec<Lesson>, id: &str) -> (r: bool)
    ensures
        r == has_lesson_id(ls@, id@),
{
    let mut i: usize = 0;
    while i < ls.len()
        invariant
            i <= ls@.len(),
            forall|j: int| 0 <= j < i ==> ls@[j].id@ != id@,
        decreases ls.len() - i,
    {
        if same_text(ls[i].id.as_str(), id) {
            return true;
        }
        i += 1;
    }
    false
}

/// The state of loading, in executable form.
struct Loading {
    lessons: Vec<Lesson>,
    core_order: Vec<String>,
    modules: Vec<Module>,
}

impl Loading {
    spec fn matches(self, st: Loaded) -> bool {
        &&& self.lessons@ == st.lessons
        &&& strings_view(self.core_order@) == st.core_order
        &&& self.modules@ == st.modules
    }
}

proof fn lemma_load_keeps_ids_distinct(st: Loaded, m: Module, fs: Seq<Result<LessonFile, String>>)
    requires
        distinct_ids(st.lessons),
    ensures
        load_files(st, m, fs) matches Ok(s) ==> distinct_ids(s.lessons),
    decreases fs.len(),
{
    if fs.len() > 0 {
        lemma_load_keeps_ids_distinct(st, m, fs.drop_last());
        match load_files(st, m, fs.drop_last()) {
            Ok(s) => {
                match fs.last() {
                    Ok(file) => {
                        if load_file(s, m, fs.last()) is Ok {
                            let n = s.lessons.push(file.lesson);
                            assert forall|i: int, j: int| 0 <= i < n.len() && 0 <= j < n.len() && i != j implies n[i].id@ != n[j].id@ by {
                                if i == s.lessons.len() as int {
                                    assert(s.lessons[j] == n[j]);
                                } else if j == s.lessons.len() as int {
                                    assert(s.lessons[i] == n[i]);
                                } else {
                                    assert(s.lessons[i] == n[i] && s.lessons[j] == n[j]);
                                }
                            }
                        }
                    },
                    Err(_) => {},
                }
            },
            Err(_) => {},
        }
    }
}

proof fn lemma_loaded_ids_distinct(ps: Seq<ModulePackage>)
    ensures
        load_packages(ps) matches Ok(st) ==> distinct_ids(st.lessons),
    decreases ps.len(),
{
    if ps.len() > 0 {
        lemma_loaded_ids_distinct(ps.drop_last());
        match load_packages(ps.drop_last()) {
            Ok(st) => lemma_load_keeps_ids_distinct(st, ps.last().module, ps.last().lessons@),
            Err(_) => {},
        }
    }
}

/// Why a lesson file does not fit what is loaded, if it does not.
fn check_file(lessons: &Vec<Lesson>, module: &Module, file: &LessonFile) -> (r: Option<String>)
    ensures
        match file_problem(lessons@, *module, *file) {
            Some(p) => r matches Some(m) && m@ == p,
            None => r is None,
        },
{
    if !same_text(file.lesson.id.as_str(), file.listed_id.as_str()) {
        let mut msg = phrase(file.path.as_str(), " declares id ", file.lesson.id.as_str());
        append(&mut msg, " but is listed as ");
        append(&mut msg, file.listed_id.as_str());
        return Some(msg);
    }
    if !same_text(file.lesson.module.as_str(), module.id.as_str()) {
        let mut msg = phrase("lesson ", file.lesson.id.as_str(), " says it belongs to module ");
        append(&mut msg, file.lesson.module.as_str());
        append(&mut msg, " but is listed by ");
        append(&mut msg, module.id.as_str());
        return Some(msg);
    }
    if has_id_exec(lessons, file.listed_id.as_str()) {
        let mut msg = owned("duplicate lesson id ");
        append(&mut msg, file.listed_id.as_str());
        return Some(msg);
    }
    None
}

/// Loads one package's lesson files into `state`.
fn load_package_files(state: &mut Loading, module: &Module, files: Vec<Result<LessonFile, String>>) -> (r: Result<(), String>)
    ensures
        match load_files(old_loaded(*old(state)), *module, files@) {
            Ok(s) => r is Ok && final(state).matches(s),
            Err(e) => r matches Err(m) && m@ == e,
        },
{
    let ghost orig = files@;
    let ghost start = old_loaded(*state);
    let mut rest = files;
    let ghost mut done: int = 0;
    assert(orig.take(0) =~= Seq::<Result<LessonFile, String>>::empty());
    assert(orig.skip(0) =~= orig);
    assert(state.matches(start));
    while rest.len() > 0
        invariant
            0 <= done <= orig.len(),
            start == old_loaded(*old(state)),
            orig == files@,
            rest@ == orig.skip(done),
            load_files(start, *module, orig.take(done)) == Ok::<Loaded, Seq<char>>(old_loaded(*state)),
            state.matches(old_loaded(*state)),
        decreases rest.len(),
    {
        let f = rest.remove(0);
        proof {
            assert(f == orig[done]);
            assert(orig.take(done + 1).drop_last() =~= orig.take(done));
            assert(orig.take(done + 1).last() == orig[done]);
        }
        let ghost before = old_loaded(*state);
        assert(load_files(start, *module, orig.take(done + 1)) == load_file(before, *module, orig[done]));
        match f {
            Err(e) => {
                proof {
                    assert(orig[done] == Err::<LessonFile, String>(e));
                    assert(load_file(before, *module, orig[done]) == Err::<Loaded, Seq<char>>(e@));
                    lemma_load_files_stops(start, *module, orig, done + 1);
                    assert(load_files(start, *module, orig) == Err::<Loaded, Seq<char>>(e@));
                    assert(start == old_loaded(*old(state)));
                }
                return Err(e);
            },
            Ok(file) => {
                match check_file(&state.lessons, module, &file) {
                    Some(msg) => {
                        proof {
                            lemma_load_files_stops(start, *module, orig, done + 1);
                        }
                        return Err(msg);
                    },
                    None => {},
                }
                let core = is_core_exec(module);
                let listed = file.listed_id;
                if core {
                    let ghost cv = strings_view(state.core_order@);
                    let ghost lv = listed@;
                    state.core_order.push(listed);
                    assert(strings_view(state.core_order@) =~= cv.push(lv));
                }
                state.lessons.push(file.lesson);
            },
        }
        proof {
            done = done + 1;
            assert(rest@ =~= orig.skip(done));
        }
    }
    assert(orig.take(orig.len() as int) =~= orig);
    Ok(())
}

/// The spec state an executable loading state stands for.
spec fn old_loaded(s: Loading) -> Loaded {
    Loaded { lessons: s.lessons@, core_order: strings_view(s.core_order@), modules: s.modules@ }
}

proof fn lemma_load_files_stops(st: Loaded, m: Module, fs: Seq<Result<LessonFile, String>>, n: int)
    requires
        0 < n <= fs.len(),
        load_files(st, m, fs.take(n)) is Err,
    ensures
        load_files(st, m, fs) == load_files(st, m, fs.take(n)),
    decreases fs.len() - n,
{
    if n < fs.len() {
        assert(fs.take(n + 1).drop_last() =~= fs.take(n));
        lemma_load_files_stops(st, m, fs, n + 1);
    } else {
        assert(fs.take(n) =~= fs);
    }
}


/// Where an insertion by id puts `l` into `s`: after every lesson whose id is not greater.
pub open spec fn id_slot(s: Seq<Lesson>, l: Lesson) -> int
    decreases s.len(),
{
    if s.len() == 0 {
        0
    } else if text_less(l.id@, s.last().id@) {
        id_slot(s.drop_last(), l)
    } else {
        s.len() as int
    }
}

/// The lessons in ascending order of id, as inserting them one by one produces.
pub open spec fn by_id(ls: Seq<Lesson>) -> Seq<Lesson>
    decreases ls.len(),
{
    if ls.len() == 0 {
        Seq::empty()
    } else {
        let s = by_id(ls.drop_last());
        s.insert(id_slot(s, ls.last()), ls.last())
    }
}

proof fn lemma_id_slot(s: Seq<Lesson>, l: Lesson)
    ensures
        0 <= id_slot(s, l) <= s.len(),
        forall|i: int| id_slot(s, l) <= i < s.len() ==> text_less(l.id@, #[trigger] s[i].id@),
        id_slot(s, l) > 0 ==> !text_less(l.id@, s[id_slot(s, l) - 1].id@),
    decreases s.len(),
{
    if s.len() > 0 && text_less(l.id@, s.last().id@) {
        lemma_id_slot(s.drop_last(), l);
        let k = id_slot(s, l);
        assert forall|i: int| k <= i < s.len() implies text_less(l.id@, #[trigger] s[i].id@) by {
            if i < s.len() - 1 {
                assert(s.drop_last()[i] == s[i]);
            }
        }
        if k > 0 {
            assert(s.drop_last()[k - 1] == s[k - 1]);
        }
    }
}

/// Sorting by id keeps the lessons: the same number, each drawn from the input, each input
/// found in the output.
#[verifier::rlimit(60)]
pub proof fn lemma_by_id_members(ls: Seq<Lesson>)
    ensures
        by_id(ls).len() == ls.len(),
        forall|i: int| 0 <= i < ls.len() ==> exists|j: int| 0 <= j < ls.len() && #[trigger] by_id(ls)[i] == ls[j],
        forall|j: int| 0 <= j < ls.len() ==> exists|i: int| 0 <= i < ls.len() && by_id(ls)[i] == #[trigger] ls[j],
    decreases ls.len(),
{
    if ls.len() > 0 {
        let rest = ls.drop_last();
        let l = ls.last();
        lemma_by_id_members(rest);
        let s = by_id(rest);
        lemma_id_slot(s, l);
        let k = id_slot(s, l);
        let n = s.insert(k, l);
        assert(n == by_id(ls));
        assert forall|i: int| 0 <= i < ls.len() implies exists|j: int| 0 <= j < ls.len() && #[trigger] n[i] == ls[j] by {
            if i == k {
                assert(n[i] == ls[ls.len() - 1]);
            } else {
                let si = if i < k { i } else { i - 1 };
                assert(n[i] == s[si]);
                let j = choose|j: int| 0 <= j < rest.len() && #[trigger] s[si] == rest[j];
                assert(rest[j] == ls[j]);
            }
        }
        assert forall|j: int| 0 <= j < ls.len() implies exists|i: int| 0 <= i < ls.len() && n[i] == #[trigger] ls[j] by {
            if j == ls.len() - 1 {
                assert(n[k] == ls[j]);
            } else {
                assert(rest[j] == ls[j]);
                let i0 = choose|i: int| 0 <= i < rest.len() && s[i] == #[trigger] rest[j];
                if i0 < k {
                    assert(n[i0] == ls[j]);
                } else {
                    assert(n[i0 + 1] == ls[j]);
                }
            }
        }
    }
}

/// With distinct ids, sorting by id gives strictly ascending ids.
#[verifier::rlimit(60)]
pub proof fn lemma_by_id_sorted(ls: Seq<Lesson>)
    requires
        distinct_ids(ls),
    ensures
        sorted_by_id(by_id(ls)),
    decreases ls.len(),
{
    if ls.len() > 0 {
        let rest = ls.drop_last();
        let l = ls.last();
        assert(distinct_ids(rest)) by {
            assert forall|a: int, b: int| 0 <= a < rest.len() && 0 <= b < rest.len() && a != b implies rest[a].id@ != rest[b].id@ by {
                assert(rest[a] == ls[a] && rest[b] == ls[b]);
            }
        }
        lemma_by_id_sorted(rest);
        lemma_by_id_members(rest);
        let s = by_id(rest);
        lemma_id_slot(s, l);
        let k = id_slot(s, l);
        let n = s.insert(k, l);
        assert(n == by_id(ls));
        assert forall|i: int| 0 <= i < s.len() implies s[i].id@ != l.id@ by {
            let j = choose|j: int| 0 <= j < rest.len() && #[trigger] s[i] == rest[j];
            assert(rest[j] == ls[j]);
        }
        if k > 0 {
            lemma_text_less_total(l.id@, s[k - 1].id@);
        }
        lemma_insert_keeps_sorted(s, l, k);
    }
}

proof fn lemma_insert_keeps_sorted(s: Seq<Lesson>, l: Lesson, k: int)
    requires
        sorted_by_id(s),
        0 <= k <= s.len(),
        forall|i: int| k <= i < s.len() ==> text_less(l.id@, #[trigger] s[i].id@),
        k > 0 ==> text_less(s[k - 1].id@, l.id@),
    ensures
        sorted_by_id(s.insert(k, l)),
{
    let n = s.insert(k, l);
    assert forall|a: int, b: int| 0 <= a < b < n.len() implies text_less(#[trigger] n[a].id@, #[trigger] n[b].id@) by {
        if b < k {
            assert(n[a] == s[a] && n[b] == s[b]);
        } else if a < k && b == k {
            assert(n[a] == s[a]);
            if a < k - 1 {
                lemma_text_less_transitive(s[a].id@, s[k - 1].id@, l.id@);
            }
        } else if a < k && b > k {
            assert(n[a] == s[a] && n[b] == s[b - 1]);
            if a < k - 1 {
                lemma_text_less_transitive(s[a].id@, s[k - 1].id@, l.id@);
            }
            lemma_text_less_transitive(s[a].id@, l.id@, s[b - 1].id@);
        } else if a == k {
            assert(n[b] == s[b - 1]);
        } else {
            assert(n[a] == s[a - 1] && n[b] == s[b - 1]);
        }
    }
}

/// Sorts lessons by id.
fn sort_lessons(lessons: Vec<Lesson>) -> (r: Vec<Lesson>)
    ensures
        r@ == by_id(lessons@),
{
    let ghost orig = lessons@;
    let mut rest = lessons;
    let mut sorted: Vec<Lesson> = Vec::new();
    let ghost mut moved: int = 0;
    assert(orig.take(0) =~= Seq::<Lesson>::empty());
    assert(orig.skip(0) =~= orig);
    while rest.len() > 0
        invariant
            0 <= moved <= orig.len(),
            rest@ == orig.skip(moved),
            sorted@ == by_id(orig.take(moved)),
        decreases rest.len(),
    {
        let l = rest.remove(0);
        assert(l == orig[moved]);
        let mut k: usize = sorted.len();
        assert(sorted@.take(k as int) =~= sorted@);
        while k > 0 && text_less_exec(l.id.as_str(), sorted[k - 1].id.as_str())
            invariant
                k <= sorted@.len(),
                id_slot(sorted@, l) == id_slot(sorted@.take(k as int), l),
            decreases k,
        {
            assert(sorted@.take(k as int).drop_last() =~= sorted@.take(k - 1));
            k -= 1;
        }
        proof {
            if k > 0 {
                assert(sorted@.take(k as int).last() == sorted@[k - 1]);
            }
            assert(orig.take(moved + 1).drop_last() =~= orig.take(moved));
            assert(orig.take(moved + 1).last() == orig[moved]);
        }
        sorted.insert(k, l);
        proof {
            moved = moved + 1;
            assert(rest@ =~= orig.skip(moved));
        }
    }
    assert(orig.take(orig.len() as int) =~= orig);
    sorted
}

/// An issue in spec form: its source and its message.
pub open spec fn issue_view(i: CatalogIssue) -> (Seq<char>, Seq<char>) {
    (i.source@, i.message@)
}

pub open spec fn issues_view(v: Seq<CatalogIssue>) -> Seq<(Seq<char>, Seq<char>)> {
    v.map_values(|i: CatalogIssue| issue_view(i))
}

/// Problems with one prerequisite of lesson `l`.
pub open spec fn prerequisite_problems(l: Lesson, ls: Seq<Lesson>, p: Seq<char>) -> Seq<(Seq<char>, Seq<char>)> {
    (if !has_lesson_id(ls, p) {
        seq![(l.id@, "prerequisite "@ + p + " does not exist"@)]
    } else {
        Seq::empty()
    }) + (if p == l.id@ {
        seq![(l.id@, "lesson lists itself as a prerequisite"@)]
    } else {
        Seq::empty()
    })
}

/// Problems with the first `n` prerequisites of lesson `l`.
pub open spec fn prerequisites_problems(l: Lesson, ls: Seq<Lesson>, n: int) -> Seq<(Seq<char>, Seq<char>)>
    decreases n,
{
    if n <= 0 {
        Seq::empty()
    } else {
        prerequisites_problems(l, ls, n - 1) + prerequisite_problems(l, ls, l.prerequisites@[n - 1]@)
    }
}

/// Registry problems with the first `n` validators of task `t` of lesson `l`.
pub open spec fn validator_problems(l: Lesson, t: Task, reg: Registry, n: int) -> Seq<(Seq<char>, Seq<char>)>
    decreases n,
{
    if n <= 0 {
        Seq::empty()
    } else {
        validator_problems(l, t, reg, n - 1) + match check_spec(reg, t.validators@[n - 1]) {
            Some(e) => seq![(l.id@ + "/"@ + t.id@, error_message(e))],
            None => Seq::empty(),
        }
    }
}

/// Registry problems with the validators of the first `n` tasks of lesson `l`.
pub open spec fn task_problems(l: Lesson, reg: Registry, n: int) -> Seq<(Seq<char>, Seq<char>)>
    decreases n,
{
    if n <= 0 {
        Seq::empty()
    } else {
        let t = l.tasks@[n - 1];
        task_problems(l, reg, n - 1) + validator_problems(l, t, reg, t.validators@.len() as int)
    }
}

/// Whether the task at `n` repeats the id of an earlier task.
pub open spec fn repeats_task_id(ts: Seq<Task>, n: int) -> bool {
    exists|k: int| 0 <= k < n && #[trigger] ts[k].id@ == ts[n].id@
}

/// Repeated task ids among the first `n` tasks of lesson `l`.
pub open spec fn duplicate_task_problems(l: Lesson, n: int) -> Seq<(Seq<char>, Seq<char>)>
    decreases n,
{
    if n <= 0 {
        Seq::empty()
    } else {
        duplicate_task_problems(l, n - 1) + if repeats_task_id(l.tasks@, n - 1) {
            seq![(l.id@, "duplicate task id "@ + l.tasks@[n - 1].id@)]
        } else {
            Seq::empty()
        }
    }
}

/// Everything wrong with one lesson in the catalogue `ls`.
pub open spec fn lesson_problems(l: Lesson, ls: Seq<Lesson>, reg: Registry) -> Seq<(Seq<char>, Seq<char>)> {
    prerequisites_problems(l, ls, l.prerequisites@.len() as int) + task_problems(l, reg, l.tasks@.len() as int)
        + duplicate_task_problems(l, l.tasks@.len() as int)
}

/// Everything wrong with the first `n` lessons of `ls`, in order.
pub open spec fn lessons_problems(ls: Seq<Lesson>, reg: Registry, n: int) -> Seq<(Seq<char>, Seq<char>)>
    decreases n,
{
    if n <= 0 {
        Seq::empty()
    } else {
        lessons_problems(ls, reg, n - 1) + lesson_problems(ls[n - 1], ls, reg)
    }
}


fn push_issue(out: &mut Vec<CatalogIssue>, source: String, message: String)
    ensures
        issues_view(final(out)@) == issues_view(old(out)@).push((source@, message@)),
{
    out.push(CatalogIssue { source, message });
    assert(issues_view(out@) =~= issues_view(old(out)@).push((source@, message@)));
}

/// Appends the problems with lesson `l`'s prerequisites.
fn prerequisite_issues(l: &Lesson, ls: &Vec<Lesson>, out: &mut Vec<CatalogIssue>)
    ensures
        issues_view(final(out)@) == issues_view(old(out)@) + prerequisites_problems(
            *l,
            ls@,
            l.prerequisites@.len() as int,
        ),
{
    let mut n: usize = 0;
    assert(issues_view(out@) =~= issues_view(old(out)@) + prerequisites_problems(*l, ls@, 0));
    while n < l.prerequisites.len()
        invariant
            n <= l.prerequisites@.len(),
            issues_view(out@) == issues_view(old(out)@) + prerequisites_problems(*l, ls@, n as int),
        decreases l.prerequisites.len() - n,
    {
        let ghost before = issues_view(out@);
        let p = l.prerequisites[n].as_str();
        if !has_id_exec(ls, p) {
            let msg = phrase("prerequisite ", p, " does not exist");
            push_issue(out, l.id.clone(), msg);
        }
        let ghost mid = issues_view(out@);
        if same_text(p, l.id.as_str()) {
            push_issue(out, l.id.clone(), owned("lesson lists itself as a prerequisite"));
        }
        proof {
            let e1: Seq<(Seq<char>, Seq<char>)> = if !has_lesson_id(ls@, p@) {
                seq![(l.id@, "prerequisite "@ + p@ + " does not exist"@)]
            } else {
                Seq::empty()
            };
            assert(mid =~= before + e1);
            assert(issues_view(out@) =~= before + prerequisite_problems(*l, ls@, p@));
        }
        n += 1;
    }
}

/// Appends the registry's objections to the validators of lesson `l`'s tasks.
fn validator_issues(l: &Lesson, reg: &Registry, out: &mut Vec<CatalogIssue>)
    ensures
        issues_view(final(out)@) == issues_view(old(out)@) + task_problems(*l, *reg, l.tasks@.len() as int),
{
    let mut n: usize = 0;
    assert(issues_view(out@) =~= issues_view(old(out)@) + task_problems(*l, *reg, 0));
    while n < l.tasks.len()
        invariant
            n <= l.tasks@.len(),
            issues_view(out@) == issues_view(old(out)@) + task_problems(*l, *reg, n as int),
        decreases l.tasks.len() - n,
    {
        let t = &l.tasks[n];
        let ghost start = issues_view(out@);
        let mut m: usize = 0;
        assert(issues_view(out@) =~= start + validator_problems(*l, *t, *reg, 0));
        while m < t.validators.len()
            invariant
                m <= t.validators@.len(),
                issues_view(out@) == start + validator_problems(*l, *t, *reg, m as int),
            decreases t.validators.len() - m,
        {
            let ghost before = issues_view(out@);
            match reg.check(&t.validators[m]) {
                Ok(()) => {
                    assert(issues_view(out@) =~= start + validator_problems(*l, *t, *reg, m + 1));
                },
                Err(e) => {
                    let source = phrase(l.id.as_str(), "/", t.id.as_str());
                    push_issue(out, source, e.message());
                    assert(issues_view(out@) =~= start + validator_problems(*l, *t, *reg, m + 1));
                },
            }
            m += 1;
        }
        assert(issues_view(out@) =~= issues_view(old(out)@) + task_problems(*l, *reg, n + 1));
        n += 1;
    }
}

/// Appends an issue for every task whose id an earlier task already used.
fn duplicate_task_issues(l: &Lesson, out: &mut Vec<CatalogIssue>)
    ensures
        issues_view(final(out)@) == issues_view(old(out)@) + duplicate_task_problems(*l, l.tasks@.len() as int),
{
    let mut n: usize = 0;
    assert(issues_view(out@) =~= issues_view(old(out)@) + duplicate_task_problems(*l, 0));
    while n < l.tasks.len()
        invariant
            n <= l.tasks@.len(),
            issues_view(out@) == issues_view(old(out)@) + duplicate_task_problems(*l, n as int),
        decreases l.tasks.len() - n,
    {
        let mut seen = false;
        let mut k: usize = 0;
        while k < n
            invariant
                k <= n < l.tasks@.len(),
                seen == exists|j: int| 0 <= j < k && #[trigger] l.tasks@[j].id@ == l.tasks@[n as int].id@,
            decreases n - k,
        {
            if same_text(l.tasks[k].id.as_str(), l.tasks[n].id.as_str()) {
                seen = true;
            }
            k += 1;
        }
        if seen {
            let msg = phrase("duplicate task id ", l.tasks[n].id.as_str(), "");
            proof {
                reveal_strlit("");
            }
            push_issue(out, l.id.clone(), msg);
        }
        assert(issues_view(out@) =~= issues_view(old(out)@) + duplicate_task_problems(*l, n + 1));
        n += 1;
    }
}

/// Appends everything wrong with the lessons, lesson by lesson in order.
fn lesson_issues(ls: &Vec<Lesson>, reg: &Registry, out: &mut Vec<CatalogIssue>)
    ensures
        issues_view(final(out)@) == issues_view(old(out)@) + lessons_problems(ls@, *reg, ls@.len() as int),
{
    let mut n: usize = 0;
    assert(issues_view(out@) =~= issues_view(old(out)@) + lessons_problems(ls@, *reg, 0));
    while n < ls.len()
        invariant
            n <= ls@.len(),
            issues_view(out@) == issues_view(old(out)@) + lessons_problems(ls@, *reg, n as int),
        decreases ls.len() - n,
    {
        let ghost start = issues_view(out@);
        prerequisite_issues(&ls[n], ls, out);
        validator_issues(&ls[n], reg, out);
        duplicate_task_issues(&ls[n], out);
        assert(issues_view(out@) =~= start + lesson_problems(ls@[n as int], ls@, *reg));
        assert(issues_view(out@) =~= issues_view(old(out)@) + lessons_problems(ls@, *reg, n + 1));
        n += 1;
    }
}


/// Marks of the depth-first search: not seen, on the current path, finished.
pub open spec fn unseen() -> u8 {
    0
}

pub open spec fn open_mark() -> u8 {
    1
}

pub open spec fn done_mark() -> u8 {
    2
}

/// The state of the depth-first search over prerequisites: a mark per lesson, the current
/// path, and the cycles found so far.
pub struct SearchState {
    pub marks: Seq<u8>,
    pub path: Seq<int>,
    pub cycles: Seq<Seq<Seq<char>>>,
}

/// The position of the first lesson with the id.
pub open spec fn index_of(ls: Seq<Lesson>, id: Seq<char>) -> Option<int>
    decreases ls.len(),
{
    if ls.len() == 0 {
        None
    } else {
        match index_of(ls.drop_last(), id) {
            Some(i) => Some(i),
            None => if ls.last().id@ == id {
                Some(ls.len() - 1)
            } else {
                None
            },
        }
    }
}

/// The first position of `x` in `path`.
pub open spec fn position_in(path: Seq<int>, x: int) -> Option<int>
    decreases path.len(),
{
    if path.len() == 0 {
        None
    } else {
        match position_in(path.drop_last(), x) {
            Some(p) => Some(p),
            None => if path.last() == x {
                Some(path.len() - 1)
            } else {
                None
            },
        }
    }
}

/// The ids along a path.
pub open spec fn path_ids(ls: Seq<Lesson>, path: Seq<int>) -> Seq<Seq<char>> {
    path.map_values(|i: int| ls[i].id@)
}

/// Visits lesson `i`: a finished lesson is skipped; a lesson on the current path closes a
/// cycle, reported from where it started; otherwise its prerequisites are visited in order.
/// `fuel` bounds the depth, and the whole catalogue's size is always enough.
pub open spec fn visit(ls: Seq<Lesson>, i: int, st: SearchState, fuel: nat) -> SearchState
    decreases fuel, 1int, 0int,
{
    if fuel == 0 {
        st
    } else if st.marks[i] == done_mark() {
        st
    } else if st.marks[i] == open_mark() {
        match position_in(st.path, i) {
            Some(p) => SearchState {
                marks: st.marks,
                path: st.path,
                cycles: st.cycles.push(path_ids(ls, st.path.skip(p)).push(ls[i].id@)),
            },
            None => st,
        }
    } else {
        let entered = SearchState { marks: st.marks.update(i, open_mark()), path: st.path.push(i), cycles: st.cycles };
        let after = visit_prerequisites(ls, i, 0, entered, fuel);
        SearchState { marks: after.marks.update(i, done_mark()), path: after.path.drop_last(), cycles: after.cycles }
    }
}

/// Visits the prerequisites of lesson `i` from position `j` on, skipping those not in the
/// catalogue.
pub open spec fn visit_prerequisites(ls: Seq<Lesson>, i: int, j: int, st: SearchState, fuel: nat) -> SearchState
    decreases fuel, 0int, ls[i].prerequisites@.len() - j,
{
    if fuel == 0 || j < 0 || j >= ls[i].prerequisites@.len() {
        st
    } else {
        match index_of(ls, ls[i].prerequisites@[j]@) {
            Some(c) => visit_prerequisites(ls, i, j + 1, visit(ls, c, st, (fuel - 1) as nat), fuel),
            None => visit_prerequisites(ls, i, j + 1, st, fuel),
        }
    }
}

/// Starts a visit from each of the first `n` lessons in turn.
pub open spec fn visit_all(ls: Seq<Lesson>, n: int) -> SearchState
    decreases n,
{
    if n <= 0 {
        SearchState { marks: Seq::new(ls.len(), |k: int| unseen()), path: Seq::empty(), cycles: Seq::empty() }
    } else {
        visit(ls, n - 1, visit_all(ls, n - 1), (ls.len() + 1) as nat)
    }
}

/// The prerequisite cycles of the catalogue, each reported once, as a path of ids that ends
/// where it started.
pub open spec fn prerequisite_cycles(ls: Seq<Lesson>) -> Seq<Seq<Seq<char>>> {
    visit_all(ls, ls.len() as int).cycles
}

/// The issue a cycle is reported as.
pub open spec fn cycle_problem(c: Seq<Seq<char>>) -> (Seq<char>, Seq<char>) {
    (if c.len() > 0 { c[0] } else { Seq::empty() }, "prerequisite cycle: "@ + join(c, " -> "@))
}

/// The last module with the id.
pub open spec fn last_module(ms: Seq<Module>, id: Seq<char>) -> Option<Module>
    decreases ms.len(),
{
    if ms.len() == 0 {
        None
    } else if ms.last().id@ == id {
        Some(ms.last())
    } else {
        last_module(ms.drop_last(), id)
    }
}

/// Where an insertion puts `x` into the ascending list `s`.
pub open spec fn text_slot(s: Seq<Seq<char>>, x: Seq<char>) -> int
    decreases s.len(),
{
    if s.len() == 0 {
        0
    } else if text_less(x, s.last()) {
        text_slot(s.drop_last(), x)
    } else {
        s.len() as int
    }
}

/// The distinct ids, ascending, as inserting them one by one produces.
pub open spec fn distinct_sorted(xs: Seq<Seq<char>>) -> Seq<Seq<char>>
    decreases xs.len(),
{
    if xs.len() == 0 {
        Seq::empty()
    } else {
        let s = distinct_sorted(xs.drop_last());
        if s.contains(xs.last()) {
            s
        } else {
            s.insert(text_slot(s, xs.last()), xs.last())
        }
    }
}

pub open spec fn module_ids(ms: Seq<Module>) -> Seq<Seq<char>> {
    ms.map_values(|m: Module| m.id@)
}

/// Modules, by ascending id, whose manifest lists no lessons; for a repeated id the last
/// manifest counts.
pub open spec fn module_problems(ids: Seq<Seq<char>>, ms: Seq<Module>) -> Seq<(Seq<char>, Seq<char>)>
    decreases ids.len(),
{
    if ids.len() == 0 {
        Seq::empty()
    } else {
        module_problems(ids.drop_last(), ms) + match last_module(ms, ids.last()) {
            Some(m) => if m.lessons@.len() == 0 {
                seq![(ids.last(), "module lists no lessons"@)]
            } else {
                Seq::empty()
            },
            None => Seq::empty(),
        }
    }
}

/// Everything that stops a catalogue from loading: problems with each lesson in id order,
/// then prerequisite cycles, then empty modules.
pub open spec fn catalogue_problems(ls: Seq<Lesson>, ms: Seq<Module>, reg: Registry) -> Seq<(Seq<char>, Seq<char>)> {
    lessons_problems(ls, reg, ls.len() as int) + prerequisite_cycles(ls).map_values(
        |c: Seq<Seq<char>>| cycle_problem(c),
    ) + module_problems(distinct_sorted(module_ids(ms)), ms)
}

/// Notes for lesson authors about one lesson, which do not stop loading.
pub open spec fn lesson_notes(l: Lesson) -> Seq<Seq<char>> {
    (if l.environment.reset_policy == ResetPolicy::PerAttempt && l.environment.setup_script is Some
        && l.environment.reset_script is None {
        seq![l.id@ + " resets per attempt and has a setup script but no reset script, so Reset task cannot restore what setup created"@]
    } else {
        Seq::empty()
    }) + (if l.commands@.len() == 0 {
        seq![l.id@ + " lists no commands, so it will not appear in the command reference"@]
    } else {
        Seq::empty()
    })
}

/// The notes for the first `n` lessons.
pub open spec fn advisory_notes(ls: Seq<Lesson>, n: int) -> Seq<Seq<char>>
    decreases n,
{
    if n <= 0 {
        Seq::empty()
    } else {
        advisory_notes(ls, n - 1) + lesson_notes(ls[n - 1])
    }
}

/// The message for a catalogue that is not consistent.
pub open spec fn inconsistency_message(issues: Seq<(Seq<char>, Seq<char>)>) -> Seq<char> {
    "the lesson catalogue is not consistent:\n  "@ + join(
        issues.map_values(|i: (Seq<char>, Seq<char>)| i.0 + ": "@ + i.1),
        "\n  "@,
    )
}

/// The message when no module was found.
pub open spec fn no_modules_message(root: Seq<char>) -> Seq<char> {
    "no lesson modules found under "@ + root + ". The installation may be incomplete."@
}


proof fn lemma_index_of_prefix(ls: Seq<Lesson>, id: Seq<char>, n: int)
    requires
        0 <= n <= ls.len(),
        index_of(ls.take(n), id) is Some,
    ensures
        index_of(ls, id) == index_of(ls.take(n), id),
    decreases ls.len() - n,
{
    if n < ls.len() {
        assert(ls.take(n + 1).drop_last() =~= ls.take(n));
        lemma_index_of_prefix(ls, id, n + 1);
    } else {
        assert(ls.take(n) =~= ls);
    }
}

proof fn lemma_index_of_bounds(ls: Seq<Lesson>, id: Seq<char>)
    ensures
        index_of(ls, id) matches Some(i) ==> 0 <= i < ls.len() && ls[i].id@ == id,
    decreases ls.len(),
{
    if ls.len() > 0 {
        lemma_index_of_bounds(ls.drop_last(), id);
    }
}

/// The position of the first lesson with the id.
fn index_of_exec(ls: &Vec<Lesson>, id: &str) -> (r: Option<usize>)
    ensures
        r matches Some(k) ==> index_of(ls@, id@) == Some(k as int) && k < ls@.len(),
        r is None ==> index_of(ls@, id@) is None,
{
    let mut k: usize = 0;
    assert(ls@.take(0) =~= Seq::<Lesson>::empty());
    while k < ls.len()
        invariant
            k <= ls@.len(),
            index_of(ls@.take(k as int), id@) is None,
        decreases ls.len() - k,
    {
        assert(ls@.take(k + 1).drop_last() =~= ls@.take(k as int));
        assert(ls@.take(k + 1).last() == ls@[k as int]);
        if same_text(ls[k].id.as_str(), id) {
            proof {
                lemma_index_of_prefix(ls@, id@, k + 1);
            }
            return Some(k);
        }
        k += 1;
    }
    assert(ls@.take(ls@.len() as int) =~= ls@);
    None
}

proof fn lemma_position_prefix(path: Seq<int>, x: int, n: int)
    requires
        0 <= n <= path.len(),
        position_in(path.take(n), x) is Some,
    ensures
        position_in(path, x) == position_in(path.take(n), x),
    decreases path.len() - n,
{
    if n < path.len() {
        assert(path.take(n + 1).drop_last() =~= path.take(n));
        lemma_position_prefix(path, x, n + 1);
    } else {
        assert(path.take(n) =~= path);
    }
}

/// The search state in executable form.
struct Search {
    marks: Vec<u8>,
    path: Vec<usize>,
    cycles: Vec<Vec<String>>,
}

spec fn search_view(s: Search) -> SearchState {
    SearchState {
        marks: s.marks@,
        path: s.path@.map_values(|x: usize| x as int),
        cycles: s.cycles@.map_values(|c: Vec<String>| strings_view(c@)),
    }
}

spec fn search_ok(s: Search, n: int) -> bool {
    &&& s.marks@.len() == n
    &&& forall|k: int| 0 <= k < s.path@.len() ==> (#[trigger] s.path@[k]) < n
}

proof fn lemma_position_bounds(path: Seq<int>, x: int)
    ensures
        position_in(path, x) matches Some(p) ==> 0 <= p < path.len() && path[p] == x,
    decreases path.len(),
{
    if path.len() > 0 {
        lemma_position_bounds(path.drop_last(), x);
    }
}

/// The first position of `x` on the path.
fn position_exec(path: &Vec<usize>, x: usize) -> (r: Option<usize>)
    ensures
        match position_in(path@.map_values(|y: usize| y as int), x as int) {
            Some(p) => r == Some(p as usize) && 0 <= p < path@.len(),
            None => r is None,
        },
{
    let ghost pv = path@.map_values(|y: usize| y as int);
    proof {
        lemma_position_bounds(pv, x as int);
    }
    let mut k: usize = 0;
    assert(pv.take(0) =~= Seq::<int>::empty());
    while k < path.len()
        invariant
            k <= path@.len(),
            pv == path@.map_values(|y: usize| y as int),
            position_in(pv.take(k as int), x as int) is None,
        decreases path.len() - k,
    {
        assert(pv.take(k + 1).drop_last() =~= pv.take(k as int));
        assert(pv.take(k + 1).last() == path@[k as int] as int);
        if path[k] == x {
            proof {
                lemma_position_prefix(pv, x as int, k + 1);
            }
            return Some(k);
        }
        k += 1;
    }
    assert(pv.take(pv.len() as int) =~= pv);
    None
}

/// Visits lesson `i` as [`visit`] describes.
fn visit_exec(ls: &Vec<Lesson>, i: usize, st: &mut Search, fuel: u128)
    requires
        i < ls@.len(),
        search_ok(*old(st), ls@.len() as int),
    ensures
        search_view(*final(st)) == visit(ls@, i as int, search_view(*old(st)), fuel as nat),
        search_ok(*final(st), ls@.len() as int),
        final(st).path@ == old(st).path@,
    decreases fuel, 1int, 0int,
{
    let ghost sv = search_view(*st);
    if fuel == 0 {
        return;
    }
    if st.marks[i] == 2 {
        return;
    }
    if st.marks[i] == 1 {
        match position_exec(&st.path, i) {
            Some(p) => {
                let mut cycle: Vec<String> = Vec::new();
                let mut k: usize = p;
                while k < st.path.len()
                    invariant
                        p <= k <= st.path@.len(),
                        search_ok(*st, ls@.len() as int),
                        strings_view(cycle@) == path_ids(ls@, sv.path.skip(p as int)).take(k - p),
                        sv == search_view(*st),
                    decreases st.path.len() - k,
                {
                    let ghost before = strings_view(cycle@);
                    let idx = st.path[k];
                    cycle.push(ls[idx].id.clone());
                    assert(strings_view(cycle@) =~= before.push(ls@[idx as int].id@));
                    k += 1;
                    assert(strings_view(cycle@) =~= path_ids(ls@, sv.path.skip(p as int)).take(k - p));
                }
                assert(path_ids(ls@, sv.path.skip(p as int)).take(k - p) =~= path_ids(ls@, sv.path.skip(p as int)));
                let ghost before = strings_view(cycle@);
                cycle.push(ls[i].id.clone());
                assert(strings_view(cycle@) =~= before.push(ls@[i as int].id@));
                let ghost cs = search_view(*st).cycles;
                let ghost cv = strings_view(cycle@);
                st.cycles.push(cycle);
                assert(search_view(*st).cycles =~= cs.push(cv));
                assert(search_view(*st).path =~= sv.path);
                assert(search_view(*st).marks =~= sv.marks);
                assert(search_view(*st) == SearchState { marks: sv.marks, path: sv.path, cycles: sv.cycles.push(cv) });
            },
            None => {},
        }
        return;
    }
    st.marks.set(i, 1);
    st.path.push(i);
    let ghost entered = search_view(*st);
    assert(entered.marks =~= sv.marks.update(i as int, open_mark()));
    assert(entered.path =~= sv.path.push(i as int));
    let ghost entered_path = st.path@;
    let mut j: usize = 0;
    while j < ls[i].prerequisites.len()
        invariant
            i < ls@.len(),
            fuel > 0,
            j <= ls@[i as int].prerequisites@.len(),
            search_ok(*st, ls@.len() as int),
            st.path@ == entered_path,
            visit_prerequisites(ls@, i as int, 0, entered, fuel as nat) == visit_prerequisites(
                ls@,
                i as int,
                j as int,
                search_view(*st),
                fuel as nat,
            ),
        decreases ls@[i as int].prerequisites@.len() - j,
    {
        let ghost cur = search_view(*st);
        proof {
            lemma_index_of_bounds(ls@, ls@[i as int].prerequisites@[j as int]@);
            assert(visit_prerequisites(ls@, i as int, j as int, cur, fuel as nat) == match index_of(
                ls@,
                ls@[i as int].prerequisites@[j as int]@,
            ) {
                Some(c) => visit_prerequisites(ls@, i as int, j + 1, visit(ls@, c, cur, (fuel - 1) as nat), fuel as nat),
                None => visit_prerequisites(ls@, i as int, j + 1, cur, fuel as nat),
            });
        }
        let pre = ls[i].prerequisites[j].as_str();
        assert(pre@ == ls@[i as int].prerequisites@[j as int]@);
        let found = index_of_exec(ls, pre);
        match found {
            Some(c) => {
                assert(index_of(ls@, ls@[i as int].prerequisites@[j as int]@) == Some(c as int));
                visit_exec(ls, c, st, fuel - 1);
                assert(search_view(*st) == visit(ls@, c as int, cur, (fuel - 1) as nat));
                assert(visit_prerequisites(ls@, i as int, j as int, cur, fuel as nat)
                    == visit_prerequisites(ls@, i as int, j + 1, search_view(*st), fuel as nat));
            },
            None => {
                assert(visit_prerequisites(ls@, i as int, j as int, cur, fuel as nat)
                    == visit_prerequisites(ls@, i as int, j + 1, search_view(*st), fuel as nat));
            },
        }
        j += 1;
    }
    let ghost after = search_view(*st);
    st.marks.set(i, 2);
    st.path.pop();
    assert(search_view(*st).marks =~= after.marks.update(i as int, done_mark()));
    assert(search_view(*st).path =~= after.path.drop_last());
    assert(st.path@ =~= old(st).path@);
}


/// The prerequisite cycles of the lessons, as [`prerequisite_cycles`] describes.
fn find_cycles(ls: &Vec<Lesson>) -> (r: Vec<Vec<String>>)
    ensures
        r@.map_values(|c: Vec<String>| strings_view(c@)) == prerequisite_cycles(ls@),
{
    let mut marks: Vec<u8> = Vec::new();
    let mut m: usize = 0;
    while m < ls.len()
        invariant
            m <= ls@.len(),
            marks@ == Seq::new(m as nat, |k: int| unseen()),
        decreases ls.len() - m,
    {
        marks.push(0);
        m += 1;
        assert(marks@ =~= Seq::new(m as nat, |k: int| unseen()));
    }
    let mut st = Search { marks, path: Vec::new(), cycles: Vec::new() };
    assert(search_view(st).marks =~= visit_all(ls@, 0).marks);
    assert(search_view(st).path =~= visit_all(ls@, 0).path);
    assert(search_view(st).cycles =~= visit_all(ls@, 0).cycles);
    let fuel: u128 = (ls.len() as u128) + 1;
    let mut n: usize = 0;
    while n < ls.len()
        invariant
            n <= ls@.len(),
            fuel == ls@.len() + 1,
            search_ok(st, ls@.len() as int),
            st.path@.len() == 0,
            search_view(st) == visit_all(ls@, n as int),
        decreases ls.len() - n,
    {
        visit_exec(ls, n, &mut st, fuel);
        n += 1;
    }
    st.cycles
}

/// Appends an issue for each prerequisite cycle.
fn cycle_issues(cycles: &Vec<Vec<String>>, out: &mut Vec<CatalogIssue>)
    ensures
        issues_view(final(out)@) == issues_view(old(out)@) + cycles@.map_values(
            |c: Vec<String>| strings_view(c@),
        ).map_values(|c: Seq<Seq<char>>| cycle_problem(c)),
{
    let ghost cs = cycles@.map_values(|c: Vec<String>| strings_view(c@)).map_values(
        |c: Seq<Seq<char>>| cycle_problem(c),
    );
    let mut n: usize = 0;
    assert(issues_view(out@) =~= issues_view(old(out)@) + cs.take(0));
    while n < cycles.len()
        invariant
            n <= cycles@.len(),
            cs == cycles@.map_values(|c: Vec<String>| strings_view(c@)).map_values(
                |c: Seq<Seq<char>>| cycle_problem(c),
            ),
            issues_view(out@) == issues_view(old(out)@) + cs.take(n as int),
        decreases cycles.len() - n,
    {
        let c = &cycles[n];
        let source = if c.len() > 0 {
            c[0].clone()
        } else {
            String::new()
        };
        let joined = crate::text::join_strings(c, " -> ");
        let msg = phrase("prerequisite cycle: ", joined.as_str(), "");
        proof {
            reveal_strlit("");
        }
        push_issue(out, source, msg);
        assert(cs.take(n + 1) =~= cs.take(n as int).push(cs[n as int]));
        n += 1;
    }
    assert(cs.take(cycles@.len() as int) =~= cs);
}

proof fn lemma_text_slot_bounds(s: Seq<Seq<char>>, x: Seq<char>)
    ensures
        0 <= text_slot(s, x) <= s.len(),
    decreases s.len(),
{
    if s.len() > 0 && text_less(x, s.last()) {
        lemma_text_slot_bounds(s.drop_last(), x);
    }
}

/// The distinct ids of the modules in ascending order.
fn sorted_module_ids(ms: &Vec<Module>) -> (r: Vec<String>)
    ensures
        strings_view(r@) == distinct_sorted(module_ids(ms@)),
{
    let ghost ids = module_ids(ms@);
    let mut out: Vec<String> = Vec::new();
    let mut n: usize = 0;
    assert(ids.take(0) =~= Seq::<Seq<char>>::empty());
    while n < ms.len()
        invariant
            n <= ms@.len(),
            ids == module_ids(ms@),
            strings_view(out@) == distinct_sorted(ids.take(n as int)),
        decreases ms.len() - n,
    {
        let id = ms[n].id.as_str();
        let ghost before = strings_view(out@);
        assert(ids.take(n + 1).drop_last() =~= ids.take(n as int));
        assert(ids.take(n + 1).last() == id@);
        let mut present = false;
        let mut q: usize = 0;
        while q < out.len()
            invariant
                q <= out@.len(),
                before == strings_view(out@),
                present == exists|t: int| 0 <= t < q && before[t] == id@,
            decreases out.len() - q,
        {
            assert(before[q as int] == out@[q as int]@);
            if same_text(out[q].as_str(), id) {
                present = true;
            }
            q += 1;
        }
        assert(present == before.contains(id@));
        if !present {
            let mut k: usize = out.len();
            assert(before.take(k as int) =~= before);
            while k > 0 && text_less_exec(id, out[k - 1].as_str())
                invariant
                    k <= out@.len(),
                    before == strings_view(out@),
                    text_slot(before, id@) == text_slot(before.take(k as int), id@),
                decreases k,
            {
                assert(before.take(k as int).drop_last() =~= before.take(k - 1));
                k -= 1;
            }
            proof {
                if k > 0 {
                    assert(before.take(k as int).last() == before[k - 1]);
                }
            }
            out.insert(k, owned(id));
            assert(strings_view(out@) =~= before.insert(k as int, id@));
        }
        n += 1;
    }
    assert(ids.take(ms@.len() as int) =~= ids);
    out
}

/// The last module with the id.
fn last_module_exec(ms: &Vec<Module>, id: &str) -> (r: Option<usize>)
    ensures
        match last_module(ms@, id@) {
            Some(m) => r matches Some(k) && k < ms@.len() && ms@[k as int] == m,
            None => r is None,
        },
{
    let mut k: usize = ms.len();
    assert(ms@.take(k as int) =~= ms@);
    while k > 0
        invariant
            k <= ms@.len(),
            last_module(ms@, id@) == last_module(ms@.take(k as int), id@),
        decreases k,
    {
        assert(ms@.take(k as int).drop_last() =~= ms@.take(k - 1));
        assert(ms@.take(k as int).last() == ms@[k - 1]);
        if same_text(ms[k - 1].id.as_str(), id) {
            return Some(k - 1);
        }
        k -= 1;
    }
    None
}

/// Appends an issue for each module, by ascending id, that lists no lessons.
fn module_issues(ms: &Vec<Module>, out: &mut Vec<CatalogIssue>)
    ensures
        issues_view(final(out)@) == issues_view(old(out)@) + module_problems(distinct_sorted(module_ids(ms@)), ms@),
{
    let ids = sorted_module_ids(ms);
    let ghost iv = strings_view(ids@);
    let mut n: usize = 0;
    assert(iv.take(0) =~= Seq::<Seq<char>>::empty());
    assert(issues_view(out@) =~= issues_view(old(out)@) + module_problems(iv.take(0), ms@));
    while n < ids.len()
        invariant
            n <= ids@.len(),
            iv == strings_view(ids@),
            issues_view(out@) == issues_view(old(out)@) + module_problems(iv.take(n as int), ms@),
        decreases ids.len() - n,
    {
        assert(iv.take(n + 1).drop_last() =~= iv.take(n as int));
        assert(iv.take(n + 1).last() == ids@[n as int]@);
        match last_module_exec(ms, ids[n].as_str()) {
            Some(k) => {
                if ms[k].lessons.len() == 0 {
                    push_issue(out, ids[n].clone(), owned("module lists no lessons"));
                }
            },
            None => {},
        }
        assert(issues_view(out@) =~= issues_view(old(out)@) + module_problems(iv.take(n + 1), ms@));
        n += 1;
    }
    assert(iv.take(ids@.len() as int) =~= iv);
}

/// Everything that stops the catalogue from loading, as [`catalogue_problems`] describes.
fn catalogue_issues(ls: &Vec<Lesson>, ms: &Vec<Module>, reg: &Registry) -> (r: Vec<CatalogIssue>)
    ensures
        issues_view(r@) == catalogue_problems(ls@, ms@, *reg),
{
    let mut out: Vec<CatalogIssue> = Vec::new();
    assert(issues_view(out@) =~= Seq::<(Seq<char>, Seq<char>)>::empty());
    lesson_issues(ls, reg, &mut out);
    let cycles = find_cycles(ls);
    cycle_issues(&cycles, &mut out);
    module_issues(ms, &mut out);
    assert(issues_view(out@) =~= catalogue_problems(ls@, ms@, *reg));
    out
}

/// The notes for lesson authors, lesson by lesson.
fn notes_for(ls: &Vec<Lesson>) -> (r: Vec<String>)
    ensures
        strings_view(r@) == advisory_notes(ls@, ls@.len() as int),
{
    let mut out: Vec<String> = Vec::new();
    let mut n: usize = 0;
    while n < ls.len()
        invariant
            n <= ls@.len(),
            strings_view(out@) == advisory_notes(ls@, n as int),
        decreases ls.len() - n,
    {
        let l = &ls[n];
        let ghost before = strings_view(out@);
        let per_attempt = match l.environment.reset_policy {
            ResetPolicy::PerAttempt => true,
            _ => false,
        };
        if per_attempt && l.environment.setup_script.is_some() && l.environment.reset_script.is_none() {
            out.push(phrase(l.id.as_str(), " resets per attempt and has a setup script but no reset script, so Reset task cannot restore what setup created", ""));
        }
        let ghost mid = strings_view(out@);
        if l.commands.len() == 0 {
            out.push(phrase(l.id.as_str(), " lists no commands, so it will not appear in the command reference", ""));
        }
        proof {
            reveal_strlit("");
            assert(strings_view(out@) =~= before + lesson_notes(*l));
        }
        n += 1;
    }
    out
}

/// The catalogue of lessons and modules.
#[derive(Debug)]
pub struct Catalog {
    /// Every lesson, in ascending order of id.
    lessons: Vec<Lesson>,
    /// Module manifests in teaching order.
    modules: Vec<Module>,
    /// Core lesson ids in teaching order: the guided path.
    lesson_order: Vec<String>,
    /// Problems that did not stop loading but are worth telling a lesson author about.
    warnings: Vec<String>,
}

impl Catalog {
    /// The lessons, in ascending order of id.
    pub closed spec fn lesson_list(self) -> Seq<Lesson> {
        self.lessons@
    }

    /// The module manifests in teaching order.
    pub closed spec fn module_list(self) -> Seq<Module> {
        self.modules@
    }

    /// The ids of the core lessons in teaching order.
    pub closed spec fn core_ids(self) -> Seq<Seq<char>> {
        strings_view(self.lesson_order@)
    }

    /// The notes for lesson authors.
    pub closed spec fn warning_list(self) -> Seq<Seq<char>> {
        strings_view(self.warnings@)
    }

    /// Checks referential integrity against `registry`: prerequisites resolve and are not the
    /// lesson itself, validators are known, task ids are unique, there are no prerequisite
    /// cycles and no module is empty.
    pub fn integrity_issues(&self, registry: &Registry) -> (r: Vec<CatalogIssue>)
        ensures
            issues_view(r@) == catalogue_problems(self.lesson_list(), self.module_list(), *registry),
    {
        catalogue_issues(&self.lessons, &self.modules, registry)
    }

    /// Builds the catalogue from the module manifests found under `root`, each with its lesson
    /// files. Modules are taken core pack first, then by number; each lesson must carry the id
    /// its module lists and name that module; ids may not repeat; and then every lesson's
    /// prerequisites must exist and form no cycle, every validator must satisfy the registry,
    /// task ids may not repeat within a lesson, and every module must list a lesson.
    pub fn assemble(root: &str, packages: Vec<ModulePackage>, registry: &Registry) -> (r: Result<Catalog, String>)
        ensures
            packages@.len() == 0 ==> (r matches Err(m) && m@ == no_modules_message(root@)),
            packages@.len() > 0 ==> match load_packages(teaching_order(packages@)) {
                Err(e) => r matches Err(m) && m@ == e,
                Ok(st) => {
                    let problems = catalogue_problems(by_id(st.lessons), st.modules, *registry);
                    if problems.len() > 0 {
                        r matches Err(m) && m@ == inconsistency_message(problems)
                    } else {
                        r matches Ok(c) && c.lesson_list() == by_id(st.lessons) && c.module_list()
                            == st.modules && c.core_ids() == st.core_order && c.warning_list()
                            == advisory_notes(by_id(st.lessons), st.lessons.len() as int)
                    }
                },
            },
            r matches Ok(c) ==> sorted_by_id(c.lesson_list()),
            r matches Ok(c) ==> catalogue_problems(c.lesson_list(), c.module_list(), *registry).len() == 0,
    {
        if packages.len() == 0 {
            let msg = phrase("no lesson modules found under ", root, ". The installation may be incomplete.");
            return Err(msg);
        }
        let sorted = sort_packages(packages);
        let ghost order = sorted@;
        let mut state = Loading { lessons: Vec::new(), core_order: Vec::new(), modules: Vec::new() };
        let mut rest = sorted;
        let ghost mut done: int = 0;
        assert(order.take(0) =~= Seq::<ModulePackage>::empty());
        assert(order.skip(0) =~= order);
        assert(strings_view(state.core_order@) =~= Seq::<Seq<char>>::empty());
        while rest.len() > 0
            invariant
                0 <= done <= order.len(),
                packages@.len() > 0,
                order == teaching_order(packages@),
                rest@ == order.skip(done),
                load_packages(order.take(done)) == Ok::<Loaded, Seq<char>>(old_loaded(state)),
                state.matches(old_loaded(state)),
            decreases rest.len(),
        {
            let package = rest.remove(0);
            assert(package == order[done]);
            assert(order.take(done + 1).drop_last() =~= order.take(done));
            assert(order.take(done + 1).last() == order[done]);
            let module = package.module;
            match load_package_files(&mut state, &module, package.lessons) {
                Ok(()) => {},
                Err(e) => {
                    proof {
                        lemma_load_packages_stops(order, done + 1);
                    }
                    return Err(e);
                },
            }
            let ghost mv = state.modules@;
            state.modules.push(module);
            assert(state.modules@ =~= mv.push(order[done].module));
            proof {
                done = done + 1;
                assert(rest@ =~= order.skip(done));
            }
        }
        assert(order.take(order.len() as int) =~= order);
        proof {
            lemma_loaded_ids_distinct(order);
            lemma_by_id_sorted(state.lessons@);
            lemma_by_id_members(state.lessons@);
        }
        let lessons = sort_lessons(state.lessons);
        let issues = catalogue_issues(&lessons, &state.modules, registry);
        if issues.len() > 0 {
            let mut rendered: Vec<String> = Vec::new();
            let mut n: usize = 0;
            while n < issues.len()
                invariant
                    n <= issues@.len(),
                    strings_view(rendered@) == issues_view(issues@).take(n as int).map_values(
                        |i: (Seq<char>, Seq<char>)| i.0 + ": "@ + i.1,
                    ),
                decreases issues.len() - n,
            {
                let ghost before = strings_view(rendered@);
                let line = issues[n].to_string();
                let ghost iv = issues_view(issues@);
                assert(iv[n as int] == (issues@[n as int].source@, issues@[n as int].message@));
                assert(iv.take(n + 1) =~= iv.take(n as int).push(iv[n as int]));
                rendered.push(line);
                assert(strings_view(rendered@) =~= before.push(line@));
                assert(strings_view(rendered@) =~= issues_view(issues@).take(n + 1).map_values(
                    |i: (Seq<char>, Seq<char>)| i.0 + ": "@ + i.1,
                ));
                n += 1;
            }
            assert(issues_view(issues@).take(issues@.len() as int) =~= issues_view(issues@));
            let joined = crate::text::join_strings(&rendered, "\n  ");
            let msg = phrase("the lesson catalogue is not consistent:\n  ", joined.as_str(), "");
            proof {
                reveal_strlit("");
            }
            return Err(msg);
        }
        let warnings = notes_for(&lessons);
        Ok(Catalog { lessons, modules: state.modules, lesson_order: state.core_order, warnings })
    }
}

proof fn lemma_load_packages_stops(ps: Seq<ModulePackage>, n: int)
    requires
        0 < n <= ps.len(),
        load_packages(ps.take(n)) is Err,
    ensures
        load_packages(ps) == load_packages(ps.take(n)),
    decreases ps.len() - n,
{
    if n < ps.len() {
        assert(ps.take(n + 1).drop_last() =~= ps.take(n));
        lemma_load_packages_stops(ps, n + 1);
    } else {
        assert(ps.take(n) =~= ps);
    }
}


/// The lessons of `ids`, in order, that the catalogue holds.
pub open spec fn lessons_of(ls: Seq<Lesson>, ids: Seq<Seq<char>>) -> Seq<Lesson> {
    filter_map_spec(ids, |id: Seq<char>| match index_of(ls, id) {
        Some(i) => Some(ls[i]),
        None => None,
    })
}

/// Whether the lesson exercises the command.
pub open spec fn uses_command(l: Lesson, command: Seq<char>) -> bool {
    strings_view(l.commands@).contains(command)
}

/// Every command any lesson lists.
pub open spec fn commands_of(ls: Seq<Lesson>) -> Set<Seq<char>> {
    Set::new(|c: Seq<char>| exists|i: int| 0 <= i < ls.len() && uses_command(#[trigger] ls[i], c))
}

impl Catalog {
    /// The lesson with the id, if the catalogue holds one.
    pub open spec fn find_lesson(self, id: Seq<char>) -> Option<Lesson> {
        match index_of(self.lesson_list(), id) {
            Some(i) => Some(self.lesson_list()[i]),
            None => None,
        }
    }

    /// The lesson with the id.
    pub fn lesson(&self, id: &str) -> (r: Option<&Lesson>)
        ensures
            match self.find_lesson(id@) {
                Some(l) => r == Some(&l),
                None => r is None,
            },
    {
        match index_of_exec(&self.lessons, id) {
            Some(i) => Some(&self.lessons[i]),
            None => None,
        }
    }

    /// The lesson with the id, or an error naming it.
    pub fn try_lesson(&self, id: &str) -> (r: Result<&Lesson, String>)
        ensures
            match self.find_lesson(id@) {
                Some(l) => r == Ok::<&Lesson, String>(&l),
                None => r matches Err(m) && m@ == "no lesson with id "@ + id@,
            },
    {
        match self.lesson(id) {
            Some(l) => Ok(l),
            None => {
                let mut m = owned("no lesson with id ");
                append(&mut m, id);
                Err(m)
            },
        }
    }

    /// The manifest of the module with the id; for a repeated id, the one loaded last.
    pub fn module(&self, id: &str) -> (r: Option<&Module>)
        ensures
            match last_module(self.module_list(), id@) {
                Some(m) => r == Some(&m),
                None => r is None,
            },
    {
        match last_module_exec(&self.modules, id) {
            Some(k) => Some(&self.modules[k]),
            None => None,
        }
    }

    /// The modules in teaching order.
    pub fn modules(&self) -> (r: Vec<&Module>)
        ensures
            r@.len() == self.module_list().len(),
            forall|i: int|
                0 <= i < r@.len() ==> last_module(self.module_list(), self.module_list()[i].id@)
                    == Some(*#[trigger] r@[i]),
    {
        let mut out: Vec<&Module> = Vec::new();
        let mut n: usize = 0;
        while n < self.modules.len()
            invariant
                n <= self.modules@.len(),
                out@.len() == n,
                forall|i: int|
                    0 <= i < n ==> last_module(self.modules@, self.modules@[i].id@) == Some(*#[trigger] out@[i]),
            decreases self.modules.len() - n,
        {
            match last_module_exec(&self.modules, self.modules[n].id.as_str()) {
                Some(k) => out.push(&self.modules[k]),
                None => {
                    proof {
                        lemma_last_module_found(self.modules@, n as int);
                    }
                    out.push(&self.modules[n]);
                },
            }
            n += 1;
        }
        out
    }

    /// The core lessons in teaching order.
    pub fn lessons(&self) -> (r: Vec<&Lesson>)
        ensures
            r@.map_values(|l: &Lesson| *l) == lessons_of(self.lesson_list(), self.core_ids()),
    {
        let ghost f = |id: Seq<char>| match index_of(self.lessons@, id) {
            Some(i) => Some(self.lessons@[i]),
            None => None,
        };
        let ghost ids = strings_view(self.lesson_order@);
        let mut out: Vec<&Lesson> = Vec::new();
        let mut n: usize = 0;
        while n < self.lesson_order.len()
            invariant
                n <= self.lesson_order@.len(),
                ids == strings_view(self.lesson_order@),
                f == (|id: Seq<char>| match index_of(self.lessons@, id) {
                    Some(i) => Some(self.lessons@[i]),
                    None => None,
                }),
                out@.map_values(|l: &Lesson| *l) == filter_map_spec(ids.take(n as int), f),
            decreases self.lesson_order.len() - n,
        {
            proof {
                lemma_filter_map_step(ids, f, n as int);
            }
            let ghost before = out@.map_values(|l: &Lesson| *l);
            match index_of_exec(&self.lessons, self.lesson_order[n].as_str()) {
                Some(i) => {
                    out.push(&self.lessons[i]);
                    assert(out@.map_values(|l: &Lesson| *l) =~= before.push(self.lessons@[i as int]));
                },
                None => {},
            }
            n += 1;
        }
        assert(ids.take(ids.len() as int) =~= ids);
        out
    }

    /// The core lesson ids in teaching order: the guided path.
    pub fn core_lesson_ids(&self) -> (r: &Vec<String>)
        ensures
            strings_view(r@) == self.core_ids(),
    {
        &self.lesson_order
    }

    /// How many lessons the catalogue holds, core and optional.
    pub fn lesson_count(&self) -> (r: usize)
        ensures
            r == self.lesson_list().len(),
    {
        self.lessons.len()
    }

    /// How many lessons are on the guided path.
    pub fn core_lesson_count(&self) -> (r: usize)
        ensures
            r == self.core_ids().len(),
    {
        self.lesson_order.len()
    }

    /// The notes for lesson authors.
    pub fn warnings(&self) -> (r: &Vec<String>)
        ensures
            strings_view(r@) == self.warning_list(),
    {
        &self.warnings
    }

    /// Every command the curriculum touches, ascending and each once.
    pub fn all_commands(&self) -> (r: Vec<String>)
        ensures
            strictly_sorted(strings_view(r@)),
            strings_view(r@).to_set() == commands_of(self.lesson_list()),
    {
        let mut out: Vec<String> = Vec::new();
        let mut n: usize = 0;
        assert(strings_view(out@).to_set() =~= commands_of(self.lessons@.take(0)));
        while n < self.lessons.len()
            invariant
                n <= self.lessons@.len(),
                strictly_sorted(strings_view(out@)),
                strings_view(out@).to_set() == commands_of(self.lessons@.take(n as int)),
            decreases self.lessons.len() - n,
        {
            let l = &self.lessons[n];
            let ghost start = strings_view(out@).to_set();
            let mut c: usize = 0;
            while c < l.commands.len()
                invariant
                    c <= l.commands@.len(),
                    strictly_sorted(strings_view(out@)),
                    strings_view(out@).to_set() == start.union(strings_view(l.commands@).take(c as int).to_set()),
                decreases l.commands.len() - c,
            {
                let ghost cv = strings_view(l.commands@);
                insert_sorted(&mut out, l.commands[c].clone());
                proof {
                    lemma_take_to_set(cv, c as int);
                }
                assert(strings_view(out@).to_set() =~= start.union(cv.take(c + 1).to_set()));
                c += 1;
            }
            proof {
                let cv = strings_view(l.commands@);
                assert(cv.take(cv.len() as int) =~= cv);
                let prev = self.lessons@.take(n as int);
                let next = self.lessons@.take(n + 1);
                assert forall|x: Seq<char>| #[trigger] commands_of(next).contains(x) == start.union(cv.to_set()).contains(x) by {
                    if commands_of(next).contains(x) {
                        let i = choose|i: int| 0 <= i < next.len() && uses_command(#[trigger] next[i], x);
                        if i < n {
                            assert(prev[i] == next[i]);
                            assert(commands_of(prev).contains(x));
                        } else {
                            assert(next[i] == *l);
                        }
                    }
                    if start.union(cv.to_set()).contains(x) {
                        if start.contains(x) {
                            let i = choose|i: int| 0 <= i < prev.len() && uses_command(#[trigger] prev[i], x);
                            assert(next[i] == prev[i]);
                        } else {
                            assert(next[n as int] == *l);
                            assert(uses_command(next[n as int], x));
                        }
                    }
                }
                assert(commands_of(next) =~= start.union(cv.to_set()));
            }
            n += 1;
        }
        assert(self.lessons@.take(self.lessons@.len() as int) =~= self.lessons@);
        out
    }

    /// The core lessons, in teaching order, that exercise the command.
    pub fn lessons_for_command(&self, command: &str) -> (r: Vec<&Lesson>)
        ensures
            r@.map_values(|l: &Lesson| *l) == lessons_of(self.lesson_list(), self.core_ids()).filter(
                |l: Lesson| uses_command(l, command@),
            ),
    {
        let all = self.lessons();
        let ghost av = all@.map_values(|l: &Lesson| *l);
        let mut out: Vec<&Lesson> = Vec::new();
        let mut n: usize = 0;
        while n < all.len()
            invariant
                n <= all@.len(),
                av == all@.map_values(|l: &Lesson| *l),
                out@.map_values(|l: &Lesson| *l) == av.take(n as int).filter(|l: Lesson| uses_command(l, command@)),
            decreases all.len() - n,
        {
            let l = all[n];
            let ghost before = out@.map_values(|l: &Lesson| *l);
            assert(av.take(n + 1).drop_last() =~= av.take(n as int));
            reveal(Seq::filter);
            let mut found = false;
            let mut c: usize = 0;
            while c < l.commands.len()
                invariant
                    c <= l.commands@.len(),
                    found == exists|k: int| 0 <= k < c && #[trigger] l.commands@[k]@ == command@,
                decreases l.commands.len() - c,
            {
                if same_text(l.commands[c].as_str(), command) {
                    found = true;
                }
                c += 1;
            }
            proof {
                let cv = strings_view(l.commands@);
                if found {
                    let k = choose|k: int| 0 <= k < l.commands@.len() && #[trigger] l.commands@[k]@ == command@;
                    assert(cv[k] == command@);
                } else {
                    assert forall|k: int| 0 <= k < cv.len() implies cv[k] != command@ by {
                        assert(cv[k] == l.commands@[k]@);
                    }
                }
                assert(found == uses_command(*l, command@));
            }
            if found {
                out.push(l);
                assert(out@.map_values(|l: &Lesson| *l) =~= before.push(*l));
            }
            n += 1;
        }
        assert(av.take(av.len() as int) =~= av);
        out
    }
}

pub proof fn lemma_take_to_set(cv: Seq<Seq<char>>, c: int)
    requires
        0 <= c < cv.len(),
    ensures
        cv.take(c + 1).to_set() == cv.take(c).to_set().insert(cv[c]),
{
    let a = cv.take(c + 1);
    let b = cv.take(c);
    assert forall|x: Seq<char>| a.to_set().contains(x) == b.to_set().insert(cv[c]).contains(x) by {
        if a.contains(x) {
            let i = choose|i: int| 0 <= i < a.len() && a[i] == x;
            if i < c {
                assert(b[i] == x);
            }
        }
        if b.contains(x) {
            let i = choose|i: int| 0 <= i < b.len() && b[i] == x;
            assert(a[i] == x);
        }
        if x == cv[c] {
            assert(a[c] == x);
        }
    }
    assert(a.to_set() =~= b.to_set().insert(cv[c]));
}

proof fn lemma_last_module_found(ms: Seq<Module>, n: int)
    requires
        0 <= n < ms.len(),
    ensures
        last_module(ms, ms[n].id@) is Some,
    decreases ms.len(),
{
    if n < ms.len() - 1 && ms.last().id@ != ms[n].id@ {
        assert(ms.drop_last()[n] == ms[n]);
        lemma_last_module_found(ms.drop_last(), n);
    }
}


proof fn lemma_no_prerequisite_problems(l: Lesson, ls: Seq<Lesson>, n: int)
    requires
        0 <= n <= l.prerequisites@.len(),
        prerequisites_problems(l, ls, n).len() == 0,
    ensures
        forall|j: int| 0 <= j < n ==> has_lesson_id(ls, #[trigger] l.prerequisites@[j]@) && l.prerequisites@[j]@ != l.id@,
    decreases n,
{
    if n > 0 {
        lemma_no_prerequisite_problems(l, ls, n - 1);
        let p = l.prerequisites@[n - 1]@;
        if !has_lesson_id(ls, p) {
            assert(prerequisite_problems(l, ls, p).len() > 0);
        }
        if p == l.id@ {
            assert(prerequisite_problems(l, ls, p).len() > 0);
        }
    }
}

proof fn lemma_no_validator_problems(l: Lesson, t: Task, reg: Registry, n: int)
    requires
        0 <= n <= t.validators@.len(),
        validator_problems(l, t, reg, n).len() == 0,
    ensures
        forall|v: int| 0 <= v < n ==> check_spec(reg, #[trigger] t.validators@[v]) is None,
    decreases n,
{
    if n > 0 {
        lemma_no_validator_problems(l, t, reg, n - 1);
    }
}

proof fn lemma_no_task_problems(l: Lesson, reg: Registry, n: int)
    requires
        0 <= n <= l.tasks@.len(),
        task_problems(l, reg, n).len() == 0,
    ensures
        forall|t: int, v: int|
            0 <= t < n && 0 <= v < l.tasks@[t].validators@.len() ==> check_spec(reg, #[trigger] l.tasks@[t].validators@[v]) is None,
    decreases n,
{
    if n > 0 {
        lemma_no_task_problems(l, reg, n - 1);
        let t = l.tasks@[n - 1];
        lemma_no_validator_problems(l, t, reg, t.validators@.len() as int);
    }
}

proof fn lemma_no_duplicate_tasks(l: Lesson, n: int)
    requires
        0 <= n <= l.tasks@.len(),
        duplicate_task_problems(l, n).len() == 0,
    ensures
        forall|a: int, b: int| 0 <= a < b < n ==> #[trigger] l.tasks@[a].id@ != #[trigger] l.tasks@[b].id@,
    decreases n,
{
    if n > 0 {
        lemma_no_duplicate_tasks(l, n - 1);
        assert(!repeats_task_id(l.tasks@, n - 1));
        assert forall|a: int, b: int| 0 <= a < b < n implies #[trigger] l.tasks@[a].id@ != #[trigger] l.tasks@[b].id@ by {
            if b == n - 1 {
                if l.tasks@[a].id@ == l.tasks@[b].id@ {
                    assert(repeats_task_id(l.tasks@, n - 1));
                }
            }
        }
    }
}

proof fn lemma_no_lesson_problems(ls: Seq<Lesson>, reg: Registry, n: int)
    requires
        0 <= n <= ls.len(),
        lessons_problems(ls, reg, n).len() == 0,
    ensures
        forall|i: int| 0 <= i < n ==> (#[trigger] lesson_problems(ls[i], ls, reg)).len() == 0,
    decreases n,
{
    if n > 0 {
        lemma_no_lesson_problems(ls, reg, n - 1);
    }
}

/// In a consistent catalogue every prerequisite names a lesson of the catalogue and never the
/// lesson itself, every validator satisfies the registry, no lesson repeats a task id, and no
/// prerequisite cycle was found.
pub proof fn lemma_consistent_catalogue(ls: Seq<Lesson>, ms: Seq<Module>, reg: Registry)
    requires
        catalogue_problems(ls, ms, reg).len() == 0,
    ensures
        forall|i: int, j: int|
            0 <= i < ls.len() && 0 <= j < ls[i].prerequisites@.len() ==> has_lesson_id(ls, #[trigger] ls[i].prerequisites@[j]@)
                && ls[i].prerequisites@[j]@ != ls[i].id@,
        forall|i: int, t: int, v: int|
            0 <= i < ls.len() && 0 <= t < ls[i].tasks@.len() && 0 <= v < ls[i].tasks@[t].validators@.len()
                ==> check_spec(reg, #[trigger] ls[i].tasks@[t].validators@[v]) is None,
        forall|i: int, a: int, b: int|
            0 <= i < ls.len() && 0 <= a < b < ls[i].tasks@.len() ==> #[trigger] ls[i].tasks@[a].id@ != #[trigger] ls[i].tasks@[b].id@,
        prerequisite_cycles(ls).len() == 0,
{
    lemma_no_lesson_problems(ls, reg, ls.len() as int);
    assert forall|i: int, j: int|
        0 <= i < ls.len() && 0 <= j < ls[i].prerequisites@.len() implies has_lesson_id(ls, #[trigger] ls[i].prerequisites@[j]@)
            && ls[i].prerequisites@[j]@ != ls[i].id@ by {
        assert(lesson_problems(ls[i], ls, reg).len() == 0);
        lemma_no_prerequisite_problems(ls[i], ls, ls[i].prerequisites@.len() as int);
    }
    assert forall|i: int, t: int, v: int|
        0 <= i < ls.len() && 0 <= t < ls[i].tasks@.len() && 0 <= v < ls[i].tasks@[t].validators@.len()
            implies check_spec(reg, #[trigger] ls[i].tasks@[t].validators@[v]) is None by {
        assert(lesson_problems(ls[i], ls, reg).len() == 0);
        lemma_no_task_problems(ls[i], reg, ls[i].tasks@.len() as int);
    }
    assert forall|i: int, a: int, b: int|
        0 <= i < ls.len() && 0 <= a < b < ls[i].tasks@.len() implies #[trigger] ls[i].tasks@[a].id@ != #[trigger] ls[i].tasks@[b].id@ by {
        assert(lesson_problems(ls[i], ls, reg).len() == 0);
        lemma_no_duplicate_tasks(ls[i], ls[i].tasks@.len() as int);
    }
}

} // verus!
