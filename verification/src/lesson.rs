//! Lesson package types.
use crate::text::{
    copy_optional, copy_strings, join, lemma_text_less_irreflexive, lemma_text_less_total, lemma_text_less_transitive,
    lowercase_of, owned, same_text, string_of, strings_view, text_less, text_less_exec, to_lowercase,
    words, words_of,
};
use vstd::prelude::*;

verus! {

#[derive(Debug, Clone, Copy, PartialEq, Eq, Structural, Hash)]
pub enum LessonLevel {
    Orientation,
    Beginner,
    Foundation,
    Intermediate,
    Advanced,
    Administrator,
    Troubleshooting,
    Capstone,
}

#[derive(Debug, Clone, Copy, PartialEq, Eq, Structural, Hash)]
pub enum LessonType {
    Concept,
    Demonstration,
    GuidedPractice,
    IndependentPractice,
    Debugging,
    Scenario,
    Review,
    Assessment,
    Capstone,
}

impl LessonType {
    pub open spec fn hides_hints_spec(self) -> bool {
        self == LessonType::Assessment || self == LessonType::Capstone
    }

    /// Assessment-style lessons hide hints and worked examples.
    pub fn hides_hints(self) -> (r: bool)
        ensures
            r == self.hides_hints_spec(),
    {
        match self {
            LessonType::Assessment | LessonType::Capstone => true,
            _ => false,
        }
    }
}

#[derive(Debug, Clone, Copy, PartialEq, Eq, Structural)]
pub enum ResetPolicy {
    PerAttempt,
    PerLesson,
    Manual,
    Never,
}

#[derive(Debug, Clone, Copy, PartialEq, Eq, Structural)]
pub enum NetworkMode {
    Disabled,
    InternalLab,
    RestrictedInternet,
}

#[derive(Debug, Clone, PartialEq, Eq)]
pub struct LessonEnvironment {
    pub profile: String,
    pub reset_policy: ResetPolicy,
    pub network_mode: NetworkMode,
    pub sudo_allowed: bool,
    pub dangerous_allowed: bool,
    pub memory_mb: Option<u32>,
    pub namespaces: Vec<String>,
    pub setup_script: Option<String>,
    pub reset_script: Option<String>,
    pub fixtures: Vec<String>,
}

#[derive(Debug, Clone, PartialEq, Eq)]
pub struct Demonstration {
    pub command: String,
    pub explanation: Option<String>,
    pub output: Option<String>,
}

#[derive(Debug, Clone, PartialEq, Eq)]
pub struct CommandOption {
    pub option: String,
    pub meaning: String,
}

#[derive(Debug, Clone, PartialEq, Eq)]
pub struct LessonSummary {
    pub remember: Vec<String>,
    pub common_options: Vec<CommandOption>,
    pub dangerous: Vec<String>,
    pub related: Vec<String>,
}

#[derive(Debug, Clone, PartialEq, Eq)]
pub struct LessonContent {
    pub purpose: String,
    pub mental_model: String,
    pub syntax: Vec<String>,
    pub demonstration: Vec<Demonstration>,
    pub explanation_markdown: Option<String>,
    pub summary: Option<LessonSummary>,
}


impl LessonEnvironment {
    /// Field by field equal, lists by their elements.
    pub open spec fn same_as(self, other: LessonEnvironment) -> bool {
        &&& self.profile == other.profile
        &&& self.reset_policy == other.reset_policy
        &&& self.network_mode == other.network_mode
        &&& self.sudo_allowed == other.sudo_allowed
        &&& self.dangerous_allowed == other.dangerous_allowed
        &&& self.memory_mb == other.memory_mb
        &&& self.namespaces@ == other.namespaces@
        &&& self.setup_script == other.setup_script
        &&& self.reset_script == other.reset_script
        &&& self.fixtures@ == other.fixtures@
    }

    /// An equal copy.
    pub fn duplicate(&self) -> (r: LessonEnvironment)
        ensures
            r.same_as(*self),
    {
        LessonEnvironment {
            profile: self.profile.clone(),
            reset_policy: self.reset_policy,
            network_mode: self.network_mode,
            sudo_allowed: self.sudo_allowed,
            dangerous_allowed: self.dangerous_allowed,
            memory_mb: self.memory_mb,
            namespaces: copy_strings(&self.namespaces),
            setup_script: copy_optional(&self.setup_script),
            reset_script: copy_optional(&self.reset_script),
            fixtures: copy_strings(&self.fixtures),
        }
    }
}

impl Demonstration {
    /// An equal copy.
    pub fn duplicate(&self) -> (r: Demonstration)
        ensures
            r == *self,
    {
        Demonstration {
            command: self.command.clone(),
            explanation: copy_optional(&self.explanation),
            output: copy_optional(&self.output),
        }
    }
}

/// An element-for-element copy of a list of demonstrations.
pub fn copy_demonstrations(v: &Vec<Demonstration>) -> (r: Vec<Demonstration>)
    ensures
        r@ == v@,
{
    let mut r: Vec<Demonstration> = Vec::new();
    let mut i: usize = 0;
    while i < v.len()
        invariant
            i <= v@.len(),
            r@ == v@.take(i as int),
        decreases v.len() - i,
    {
        r.push(v[i].duplicate());
        i += 1;
        assert(r@ =~= v@.take(i as int));
    }
    assert(v@.take(v@.len() as int) =~= v@);
    r
}

impl LessonSummary {
    /// Field by field equal, lists by their elements.
    pub open spec fn same_as(self, other: LessonSummary) -> bool {
        &&& self.remember@ == other.remember@
        &&& self.common_options@ == other.common_options@
        &&& self.dangerous@ == other.dangerous@
        &&& self.related@ == other.related@
    }

    /// An equal copy.
    pub fn duplicate(&self) -> (r: LessonSummary)
        ensures
            r.same_as(*self),
    {
        let mut options: Vec<CommandOption> = Vec::new();
        let mut i: usize = 0;
        while i < self.common_options.len()
            invariant
                i <= self.common_options@.len(),
                options@ == self.common_options@.take(i as int),
            decreases self.common_options.len() - i,
        {
            let o = &self.common_options[i];
            options.push(CommandOption { option: o.option.clone(), meaning: o.meaning.clone() });
            i += 1;
            assert(options@ =~= self.common_options@.take(i as int));
        }
        assert(self.common_options@.take(self.common_options@.len() as int) =~= self.common_options@);
        LessonSummary {
            remember: copy_strings(&self.remember),
            common_options: options,
            dangerous: copy_strings(&self.dangerous),
            related: copy_strings(&self.related),
        }
    }
}

#[derive(Debug, Clone, Copy, PartialEq, Eq, Structural)]
pub enum TaskKind {
    Guided,
    Independent,
    Mistake,
    Applied,
    Assessment,
}

/// A validator parameter value: a JSON value.
#[derive(Debug, Clone, PartialEq, Eq)]
pub enum ParamValue {
    Null,
    Bool(bool),
    /// A JSON number that is an integer within `i64`.
    Integer(i64),
    /// A JSON integer above `i64::MAX`.
    Unsigned(u64),
    /// Any other JSON number, kept as its text.
    Decimal(String),
    String(String),
    Array(Vec<ArrayItem>),
    /// A JSON object, kept as its JSON text.
    Object(String),
}

/// An element of a JSON array.
#[derive(Debug, Clone, PartialEq, Eq)]
pub enum ArrayItem {
    /// A JSON string.
    Text(String),
    /// Any other JSON value, kept as its JSON text.
    Json(String),
}

impl ParamValue {
    /// Equal values, arrays compared by their elements.
    pub open spec fn same_as(self, other: ParamValue) -> bool {
        match (self, other) {
            (ParamValue::Array(a), ParamValue::Array(b)) => a@ == b@,
            _ => self == other,
        }
    }

    /// An equal copy.
    pub fn duplicate(&self) -> (r: ParamValue)
        ensures
            r.same_as(*self),
    {
        match self {
            ParamValue::Null => ParamValue::Null,
            ParamValue::Bool(b) => ParamValue::Bool(*b),
            ParamValue::Integer(n) => ParamValue::Integer(*n),
            ParamValue::Unsigned(n) => ParamValue::Unsigned(*n),
            ParamValue::Decimal(t) => ParamValue::Decimal(t.clone()),
            ParamValue::String(t) => ParamValue::String(t.clone()),
            ParamValue::Array(items) => {
                let mut out: Vec<ArrayItem> = Vec::new();
                let mut i: usize = 0;
                while i < items.len()
                    invariant
                        i <= items@.len(),
                        out@ == items@.take(i as int),
                    decreases items.len() - i,
                {
                    let item = match &items[i] {
                        ArrayItem::Text(t) => ArrayItem::Text(t.clone()),
                        ArrayItem::Json(t) => ArrayItem::Json(t.clone()),
                    };
                    out.push(item);
                    i += 1;
                    assert(out@ =~= items@.take(i as int));
                }
                assert(items@.take(items@.len() as int) =~= items@);
                ParamValue::Array(out)
            },
            ParamValue::Object(t) => ParamValue::Object(t.clone()),
        }
    }
    /// `serde_json::Value::as_str`.
    pub fn as_str(&self) -> (r: Option<&str>)
        ensures
            r matches Some(s) ==> self matches ParamValue::String(t) && s@ == t@,
            r is None ==> !(self is String),
    {
        match self {
            ParamValue::String(s) => Some(s.as_str()),
            _ => None,
        }
    }

    /// `serde_json::Value::as_i64`.
    pub fn as_i64(&self) -> (r: Option<i64>)
        ensures
            r == (match self {
                ParamValue::Integer(n) => Some(*n),
                _ => None::<i64>,
            }),
    {
        match self {
            ParamValue::Integer(n) => Some(*n),
            _ => None,
        }
    }

    /// `serde_json::Value::as_bool`.
    pub fn as_bool(&self) -> (r: Option<bool>)
        ensures
            r == (match self {
                ParamValue::Bool(b) => Some(*b),
                _ => None::<bool>,
            }),
    {
        match self {
            ParamValue::Bool(b) => Some(*b),
            _ => None,
        }
    }

    /// `serde_json::Value::is_string`.
    pub fn is_string(&self) -> (r: bool)
        ensures
            r == (self is String),
    {
        match self {
            ParamValue::String(_) => true,
            _ => false,
        }
    }
}

/// The value of the last entry named `key`.
pub open spec fn param_in(ps: Seq<(String, ParamValue)>, key: Seq<char>) -> Option<ParamValue>
    decreases ps.len(),
{
    if ps.len() == 0 {
        None
    } else if ps.last().0@ == key {
        Some(ps.last().1)
    } else {
        param_in(ps.drop_last(), key)
    }
}

proof fn lemma_param_in(ps: Seq<(String, ParamValue)>, key: Seq<char>)
    ensures
        param_in(ps, key) is None <==> forall|i: int| 0 <= i < ps.len() ==> #[trigger] ps[i].0@ != key,
        (forall|a: int, b: int|
            0 <= a < ps.len() && 0 <= b < ps.len() && a != b ==> ps[a].0@ != ps[b].0@)
            ==> forall|i: int| 0 <= i < ps.len() && #[trigger] ps[i].0@ == key ==> param_in(ps, key) == Some(ps[i].1),
    decreases ps.len(),
{
    if ps.len() > 0 {
        let rest = ps.drop_last();
        lemma_param_in(rest, key);
        let n = ps.len() - 1;
        assert forall|i: int| 0 <= i < n implies #[trigger] rest[i] == ps[i] by {}
        if ps[n].0@ == key {
            assert(param_in(ps, key) == Some(ps[n].1));
        } else {
            assert(param_in(ps, key) == param_in(rest, key));
            if forall|i: int| 0 <= i < rest.len() ==> #[trigger] rest[i].0@ != key {
                assert forall|i: int| 0 <= i < ps.len() implies #[trigger] ps[i].0@ != key by {
                    if i < n {
                        assert(rest[i].0@ != key);
                    }
                }
            } else {
                let w = choose|i: int| 0 <= i < rest.len() && #[trigger] rest[i].0@ == key;
                assert(ps[w].0@ == key);
            }
        }
        if forall|a: int, b: int|
            0 <= a < ps.len() && 0 <= b < ps.len() && a != b ==> ps[a].0@ != ps[b].0@ {
            assert forall|a: int, b: int|
                0 <= a < rest.len() && 0 <= b < rest.len() && a != b implies rest[a].0@ != rest[b].0@ by {
                assert(rest[a] == ps[a]);
                assert(rest[b] == ps[b]);
            }
            assert forall|i: int| 0 <= i < ps.len() && #[trigger] ps[i].0@ == key implies param_in(ps, key)
                == Some(ps[i].1) by {
                if i < n {
                    assert(ps[n].0@ != ps[i].0@);
                    assert(rest[i].0@ == key);
                }
            }
        }
    }
}

/// Strictly ascending in `String` order.
pub open spec fn keys_sorted(keys: Seq<Seq<char>>) -> bool {
    forall|i: int, j: int| 0 <= i < j < keys.len() ==> text_less(#[trigger] keys[i], #[trigger] keys[j])
}

/// Sorted keys are distinct.
pub proof fn lemma_sorted_distinct(keys: Seq<Seq<char>>)
    requires
        keys_sorted(keys),
    ensures
        keys.no_duplicates(),
{
    assert forall|i: int, j: int| 0 <= i < keys.len() && 0 <= j < keys.len() && i != j implies keys[i]
        != keys[j] by {
        if i < j {
            assert(text_less(keys[i], keys[j]));
            lemma_text_less_irreflexive(keys[i]);
        } else {
            assert(text_less(keys[j], keys[i]));
            lemma_text_less_irreflexive(keys[j]);
        }
    }
}

/// A validator: a tag and its parameters, keyed by name in ascending order, each once.
#[derive(Debug, Clone, PartialEq, Eq)]
pub struct Validator {
    pub kind: String,
    pub params: Vec<(String, ParamValue)>,
}

impl Validator {
    /// The parameter names, in the order they were given.
    pub open spec fn param_keys(self) -> Seq<Seq<char>> {
        self.params@.map_values(|e: (String, ParamValue)| e.0@)
    }

    /// The parameter names are in ascending order, each once, as a `BTreeMap` keeps them.
    pub open spec fn wf(self) -> bool {
        keys_sorted(self.param_keys())
    }

    /// The value given for `key`, if any.
    pub open spec fn param(self, key: Seq<char>) -> Option<ParamValue> {
        param_in(self.params@, key)
    }

    pub open spec fn str_param_spec(self, key: Seq<char>) -> Option<Seq<char>> {
        match self.param(key) {
            Some(ParamValue::String(s)) => Some(s@),
            _ => None,
        }
    }

    pub open spec fn i64_param_spec(self, key: Seq<char>) -> Option<i64> {
        match self.param(key) {
            Some(ParamValue::Integer(n)) => Some(n),
            _ => None,
        }
    }

    pub open spec fn bool_param_spec(self, key: Seq<char>) -> Option<bool> {
        match self.param(key) {
            Some(ParamValue::Bool(b)) => Some(b),
            _ => None,
        }
    }

    /// A validator with no parameters.
    pub fn new(kind: &str) -> (r: Validator)
        ensures
            r.kind@ == kind@,
            r.wf(),
            r.param_keys() == Seq::<Seq<char>>::empty(),
            forall|k: Seq<char>| #[trigger] r.param(k) is None,
    {
        let r = Validator { kind: owned(kind), params: Vec::new() };
        assert(r.param_keys() =~= Seq::<Seq<char>>::empty());
        r
    }

    /// The value given for `key` (`BTreeMap::get`): the last entry of that name.
    pub fn get(&self, key: &str) -> (r: Option<&ParamValue>)
        ensures
            r matches Some(v) ==> self.param(key@) == Some(*v),
            r is None ==> self.param(key@) is None,
    {
        let wanted = owned(key);
        let ghost ps = self.params@;
        let mut i: usize = self.params.len();
        assert(ps.subrange(0, i as int) =~= ps);
        while i > 0
            invariant
                i <= ps.len(),
                ps == self.params@,
                wanted@ == key@,
                param_in(ps, key@) == param_in(ps.subrange(0, i as int), key@),
            decreases i,
        {
            let ghost pre = ps.subrange(0, i as int);
            assert(pre.drop_last() =~= ps.subrange(0, i - 1));
            if self.params[i - 1].0 == wanted {
                assert(pre.last() == ps[i - 1]);
                return Some(&self.params[i - 1].1);
            }
            i -= 1;
        }
        None
    }

    proof fn lemma_param_at(self, i: int)
        requires
            self.wf(),
            0 <= i < self.params@.len(),
        ensures
            self.param(self.params@[i].0@) == Some(self.params@[i].1),
    {
        let key = self.params@[i].0@;
        lemma_sorted_distinct(self.param_keys());
        assert forall|a: int, b: int|
            0 <= a < self.params@.len() && 0 <= b < self.params@.len() && a != b implies self.params@[a].0@
            != self.params@[b].0@ by {
            assert(self.param_keys()[a] == self.params@[a].0@);
            assert(self.param_keys()[b] == self.params@[b].0@);
        }
        lemma_param_in(self.params@, key);
    }

    proof fn lemma_param_absent(self, key: Seq<char>)
        ensures
            self.param(key) is None <==> forall|i: int|
                0 <= i < self.params@.len() ==> #[trigger] self.params@[i].0@ != key,
    {
        lemma_param_in(self.params@, key);
    }

    /// Adds or replaces one parameter, keeping the names in order (`BTreeMap::insert`).
    pub fn with(self, key: &str, value: ParamValue) -> (r: Validator)
        requires
            self.wf(),
        ensures
            r.wf(),
            r.kind == self.kind,
            r.param(key@) == Some(value),
            forall|k: Seq<char>| k != key@ ==> #[trigger] r.param(k) == self.param(k),
    {
        let ghost original = self;
        let ghost ks = self.param_keys();
        // The first position whose name does not sort before `key`.
        let mut i: usize = 0;
        while i < self.params.len() && text_less_exec(self.params[i].0.as_str(), key)
            invariant
                i <= self.params@.len(),
                ks == self.param_keys(),
                keys_sorted(ks),
                forall|j: int| 0 <= j < i ==> text_less(#[trigger] ks[j], key@),
            decreases self.params.len() - i,
        {
            assert(ks[i as int] == self.params@[i as int].0@);
            i += 1;
        }
        let replace = i < self.params.len() && same_text(self.params[i].0.as_str(), key);
        proof {
            if i < ks.len() {
                assert(ks[i as int] == self.params@[i as int].0@);
                if !replace {
                    lemma_text_less_total(ks[i as int], key@);
                }
            }
        }
        let mut params = self.params;
        let ghost old_params = params@;
        if replace {
            params.set(i, (owned(key), value));
        } else {
            params.insert(i, (owned(key), value));
        }
        let r = Validator { kind: self.kind, params };
        proof {
            let nk = r.param_keys();
            if replace {
                assert(nk =~= ks);
            } else {
                assert(nk =~= ks.insert(i as int, key@));
                assert forall|k: int| i <= k < ks.len() implies text_less(key@, #[trigger] ks[k]) by {
                    if k > i {
                        lemma_text_less_transitive(key@, ks[i as int], ks[k]);
                    }
                }
                assert forall|a: int, b: int| 0 <= a < b < nk.len() implies text_less(
                    #[trigger] nk[a],
                    #[trigger] nk[b],
                ) by {
                    if b < i {
                        assert(nk[a] == ks[a] && nk[b] == ks[b]);
                    } else if a < i && b == i {
                        assert(nk[a] == ks[a]);
                    } else if a < i && b > i {
                        assert(nk[a] == ks[a] && nk[b] == ks[b - 1]);
                        lemma_text_less_transitive(nk[a], key@, nk[b]);
                    } else if a == i {
                        assert(nk[b] == ks[b - 1]);
                    } else {
                        assert(nk[a] == ks[a - 1] && nk[b] == ks[b - 1]);
                    }
                }
            }
            assert(r.wf());
            assert(r.params@[i as int].0@ == key@);
            r.lemma_param_at(i as int);
            assert forall|k: Seq<char>| k != key@ implies #[trigger] r.param(k) == original.param(k) by {
                original.lemma_param_absent(k);
                r.lemma_param_absent(k);
                if exists|m: int| 0 <= m < original.params@.len() && #[trigger] original.params@[m].0@ == k {
                    let m = choose|m: int| 0 <= m < original.params@.len() && #[trigger] original.params@[m].0@ == k;
                    original.lemma_param_at(m);
                    let m2 = if replace || m < i {
                        m
                    } else {
                        m + 1
                    };
                    assert(r.params@[m2] == original.params@[m]);
                    r.lemma_param_at(m2);
                } else {
                    assert forall|m: int| 0 <= m < r.params@.len() implies #[trigger] r.params@[m].0@ != k by {
                        if replace {
                            if m != i {
                                assert(r.params@[m] == old_params[m]);
                            }
                        } else if m < i {
                            assert(r.params@[m] == old_params[m]);
                        } else if m > i {
                            assert(r.params@[m] == old_params[m - 1]);
                        }
                    }
                }
            }
        }
        r
    }

    /// A string parameter.
    pub fn str_param(&self, key: &str) -> (r: Option<&str>)
        ensures
            r matches Some(s) ==> self.str_param_spec(key@) == Some(s@),
            r is None ==> self.str_param_spec(key@) is None,
    {
        match self.get(key) {
            Some(v) => v.as_str(),
            None => None,
        }
    }

    /// An integer parameter.
    pub fn i64_param(&self, key: &str) -> (r: Option<i64>)
        ensures
            r == self.i64_param_spec(key@),
    {
        match self.get(key) {
            Some(v) => v.as_i64(),
            None => None,
        }
    }

    /// A boolean parameter.
    pub fn bool_param(&self, key: &str) -> (r: Option<bool>)
        ensures
            r == self.bool_param_spec(key@),
    {
        match self.get(key) {
            Some(v) => v.as_bool(),
            None => None,
        }
    }

    /// The same tag with equal parameters in the same order.
    pub open spec fn same_as(self, other: Validator) -> bool {
        &&& self.kind == other.kind
        &&& self.params@.len() == other.params@.len()
        &&& forall|i: int|
            0 <= i < self.params@.len() ==> (#[trigger] self.params@[i]).0 == other.params@[i].0
                && self.params@[i].1.same_as(other.params@[i].1)
    }

    /// An equal copy.
    pub fn duplicate(&self) -> (r: Validator)
        ensures
            r.same_as(*self),
    {
        let mut params: Vec<(String, ParamValue)> = Vec::new();
        let mut i: usize = 0;
        while i < self.params.len()
            invariant
                i <= self.params@.len(),
                params@.len() == i,
                forall|j: int|
                    0 <= j < i ==> (#[trigger] params@[j]).0 == self.params@[j].0 && params@[j].1.same_as(
                        self.params@[j].1,
                    ),
            decreases self.params.len() - i,
        {
            params.push((self.params[i].0.clone(), self.params[i].1.duplicate()));
            i += 1;
        }
        Validator { kind: self.kind.clone(), params }
    }

    /// The parameters as name and value pairs.
    pub fn entries(&self) -> (r: &Vec<(String, ParamValue)>)
        ensures
            r@ == self.params@,
    {
        &self.params
    }
}

#[derive(Debug, Clone, PartialEq, Eq)]
pub struct Task {
    pub id: String,
    pub kind: TaskKind,
    pub instruction: String,
    pub context: Option<String>,
    pub broken_command: Option<String>,
    pub diagnosis: Option<String>,
    pub validators: Vec<Validator>,
    pub hints: Vec<String>,
    pub suggested_solution: Option<String>,
    pub known_incorrect_solution: Option<String>,
    pub alternate_solutions: Vec<String>,
    pub optional: bool,
}

#[derive(Debug, Clone, Copy, PartialEq, Eq, Structural)]
pub enum ReviewQuestionType {
    MultipleChoice,
    MultipleSelect,
    ShortAnswer,
    CommandRecall,
}

#[derive(Debug, Clone, PartialEq, Eq)]
pub struct ReviewQuestion {
    pub question_type: ReviewQuestionType,
    pub question: String,
    pub answers: Vec<String>,
    pub correct_answer: Option<usize>,
    pub correct_answers: Vec<usize>,
    pub accepted_answers: Vec<String>,
    pub explanation: Option<String>,
}

/// A free-text answer as it is compared: words separated by single spaces, lower-cased.
pub open spec fn normalised_answer(s: Seq<char>) -> Seq<char> {
    lowercase_of(join(words(s), seq![' ']))
}

/// Words joined by single spaces.
fn join_words(s: &str) -> (r: String)
    ensures
        r@ == join(words(s@), seq![' ']),
{
    let parts = words_of(s);
    let mut out: Vec<char> = Vec::new();
    let ghost ws = words(s@);
    let mut i: usize = 0;
    while i < parts.len()
        invariant
            i <= parts@.len(),
            strings_view(parts@) == ws,
            out@ == join(ws.subrange(0, i as int), seq![' ']),
        decreases parts.len() - i,
    {
        let word = crate::text::chars_of(parts[i].as_str());
        assert(word@ == ws[i as int]);
        if i > 0 {
            out.push(' ');
        }
        let ghost mid = out@;
        let mut m: usize = 0;
        while m < word.len()
            invariant
                m <= word@.len(),
                out@ == mid + word@.subrange(0, m as int),
            decreases word.len() - m,
        {
            out.push(word[m]);
            m += 1;
            assert(out@ =~= mid + word@.subrange(0, m as int));
        }
        assert(word@.subrange(0, word@.len() as int) =~= word@);
        assert(ws.subrange(0, i + 1).drop_last() =~= ws.subrange(0, i as int));
        if i == 0 {
            assert(ws.subrange(0, 1) =~= seq![ws[0]]);
        }
        assert(out@ =~= join(ws.subrange(0, i + 1), seq![' ']));
        i += 1;
    }
    assert(ws.subrange(0, parts@.len() as int) =~= ws);
    string_of(&out)
}

fn normalise(s: &str) -> (r: String)
    ensures
        r@ == normalised_answer(s@),
{
    let joined = join_words(s);
    to_lowercase(joined.as_str())
}

impl ReviewQuestion {
    /// Grades a free-text answer by collapsing white space and ignoring case, so
    /// `mkdir  reports` and `MKDIR reports` both count.
    pub fn accepts_text(&self, given: &str) -> (r: bool)
        ensures
            r == exists|i: int|
                0 <= i < self.accepted_answers@.len() && normalised_answer(
                    #[trigger] self.accepted_answers@[i]@,
                ) == normalised_answer(given@),
    {
        let wanted = normalise(given);
        let mut i: usize = 0;
        while i < self.accepted_answers.len()
            invariant
                i <= self.accepted_answers@.len(),
                wanted@ == normalised_answer(given@),
                forall|j: int|
                    0 <= j < i ==> normalised_answer(#[trigger] self.accepted_answers@[j]@)
                        != wanted@,
            decreases self.accepted_answers.len() - i,
        {
            let candidate = normalise(self.accepted_answers[i].as_str());
            if candidate == wanted {
                assert(normalised_answer(self.accepted_answers@[i as int]@) == normalised_answer(
                    given@,
                ));
                return true;
            }
            i += 1;
        }
        false
    }
}

#[derive(Debug, Clone, PartialEq, Eq)]
pub struct Lesson {
    pub schema_version: u32,
    pub id: String,
    pub title: String,
    pub level: LessonLevel,
    pub module: String,
    pub lesson_type: LessonType,
    pub estimated_difficulty: u8,
    pub estimated_minutes: Option<u32>,
    pub prerequisites: Vec<String>,
    pub concepts: Vec<String>,
    pub commands: Vec<String>,
    pub environment: LessonEnvironment,
    pub content: LessonContent,
    pub tasks: Vec<Task>,
    pub review_questions: Vec<ReviewQuestion>,
}

/// The tasks of a lesson that are not optional, in order.
pub open spec fn required_of(tasks: Seq<Task>) -> Seq<Task> {
    tasks.filter(|t: Task| !t.optional)
}

/// Hints available across the given tasks.
pub open spec fn hint_total(tasks: Seq<Task>) -> nat
    decreases tasks.len(),
{
    if tasks.len() == 0 {
        0
    } else {
        hint_total(tasks.drop_last()) + tasks.last().hints@.len()
    }
}

impl Lesson {
    /// Tasks that must pass for the lesson to count as complete.
    pub fn required_tasks(&self) -> (r: Vec<&Task>)
        ensures
            r@.map_values(|t: &Task| *t) == required_of(self.tasks@),
    {
        let mut r: Vec<&Task> = Vec::new();
        let mut i: usize = 0;
        while i < self.tasks.len()
            invariant
                i <= self.tasks@.len(),
                r@.map_values(|t: &Task| *t) == required_of(self.tasks@.subrange(0, i as int)),
            decreases self.tasks.len() - i,
        {
            let ghost before = self.tasks@.subrange(0, i as int);
            assert(self.tasks@.subrange(0, i + 1).drop_last() =~= before);
            reveal(Seq::filter);
            if !self.tasks[i].optional {
                r.push(&self.tasks[i]);
            }
            i += 1;
            assert(r@.map_values(|t: &Task| *t) =~= required_of(self.tasks@.subrange(0, i as int)));
        }
        assert(self.tasks@.subrange(0, self.tasks@.len() as int) =~= self.tasks@);
        r
    }

    /// Total hints available across required tasks. Used to scale mastery scoring.
    pub fn total_hints(&self) -> (r: usize)
        requires
            hint_total(required_of(self.tasks@)) <= usize::MAX,
        ensures
            r == hint_total(required_of(self.tasks@)),
    {
        let required = self.required_tasks();
        let ghost req = required@.map_values(|t: &Task| *t);
        let mut total: usize = 0;
        let mut i: usize = 0;
        while i < required.len()
            invariant
                i <= required@.len(),
                req == required@.map_values(|t: &Task| *t),
                req == required_of(self.tasks@),
                hint_total(req) <= usize::MAX,
                total == hint_total(req.subrange(0, i as int)),
            decreases required.len() - i,
        {
            proof {
                lemma_hint_total_prefix(req, i + 1);
                assert(req.subrange(0, i + 1).drop_last() =~= req.subrange(0, i as int));
            }
            total = total + required[i].hints.len();
            i += 1;
        }
        assert(req.subrange(0, required@.len() as int) =~= req);
        total
    }
}

proof fn lemma_hint_total_prefix(tasks: Seq<Task>, n: int)
    requires
        0 <= n <= tasks.len(),
    ensures
        hint_total(tasks.subrange(0, n)) <= hint_total(tasks),
    decreases tasks.len() - n,
{
    if n < tasks.len() {
        lemma_hint_total_prefix(tasks, n + 1);
        assert(tasks.subrange(0, n + 1).drop_last() =~= tasks.subrange(0, n));
    } else {
        assert(tasks.subrange(0, n) =~= tasks);
    }
}

#[derive(Debug, Clone, PartialEq, Eq)]
pub struct Module {
    pub schema_version: u32,
    pub id: String,
    pub number: u32,
    pub title: String,
    pub level: LessonLevel,
    pub summary: String,
    pub outcomes: Vec<String>,
    pub pack: String,
    pub lessons: Vec<String>,
}

/// The pack a module belongs to when its manifest names none.
pub fn default_pack() -> (r: String)
    ensures
        r@ == "core"@,
{
    owned("core")
}

} // verus!
