//! Turns raw validation outcomes into the message the learner reads.
//!
//! Two rules shape everything here. Tell the learner *which* class of mistake this is, and
//! never reveal the answer: feedback describes the gap, it does not close it.
use crate::text::{append, decimal, decimal_string, owned};
use crate::validation::{CheckOutcome, FailureCategory, TaskValidation};
use vstd::prelude::*;

verus! {

#[derive(Debug, Clone, PartialEq, Eq)]
pub struct Feedback {
    /// One-line headline.
    pub headline: String,
    /// The class of mistake, when the checks agreed on one.
    pub category: Option<FailureCategory>,
    /// Generic guidance for that class.
    pub guidance: Option<String>,
    /// Specific, per-check detail. Empty when the task passed.
    pub details: Vec<String>,
    /// True when some checks passed.
    pub partial: bool,
    /// Set when the lesson package itself is broken; not the learner's fault.
    pub authoring_error: bool,
}

/// The outcomes that did not pass, in order.
pub open spec fn failed_of(outcomes: Seq<CheckOutcome>) -> Seq<CheckOutcome> {
    outcomes.filter(|o: CheckOutcome| !o.passed)
}

/// The detail line for one failed check: its message, with what was expected and what was
/// found when the check reported them.
pub open spec fn detail_line(o: CheckOutcome) -> Seq<char> {
    match (o.expected, o.observed) {
        (Some(e), Some(f)) => o.message@ + " (expected "@ + e@ + ", found "@ + f@ + ")"@,
        (None, Some(f)) => o.message@ + " (found "@ + f@ + ")"@,
        _ => o.message@,
    }
}

/// The failure categories the failed checks name, in order.
pub open spec fn categories_of(failed: Seq<CheckOutcome>) -> Seq<FailureCategory>
    decreases failed.len(),
{
    if failed.len() == 0 {
        Seq::empty()
    } else {
        let before = categories_of(failed.drop_last());
        match failed.last().failure_category {
            Some(c) => before.push(c),
            None => before,
        }
    }
}

/// The category every named category agrees on, if there is at least one and they agree.
pub open spec fn unanimous(categories: Seq<FailureCategory>) -> Option<FailureCategory> {
    if categories.len() > 0 && forall|i: int|
        0 <= i < categories.len() ==> #[trigger] categories[i] == categories[0] {
        Some(categories[0])
    } else {
        None
    }
}

pub open spec fn correct_headline() -> Seq<char> {
    "Correct."@
}

pub open spec fn unchecked_headline() -> Seq<char> {
    "The task could not be checked."@
}

pub open spec fn authoring_guidance() -> Seq<char> {
    "The lesson package is faulty rather than your answer. Reporting this with the diagnostic export helps get it fixed."@
}

pub open spec fn not_yet_headline() -> Seq<char> {
    "Not quite yet."@
}

pub open spec fn partial_headline(percent: u8) -> Seq<char> {
    "Almost there: "@ + decimal(percent as nat) + "% of the task is done."@
}

/// The feedback the learner reads for a task result.
pub open spec fn feedback_spec(v: TaskValidation) -> (
    Seq<char>,
    Option<FailureCategory>,
    Option<Seq<char>>,
    Seq<Seq<char>>,
    bool,
    bool,
) {
    let failed = failed_of(v.outcomes@);
    let details = failed.map_values(|o: CheckOutcome| detail_line(o));
    if v.passed {
        (correct_headline(), None, None, Seq::empty(), false, false)
    } else if v.errored && forall|i: int| 0 <= i < failed.len() ==> #[trigger] failed[i].errored {
        (unchecked_headline(), None, Some(authoring_guidance()), details, false, true)
    } else {
        let partial = v.completion_percent > 0;
        let category = match unanimous(categories_of(failed)) {
            Some(c) => Some(c),
            None => if partial {
                Some(FailureCategory::TaskPartiallyCompleted)
            } else {
                None
            },
        };
        let headline = if partial {
            partial_headline(v.completion_percent)
        } else {
            not_yet_headline()
        };
        let guidance = match category {
            Some(c) => Some(c.guidance_spec()),
            None => None,
        };
        (headline, category, guidance, details, partial, false)
    }
}

impl Feedback {
    /// The feedback as a tuple of views, for comparison with [`feedback_spec`].
    pub open spec fn view_tuple(self) -> (
        Seq<char>,
        Option<FailureCategory>,
        Option<Seq<char>>,
        Seq<Seq<char>>,
        bool,
        bool,
    ) {
        (
            self.headline@,
            self.category,
            match self.guidance {
                Some(g) => Some(g@),
                None => None,
            },
            self.details@.map_values(|d: String| d@),
            self.partial,
            self.authoring_error,
        )
    }
}

/// The detail line for one failed check.
fn detail_of(o: &CheckOutcome) -> (r: String)
    ensures
        r@ == detail_line(*o),
{
    let mut line = owned(o.message.as_str());
    match (&o.expected, &o.observed) {
        (Some(e), Some(f)) => {
            append(&mut line, " (expected ");
            append(&mut line, e.as_str());
            append(&mut line, ", found ");
            append(&mut line, f.as_str());
            append(&mut line, ")");
        },
        (None, Some(f)) => {
            append(&mut line, " (found ");
            append(&mut line, f.as_str());
            append(&mut line, ")");
        },
        _ => {},
    }
    line
}

/// Shapes validation outcomes into learner-facing feedback.
pub fn shape_feedback(validation: &TaskValidation) -> (r: Feedback)
    ensures
        r.view_tuple() == feedback_spec(*validation),
{
    if validation.passed {
        let r = Feedback {
            headline: owned("Correct."),
            category: None,
            guidance: None,
            details: Vec::new(),
            partial: false,
            authoring_error: false,
        };
        assert(r.view_tuple().3 =~= Seq::<Seq<char>>::empty());
        return r;
    }
    let outcomes = &validation.outcomes;
    let ghost failed = failed_of(outcomes@);
    let mut details: Vec<String> = Vec::new();
    let mut categories: Vec<FailureCategory> = Vec::new();
    let mut all_errored = true;
    let mut i: usize = 0;
    while i < outcomes.len()
        invariant
            i <= outcomes@.len(),
            failed == failed_of(outcomes@),
            details@.map_values(|d: String| d@) == failed_of(outcomes@.subrange(0, i as int)).map_values(
                |o: CheckOutcome| detail_line(o),
            ),
            categories@ == categories_of(failed_of(outcomes@.subrange(0, i as int))),
            all_errored == forall|j: int|
                0 <= j < failed_of(outcomes@.subrange(0, i as int)).len() ==> #[trigger] failed_of(
                    outcomes@.subrange(0, i as int),
                )[j].errored,
        decreases outcomes.len() - i,
    {
        let ghost before = failed_of(outcomes@.subrange(0, i as int));
        let ghost after = failed_of(outcomes@.subrange(0, i + 1));
        let ghost old_details = details@;
        assert(outcomes@.subrange(0, i + 1).drop_last() =~= outcomes@.subrange(0, i as int));
        reveal(Seq::filter);
        let o = &outcomes[i];
        if !o.passed {
            assert(after == before.push(*o));
            let line = detail_of(o);
            details.push(line);
            assert(details@.map_values(|d: String| d@) =~= old_details.map_values(|d: String| d@).push(
                detail_line(*o),
            ));
            assert(after.map_values(|o: CheckOutcome| detail_line(o)) =~= before.map_values(
                |o: CheckOutcome| detail_line(o),
            ).push(detail_line(*o)));
            match o.failure_category {
                Some(c) => {
                    categories.push(c);
                },
                None => {},
            }
            assert(after.drop_last() =~= before);
            assert(categories@ =~= categories_of(after));
            if !o.errored {
                all_errored = false;
            }
            assert(all_errored == forall|j: int| 0 <= j < after.len() ==> #[trigger] after[j].errored) by {
                if all_errored {
                    assert forall|j: int| 0 <= j < after.len() implies #[trigger] after[j].errored by {
                        if j < before.len() {
                            assert(after[j] == before[j]);
                        }
                    }
                } else if !o.errored {
                    assert(!after[after.len() - 1].errored);
                } else {
                    let w = choose|j: int| 0 <= j < before.len() && !(#[trigger] before[j]).errored;
                    assert(after[w] == before[w]);
                }
            }
        } else {
            assert(after == before);
        }
        i += 1;
        assert(details@.map_values(|d: String| d@) =~= after.map_values(
            |o: CheckOutcome| detail_line(o),
        ));
    }
    assert(outcomes@.subrange(0, outcomes@.len() as int) =~= outcomes@);
    if validation.errored && all_errored {
        let r = Feedback {
            headline: owned("The task could not be checked."),
            category: None,
            guidance: Some(
                owned(
                    "The lesson package is faulty rather than your answer. Reporting this with the diagnostic export helps get it fixed.",
                ),
            ),
            details,
            partial: false,
            authoring_error: true,
        };
        return r;
    }
    let partial = validation.completion_percent > 0;
    // The category the checks agree on, if any.
    let mut agreed: Option<FailureCategory> = None;
    if categories.len() > 0 {
        let first = categories[0];
        let mut same = true;
        let mut k: usize = 1;
        while k < categories.len()
            invariant
                1 <= k <= categories@.len(),
                first == categories@[0],
                same == forall|j: int| 0 <= j < k ==> #[trigger] categories@[j] == categories@[0],
            decreases categories.len() - k,
        {
            if categories[k] != first {
                same = false;
            }
            k += 1;
        }
        if same {
            agreed = Some(first);
        }
    }
    assert(agreed == unanimous(categories@));
    let category = match agreed {
        Some(c) => Some(c),
        None => if partial {
            Some(FailureCategory::TaskPartiallyCompleted)
        } else {
            None
        },
    };
    let headline = if partial {
        let mut text = owned("Almost there: ");
        let number = decimal_string(validation.completion_percent as u64);
        append(&mut text, number.as_str());
        append(&mut text, "% of the task is done.");
        text
    } else {
        owned("Not quite yet.")
    };
    let guidance = match category {
        Some(c) => Some(owned(c.guidance())),
        None => None,
    };
    Feedback { headline, category, guidance, details, partial, authoring_error: false }
}


// ---------------------------------------------------------------------------------------
// Which cause the learner is shown
// ---------------------------------------------------------------------------------------

/// Every outcome kept by `failed_of` is a failed outcome of the validation, and every failed
/// outcome is kept.
proof fn lemma_failed_outcomes(outcomes: Seq<CheckOutcome>)
    ensures
        forall|j: int|
            0 <= j < failed_of(outcomes).len() ==> !(#[trigger] failed_of(outcomes)[j]).passed
                && outcomes.contains(failed_of(outcomes)[j]),
        forall|i: int|
            0 <= i < outcomes.len() && !outcomes[i].passed ==> #[trigger] failed_of(outcomes).contains(
                outcomes[i],
            ),
{
    let pred = |o: CheckOutcome| !o.passed;
    assert forall|j: int| 0 <= j < failed_of(outcomes).len() implies !(#[trigger] failed_of(outcomes)[j]).passed
        && outcomes.contains(failed_of(outcomes)[j]) by {
        outcomes.lemma_filter_pred(pred, j);
        assert(outcomes.filter(pred).contains(outcomes.filter(pred)[j]));
        outcomes.lemma_filter_contains_rev(pred, outcomes.filter(pred)[j]);
    }
    assert forall|i: int| 0 <= i < outcomes.len() && !outcomes[i].passed implies #[trigger] failed_of(
        outcomes,
    ).contains(outcomes[i]) by {
        outcomes.lemma_filter_contains(pred, i);
    }
}

/// The categories listed are exactly those the failed checks name.
proof fn lemma_categories_named(failed: Seq<CheckOutcome>)
    ensures
        forall|k: int|
            0 <= k < categories_of(failed).len() ==> exists|j: int|
                0 <= j < failed.len() && (#[trigger] failed[j]).failure_category == Some(
                    #[trigger] categories_of(failed)[k],
                ),
        forall|j: int|
            0 <= j < failed.len() && (#[trigger] failed[j]).failure_category is Some ==> categories_of(
                failed,
            ).contains(failed[j].failure_category.unwrap()),
    decreases failed.len(),
{
    if failed.len() > 0 {
        let front = failed.drop_last();
        lemma_categories_named(front);
        let before = categories_of(front);
        let cats = categories_of(failed);
        assert forall|k: int| 0 <= k < cats.len() implies exists|j: int|
            0 <= j < failed.len() && (#[trigger] failed[j]).failure_category == Some(#[trigger] cats[k]) by {
            if k < before.len() {
                assert(cats[k] == before[k]);
                let j = choose|j: int| 0 <= j < front.len() && (#[trigger] front[j]).failure_category == Some(before[k]);
                assert(failed[j] == front[j]);
            } else {
                assert(failed[failed.len() - 1].failure_category == Some(cats[k]));
            }
        }
        assert forall|j: int| 0 <= j < failed.len() && (#[trigger] failed[j]).failure_category is Some implies cats.contains(
            failed[j].failure_category.unwrap(),
        ) by {
            if j < front.len() {
                assert(failed[j] == front[j]);
                let c = failed[j].failure_category.unwrap();
                let k = choose|k: int| 0 <= k < before.len() && before[k] == c;
                assert(cats[k] == before[k]);
            } else {
                assert(cats[cats.len() - 1] == failed[j].failure_category.unwrap());
            }
        }
    }
}

/// The validation is an authoring error: it failed and every failed check errored.
pub open spec fn authoring_error_of(v: TaskValidation) -> bool {
    !v.passed && v.errored && forall|i: int|
        0 <= i < v.outcomes@.len() && !(#[trigger] v.outcomes@[i]).passed ==> v.outcomes@[i].errored
}

proof fn lemma_authoring_error_agrees(v: TaskValidation)
    ensures
        (v.errored && forall|j: int| 0 <= j < failed_of(v.outcomes@).len() ==> #[trigger] failed_of(v.outcomes@)[j].errored)
            <==> (v.errored && forall|i: int|
            0 <= i < v.outcomes@.len() && !(#[trigger] v.outcomes@[i]).passed ==> v.outcomes@[i].errored),
{
    let os = v.outcomes@;
    let failed = failed_of(os);
    lemma_failed_outcomes(os);
    if forall|j: int| 0 <= j < failed.len() ==> #[trigger] failed[j].errored {
        assert forall|i: int| 0 <= i < os.len() && !(#[trigger] os[i]).passed implies os[i].errored by {
            assert(failed.contains(os[i]));
            let j = choose|j: int| 0 <= j < failed.len() && failed[j] == os[i];
            assert(failed[j].errored);
        }
    }
    if forall|i: int| 0 <= i < os.len() && !(#[trigger] os[i]).passed ==> os[i].errored {
        assert forall|j: int| 0 <= j < failed.len() implies #[trigger] failed[j].errored by {
            assert(os.contains(failed[j]));
            let i = choose|i: int| 0 <= i < os.len() && os[i] == failed[j];
        }
    }
}

/// The `i`-th check failed and names a cause.
pub open spec fn names_cause(v: TaskValidation, i: int) -> bool {
    0 <= i < v.outcomes@.len() && !v.outcomes@[i].passed && v.outcomes@[i].failure_category is Some
}

/// When a task fails for a reason the learner can act on, the cause shown is the one its failed
/// checks agree on: if at least one failed check names a category and every failed check that
/// names one names `c`, the feedback's category is `c` with `c`'s guidance, however much of
/// the task was done. "Partially completed" is shown only when the named causes disagree or
/// none is named and some of the task was done; with nothing done and no agreed cause, no
/// category is shown. A passed task shows none.
pub proof fn lemma_agreed_cause_is_shown(v: TaskValidation)
    ensures
        v.passed ==> feedback_spec(v).1 is None,
        !v.passed && !authoring_error_of(v) ==> {
            &&& forall|c: FailureCategory|
                (exists|i: int| #[trigger] names_cause(v, i) && v.outcomes@[i].failure_category == Some(c)) && (forall|i: int|
                    #[trigger] names_cause(v, i) ==> v.outcomes@[i].failure_category == Some(c)) ==> feedback_spec(v).1 == Some(c)
                    && feedback_spec(v).2 == Some(c.guidance_spec())
            &&& ((forall|i: int| !#[trigger] names_cause(v, i)) || (exists|i: int, j: int|
                #[trigger] names_cause(v, i) && #[trigger] names_cause(v, j) && v.outcomes@[i].failure_category != v.outcomes@[j].failure_category))
                ==> feedback_spec(v).1 == (if v.completion_percent > 0 {
                Some(FailureCategory::TaskPartiallyCompleted)
            } else {
                None
            })
        },
{
    let os = v.outcomes@;
    let failed = failed_of(os);
    let cats = categories_of(failed);
    lemma_failed_outcomes(os);
    lemma_categories_named(failed);
    lemma_authoring_error_agrees(v);
    if !v.passed && !authoring_error_of(v) {
        // Each listed category is named by some failed outcome of the validation.
        assert forall|k: int| 0 <= k < cats.len() implies exists|i: int| #[trigger] names_cause(v, i) && os[i].failure_category == Some(#[trigger] cats[k]) by {
            let j = choose|j: int| 0 <= j < failed.len() && (#[trigger] failed[j]).failure_category == Some(cats[k]);
            assert(os.contains(failed[j]));
            let i = choose|i: int| 0 <= i < os.len() && os[i] == failed[j];
            assert(names_cause(v, i));
        }
        // Each named category is listed.
        assert forall|i: int| #[trigger] names_cause(v, i) implies cats.contains(os[i].failure_category.unwrap()) by {
            assert(failed.contains(os[i]));
            let j = choose|j: int| 0 <= j < failed.len() && failed[j] == os[i];
            assert(failed[j].failure_category is Some);
        }
        assert forall|c: FailureCategory|
            (exists|i: int| #[trigger] names_cause(v, i) && os[i].failure_category == Some(c)) && (forall|i: int|
                #[trigger] names_cause(v, i) ==> os[i].failure_category == Some(c)) implies feedback_spec(v).1 == Some(c) by {
            let i0 = choose|i: int| #[trigger] names_cause(v, i) && os[i].failure_category == Some(c);
            assert(cats.contains(c));
            assert forall|k: int| 0 <= k < cats.len() implies #[trigger] cats[k] == c by {
                let i = choose|i: int| #[trigger] names_cause(v, i) && os[i].failure_category == Some(cats[k]);
            }
            assert(cats[0] == c);
            assert(unanimous(cats) == Some(c));
        }
        if (forall|i: int| !#[trigger] names_cause(v, i)) || (exists|i: int, j: int|
            #[trigger] names_cause(v, i) && #[trigger] names_cause(v, j) && os[i].failure_category != os[j].failure_category) {
            if cats.len() > 0 {
                let i = choose|i: int| #[trigger] names_cause(v, i) && os[i].failure_category == Some(cats[0]);
                assert(names_cause(v, i));
                let (a, b) = choose|a: int, b: int| #[trigger] names_cause(v, a) && #[trigger] names_cause(v, b) && os[a].failure_category != os[b].failure_category;
                assert(cats.contains(os[a].failure_category.unwrap()));
                assert(cats.contains(os[b].failure_category.unwrap()));
                let ka = choose|k: int| 0 <= k < cats.len() && cats[k] == os[a].failure_category.unwrap();
                let kb = choose|k: int| 0 <= k < cats.len() && cats[k] == os[b].failure_category.unwrap();
                assert(cats[ka] != cats[kb]);
            }
            assert(unanimous(cats) is None);
        }
    }
}


/// A passed task is reported as correct with nothing else; a failed one is flagged as an
/// authoring error exactly when every failed check errored, and otherwise reads as partially
/// done exactly when some of it was done.
pub proof fn lemma_feedback_flags(v: TaskValidation)
    ensures
        v.passed ==> feedback_spec(v).0 == "Correct."@ && feedback_spec(v).1 is None && feedback_spec(v).2 is None
            && feedback_spec(v).3.len() == 0 && !feedback_spec(v).4 && !feedback_spec(v).5,
        feedback_spec(v).5 == authoring_error_of(v),
        feedback_spec(v).4 == (!v.passed && !authoring_error_of(v) && v.completion_percent > 0),
        authoring_error_of(v) ==> feedback_spec(v).1 is None,
{
    lemma_authoring_error_agrees(v);
}

} // verus!
