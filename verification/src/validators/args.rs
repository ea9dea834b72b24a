//! Parameter access for validators. Every validator was checked against the registry before
//! it got here, so a missing parameter is a bug rather than bad input; it still yields an
//! errored outcome instead of a panic, which would take the learner's session down.
use crate::lesson::{ArrayItem, ParamValue, Validator};
use crate::text::{append, owned, signed_decimal, signed_decimal_string, strings_view};
use crate::validation::{CheckOutcome, FailureCategory};
use vstd::prelude::*;

verus! {

/// The message of the outcome a missing parameter yields.
pub open spec fn missing_message(kind: Seq<char>, param: Seq<char>) -> Seq<char> {
    "internal error: validator '"@ + kind + "' reached the agent without its '"@ + param
        + "' parameter"@
}

/// The errored outcome for a parameter that is not there.
pub open spec fn is_missing_outcome(o: CheckOutcome, kind: Seq<char>, param: Seq<char>) -> bool {
    &&& o.kind@ == kind
    &&& o.message@ == missing_message(kind, param)
    &&& o.errored
    &&& !o.passed
    &&& o.failure_category is None
    &&& o.weight == 1
}

fn missing(validator: &Validator, param: &str) -> (r: CheckOutcome)
    ensures
        is_missing_outcome(r, validator.kind@, param@),
{
    let mut message = owned("internal error: validator '");
    append(&mut message, validator.kind.as_str());
    append(&mut message, "' reached the agent without its '");
    append(&mut message, param);
    append(&mut message, "' parameter");
    CheckOutcome::error(validator.kind.as_str(), message.as_str())
}

/// A required string parameter.
pub fn string<'a>(validator: &'a Validator, param: &str) -> (r: Result<&'a str, CheckOutcome>)
    requires
        validator.wf(),
    ensures
        match validator.str_param_spec(param@) {
            Some(s) => r matches Ok(t) && t@ == s,
            None => r matches Err(o) && is_missing_outcome(o, validator.kind@, param@),
        },
{
    match validator.str_param(param) {
        Some(s) => Ok(s),
        None => Err(missing(validator, param)),
    }
}

/// A required path parameter.
pub fn path(validator: &Validator, param: &str) -> (r: Result<String, CheckOutcome>)
    requires
        validator.wf(),
    ensures
        match validator.str_param_spec(param@) {
            Some(s) => r matches Ok(t) && t@ == s,
            None => r matches Err(o) && is_missing_outcome(o, validator.kind@, param@),
        },
{
    match string(validator, param) {
        Ok(s) => Ok(owned(s)),
        Err(o) => Err(o),
    }
}

/// A boolean parameter, false when absent.
pub fn flag(validator: &Validator, param: &str) -> (r: bool)
    requires
        validator.wf(),
    ensures
        r == match validator.bool_param_spec(param@) {
            Some(b) => b,
            None => false,
        },
{
    match validator.bool_param(param) {
        Some(b) => b,
        None => false,
    }
}

/// A boolean parameter with a default.
pub fn flag_or(validator: &Validator, param: &str, default: bool) -> (r: bool)
    requires
        validator.wf(),
    ensures
        r == match validator.bool_param_spec(param@) {
            Some(b) => b,
            None => default,
        },
{
    match validator.bool_param(param) {
        Some(b) => b,
        None => default,
    }
}

pub fn optional_string<'a>(validator: &'a Validator, param: &str) -> (r: Option<&'a str>)
    requires
        validator.wf(),
    ensures
        match validator.str_param_spec(param@) {
            Some(s) => r matches Some(t) && t@ == s,
            None => r is None,
        },
{
    validator.str_param(param)
}

pub fn optional_integer(validator: &Validator, param: &str) -> (r: Option<i64>)
    requires
        validator.wf(),
    ensures
        r == validator.i64_param_spec(param@),
{
    validator.i64_param(param)
}

/// The string items of an array, in order; other items are skipped.
pub open spec fn text_items(items: Seq<ArrayItem>) -> Seq<Seq<char>>
    decreases items.len(),
{
    if items.len() == 0 {
        Seq::empty()
    } else {
        match items.last() {
            ArrayItem::Text(s) => text_items(items.drop_last()).push(s@),
            ArrayItem::Json(_) => text_items(items.drop_last()),
        }
    }
}

/// A required list of strings: the string items of an array parameter.
pub fn string_list(validator: &Validator, param: &str) -> (r: Result<Vec<String>, CheckOutcome>)
    requires
        validator.wf(),
    ensures
        match validator.param(param@) {
            Some(ParamValue::Array(items)) => r matches Ok(v) && strings_view(v@) == text_items(items@),
            _ => r matches Err(o) && is_missing_outcome(o, validator.kind@, param@),
        },
{
    let value = match validator.get(param) {
        Some(v) => v,
        None => return Err(missing(validator, param)),
    };
    let items = match value {
        ParamValue::Array(items) => items,
        _ => return Err(missing(validator, param)),
    };
    let mut out: Vec<String> = Vec::new();
    let mut i: usize = 0;
    while i < items.len()
        invariant
            i <= items@.len(),
            strings_view(out@) == text_items(items@.take(i as int)),
        decreases items.len() - i,
    {
        assert(items@.take(i + 1).drop_last() =~= items@.take(i as int));
        let ghost before = strings_view(out@);
        match &items[i] {
            ArrayItem::Text(s) => {
                out.push(s.clone());
                assert(strings_view(out@) =~= before.push(s@));
            },
            ArrayItem::Json(_) => {},
        }
        i += 1;
    }
    assert(items@.take(items@.len() as int) =~= items@);
    Ok(out)
}

/// The longest a validator may run, in milliseconds (two minutes), so a lesson package cannot
/// wedge the validation run.
pub const MAX_TIMEOUT_MS: u64 = 120000;

/// The `timeoutMs` parameter when it is positive, capped at two minutes.
pub fn timeout(validator: &Validator) -> (r: Option<u64>)
    requires
        validator.wf(),
    ensures
        r == match validator.i64_param_spec("timeoutMs"@) {
            Some(ms) if ms > 0 => Some(
                if ms as u64 <= MAX_TIMEOUT_MS {
                    ms as u64
                } else {
                    MAX_TIMEOUT_MS
                },
            ),
            _ => None::<u64>,
        },
{
    match validator.i64_param("timeoutMs") {
        Some(ms) => if ms > 0 {
            let m = ms as u64;
            Some(
                if m <= MAX_TIMEOUT_MS {
                    m
                } else {
                    MAX_TIMEOUT_MS
                },
            )
        } else {
            None
        },
        None => None,
    }
}

/// Bounds shared by `file_size`, `file_line_count` and `process_count`.
#[derive(Debug, Clone, Copy, PartialEq, Eq, Structural)]
pub struct Bounds {
    pub equals: Option<i64>,
    pub min: Option<i64>,
    pub max: Option<i64>,
}

/// A description of the bounds for the learner.
pub open spec fn describe_spec(b: Bounds) -> Seq<char> {
    match (b.equals, b.min, b.max) {
        (Some(e), _, _) => "exactly "@ + signed_decimal(e as int),
        (None, Some(lo), Some(hi)) => "between "@ + signed_decimal(lo as int) + " and "@
            + signed_decimal(hi as int),
        (None, Some(lo), None) => "at least "@ + signed_decimal(lo as int),
        (None, None, Some(hi)) => "at most "@ + signed_decimal(hi as int),
        (None, None, None) => "any value"@,
    }
}

impl Bounds {
    pub fn read(validator: &Validator) -> (r: Bounds)
        requires
            validator.wf(),
        ensures
            r.equals == validator.i64_param_spec("equals"@),
            r.min == validator.i64_param_spec("min"@),
            r.max == validator.i64_param_spec("max"@),
    {
        Bounds {
            equals: validator.i64_param("equals"),
            min: validator.i64_param("min"),
            max: validator.i64_param("max"),
        }
    }

    /// Every bound that is set holds of `actual`.
    pub open spec fn holds(self, actual: i64) -> bool {
        &&& (self.equals matches Some(e) ==> actual == e)
        &&& (self.min matches Some(lo) ==> actual >= lo)
        &&& (self.max matches Some(hi) ==> actual <= hi)
    }

    /// Every bound that is set holds of `actual`.
    pub fn satisfied_by(&self, actual: i64) -> (r: bool)
        ensures
            r == self.holds(actual),
    {
        if let Some(equals) = self.equals {
            if actual != equals {
                return false;
            }
        }
        if let Some(min) = self.min {
            if actual < min {
                return false;
            }
        }
        if let Some(max) = self.max {
            if actual > max {
                return false;
            }
        }
        true
    }

    pub fn describe(&self) -> (r: String)
        ensures
            r@ == describe_spec(*self),
    {
        match (self.equals, self.min, self.max) {
            (Some(e), _, _) => {
                let mut r = owned("exactly ");
                append(&mut r, signed_decimal_string(e).as_str());
                r
            },
            (None, Some(lo), Some(hi)) => {
                let mut r = owned("between ");
                append(&mut r, signed_decimal_string(lo).as_str());
                append(&mut r, " and ");
                append(&mut r, signed_decimal_string(hi).as_str());
                r
            },
            (None, Some(lo), None) => {
                let mut r = owned("at least ");
                append(&mut r, signed_decimal_string(lo).as_str());
                r
            },
            (None, None, Some(hi)) => {
                let mut r = owned("at most ");
                append(&mut r, signed_decimal_string(hi).as_str());
                r
            },
            (None, None, None) => owned("any value"),
        }
    }
}

/// An author's weight, clamped to 1..=100.
pub open spec fn clamp_weight(w: i64) -> u32 {
    if w < 1 {
        1
    } else if w > 100 {
        100
    } else {
        w as u32
    }
}

/// The author's `failureCategory`, when it names a category.
pub open spec fn category_override(v: Validator) -> Option<Seq<char>> {
    match v.str_param_spec("failureCategory"@) {
        Some(k) => if exists|c: FailureCategory| c.key_spec() == k {
            Some(k)
        } else {
            None
        },
        None => None,
    }
}

/// The outcome with the author's overrides applied: for a real failure (not a pass, not an
/// errored check) the `message` and a recognised `failureCategory` replace the generated
/// ones; a `weight` always applies, clamped to 1..=100.
pub fn apply_overrides(validator: &Validator, outcome: CheckOutcome) -> (r: CheckOutcome)
    requires
        validator.wf(),
    ensures
        r.kind == outcome.kind,
        r.passed == outcome.passed,
        r.errored == outcome.errored,
        r.observed == outcome.observed,
        r.expected == outcome.expected,
        r.message@ == if !outcome.passed && !outcome.errored && validator.str_param_spec(
            "message"@,
        ) is Some {
            validator.str_param_spec("message"@)->0
        } else {
            outcome.message@
        },
        (!outcome.passed && !outcome.errored && category_override(*validator) is Some) ==> (
        r.failure_category is Some && r.failure_category->0.key_spec() == category_override(
            *validator,
        )->0),
        !(!outcome.passed && !outcome.errored && category_override(*validator) is Some)
            ==> r.failure_category == outcome.failure_category,
        r.weight == match validator.i64_param_spec("weight"@) {
            Some(w) => clamp_weight(w),
            None => outcome.weight,
        },
{
    let mut outcome = outcome;
    if !outcome.passed && !outcome.errored {
        if let Some(message) = validator.str_param("message") {
            outcome.message = owned(message);
        }
        if let Some(key) = validator.str_param("failureCategory") {
            if let Some(category) = FailureCategory::from_key(key) {
                outcome.failure_category = Some(category);
            }
        }
    }
    if let Some(weight) = validator.i64_param("weight") {
        outcome.weight = if weight < 1 {
            1
        } else if weight > 100 {
            100
        } else {
            weight as u32
        };
    }
    outcome
}


/// Bounds are inclusive: a value satisfies them exactly when it equals `equals` (if set) and
/// lies between `min` and `max` (each if set), both ends included. In particular each set
/// end is itself allowed, and so is every value between two allowed ones.
pub proof fn lemma_bounds_are_inclusive(b: Bounds, actual: i64, lower: i64, upper: i64)
    ensures
        b.holds(actual) <==> ((b.equals is None || b.equals == Some(actual)) && (b.min is None || b.min.unwrap()
            <= actual) && (b.max is None || actual <= b.max.unwrap())),
        b.equals is None && b.min is Some && (b.max is None || b.min.unwrap() <= b.max.unwrap()) ==> b.holds(
            b.min.unwrap(),
        ),
        b.equals is None && b.max is Some && (b.min is None || b.min.unwrap() <= b.max.unwrap()) ==> b.holds(
            b.max.unwrap(),
        ),
        b.holds(lower) && b.holds(upper) && lower <= actual <= upper ==> b.holds(actual),
        b.equals is None && b.min is None && b.max is None ==> b.holds(actual),
{
}

} // verus!
