//! The validator registry: which validator tags exist, whether this agent implements them,
//! and the parameters each takes. Both the host and the guest check a validator against it
//! before anything runs, so a lesson package that names a validator this agent does not have
//! can never mark a task complete.
use crate::lesson::{keys_sorted, ArrayItem, ParamValue, Validator};
use crate::text::{
    append, chars_of, copy_strings, join, join_strings, owned, parse_unsigned, parse_unsigned_chars, same_text,
    strings_view,
};
use crate::sys::{strip_octal_prefix, strip_repeated_prefix};
use vstd::prelude::*;

verus! {

#[derive(Debug, Clone, PartialEq, Eq)]
pub struct ParamSpec {
    pub param_type: String,
    pub required: bool,
    pub values: Vec<String>,
    pub summary: Option<String>,
}

#[derive(Debug, Clone, PartialEq, Eq)]
pub struct ValidatorSpec {
    pub category: String,
    pub implemented: bool,
    pub failure_category: String,
    pub summary: String,
    /// The parameters, keyed by name in ascending order.
    pub params: Vec<(String, ParamSpec)>,
    /// At least one of these parameter names must be present, e.g. a bound for `file_size`.
    pub requires_one_of: Vec<String>,
}

#[derive(Debug, Clone, PartialEq, Eq)]
pub struct Registry {
    pub schema_version: u32,
    pub failure_categories: Vec<String>,
    /// Parameters every validator accepts, keyed by name in ascending order.
    pub common_params: Vec<(String, ParamSpec)>,
    /// The validators, keyed by tag in ascending order.
    pub validators: Vec<(String, ValidatorSpec)>,
}

#[derive(Debug, Clone, PartialEq, Eq)]
pub enum RegistryError {
    UnknownValidator(String),
    NotImplemented(String),
    MissingParam { kind: String, param: String },
    UnknownParam { kind: String, param: String },
    MissingOneOf { kind: String, options: Vec<String> },
    WrongParamType { kind: String, param: String, expected: String },
    BadEnumValue { kind: String, param: String, allowed: Vec<String> },
}

#[allow(inconsistent_fields)]
pub enum ErrorView {
    UnknownValidator(Seq<char>),
    NotImplemented(Seq<char>),
    MissingParam { kind: Seq<char>, param: Seq<char> },
    UnknownParam { kind: Seq<char>, param: Seq<char> },
    MissingOneOf { kind: Seq<char>, options: Seq<Seq<char>> },
    WrongParamType { kind: Seq<char>, param: Seq<char>, expected: Seq<char> },
    BadEnumValue { kind: Seq<char>, param: Seq<char>, allowed: Seq<Seq<char>> },
}

impl View for RegistryError {
    type V = ErrorView;

    open spec fn view(&self) -> ErrorView {
        match self {
            RegistryError::UnknownValidator(k) => ErrorView::UnknownValidator(k@),
            RegistryError::NotImplemented(k) => ErrorView::NotImplemented(k@),
            RegistryError::MissingParam { kind, param } => ErrorView::MissingParam {
                kind: kind@,
                param: param@,
            },
            RegistryError::UnknownParam { kind, param } => ErrorView::UnknownParam {
                kind: kind@,
                param: param@,
            },
            RegistryError::MissingOneOf { kind, options } => ErrorView::MissingOneOf {
                kind: kind@,
                options: strings_view(options@),
            },
            RegistryError::WrongParamType { kind, param, expected } => ErrorView::WrongParamType {
                kind: kind@,
                param: param@,
                expected: expected@,
            },
            RegistryError::BadEnumValue { kind, param, allowed } => ErrorView::BadEnumValue {
                kind: kind@,
                param: param@,
                allowed: strings_view(allowed@),
            },
        }
    }
}

/// What an error says to a lesson author.
pub open spec fn error_message(e: ErrorView) -> Seq<char> {
    match e {
        ErrorView::UnknownValidator(k) => "unknown validator '"@ + k + "'"@,
        ErrorView::NotImplemented(k) => "validator '"@ + k
            + "' is declared but not implemented by this agent"@,
        ErrorView::MissingParam { kind, param } => "validator '"@ + kind + "' requires parameter '"@
            + param + "'"@,
        ErrorView::UnknownParam { kind, param } => "validator '"@ + kind
            + "' does not accept parameter '"@ + param + "'"@,
        ErrorView::MissingOneOf { kind, options } => "validator '"@ + kind
            + "' needs at least one of: "@ + join(options, ", "@),
        ErrorView::WrongParamType { kind, param, expected } => "validator '"@ + kind
            + "' parameter '"@ + param + "' must be of type "@ + expected,
        ErrorView::BadEnumValue { kind, param, allowed } => "validator '"@ + kind
            + "' parameter '"@ + param + "' must be one of: "@ + join(allowed, ", "@),
    }
}

impl RegistryError {
    /// What the error says to a lesson author (its `Display`).
    pub fn message(&self) -> (r: String)
        ensures
            r@ == error_message(self@),
    {
        match self {
            RegistryError::UnknownValidator(k) => {
                let mut r = owned("unknown validator '");
                append(&mut r, k.as_str());
                append(&mut r, "'");
                r
            },
            RegistryError::NotImplemented(k) => {
                let mut r = owned("validator '");
                append(&mut r, k.as_str());
                append(&mut r, "' is declared but not implemented by this agent");
                r
            },
            RegistryError::MissingParam { kind, param } => {
                let mut r = owned("validator '");
                append(&mut r, kind.as_str());
                append(&mut r, "' requires parameter '");
                append(&mut r, param.as_str());
                append(&mut r, "'");
                r
            },
            RegistryError::UnknownParam { kind, param } => {
                let mut r = owned("validator '");
                append(&mut r, kind.as_str());
                append(&mut r, "' does not accept parameter '");
                append(&mut r, param.as_str());
                append(&mut r, "'");
                r
            },
            RegistryError::MissingOneOf { kind, options } => {
                let mut r = owned("validator '");
                append(&mut r, kind.as_str());
                append(&mut r, "' needs at least one of: ");
                append(&mut r, join_strings(options, ", ").as_str());
                r
            },
            RegistryError::WrongParamType { kind, param, expected } => {
                let mut r = owned("validator '");
                append(&mut r, kind.as_str());
                append(&mut r, "' parameter '");
                append(&mut r, param.as_str());
                append(&mut r, "' must be of type ");
                append(&mut r, expected.as_str());
                r
            },
            RegistryError::BadEnumValue { kind, param, allowed } => {
                let mut r = owned("validator '");
                append(&mut r, kind.as_str());
                append(&mut r, "' parameter '");
                append(&mut r, param.as_str());
                append(&mut r, "' must be one of: ");
                append(&mut r, join_strings(allowed, ", ").as_str());
                r
            },
        }
    }
}

/// The spec filed under `key` in a keyed list, if any (the first, and with sorted keys the
/// only one).
pub open spec fn lookup<T>(entries: Seq<(String, T)>, key: Seq<char>) -> Option<T>
    decreases entries.len(),
{
    if entries.len() == 0 {
        None
    } else if entries[0].0@ == key {
        Some(entries[0].1)
    } else {
        lookup(entries.drop_first(), key)
    }
}

pub open spec fn entry_keys<T>(entries: Seq<(String, T)>) -> Seq<Seq<char>> {
    entries.map_values(|e: (String, T)| e.0@)
}

fn find_entry<T>(entries: &Vec<(String, T)>, key: &str) -> (r: Option<usize>)
    ensures
        match r {
            Some(i) => i < entries@.len() && lookup(entries@, key@) == Some(entries@[i as int].1),
            None => lookup(entries@, key@) is None,
        },
{
    let mut i: usize = 0;
    assert(entries@.skip(0) =~= entries@);
    while i < entries.len()
        invariant
            i <= entries@.len(),
            lookup(entries@, key@) == lookup(entries@.skip(i as int), key@),
        decreases entries.len() - i,
    {
        assert(entries@.skip(i as int).drop_first() =~= entries@.skip(i + 1));
        assert(entries@.skip(i as int)[0] == entries@[i as int]);
        if same_text(entries[i].0.as_str(), key) {
            return Some(i);
        }
        i += 1;
    }
    None
}

/// A parameter value of the wrong shape: what it should have been.
pub open spec fn wrong(kind: Seq<char>, param: Seq<char>, expected: Seq<char>) -> Option<ErrorView> {
    Some(ErrorView::WrongParamType { kind, param, expected })
}

pub open spec fn octal_mode_text() -> Seq<char> {
    "an octal mode such as \"0644\""@
}

pub open spec fn is_hex_digit(c: char) -> bool {
    ('0' <= c && c <= '9') || ('a' <= c && c <= 'f') || ('A' <= c && c <= 'F')
}

/// What is wrong with a parameter value for its declared type, if anything. Items of a
/// `validators` array must be JSON values that are not strings; whether each is a valid
/// validator is checked by whoever parses it.
pub open spec fn value_error(kind: Seq<char>, name: Seq<char>, p: ParamSpec, v: ParamValue) -> Option<
    ErrorView,
> {
    let t = p.param_type@;
    if t == "int"@ || t == "port"@ {
        match v {
            ParamValue::Integer(n) => if t == "port"@ && !(1 <= n && n <= 65535) {
                wrong(kind, name, "a port between 1 and 65535"@)
            } else {
                None
            },
            _ => wrong(kind, name, "an integer"@),
        }
    } else if t == "bool"@ {
        match v {
            ParamValue::Bool(_) => None,
            _ => wrong(kind, name, "a boolean"@),
        }
    } else if t == "list<string>"@ {
        match v {
            ParamValue::Array(items) => if exists|i: int|
                0 <= i < items@.len() && (#[trigger] items@[i]) is Json {
                wrong(kind, name, "an array of strings"@)
            } else {
                None
            },
            _ => wrong(kind, name, "an array of strings"@),
        }
    } else if t == "validators"@ {
        match v {
            ParamValue::Array(items) => if exists|i: int|
                0 <= i < items@.len() && (#[trigger] items@[i]) is Text {
                wrong(kind, name, "an array of validators"@)
            } else {
                None
            },
            _ => wrong(kind, name, "an array of validators"@),
        }
    } else if t == "enum"@ {
        match v {
            ParamValue::String(s) => if strings_view(p.values@).contains(s@) {
                None
            } else {
                Some(
                    ErrorView::BadEnumValue { kind, param: name, allowed: strings_view(p.values@) },
                )
            },
            _ => wrong(kind, name, "a string"@),
        }
    } else if t == "path"@ {
        match v {
            ParamValue::String(s) => if s@.len() == 0 {
                wrong(kind, name, "a non-empty path"@)
            } else {
                None
            },
            _ => wrong(kind, name, "a string path"@),
        }
    } else if t == "mode"@ {
        match v {
            ParamValue::String(s) => if parse_unsigned(
                strip_repeated_prefix(s@, "0o"@),
                8,
                u32::MAX as nat,
            ) is Some {
                None
            } else {
                wrong(kind, name, octal_mode_text())
            },
            ParamValue::Integer(_) | ParamValue::Unsigned(_) | ParamValue::Decimal(_) => None,
            _ => wrong(kind, name, octal_mode_text()),
        }
    } else if t == "sha256"@ {
        match v {
            ParamValue::String(s) => if s@.len() == 64 && forall|i: int|
                0 <= i < 64 ==> is_hex_digit(#[trigger] s@[i]) {
                None
            } else {
                wrong(kind, name, "a 64 character hex SHA-256 digest"@)
            },
            _ => wrong(kind, name, "a hex digest"@),
        }
    } else {
        match v {
            ParamValue::String(_) => None,
            _ => wrong(kind, name, "a string"@),
        }
    }
}

fn wrong_type(kind: &str, param: &str, expected: &str) -> (r: Result<(), RegistryError>)
    ensures
        r matches Err(e) && Some(e@) == wrong(kind@, param@, expected@),
{
    Err(RegistryError::WrongParamType { kind: owned(kind), param: owned(param), expected: owned(expected) })
}

fn any_item(items: &Vec<ArrayItem>, text: bool) -> (r: bool)
    ensures
        r == exists|i: int| 0 <= i < items@.len() && (if text {
            (#[trigger] items@[i]) is Text
        } else {
            (#[trigger] items@[i]) is Json
        }),
{
    let mut i: usize = 0;
    while i < items.len()
        invariant
            i <= items@.len(),
            forall|j: int| 0 <= j < i ==> !(if text {
                (#[trigger] items@[j]) is Text
            } else {
                (#[trigger] items@[j]) is Json
            }),
        decreases items.len() - i,
    {
        let hit = match &items[i] {
            ArrayItem::Text(_) => text,
            ArrayItem::Json(_) => !text,
        };
        if hit {
            return true;
        }
        i += 1;
    }
    false
}

fn contains_string(list: &Vec<String>, s: &str) -> (r: bool)
    ensures
        r == strings_view(list@).contains(s@),
{
    let mut i: usize = 0;
    while i < list.len()
        invariant
            i <= list@.len(),
            forall|j: int| 0 <= j < i ==> list@[j]@ != s@,
        decreases list.len() - i,
    {
        if same_text(list[i].as_str(), s) {
            assert(strings_view(list@)[i as int] == s@);
            return true;
        }
        i += 1;
    }
    assert forall|j: int| 0 <= j < strings_view(list@).len() implies strings_view(list@)[j] != s@ by {
        assert(strings_view(list@)[j] == list@[j]@);
    }
    false
}

/// Checks one parameter value against its declared type.
pub fn check_value(kind: &str, param_name: &str, spec: &ParamSpec, value: &ParamValue) -> (r: Result<
    (),
    RegistryError,
>)
    ensures
        match value_error(kind@, param_name@, *spec, *value) {
            None => r is Ok,
            Some(e) => r matches Err(x) && x@ == e,
        },
{
    let t = spec.param_type.as_str();
    if same_text(t, "int") || same_text(t, "port") {
        match value {
            ParamValue::Integer(n) => {
                if same_text(t, "port") && !(1 <= *n && *n <= 65535) {
                    return wrong_type(kind, param_name, "a port between 1 and 65535");
                }
                Ok(())
            },
            _ => wrong_type(kind, param_name, "an integer"),
        }
    } else if same_text(t, "bool") {
        match value {
            ParamValue::Bool(_) => Ok(()),
            _ => wrong_type(kind, param_name, "a boolean"),
        }
    } else if same_text(t, "list<string>") {
        match value {
            ParamValue::Array(items) => if any_item(items, false) {
                wrong_type(kind, param_name, "an array of strings")
            } else {
                Ok(())
            },
            _ => wrong_type(kind, param_name, "an array of strings"),
        }
    } else if same_text(t, "validators") {
        match value {
            ParamValue::Array(items) => if any_item(items, true) {
                wrong_type(kind, param_name, "an array of validators")
            } else {
                Ok(())
            },
            _ => wrong_type(kind, param_name, "an array of validators"),
        }
    } else if same_text(t, "enum") {
        match value {
            ParamValue::String(s) => if contains_string(&spec.values, s.as_str()) {
                Ok(())
            } else {
                Err(
                    RegistryError::BadEnumValue {
                        kind: owned(kind),
                        param: owned(param_name),
                        allowed: copy_strings(&spec.values),
                    },
                )
            },
            _ => wrong_type(kind, param_name, "a string"),
        }
    } else if same_text(t, "path") {
        match value {
            ParamValue::String(s) => if s.unicode_len() == 0 {
                wrong_type(kind, param_name, "a non-empty path")
            } else {
                Ok(())
            },
            _ => wrong_type(kind, param_name, "a string path"),
        }
    } else if same_text(t, "mode") {
        match value {
            ParamValue::String(s) => {
                let body = strip_octal_prefix(s.as_str());
                let chars = chars_of(body.as_str());
                match parse_unsigned_chars(&chars, 8, u32::MAX as u64) {
                    Some(_) => Ok(()),
                    None => wrong_type(kind, param_name, "an octal mode such as \"0644\""),
                }
            },
            ParamValue::Integer(_) | ParamValue::Unsigned(_) | ParamValue::Decimal(_) => Ok(()),
            _ => wrong_type(kind, param_name, "an octal mode such as \"0644\""),
        }
    } else if same_text(t, "sha256") {
        match value {
            ParamValue::String(s) => {
                let chars = chars_of(s.as_str());
                let mut ok = chars.len() == 64;
                if ok {
                    let mut i: usize = 0;
                    while i < 64
                        invariant
                            i <= 64,
                            chars@.len() == 64,
                            chars@ == s@,
                            ok == forall|j: int| 0 <= j < i ==> is_hex_digit(#[trigger] chars@[j]),
                        decreases 64 - i,
                    {
                        let c = chars[i];
                        let hex = ('0' <= c && c <= '9') || ('a' <= c && c <= 'f') || ('A' <= c
                            && c <= 'F');
                        if !hex {
                            ok = false;
                        }
                        i += 1;
                    }
                }
                if ok {
                    Ok(())
                } else {
                    wrong_type(kind, param_name, "a 64 character hex SHA-256 digest")
                }
            },
            _ => wrong_type(kind, param_name, "a hex digest"),
        }
    } else {
        match value {
            ParamValue::String(_) => Ok(()),
            _ => wrong_type(kind, param_name, "a string"),
        }
    }
}

/// The first parameter the validator gives that neither its spec nor the common parameters
/// declare.
pub open spec fn first_unknown(
    ps: Seq<(String, ParamValue)>,
    spec: ValidatorSpec,
    common: Seq<(String, ParamSpec)>,
) -> Option<Seq<char>>
    decreases ps.len(),
{
    if ps.len() == 0 {
        None
    } else if lookup(spec.params@, ps[0].0@) is None && lookup(common, ps[0].0@) is None {
        Some(ps[0].0@)
    } else {
        first_unknown(ps.drop_first(), spec, common)
    }
}

/// The first required parameter, in the spec's order, that the validator does not give.
pub open spec fn first_missing(sps: Seq<(String, ParamSpec)>, v: Validator) -> Option<Seq<char>>
    decreases sps.len(),
{
    if sps.len() == 0 {
        None
    } else if sps[0].1.required && v.param(sps[0].0@) is None {
        Some(sps[0].0@)
    } else {
        first_missing(sps.drop_first(), v)
    }
}

/// The declaration of a parameter: the validator's own, else the common one.
pub open spec fn declared(spec: ValidatorSpec, common: Seq<(String, ParamSpec)>, name: Seq<char>) -> Option<
    ParamSpec,
> {
    match lookup(spec.params@, name) {
        Some(p) => Some(p),
        None => lookup(common, name),
    }
}

/// The first parameter value, in the validator's order, that does not fit its declaration.
pub open spec fn first_value_error(
    ps: Seq<(String, ParamValue)>,
    kind: Seq<char>,
    spec: ValidatorSpec,
    common: Seq<(String, ParamSpec)>,
) -> Option<ErrorView>
    decreases ps.len(),
{
    if ps.len() == 0 {
        None
    } else {
        let here = match declared(spec, common, ps[0].0@) {
            Some(p) => value_error(kind, ps[0].0@, p, ps[0].1),
            None => None,
        };
        if here is Some {
            here
        } else {
            first_value_error(ps.drop_first(), kind, spec, common)
        }
    }
}

/// What is wrong with a validator, checked in this order: an unknown tag, a tag this agent
/// does not implement, a parameter nobody declares, a missing required parameter, none of
/// a required alternative, a value of the wrong type. `None` when nothing is.
pub open spec fn check_spec(reg: Registry, v: Validator) -> Option<ErrorView> {
    let kind = v.kind@;
    match lookup(reg.validators@, kind) {
        None => Some(ErrorView::UnknownValidator(kind)),
        Some(spec) => if !spec.implemented {
            Some(ErrorView::NotImplemented(kind))
        } else {
            match first_unknown(v.params@, spec, reg.common_params@) {
                Some(name) => Some(ErrorView::UnknownParam { kind, param: name }),
                None => match first_missing(spec.params@, v) {
                    Some(name) => Some(ErrorView::MissingParam { kind, param: name }),
                    None => if spec.requires_one_of@.len() > 0 && !(exists|i: int|
                        0 <= i < spec.requires_one_of@.len() && v.param(
                            (#[trigger] spec.requires_one_of@[i])@,
                        ) is Some) {
                        Some(
                            ErrorView::MissingOneOf {
                                kind,
                                options: strings_view(spec.requires_one_of@),
                            },
                        )
                    } else {
                        first_value_error(v.params@, kind, spec, reg.common_params@)
                    },
                },
            }
        },
    }
}

impl Registry {
    /// The spec of a validator tag.
    pub fn spec(&self, kind: &str) -> (r: Option<&ValidatorSpec>)
        ensures
            match r {
                Some(s) => lookup(self.validators@, kind@) == Some(*s),
                None => lookup(self.validators@, kind@) is None,
            },
    {
        match find_entry(&self.validators, kind) {
            Some(i) => Some(&self.validators[i].1),
            None => None,
        }
    }

    /// The tags this agent implements, in ascending order.
    pub fn implemented_validators(&self) -> (r: Vec<&String>)
        ensures
            r@.map_values(|s: &String| s@) == self.validators@.filter(
                |e: (String, ValidatorSpec)| e.1.implemented,
            ).map_values(|e: (String, ValidatorSpec)| e.0@),
    {
        let mut out: Vec<&String> = Vec::new();
        let mut i: usize = 0;
        while i < self.validators.len()
            invariant
                i <= self.validators@.len(),
                out@.map_values(|s: &String| s@) == self.validators@.take(i as int).filter(
                    |e: (String, ValidatorSpec)| e.1.implemented,
                ).map_values(|e: (String, ValidatorSpec)| e.0@),
            decreases self.validators.len() - i,
        {
            assert(self.validators@.take(i + 1).drop_last() =~= self.validators@.take(i as int));
            reveal(Seq::filter);
            let ghost before = out@;
            if self.validators[i].1.implemented {
                out.push(&self.validators[i].0);
                assert(out@.map_values(|s: &String| s@) =~= before.map_values(|s: &String| s@).push(
                    self.validators@[i as int].0@,
                ));
            }
            i += 1;
        }
        assert(self.validators@.take(self.validators@.len() as int) =~= self.validators@);
        out
    }

    /// Checks one validator against the registry. Items of a `validators` parameter are
    /// nested validators, which the caller parses and checks in turn.
    pub fn check(&self, validator: &Validator) -> (r: Result<(), RegistryError>)
        ensures
            match check_spec(*self, *validator) {
                None => r is Ok,
                Some(e) => r matches Err(x) && x@ == e,
            },
    {
        let kind = validator.kind.as_str();
        let spec = match self.spec(kind) {
            Some(s) => s,
            None => return Err(RegistryError::UnknownValidator(owned(kind))),
        };
        if !spec.implemented {
            return Err(RegistryError::NotImplemented(owned(kind)));
        }
        let ps = validator.entries();
        let mut i: usize = 0;
        assert(ps@.skip(0) =~= ps@);
        while i < ps.len()
            invariant
                i <= ps@.len(),
                ps@ == validator.params@,
                kind@ == validator.kind@,
                lookup(self.validators@, kind@) == Some(*spec),
                spec.implemented,
                first_unknown(ps@, *spec, self.common_params@) == first_unknown(
                    ps@.skip(i as int),
                    *spec,
                    self.common_params@,
                ),
            decreases ps.len() - i,
        {
            assert(ps@.skip(i as int).drop_first() =~= ps@.skip(i + 1));
            assert(ps@.skip(i as int)[0] == ps@[i as int]);
            let name = ps[i].0.as_str();
            assert(name@ == ps@[i as int].0@);
            if find_entry(&spec.params, name).is_none() && find_entry(&self.common_params, name).is_none() {
                return Err(RegistryError::UnknownParam { kind: owned(kind), param: owned(name) });
            }
            i += 1;
        }
        let mut j: usize = 0;
        assert(spec.params@.skip(0) =~= spec.params@);
        while j < spec.params.len()
            invariant
                j <= spec.params@.len(),
                ps@ == validator.params@,
                kind@ == validator.kind@,
                lookup(self.validators@, kind@) == Some(*spec),
                spec.implemented,
                first_unknown(ps@, *spec, self.common_params@) is None,
                first_missing(spec.params@, *validator) == first_missing(
                    spec.params@.skip(j as int),
                    *validator,
                ),
            decreases spec.params.len() - j,
        {
            assert(spec.params@.skip(j as int).drop_first() =~= spec.params@.skip(j + 1));
            assert(spec.params@.skip(j as int)[0] == spec.params@[j as int]);
            let (name, param) = (&spec.params[j].0, &spec.params[j].1);
            if param.required && validator.get(name.as_str()).is_none() {
                return Err(RegistryError::MissingParam { kind: owned(kind), param: name.clone() });
            }
            j += 1;
        }
        if spec.requires_one_of.len() > 0 {
            let mut any = false;
            let mut k: usize = 0;
            while k < spec.requires_one_of.len()
                invariant
                    k <= spec.requires_one_of@.len(),
                        any == exists|m: int|
                        0 <= m < k && validator.param((#[trigger] spec.requires_one_of@[m])@) is Some,
                decreases spec.requires_one_of.len() - k,
            {
                if validator.get(spec.requires_one_of[k].as_str()).is_some() {
                    any = true;
                }
                k += 1;
            }
            if !any {
                return Err(
                    RegistryError::MissingOneOf {
                        kind: owned(kind),
                        options: copy_strings(&spec.requires_one_of),
                    },
                );
            }
        }
        let mut m: usize = 0;
        while m < ps.len()
            invariant
                m <= ps@.len(),
                ps@ == validator.params@,
                kind@ == validator.kind@,
                lookup(self.validators@, kind@) == Some(*spec),
                spec.implemented,
                first_unknown(ps@, *spec, self.common_params@) is None,
                first_missing(spec.params@, *validator) is None,
                !(spec.requires_one_of@.len() > 0 && !(exists|i: int|
                    0 <= i < spec.requires_one_of@.len() && validator.param(
                        (#[trigger] spec.requires_one_of@[i])@,
                    ) is Some)),
                first_value_error(ps@, kind@, *spec, self.common_params@) == first_value_error(
                    ps@.skip(m as int),
                    kind@,
                    *spec,
                    self.common_params@,
                ),
            decreases ps.len() - m,
        {
            assert(ps@.skip(m as int).drop_first() =~= ps@.skip(m + 1));
            assert(ps@.skip(m as int)[0] == ps@[m as int]);
            let (name, value) = (&ps[m].0, &ps[m].1);
            let declared_param = match find_entry(&spec.params, name.as_str()) {
                Some(x) => Some(&spec.params[x].1),
                None => match find_entry(&self.common_params, name.as_str()) {
                    Some(y) => Some(&self.common_params[y].1),
                    None => None,
                },
            };
            assert(name@ == ps@[m as int].0@);
            if let Some(p) = declared_param {
                assert(declared(*spec, self.common_params@, name@) == Some(*p));
                let checked = check_value(kind, name.as_str(), p, value);
                if checked.is_err() {
                    return checked;
                }
            }
            m += 1;
        }
        assert(ps@.skip(ps@.len() as int) =~= Seq::<(String, ParamValue)>::empty());
        Ok(())
    }
}

} // verus!
