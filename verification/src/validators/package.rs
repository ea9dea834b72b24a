//! Package validators: what each one concludes from dpkg's and apt's own state.
use super::args::{self, is_missing_outcome};
use super::{errs, fails, passes, passes_with};
use crate::sys::{CommandOutput, find_first_pub, first_index, split_once_spec};
use crate::text::{
    append, chars_from, chars_from_to, chars_of, contains, contains_chars, join, join_strings,
    lines, lines_of, owned, phrase, phrase2, signed_decimal, signed_decimal_string, string_of,
    strings_view, trim, trimmed,
};
use crate::validation::{CheckOutcome, FailureCategory};
use crate::lesson::Validator;
use vstd::prelude::*;

verus! {

fn cat2(a: &str, b: &str) -> (r: String)
    ensures
        r@ == a@ + b@,
{
    let mut r = owned(a);
    append(&mut r, b);
    r
}

/// The status word and version that `dpkg-query -W -f='${db:Status-Status} ${Version}'`
/// printed: the trimmed output up to its first space, and the trimmed rest.
pub open spec fn dpkg_fields(output: Seq<char>) -> (Seq<char>, Seq<char>) {
    let text = trim(output);
    match split_once_spec(text, ' ') {
        Some((status, rest)) => (status, trim(rest)),
        None => (text, Seq::empty()),
    }
}

/// dpkg's status and version for a package from the `dpkg-query` run's result: `None` when
/// the run failed (dpkg knows nothing of the package).
pub fn dpkg_status(output: &CommandOutput) -> (r: Option<(String, String)>)
    ensures
        match r {
            Some((s, ver)) => output.status == 0 && !output.timed_out && (s@, ver@) == dpkg_fields(output.stdout@),
            None => !(output.status == 0 && !output.timed_out),
        },
{
    if !output.success() {
        return None;
    }
    let text = output.stdout_trimmed();
    let chars = chars_of(text.as_str());
    match find_first_pub(&chars, ' ') {
        Some(k) => {
            let status = string_of(&chars_from_to(&chars, 0, k));
            let rest = string_of(&chars_from(&chars, k + 1));
            assert(status@ =~= text@.take(k as int));
            Some((status, trimmed(rest.as_str())))
        },
        None => Some((text, String::new())),
    }
}

/// `package_installed`: dpkg has `package` installed and, when `version` is given, at that
/// exact version. `status` is its state and version as [`dpkg_status`] read them.
pub fn package_installed(v: &Validator, status: Option<(String, String)>) -> (r: CheckOutcome)
    requires
        v.wf(),
    ensures
        match v.str_param_spec("package"@) {
            None => is_missing_outcome(r, v.kind@, "package"@),
            Some(p) => match status {
                None => fails(r, v.kind@, p + " is not installed."@, FailureCategory::TaskPartiallyCompleted, None, None),
                Some((s, ver)) => if s@ == "installed"@ {
                    match v.str_param_spec("version"@) {
                        Some(want) if ver@ != want => fails(
                            r,
                            v.kind@,
                            p + " is installed, but not at the expected version."@,
                            FailureCategory::TaskPartiallyCompleted,
                            Some(want),
                            Some(ver@),
                        ),
                        _ => passes_with(r, v.kind@, p + " is installed."@, Some(ver@)),
                    }
                } else {
                    fails(
                        r,
                        v.kind@,
                        p + " is known to the system but its state is '"@ + s@ + "' rather than installed."@,
                        FailureCategory::TaskPartiallyCompleted,
                        Some("installed"@),
                        Some(s@),
                    )
                },
            },
        },
{
    let package = match args::string(v, "package") {
        Ok(p) => p,
        Err(o) => return o,
    };
    let kind = v.kind.as_str();
    let (state, version) = match status {
        Some(sv) => sv,
        None => {
            return CheckOutcome::fail(
                kind,
                cat2(package, " is not installed.").as_str(),
                FailureCategory::TaskPartiallyCompleted,
            )
        },
    };
    if crate::text::same_text(state.as_str(), "installed") {
        match args::optional_string(v, "version") {
            Some(want) => if !crate::text::same_text(version.as_str(), want) {
                return CheckOutcome::fail(
                    kind,
                    cat2(package, " is installed, but not at the expected version.").as_str(),
                    FailureCategory::TaskPartiallyCompleted,
                ).expected(want).observed(version.as_str());
            },
            None => {},
        }
        CheckOutcome::pass(kind, cat2(package, " is installed.").as_str()).observed(version.as_str())
    } else {
        let mut message = phrase(package, " is known to the system but its state is '", state.as_str());
        append(&mut message, "' rather than installed.");
        CheckOutcome::fail(kind, message.as_str(), FailureCategory::TaskPartiallyCompleted).expected(
            "installed",
        ).observed(state.as_str())
    }
}

/// `package_removed`: `package` is no longer installed; with `purged`, its configuration
/// files are gone too (removing and purging are different operations). `status` is as for
/// [`package_installed`].
pub fn package_removed(v: &Validator, status: Option<(String, String)>) -> (r: CheckOutcome)
    requires
        v.wf(),
    ensures
        match v.str_param_spec("package"@) {
            None => is_missing_outcome(r, v.kind@, "package"@),
            Some(p) => match status {
                None => passes(r, v.kind@, p + " is not present."@),
                Some((s, _)) => if s@ == "installed"@ {
                    fails(
                        r,
                        v.kind@,
                        p + " is still installed."@,
                        FailureCategory::TaskPartiallyCompleted,
                        None,
                        Some(s@),
                    )
                } else if v.bool_param_spec("purged"@) == Some(true) && s@ == "config-files"@ {
                    fails(
                        r,
                        v.kind@,
                        p + " was removed, but its configuration files are still there. Removing a package and purging it are different operations."@,
                        FailureCategory::TaskPartiallyCompleted,
                        Some("no configuration files left"@),
                        Some(s@),
                    )
                } else {
                    passes_with(r, v.kind@, p + " is removed."@, Some(s@))
                },
            },
        },
{
    let package = match args::string(v, "package") {
        Ok(p) => p,
        Err(o) => return o,
    };
    let purged = args::flag(v, "purged");
    let kind = v.kind.as_str();
    let state = match status {
        Some((s, _)) => s,
        None => return CheckOutcome::pass(kind, cat2(package, " is not present.").as_str()),
    };
    if crate::text::same_text(state.as_str(), "installed") {
        CheckOutcome::fail(
            kind,
            cat2(package, " is still installed.").as_str(),
            FailureCategory::TaskPartiallyCompleted,
        ).observed(state.as_str())
    } else if purged && crate::text::same_text(state.as_str(), "config-files") {
        CheckOutcome::fail(
            kind,
            cat2(
                package,
                " was removed, but its configuration files are still there. Removing a package and purging it are different operations.",
            ).as_str(),
            FailureCategory::TaskPartiallyCompleted,
        ).expected("no configuration files left").observed(state.as_str())
    } else {
        CheckOutcome::pass(kind, cat2(package, " is removed.").as_str()).observed(state.as_str())
    }
}

/// The active lines of an apt source file: trimmed, without blank lines and comments.
pub open spec fn active_source_lines(ls: Seq<Seq<char>>) -> Seq<Seq<char>>
    decreases ls.len(),
{
    if ls.len() == 0 {
        Seq::empty()
    } else {
        let rest = active_source_lines(ls.drop_last());
        let t = trim(ls.last());
        if t.len() > 0 && t[0] != '#' {
            rest.push(t)
        } else {
            rest
        }
    }
}

/// Some active line of the source text mentions `uri`.
pub open spec fn names_source(content: Seq<char>, uri: Seq<char>) -> bool {
    let ls = active_source_lines(lines(content));
    exists|i: int| 0 <= i < ls.len() && contains(#[trigger] ls[i], uri)
}

/// The index of the first source file that names `uri`.
pub open spec fn first_naming(sources: Seq<(String, String)>, uri: Seq<char>) -> Option<int>
    decreases sources.len(),
{
    if sources.len() == 0 {
        None
    } else if names_source(sources[0].1@, uri) {
        Some(0)
    } else {
        match first_naming(sources.drop_first(), uri) {
            Some(i) => Some(i + 1),
            None => None,
        }
    }
}

fn mentions_uri(content: &str, uri: &str) -> (r: bool)
    ensures
        r == names_source(content@, uri@),
{
    let raw = lines_of(content);
    let ghost rv = strings_view(raw@);
    let needle = chars_of(uri);
    let ghost mut kept: Seq<Seq<char>> = Seq::empty();
    let mut i: usize = 0;
    while i < raw.len()
        invariant
            i <= raw@.len(),
            rv == strings_view(raw@),
            rv == lines(content@),
            needle@ == uri@,
            kept == active_source_lines(rv.take(i as int)),
            forall|k: int| 0 <= k < kept.len() ==> !contains(#[trigger] kept[k], uri@),
        decreases raw.len() - i,
    {
        assert(rv.take(i + 1).drop_last() =~= rv.take(i as int));
        assert(rv.take(i + 1).last() == raw@[i as int]@);
        let t = trimmed(raw[i].as_str());
        let tc = chars_of(t.as_str());
        if tc.len() > 0 && tc[0] != '#' {
            if contains_chars(&tc, &needle) {
                proof {
                    let ls = active_source_lines(rv);
                    let upto = kept.push(t@);
                    assert(upto == active_source_lines(rv.take(i + 1)));
                    lemma_active_prefix(rv, i + 1);
                    assert(ls[kept.len() as int] == t@);
                }
                return true;
            }
            proof {
                kept = kept.push(t@);
            }
        }
        i += 1;
    }
    assert(rv.take(raw@.len() as int) =~= rv);
    false
}

proof fn lemma_active_prefix(ls: Seq<Seq<char>>, n: int)
    requires
        0 <= n <= ls.len(),
    ensures
        active_source_lines(ls.take(n)).len() <= active_source_lines(ls).len(),
        forall|k: int|
            0 <= k < active_source_lines(ls.take(n)).len() ==> #[trigger] active_source_lines(ls)[k]
                == active_source_lines(ls.take(n))[k],
    decreases ls.len() - n,
{
    if n < ls.len() {
        lemma_active_prefix(ls, n + 1);
        assert(ls.take(n + 1).drop_last() =~= ls.take(n));
    } else {
        assert(ls.take(n) =~= ls);
    }
}

/// `repository_configured`: some readable apt source file has an active line mentioning
/// `uri`. `sources` are the files that could be read, as (path, text): the one the
/// validator names in `file`, or else `/etc/apt/sources.list` and the `.list` and `.sources`
/// files of `/etc/apt/sources.list.d`.
pub fn repository_configured(v: &Validator, sources: &Vec<(String, String)>) -> (r: CheckOutcome)
    requires
        v.wf(),
    ensures
        match v.str_param_spec("uri"@) {
            None => is_missing_outcome(r, v.kind@, "uri"@),
            Some(u) => if sources@.len() == 0 {
                fails(
                    r,
                    v.kind@,
                    "No apt source files could be read."@,
                    FailureCategory::TaskPartiallyCompleted,
                    None,
                    None,
                )
            } else {
                match first_naming(sources@, u) {
                    Some(i) => passes_with(
                        r,
                        v.kind@,
                        u + " is configured as a package source."@,
                        Some(sources@[i].0@),
                    ),
                    None => fails(
                        r,
                        v.kind@,
                        u + " is not configured as a package source."@,
                        FailureCategory::TaskPartiallyCompleted,
                        Some(u),
                        Some(join(sources@.map_values(|s: (String, String)| s.0@), ", "@)),
                    ),
                }
            },
        },
{
    let uri = match args::string(v, "uri") {
        Ok(u) => u,
        Err(o) => return o,
    };
    let kind = v.kind.as_str();
    if sources.len() == 0 {
        return CheckOutcome::fail(
            kind,
            "No apt source files could be read.",
            FailureCategory::TaskPartiallyCompleted,
        );
    }
    let mut paths: Vec<String> = Vec::new();
    let mut i: usize = 0;
    assert(sources@.skip(0) =~= sources@);
    while i < sources.len()
        invariant
            i <= sources@.len(),
            kind@ == v.kind@,
            v.str_param_spec("uri"@) == Some(uri@),
            sources@.len() > 0,
            first_naming(sources@, uri@) == match first_naming(sources@.skip(i as int), uri@) {
                Some(k) => Some(k + i),
                None => None::<int>,
            },
            strings_view(paths@) == sources@.take(i as int).map_values(|s: (String, String)| s.0@),
        decreases sources.len() - i,
    {
        proof {
            lemma_first_naming_step(sources@.skip(i as int), uri@);
            assert(sources@.skip(i as int).drop_first() =~= sources@.skip(i + 1));
            assert(sources@.skip(i as int)[0] == sources@[i as int]);
        }
        if mentions_uri(sources[i].1.as_str(), uri) {
            assert(first_naming(sources@.skip(i as int), uri@) == Some(0int));
            assert(first_naming(sources@, uri@) == Some(i as int));
            let r = CheckOutcome::pass(kind, cat2(uri, " is configured as a package source.").as_str()).observed(
                sources[i].0.as_str(),
            );
            return r;
        }
        let ghost prev = strings_view(paths@);
        paths.push(sources[i].0.clone());
        proof {
            let f = |s: (String, String)| s.0@;
            assert(strings_view(paths@) =~= prev.push(sources@[i as int].0@));
            assert(sources@.take(i + 1).map_values(f) =~= sources@.take(i as int).map_values(f).push(
                sources@[i as int].0@,
            ));
        }
        i += 1;
    }
    assert(sources@.take(sources@.len() as int) =~= sources@);
    let shown = join_strings(&paths, ", ");
    CheckOutcome::fail(
        kind,
        cat2(uri, " is not configured as a package source.").as_str(),
        FailureCategory::TaskPartiallyCompleted,
    ).expected(uri).observed(shown.as_str())
}

proof fn lemma_first_naming_step(s: Seq<(String, String)>, uri: Seq<char>)
    requires
        s.len() > 0,
    ensures
        first_naming(s, uri) == if names_source(s[0].1@, uri) {
            Some(0int)
        } else {
            match first_naming(s.drop_first(), uri) {
                Some(k) => Some(k + 1),
                None => None,
            }
        },
{
}

/// How `package_version` compares versions (`dpkg --compare-versions` operator): the
/// validator's `comparison`, `eq` when it gives none.
pub fn version_comparison(v: &Validator) -> (r: String)
    requires
        v.wf(),
    ensures
        r@ == match v.str_param_spec("comparison"@) {
            Some(c) => c,
            None => "eq"@,
        },
{
    match args::optional_string(v, "comparison") {
        Some(c) => owned(c),
        None => owned("eq"),
    }
}

/// `package_version`: the installed version of `package` satisfies `comparison` `version`,
/// as dpkg orders Debian versions. `status` is as for [`package_installed`]; `compared` is
/// what `dpkg --compare-versions <installed> <comparison> <version>` gave, or why it could
/// not run (it is not consulted unless the package is installed).
pub fn package_version(
    v: &Validator,
    status: Option<(String, String)>,
    compared: Result<CommandOutput, String>,
) -> (r: CheckOutcome)
    requires
        v.wf(),
    ensures
        match (v.str_param_spec("package"@), v.str_param_spec("version"@)) {
            (None, _) => is_missing_outcome(r, v.kind@, "package"@),
            (Some(_), None) => is_missing_outcome(r, v.kind@, "version"@),
            (Some(p), Some(want)) => {
                let cmp = match v.str_param_spec("comparison"@) {
                    Some(c) => c,
                    None => "eq"@,
                };
                match status {
                    None => fails(
                        r,
                        v.kind@,
                        p + " is not installed, so its version cannot be compared."@,
                        FailureCategory::TaskPartiallyCompleted,
                        None,
                        None,
                    ),
                    Some((s, actual)) => if s@ != "installed"@ {
                        fails(
                            r,
                            v.kind@,
                            p + " is not installed (state '"@ + s@ + "')."@,
                            FailureCategory::TaskPartiallyCompleted,
                            None,
                            None,
                        )
                    } else {
                        match compared {
                            Err(e) => errs(r, v.kind@, e@),
                            Ok(out) => if out.status == 0 && !out.timed_out {
                                passes(r, v.kind@, p + " "@ + actual@ + " satisfies "@ + cmp + " "@ + want + "."@)
                            } else {
                                fails(
                                    r,
                                    v.kind@,
                                    "The installed version of "@ + p + " does not satisfy the requirement."@,
                                    FailureCategory::TaskPartiallyCompleted,
                                    Some(cmp + " "@ + want),
                                    Some(actual@),
                                )
                            },
                        }
                    },
                }
            },
        },
{
    let package = match args::string(v, "package") {
        Ok(p) => p,
        Err(o) => return o,
    };
    let expected = match args::string(v, "version") {
        Ok(x) => x,
        Err(o) => return o,
    };
    let comparison = version_comparison(v);
    let kind = v.kind.as_str();
    let (state, actual) = match status {
        Some(sv) => sv,
        None => {
            return CheckOutcome::fail(
                kind,
                cat2(package, " is not installed, so its version cannot be compared.").as_str(),
                FailureCategory::TaskPartiallyCompleted,
            )
        },
    };
    if !crate::text::same_text(state.as_str(), "installed") {
        let mut m = phrase(package, " is not installed (state '", state.as_str());
        append(&mut m, "').");
        return CheckOutcome::fail(kind, m.as_str(), FailureCategory::TaskPartiallyCompleted);
    }
    let out = match compared {
        Ok(out) => out,
        Err(e) => return CheckOutcome::error(kind, e.as_str()),
    };
    if out.success() {
        let mut m = phrase2(package, " ", actual.as_str(), " satisfies ", comparison.as_str());
        append(&mut m, " ");
        append(&mut m, expected);
        append(&mut m, ".");
        CheckOutcome::pass(kind, m.as_str())
    } else {
        CheckOutcome::fail(
            kind,
            phrase("The installed version of ", package, " does not satisfy the requirement.").as_str(),
            FailureCategory::TaskPartiallyCompleted,
        ).expected(phrase(comparison.as_str(), " ", expected).as_str()).observed(actual.as_str())
    }
}

/// The longest `apt_cache_updated` accepts, in seconds: `maxAgeSeconds`, an hour when not
/// given, and never below one.
pub open spec fn max_age_spec(v: Validator) -> i64 {
    let m = match v.i64_param_spec("maxAgeSeconds"@) {
        Some(m) => m,
        None => 3600,
    };
    if m < 1 {
        1
    } else {
        m
    }
}

/// `apt_cache_updated`: apt's package lists were refreshed within the allowed age. `age` is
/// the seconds since the newer of apt's update stamp and its lists directory was modified
/// (zero when the clock puts it in the future), or `None` when neither exists.
pub fn apt_cache_updated(v: &Validator, age: Option<i64>) -> (r: CheckOutcome)
    requires
        v.wf(),
    ensures
        match age {
            None => fails(
                r,
                v.kind@,
                "The package lists have never been downloaded. Run apt update first."@,
                FailureCategory::TaskPartiallyCompleted,
                None,
                None,
            ),
            Some(a) => if a <= max_age_spec(*v) {
                passes(r, v.kind@, "The package lists have been refreshed recently."@)
            } else {
                fails(
                    r,
                    v.kind@,
                    "The package lists are stale. Run apt update so apt knows what is available."@,
                    FailureCategory::TaskPartiallyCompleted,
                    Some("refreshed within "@ + signed_decimal(max_age_spec(*v) as int) + "s"@),
                    Some(signed_decimal(a as int) + "s old"@),
                )
            },
        },
{
    let configured = match args::optional_integer(v, "maxAgeSeconds") {
        Some(m) => m,
        None => 3600,
    };
    let max_age = if configured < 1 {
        1
    } else {
        configured
    };
    let kind = v.kind.as_str();
    let a = match age {
        Some(a) => a,
        None => {
            return CheckOutcome::fail(
                kind,
                "The package lists have never been downloaded. Run apt update first.",
                FailureCategory::TaskPartiallyCompleted,
            )
        },
    };
    if a <= max_age {
        CheckOutcome::pass(kind, "The package lists have been refreshed recently.")
    } else {
        let limit = signed_decimal_string(max_age);
        let seen = signed_decimal_string(a);
        CheckOutcome::fail(
            kind,
            "The package lists are stale. Run apt update so apt knows what is available.",
            FailureCategory::TaskPartiallyCompleted,
        ).expected(phrase("refreshed within ", limit.as_str(), "s").as_str()).observed(
            cat2(seen.as_str(), "s old").as_str(),
        )
    }
}

} // verus!
