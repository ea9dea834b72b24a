//! systemd, journal and listening-port validators: unit names that are safe to hand to
//! `systemctl`, and what each validator concludes from the tools' output.
use super::args;
use super::network::opt_text;
use super::{errs, fails, passes, passes_with, Ctx, since_spec};
use crate::lesson::Validator;
use crate::sys::{CommandOutput, SocketFacts};
use crate::text::{
    append, chars_of, contains, contains_chars, decimal, decimal_string, join, join_strings,
    lines, lines_of, owned, phrase, phrase2, signed_decimal, signed_decimal_string, strings_view,
    trim, trimmed,
};
use crate::validation::{CheckOutcome, FailureCategory};
use crate::validators::args::{is_missing_outcome, string};
use vstd::prelude::*;

verus! {

/// A character a systemd unit name may hold.
pub open spec fn is_unit_char(c: char) -> bool {
    ('0' <= c && c <= '9') || ('a' <= c && c <= 'z') || ('A' <= c && c <= 'Z') || c == '.' || c
        == '-' || c == '_' || c == '@' || c == ':' || c == '\\'
}

/// A unit name that cannot smuggle an option into `systemctl`: not empty, not starting with
/// `-`, and made only of unit-name characters.
pub open spec fn is_safe_unit(u: Seq<char>) -> bool {
    u.len() > 0 && u[0] != '-' && forall|i: int| 0 <= i < u.len() ==> is_unit_char(#[trigger] u[i])
}

/// The validator's `unit`, when it is a safe unit name. Otherwise an errored outcome: for a
/// missing parameter, as every missing parameter is reported; for an unsafe name, saying it
/// is not a valid unit name.
pub fn safe_unit(validator: &Validator) -> (r: Result<String, CheckOutcome>)
    requires
        validator.wf(),
    ensures
        match validator.str_param_spec("unit"@) {
            None => r matches Err(o) && is_missing_outcome(o, validator.kind@, "unit"@),
            Some(u) => if is_safe_unit(u) {
                r matches Ok(s) && s@ == u
            } else {
                r matches Err(o) && o.errored && !o.passed && o.kind@ == validator.kind@
                    && o.message@ == "'"@ + u + "' is not a valid systemd unit name"@
            },
        },
{
    let unit = match string(validator, "unit") {
        Ok(u) => u,
        Err(o) => return Err(o),
    };
    let chars = chars_of(unit);
    let mut ok = chars.len() > 0 && chars[0] != '-';
    let mut i: usize = 0;
    while i < chars.len()
        invariant
            i <= chars@.len(),
            chars@ == unit@,
            ok == (chars@.len() > 0 && chars@[0] != '-' && forall|j: int|
                0 <= j < i ==> is_unit_char(#[trigger] chars@[j])),
        decreases chars.len() - i,
    {
        let c = chars[i];
        let allowed = ('0' <= c && c <= '9') || ('a' <= c && c <= 'z') || ('A' <= c && c <= 'Z')
            || c == '.' || c == '-' || c == '_' || c == '@' || c == ':' || c == '\\';
        if !allowed {
            ok = false;
        }
        i += 1;
    }
    if ok {
        Ok(owned(unit))
    } else {
        let mut message = owned("'");
        append(&mut message, unit);
        append(&mut message, "' is not a valid systemd unit name");
        Err(CheckOutcome::error(validator.kind.as_str(), message.as_str()))
    }
}

fn cat2(a: &str, b: &str) -> (r: String)
    ensures
        r@ == a@ + b@,
{
    let mut r = owned(a);
    append(&mut r, b);
    r
}

/// The `safe_unit` outcome for a validator whose unit is missing or unsafe.
pub open spec fn unit_refused(r: CheckOutcome, v: Validator) -> bool {
    match v.str_param_spec("unit"@) {
        None => is_missing_outcome(r, v.kind@, "unit"@),
        Some(u) => r.errored && !r.passed && r.kind@ == v.kind@ && r.message@ == "'"@ + u
            + "' is not a valid systemd unit name"@,
    }
}

/// What a `service_*` state validator asks `systemctl`: the subcommand, the state word that
/// answers yes, and whether yes is wanted.
pub open spec fn state_query(kind: Seq<char>) -> Option<(Seq<char>, Seq<char>, bool)> {
    if kind == "service_active"@ {
        Some(("is-active"@, "active"@, true))
    } else if kind == "service_inactive"@ {
        Some(("is-active"@, "active"@, false))
    } else if kind == "service_enabled"@ {
        Some(("is-enabled"@, "enabled"@, true))
    } else if kind == "service_disabled"@ {
        Some(("is-enabled"@, "enabled"@, false))
    } else {
        None
    }
}

/// The `systemctl` question a validator of `kind` asks, if it is a state validator.
pub fn service_state_query(kind: &str) -> (r: Option<(&'static str, &'static str, bool)>)
    ensures
        match r {
            Some((sub, positive, want)) => state_query(kind@) == Some((sub@, positive@, want)),
            None => state_query(kind@) is None,
        },
{
    proof {
        reveal_strlit("service_active");
        reveal_strlit("service_inactive");
        reveal_strlit("service_enabled");
        reveal_strlit("service_disabled");
    }
    if crate::text::same_text(kind, "service_active") {
        Some(("is-active", "active", true))
    } else if crate::text::same_text(kind, "service_inactive") {
        Some(("is-active", "active", false))
    } else if crate::text::same_text(kind, "service_enabled") {
        Some(("is-enabled", "enabled", true))
    } else if crate::text::same_text(kind, "service_disabled") {
        Some(("is-enabled", "enabled", false))
    } else {
        None
    }
}

/// The state word `systemctl is-active`/`is-enabled` printed: its standard output, or its
/// standard error when nothing went to standard output.
pub open spec fn printed_state(out: CommandOutput) -> Seq<char> {
    if trim(out.stdout@).len() > 0 {
        trim(out.stdout@)
    } else {
        trim(out.stderr@)
    }
}

/// `service_active`, `service_inactive`, `service_enabled`, `service_disabled`: the state
/// word `systemctl <subcommand> -- <unit>` printed is (or is not) `positive`. Both
/// subcommands exit non-zero for the negative answer and print the state either way, so the
/// word is compared rather than the exit status. `output` is the run's result, or why it
/// could not run.
pub fn service_state(
    v: &Validator,
    subcommand: &str,
    positive: &str,
    want_positive: bool,
    output: Result<CommandOutput, String>,
) -> (r: CheckOutcome)
    requires
        v.wf(),
    ensures
        match v.str_param_spec("unit"@) {
            Some(u) if is_safe_unit(u) => match output {
                Err(e) => errs(r, v.kind@, e@),
                Ok(out) => if out.timed_out {
                    errs(r, v.kind@, "systemctl "@ + subcommand@ + " timed out"@)
                } else {
                    let state = printed_state(out);
                    if (state == positive@) == want_positive {
                        passes_with(r, v.kind@, u + " is "@ + state + "."@, Some(state))
                    } else {
                        fails(
                            r,
                            v.kind@,
                            u + " is "@ + state + ". Check `systemctl status "@ + u + "` and `journalctl -u "@ + u + "`."@,
                            FailureCategory::ServiceNotActive,
                            Some(
                                if want_positive {
                                    positive@
                                } else {
                                    "not "@ + positive@
                                },
                            ),
                            Some(state),
                        )
                    }
                },
            },
            _ => unit_refused(r, *v),
        },
{
    let unit = match safe_unit(v) {
        Ok(u) => u,
        Err(o) => return o,
    };
    let kind = v.kind.as_str();
    let out = match output {
        Ok(out) => out,
        Err(e) => return CheckOutcome::error(kind, e.as_str()),
    };
    if out.timed_out {
        return CheckOutcome::error(kind, phrase("systemctl ", subcommand, " timed out").as_str());
    }
    let first = out.stdout_trimmed();
    let state = if first.unicode_len() > 0 {
        first
    } else {
        trimmed(out.stderr.as_str())
    };
    let u = unit.as_str();
    let st = state.as_str();
    if crate::text::same_text(st, positive) == want_positive {
        let mut m = phrase(u, " is ", st);
        append(&mut m, ".");
        CheckOutcome::pass(kind, m.as_str()).observed(st)
    } else {
        let expectation = if want_positive {
            owned(positive)
        } else {
            cat2("not ", positive)
        };
        let mut m = phrase2(u, " is ", st, ". Check `systemctl status ", u);
        append(&mut m, "` and `journalctl -u ");
        append(&mut m, u);
        append(&mut m, "`.");
        CheckOutcome::fail(kind, m.as_str(), FailureCategory::ServiceNotActive).expected(
            expectation.as_str(),
        ).observed(st)
    }
}

/// `service_failed`: `systemctl show -p ActiveState --value -- <unit>` printed `failed`.
pub fn service_failed(v: &Validator, output: Result<CommandOutput, String>) -> (r: CheckOutcome)
    requires
        v.wf(),
    ensures
        match v.str_param_spec("unit"@) {
            Some(u) if is_safe_unit(u) => match output {
                Err(e) => errs(r, v.kind@, e@),
                Ok(out) => if trim(out.stdout@) == "failed"@ {
                    passes(r, v.kind@, u + " is in the failed state."@)
                } else {
                    fails(
                        r,
                        v.kind@,
                        u + " is "@ + trim(out.stdout@) + ", not failed."@,
                        FailureCategory::ServiceNotActive,
                        Some("failed"@),
                        Some(trim(out.stdout@)),
                    )
                },
            },
            _ => unit_refused(r, *v),
        },
{
    let unit = match safe_unit(v) {
        Ok(u) => u,
        Err(o) => return o,
    };
    let kind = v.kind.as_str();
    let out = match output {
        Ok(out) => out,
        Err(e) => return CheckOutcome::error(kind, e.as_str()),
    };
    let state = out.stdout_trimmed();
    if crate::text::same_text(state.as_str(), "failed") {
        CheckOutcome::pass(kind, cat2(unit.as_str(), " is in the failed state.").as_str())
    } else {
        let mut m = phrase(unit.as_str(), " is ", state.as_str());
        append(&mut m, ", not failed.");
        CheckOutcome::fail(kind, m.as_str(), FailureCategory::ServiceNotActive).expected("failed").observed(
            state.as_str(),
        )
    }
}

/// The non-blank lines of a tool's output, trimmed.
pub open spec fn complaints(ls: Seq<Seq<char>>) -> Seq<Seq<char>>
    decreases ls.len(),
{
    if ls.len() == 0 {
        Seq::empty()
    } else {
        let rest = complaints(ls.drop_last());
        let t = trim(ls.last());
        if t.len() > 0 {
            rest.push(t)
        } else {
            rest
        }
    }
}

pub fn nonblank_lines(text: &str) -> (r: Vec<String>)
    ensures
        strings_view(r@) == complaints(lines(text@)),
{
    let raw = lines_of(text);
    let ghost rv = strings_view(raw@);
    let mut out: Vec<String> = Vec::new();
    let mut i: usize = 0;
    while i < raw.len()
        invariant
            i <= raw@.len(),
            rv == strings_view(raw@),
            strings_view(out@) == complaints(rv.take(i as int)),
        decreases raw.len() - i,
    {
        assert(rv.take(i + 1).drop_last() =~= rv.take(i as int));
        assert(rv.take(i + 1).last() == raw@[i as int]@);
        let t = trimmed(raw[i].as_str());
        let ghost before = strings_view(out@);
        if t.unicode_len() > 0 {
            out.push(t);
            assert(strings_view(out@) =~= before.push(trim(raw@[i as int]@)));
        }
        i += 1;
    }
    assert(rv.take(raw@.len() as int) =~= rv);
    out
}

/// `unit_file_valid`: `systemd-analyze verify -- <unit>` succeeded and complained about
/// nothing (it can exit zero and still complain on standard error).
pub fn unit_file_valid(v: &Validator, output: Result<CommandOutput, String>) -> (r: CheckOutcome)
    requires
        v.wf(),
    ensures
        match v.str_param_spec("unit"@) {
            Some(u) if is_safe_unit(u) => match output {
                Err(e) => errs(r, v.kind@, e@),
                Ok(out) => {
                    let c = complaints(lines(out.stderr@));
                    if out.status == 0 && !out.timed_out && c.len() == 0 {
                        passes(r, v.kind@, "The unit file for "@ + u + " is valid."@)
                    } else {
                        fails(
                            r,
                            v.kind@,
                            "The unit file for "@ + u + " has problems."@,
                            FailureCategory::ScriptSyntaxFailure,
                            None,
                            Some(join(c, "; "@)),
                        )
                    }
                },
            },
            _ => unit_refused(r, *v),
        },
{
    let unit = match safe_unit(v) {
        Ok(u) => u,
        Err(o) => return o,
    };
    let kind = v.kind.as_str();
    let out = match output {
        Ok(out) => out,
        Err(e) => return CheckOutcome::error(kind, e.as_str()),
    };
    let c = nonblank_lines(out.stderr.as_str());
    if out.success() && c.len() == 0 {
        CheckOutcome::pass(kind, phrase("The unit file for ", unit.as_str(), " is valid.").as_str())
    } else {
        let shown = join_strings(&c, "; ");
        CheckOutcome::fail(
            kind,
            phrase("The unit file for ", unit.as_str(), " has problems.").as_str(),
            FailureCategory::ScriptSyntaxFailure,
        ).observed(shown.as_str())
    }
}

/// The `journalctl --since` expression `journal_contains` uses: the validator's `since`, or
/// the start of this attempt, so a message left by an earlier try cannot pass a later one.
pub open spec fn journal_since(ctx: Ctx, v: Validator) -> Seq<char> {
    match v.str_param_spec("since"@) {
        Some(s) => s,
        None => since_spec(ctx.attempt_started_at),
    }
}

/// The `journalctl` arguments of `journal_contains`: plain messages since
/// [`journal_since`], narrowed to the validator's `unit` and `priority` when it names them.
pub fn journal_arguments(ctx: &Ctx, v: &Validator) -> (r: Vec<String>)
    requires
        v.wf(),
    ensures
        strings_view(r@) == seq!["--no-pager"@, "--output=cat"@, "--since"@, journal_since(*ctx, *v)] + match v.str_param_spec("unit"@) {
            Some(u) => seq!["-u"@, u],
            None => Seq::empty(),
        } + match v.str_param_spec("priority"@) {
            Some(p) => seq!["-p"@, p],
            None => Seq::empty(),
        },
{
    let since = match args::optional_string(v, "since") {
        Some(s) => owned(s),
        None => ctx.attempt_since_expression(),
    };
    let mut a: Vec<String> = Vec::new();
    a.push(owned("--no-pager"));
    a.push(owned("--output=cat"));
    a.push(owned("--since"));
    a.push(since);
    let ghost head = strings_view(a@);
    match args::optional_string(v, "unit") {
        Some(u) => {
            a.push(owned("-u"));
            a.push(owned(u));
        },
        None => {},
    }
    let ghost mid = strings_view(a@);
    match args::optional_string(v, "priority") {
        Some(p) => {
            a.push(owned("-p"));
            a.push(owned(p));
        },
        None => {},
    }
    proof {
        let u_part = match v.str_param_spec("unit"@) {
            Some(u) => seq!["-u"@, u],
            None => Seq::<Seq<char>>::empty(),
        };
        let p_part = match v.str_param_spec("priority"@) {
            Some(p) => seq!["-p"@, p],
            None => Seq::<Seq<char>>::empty(),
        };
        assert(head =~= seq!["--no-pager"@, "--output=cat"@, "--since"@, journal_since(*ctx, *v)]);
        assert(mid =~= head + u_part);
        assert(strings_view(a@) =~= mid + p_part);
    }
    a
}

/// `journal_contains`: the journal since [`journal_since`] holds `text`. `output` is what
/// `journalctl` with [`journal_arguments`] printed, or why it could not run.
pub fn journal_contains(ctx: &Ctx, v: &Validator, output: Result<CommandOutput, String>) -> (r: CheckOutcome)
    requires
        v.wf(),
    ensures
        match v.str_param_spec("text"@) {
            None => is_missing_outcome(r, v.kind@, "text"@),
            Some(t) => match output {
                Err(e) => errs(r, v.kind@, e@),
                Ok(out) => if contains(out.stdout@, t) {
                    passes(r, v.kind@, "The journal contains the expected message."@)
                } else {
                    fails(
                        r,
                        v.kind@,
                        "The journal does not contain the expected message."@,
                        FailureCategory::ServiceNotActive,
                        Some(t),
                        Some(decimal(lines(out.stdout@).len()) + " journal lines since "@ + journal_since(*ctx, *v)),
                    )
                },
            },
        },
{
    let text = match args::string(v, "text") {
        Ok(t) => t,
        Err(o) => return o,
    };
    let since = match args::optional_string(v, "since") {
        Some(s) => owned(s),
        None => ctx.attempt_since_expression(),
    };
    let kind = v.kind.as_str();
    let out = match output {
        Ok(out) => out,
        Err(e) => return CheckOutcome::error(kind, e.as_str()),
    };
    if contains_chars(&chars_of(out.stdout.as_str()), &chars_of(text)) {
        CheckOutcome::pass(kind, "The journal contains the expected message.")
    } else {
        let ls = lines_of(out.stdout.as_str());
        assert(ls@.len() == strings_view(ls@).len());
        let count = decimal_string(ls.len() as u64);
        let shown = phrase(count.as_str(), " journal lines since ", since.as_str());
        CheckOutcome::fail(
            kind,
            "The journal does not contain the expected message.",
            FailureCategory::ServiceNotActive,
        ).expected(text).observed(shown.as_str())
    }
}

/// The protocol `port_listening` looks at: the validator's `protocol`, `tcp` by default.
pub open spec fn protocol_spec(v: Validator) -> Seq<char> {
    match v.str_param_spec("protocol"@) {
        Some(p) => p,
        None => "tcp"@,
    }
}

pub fn port_protocol(v: &Validator) -> (r: String)
    requires
        v.wf(),
    ensures
        r@ == protocol_spec(*v),
{
    match args::optional_string(v, "protocol") {
        Some(p) => owned(p),
        None => owned("tcp"),
    }
}

/// The sockets listening on `port`, in order.
pub open spec fn listening_on(ss: Seq<SocketFacts>, port: i64) -> Seq<SocketFacts>
    decreases ss.len(),
{
    if ss.len() == 0 {
        Seq::empty()
    } else {
        let rest = listening_on(ss.drop_last(), port);
        if ss.last().port as i64 == port && ss.last().listening {
            rest.push(ss.last())
        } else {
            rest
        }
    }
}

/// What `port_listening` observed when nothing listened on the port: up to eight other ports
/// that something listens on, ascending.
pub open spec fn other_ports_text(ports: Seq<u16>) -> Seq<char> {
    if ports.len() == 0 {
        "no listening sockets"@
    } else {
        "listening on "@ + join(
            (if ports.len() > 8 {
                ports.take(8)
            } else {
                ports
            }).map_values(|p: u16| decimal(p as nat)),
            ", "@,
        )
    }
}

/// `port_listening`: something listens on `protocol` port `port` and, when `address` is
/// given, is bound to that address (binding to 127.0.0.1 when the task needs 0.0.0.0 is the
/// usual "up but unreachable" fault). `sockets` are the sockets of that protocol the agent
/// read from `/proc/net`.
pub fn port_listening(v: &Validator, sockets: &Vec<SocketFacts>) -> (r: CheckOutcome)
    requires
        v.wf(),
    ensures
        match v.i64_param_spec("port"@) {
            None => errs(r, v.kind@, "the port parameter is missing or not a number"@),
            Some(port) => {
                let proto = protocol_spec(*v);
                let found = listening_on(sockets@, port);
                if found.len() == 0 {
                    &&& r.kind@ == v.kind@
                    &&& !r.passed
                    &&& !r.errored
                    &&& r.message@ == "Nothing is listening on "@ + proto + " port "@ + signed_decimal(port as int) + "."@
                    &&& r.failure_category == Some(FailureCategory::WrongPort)
                    &&& crate::vm_manager::opt_view(r.expected) == Some(proto + "/"@ + signed_decimal(port as int))
                    &&& r.observed matches Some(o) && exists|ports: Seq<u16>|
                        (forall|i: int, j: int| 0 <= i < j < ports.len() ==> ports[i] < ports[j])
                        && ports.to_set() == Set::new(|q: u16| exists|k: int| 0 <= k < sockets@.len() && (#[trigger] sockets@[k]).listening && sockets@[k].port == q)
                        && o@ == other_ports_text(ports)
                    &&& r.weight == 1
                } else {
                    let addresses = found.map_values(|s: SocketFacts| s.local_address@);
                    match v.str_param_spec("address"@) {
                        Some(a) if !addresses.contains(a) => fails(
                            r,
                            v.kind@,
                            "Port "@ + signed_decimal(port as int)
                                + " is open but bound to the wrong address, so it is not reachable where the task expects."@,
                            FailureCategory::WrongPort,
                            Some(a),
                            Some(join(addresses, ", "@)),
                        ),
                        _ => passes_with(
                            r,
                            v.kind@,
                            "Something is listening on "@ + proto + " port "@ + signed_decimal(port as int) + "."@,
                            Some(join(found.map_values(|s: SocketFacts| s.local_address@ + ":"@ + decimal(s.port as nat)), ", "@)),
                        ),
                    }
                }
            },
        },
{
    let kind = v.kind.as_str();
    let port = match args::optional_integer(v, "port") {
        Some(p) => p,
        None => return CheckOutcome::error(kind, "the port parameter is missing or not a number"),
    };
    let protocol = port_protocol(v);
    let number = signed_decimal_string(port);
    let mut found: Vec<&SocketFacts> = Vec::new();
    let mut i: usize = 0;
    while i < sockets.len()
        invariant
            i <= sockets@.len(),
            found@.map_values(|s: &SocketFacts| *s) == listening_on(sockets@.take(i as int), port),
        decreases sockets.len() - i,
    {
        assert(sockets@.take(i + 1).drop_last() =~= sockets@.take(i as int));
        assert(sockets@.take(i + 1).last() == sockets@[i as int]);
        let ghost before = found@.map_values(|s: &SocketFacts| *s);
        let s = &sockets[i];
        if s.port as i64 == port && s.listening {
            found.push(s);
            assert(found@.map_values(|s: &SocketFacts| *s) =~= before.push(sockets@[i as int]));
        }
        i += 1;
    }
    assert(sockets@.take(sockets@.len() as int) =~= sockets@);
    let ghost fs = found@.map_values(|s: &SocketFacts| *s);
    if found.len() == 0 {
        let ports = crate::handlers::listening_ports(sockets);
        let count = if ports.len() > 8 {
            8
        } else {
            ports.len()
        };
        let mut shown_ports: Vec<String> = Vec::new();
        let mut k: usize = 0;
        while k < count
            invariant
                k <= count <= ports@.len(),
                count == (if ports@.len() > 8 { 8 } else { ports@.len() }),
                strings_view(shown_ports@) == ports@.take(k as int).map_values(|p: u16| decimal(p as nat)),
            decreases count - k,
        {
            let ghost before = strings_view(shown_ports@);
            shown_ports.push(decimal_string(ports[k] as u64));
            assert(strings_view(shown_ports@) =~= before.push(decimal(ports@[k as int] as nat)));
            assert(ports@.take(k + 1).map_values(|p: u16| decimal(p as nat)) =~= ports@.take(k as int).map_values(
                |p: u16| decimal(p as nat),
            ).push(decimal(ports@[k as int] as nat)));
            k += 1;
        }
        let shown = if ports.len() == 0 {
            owned("no listening sockets")
        } else {
            let listed = join_strings(&shown_ports, ", ");
            proof {
                if ports@.len() > 8 {
                    assert(ports@.take(8).map_values(|p: u16| decimal(p as nat)) =~= ports@.take(count as int).map_values(|p: u16| decimal(p as nat)));
                } else {
                    assert(ports@.take(count as int) =~= ports@);
                }
            }
            cat2("listening on ", listed.as_str())
        };
        assert(shown@ == other_ports_text(ports@));
        let mut message = phrase2("Nothing is listening on ", protocol.as_str(), " port ", number.as_str(), ".");
        let wanted = phrase(protocol.as_str(), "/", number.as_str());
        return CheckOutcome::fail(kind, message.as_str(), FailureCategory::WrongPort).expected(wanted.as_str()).observed(
            shown.as_str(),
        );
    }
    let mut addresses: Vec<String> = Vec::new();
    let mut labels: Vec<String> = Vec::new();
    let mut j: usize = 0;
    while j < found.len()
        invariant
            j <= found@.len(),
            fs == found@.map_values(|s: &SocketFacts| *s),
            strings_view(addresses@) == fs.take(j as int).map_values(|s: SocketFacts| s.local_address@),
            strings_view(labels@) == fs.take(j as int).map_values(
                |s: SocketFacts| s.local_address@ + ":"@ + decimal(s.port as nat),
            ),
        decreases found.len() - j,
    {
        let s = found[j];
        assert(*s == fs[j as int]);
        let ghost a0 = strings_view(addresses@);
        let ghost l0 = strings_view(labels@);
        addresses.push(s.local_address.clone());
        let label = phrase(s.local_address.as_str(), ":", decimal_string(s.port as u64).as_str());
        labels.push(label);
        proof {
            assert(strings_view(addresses@) =~= a0.push(fs[j as int].local_address@));
            assert(strings_view(labels@) =~= l0.push(fs[j as int].local_address@ + ":"@ + decimal(fs[j as int].port as nat)));
            assert(fs.take(j + 1).map_values(|s: SocketFacts| s.local_address@) =~= fs.take(j as int).map_values(
                |s: SocketFacts| s.local_address@,
            ).push(fs[j as int].local_address@));
            assert(fs.take(j + 1).map_values(|s: SocketFacts| s.local_address@ + ":"@ + decimal(s.port as nat)) =~= fs.take(
                j as int,
            ).map_values(|s: SocketFacts| s.local_address@ + ":"@ + decimal(s.port as nat)).push(
                fs[j as int].local_address@ + ":"@ + decimal(fs[j as int].port as nat),
            ));
        }
        j += 1;
    }
    assert(fs.take(fs.len() as int) =~= fs);
    match args::optional_string(v, "address") {
        Some(a) => if !crate::sys::contains_text(&addresses, a) {
            let mut m = phrase("Port ", number.as_str(), " is open but bound to the wrong address, so it is not reachable where the task expects.");
            let shown = join_strings(&addresses, ", ");
            return CheckOutcome::fail(kind, m.as_str(), FailureCategory::WrongPort).expected(a).observed(shown.as_str());
        },
        None => {},
    }
    let shown = join_strings(&labels, ", ");
    CheckOutcome::pass(
        kind,
        phrase2("Something is listening on ", protocol.as_str(), " port ", number.as_str(), ".").as_str(),
    ).observed(shown.as_str())
}

} // verus!
