//! Network validators: parsers for the network tools' output and the firewall ruleset, and
//! what each validator concludes from what the tools printed.
use super::args::{self, is_missing_outcome};
use super::filesystem::{eq_ignore_ascii_case, same_ignoring_ascii_case};
use super::service::complaints;
use super::{errs, fails, passes, passes_with};
use crate::lesson::Validator;
use crate::sys::{CommandOutput, SocketFacts, format_mode, format_mode_spec, filter_map_spec, first_index, lemma_filter_map_step, split_once_spec};
use crate::text::{decimal, decimal_string, phrase, phrase2, signed_decimal, signed_decimal_string};
use crate::validation::{CheckOutcome, FailureCategory};
use crate::text::{
    append, chars_from, chars_from_to, chars_of, contains, contains_chars, join, join_strings, lines, lines_of,
    lowercase_of, occurs_at_chars, owned, same_text, starts_with, starts_with_chars, string_of,
    strings_view, to_lowercase, trim, trim_start, trim_start_text, trimmed, words, words_of,
};
use vstd::prelude::*;

verus! {

/// `s` up to its first `c` (`s.split(c).next()`).
pub open spec fn before_first(s: Seq<char>, c: char) -> Seq<char> {
    match first_index(s, c) {
        Some(k) => s.take(k),
        None => s,
    }
}

fn before_first_exec(s: &str, c: char) -> (r: String)
    ensures
        r@ == before_first(s@, c),
{
    let chars = chars_of(s);
    match crate::sys::find_first_pub(&chars, c) {
        Some(k) => {
            let head = chars_from_to(&chars, 0, k);
            assert(head@ =~= s@.take(k as int));
            string_of(&head)
        },
        None => owned(s),
    }
}

/// The interface an `ip -o link show` line names: the field after the index, without the
/// `@parent` suffix that veth and vlan interfaces carry.
pub open spec fn interface_line(line: Seq<char>) -> Option<Seq<char>> {
    match split_once_spec(line, ':') {
        Some((_, rest)) => {
            let name = before_first(trim(before_first(trim_start(rest), ':')), '@');
            if name.len() > 0 {
                Some(name)
            } else {
                None
            }
        },
        None => None,
    }
}

fn interface_of(line: &str) -> (r: Option<String>)
    ensures
        match r {
            Some(n) => interface_line(line@) == Some(n@),
            None => interface_line(line@) is None,
        },
{
    let chars = chars_of(line);
    let colon = match crate::sys::find_first_pub(&chars, ':') {
        Some(k) => k,
        None => return None,
    };
    let rest = string_of(&chars_from(&chars, colon + 1));
    let after = trim_start_text(rest.as_str());
    let field = before_first_exec(after.as_str(), ':');
    let field = trimmed(field.as_str());
    let name = before_first_exec(field.as_str(), '@');
    if name.unicode_len() > 0 {
        Some(name)
    } else {
        None
    }
}

/// The interface names `ip -o link show` lists, e.g. `2: eth0@if3: <BROADCAST,...>`.
pub fn parse_interface_names(output: &str) -> (r: Vec<String>)
    ensures
        strings_view(r@) == filter_map_spec(lines(output@), |l: Seq<char>| interface_line(l)),
{
    let ls = lines_of(output);
    let ghost ss = strings_view(ls@);
    let mut out: Vec<String> = Vec::new();
    let mut i: usize = 0;
    while i < ls.len()
        invariant
            i <= ls@.len(),
            ss == strings_view(ls@),
            ss == lines(output@),
            strings_view(out@) == filter_map_spec(ss.take(i as int), |l: Seq<char>| interface_line(l)),
        decreases ls.len() - i,
    {
        proof {
            lemma_filter_map_step(ss, |l: Seq<char>| interface_line(l), i as int);
            assert(ss[i as int] == ls@[i as int]@);
        }
        let ghost before = strings_view(out@);
        match interface_of(ls[i].as_str()) {
            Some(n) => {
                out.push(n);
                assert(strings_view(out@) =~= before.push(out@[out@.len() - 1]@));
            },
            None => {},
        }
        i += 1;
    }
    assert(ss.take(ls.len() as int) =~= ss);
    out
}

/// Whether a token list has `word` before position `k`.
pub open spec fn first_token(tokens: Seq<Seq<char>>, word: Seq<char>) -> Option<int> {
    if exists|i: int| 0 <= i < tokens.len() && tokens[i] == word {
        Some(
            choose|i: int|
                0 <= i < tokens.len() && tokens[i] == word && forall|j: int| 0 <= j < i ==> tokens[j] != word,
        )
    } else {
        None
    }
}

/// The operational state `ip -o link show dev X` reports: the word after `state`,
/// lower-cased.
pub open spec fn oper_state_spec(output: Seq<char>) -> Option<Seq<char>> {
    let tokens = words(output);
    match first_token(tokens, "state"@) {
        Some(i) => if i + 1 < tokens.len() {
            Some(lowercase_of(tokens[i + 1]))
        } else {
            None
        },
        None => None,
    }
}

pub fn parse_oper_state(output: &str) -> (r: Option<String>)
    ensures
        match r {
            Some(s) => oper_state_spec(output@) == Some(s@),
            None => oper_state_spec(output@) is None,
        },
{
    let tokens = words_of(output);
    let ghost ts = strings_view(tokens@);
    let mut i: usize = 0;
    while i < tokens.len()
        invariant
            i <= tokens@.len(),
            ts == strings_view(tokens@),
            ts == words(output@),
            forall|j: int| 0 <= j < i ==> ts[j] != "state"@,
        decreases tokens.len() - i,
    {
        assert(ts[i as int] == tokens@[i as int]@);
        if same_text(tokens[i].as_str(), "state") {
            proof {
                let k = choose|k: int|
                    0 <= k < ts.len() && ts[k] == "state"@ && forall|j: int| 0 <= j < k ==> ts[j] != "state"@;
                assert(k == i) by {
                    if k < i {
                        assert(ts[k] != "state"@);
                    }
                    if (i as int) < k {
                        assert(ts[i as int] != "state"@);
                    }
                }
            }
            if i + 1 < tokens.len() {
                assert(ts[i + 1] == tokens@[i + 1]@);
                return Some(to_lowercase(tokens[i + 1].as_str()));
            }
            return None;
        }
        i += 1;
    }
    None
}

pub open spec fn is_inet(token: Seq<char>) -> bool {
    token == "inet"@ || token == "inet6"@
}

/// The tokens that follow `inet` or `inet6` in a token list, in order.
pub open spec fn inet_addresses(tokens: Seq<Seq<char>>) -> Seq<Seq<char>>
    decreases tokens.len(),
{
    if tokens.len() < 2 {
        Seq::empty()
    } else {
        let before = inet_addresses(tokens.drop_last());
        if is_inet(tokens[tokens.len() - 2]) {
            before.push(tokens.last())
        } else {
            before
        }
    }
}

/// The addresses `ip -o address show` prints, line by line.
pub open spec fn addresses_spec(ls: Seq<Seq<char>>) -> Seq<Seq<char>>
    decreases ls.len(),
{
    if ls.len() == 0 {
        Seq::empty()
    } else {
        addresses_spec(ls.drop_last()) + inet_addresses(words(ls.last()))
    }
}

fn addresses_of_line(line: &str, out: &mut Vec<String>)
    ensures
        strings_view(final(out)@) == strings_view(old(out)@) + inet_addresses(words(line@)),
{
    let tokens = words_of(line);
    let ghost ts = strings_view(tokens@);
    let ghost start = strings_view(out@);
    if tokens.len() < 2 {
        assert(strings_view(out@) =~= start + inet_addresses(ts));
        return;
    }
    let mut i: usize = 1;
    assert(inet_addresses(ts.take(1)) =~= Seq::<Seq<char>>::empty());
    assert(strings_view(out@) =~= start + inet_addresses(ts.take(1)));
    while i < tokens.len()
        invariant
            1 <= i <= tokens@.len(),
            ts == strings_view(tokens@),
            strings_view(out@) == start + inet_addresses(ts.take(i as int)),
        decreases tokens.len() - i,
    {
        let ghost prefix = ts.take(i + 1);
        assert(prefix.drop_last() =~= ts.take(i as int));
        assert(prefix[prefix.len() - 2] == tokens@[i - 1]@);
        assert(prefix.last() == tokens@[i as int]@);
        let ghost before = strings_view(out@);
        if same_text(tokens[i - 1].as_str(), "inet") || same_text(tokens[i - 1].as_str(), "inet6") {
            out.push(tokens[i].clone());
            assert(strings_view(out@) =~= before.push(tokens@[i as int]@));
        }
        i += 1;
    }
    assert(ts.take(tokens.len() as int) =~= ts);
}

/// Every address `ip -o address show` prints, e.g. `2: eth0    inet 10.20.0.10/24 ...`.
pub fn parse_addresses(output: &str) -> (r: Vec<String>)
    ensures
        strings_view(r@) == addresses_spec(lines(output@)),
{
    let ls = lines_of(output);
    let ghost ss = strings_view(ls@);
    let mut out: Vec<String> = Vec::new();
    let mut i: usize = 0;
    assert(strings_view(out@) =~= addresses_spec(ss.take(0)));
    while i < ls.len()
        invariant
            i <= ls@.len(),
            ss == strings_view(ls@),
            ss == lines(output@),
            strings_view(out@) == addresses_spec(ss.take(i as int)),
        decreases ls.len() - i,
    {
        assert(ss.take(i + 1).drop_last() =~= ss.take(i as int));
        assert(ss[i as int] == ls@[i as int]@);
        addresses_of_line(ls[i].as_str(), &mut out);
        i += 1;
    }
    assert(ss.take(ls.len() as int) =~= ss);
    out
}

/// Up to five routes joined by `; `, or a note that the table is empty.
pub open spec fn summarise_routes_spec(output: Seq<char>) -> Seq<char> {
    let ls = lines(output);
    if ls.len() == 0 {
        "an empty routing table"@
    } else {
        join(
            if ls.len() > 5 {
                ls.take(5)
            } else {
                ls
            },
            "; "@,
        )
    }
}

pub fn summarise_routes(output: &str) -> (r: String)
    ensures
        r@ == summarise_routes_spec(output@),
{
    let mut ls = lines_of(output);
    if ls.len() == 0 {
        return owned("an empty routing table");
    }
    if ls.len() > 5 {
        ls.truncate(5);
        assert(strings_view(ls@) =~= lines(output@).take(5));
    }
    join_strings(&ls, "; ")
}

/// How many times `c` occurs in `s`.
pub open spec fn count_char(s: Seq<char>, c: char) -> nat
    decreases s.len(),
{
    if s.len() == 0 {
        0
    } else {
        count_char(s.drop_last(), c) + if s.last() == c {
            1nat
        } else {
            0nat
        }
    }
}

/// Where the walk over a ruleset stands.
pub struct BlockState {
    pub collected: Seq<char>,
    pub depth: nat,
    pub in_table: bool,
    pub in_chain: bool,
}

/// One line of the walk: entering or leaving the named table and chain, tracking brace
/// depth (saturating, as `usize` arithmetic there does), and keeping the line when inside.
pub open spec fn block_step(
    st: BlockState,
    line: Seq<char>,
    table: Option<Seq<char>>,
    chain: Option<Seq<char>>,
) -> BlockState {
    let t = trim(line);
    let (in_table, in_chain) = match table {
        Some(name) => if starts_with(t, "table "@) && contains(t, name) {
            (true, st.in_chain)
        } else if starts_with(t, "table "@) {
            (false, chain is None)
        } else {
            (st.in_table, st.in_chain)
        },
        None => (st.in_table, st.in_chain),
    };
    let in_chain = match chain {
        Some(name) => if starts_with(t, "chain "@) {
            words(t).len() >= 2 && words(t)[1] == name
        } else {
            in_chain
        },
        None => in_chain,
    };
    let added = st.depth + count_char(t, '{');
    let capped: nat = if added > usize::MAX {
        usize::MAX as nat
    } else {
        added
    };
    let depth: nat = if capped >= count_char(t, '}') {
        (capped - count_char(t, '}')) as nat
    } else {
        0
    };
    let collected = if in_table && in_chain {
        st.collected + line + "\n"@
    } else {
        st.collected
    };
    let in_chain = if depth == 0 && t.len() > 0 && t[0] == '}' {
        chain is None
    } else {
        in_chain
    };
    BlockState { collected, depth, in_table, in_chain }
}

pub open spec fn block_walk(ls: Seq<Seq<char>>, table: Option<Seq<char>>, chain: Option<Seq<char>>) -> BlockState
    decreases ls.len(),
{
    if ls.len() == 0 {
        BlockState { collected: Seq::empty(), depth: 0, in_table: table is None, in_chain: chain is None }
    } else {
        block_step(block_walk(ls.drop_last(), table, chain), ls.last(), table, chain)
    }
}

pub open spec fn opt_text(o: Option<&str>) -> Option<Seq<char>> {
    match o {
        Some(s) => Some(s@),
        None => None,
    }
}

fn count_char_exec(s: &Vec<char>, c: char) -> (r: usize)
    ensures
        r == count_char(s@, c),
{
    let mut n: usize = 0;
    let mut i: usize = 0;
    while i < s.len()
        invariant
            i <= s@.len(),
            n == count_char(s@.take(i as int), c),
            n <= i,
        decreases s.len() - i,
    {
        assert(s@.take(i + 1).drop_last() =~= s@.take(i as int));
        if s[i] == c {
            n += 1;
        }
        i += 1;
    }
    assert(s@.take(s@.len() as int) =~= s@);
    n
}

/// The text of the named `table` and/or `chain` blocks of an `nft list ruleset` listing,
/// line by line with a newline after each; with neither named, the whole listing.
pub fn extract_block(ruleset: &str, table: Option<&str>, chain: Option<&str>) -> (r: String)
    ensures
        r@ == block_walk(lines(ruleset@), opt_text(table), opt_text(chain)).collected,
{
    let ls = lines_of(ruleset);
    let ghost ss = strings_view(ls@);
    let ghost tv = opt_text(table);
    let ghost cv = opt_text(chain);
    let table_chars = match table {
        Some(t) => chars_of(t),
        None => Vec::new(),
    };
    let table_prefix = chars_of("table ");
    let chain_prefix = chars_of("chain ");
    let mut collected = String::new();
    let mut depth: usize = 0;
    let mut in_table = table.is_none();
    let mut in_chain = chain.is_none();
    let mut i: usize = 0;
    assert(collected@ =~= Seq::<char>::empty());
    while i < ls.len()
        invariant
            i <= ls@.len(),
            ss == strings_view(ls@),
            ss == lines(ruleset@),
            tv == opt_text(table),
            cv == opt_text(chain),
            table matches Some(t) ==> table_chars@ == t@,
            table_prefix@ == "table "@,
            chain_prefix@ == "chain "@,
            block_walk(ss.take(i as int), tv, cv) == (BlockState {
                collected: collected@,
                depth: depth as nat,
                in_table,
                in_chain,
            }),
        decreases ls.len() - i,
    {
        assert(ss.take(i + 1).drop_last() =~= ss.take(i as int));
        assert(ss[i as int] == ls@[i as int]@);
        let line = &ls[i];
        let t = trimmed(line.as_str());
        let tc = chars_of(t.as_str());
        if table.is_some() {
            if starts_with_chars(&tc, &table_prefix) && contains_chars(&tc, &table_chars) {
                in_table = true;
            } else if starts_with_chars(&tc, &table_prefix) {
                in_table = false;
                in_chain = chain.is_none();
            }
        }
        match chain {
            Some(name) => {
                if starts_with_chars(&tc, &chain_prefix) {
                    let ws = words_of(t.as_str());
                    in_chain = if ws.len() >= 2 {
                        assert(strings_view(ws@)[1] == ws@[1]@);
                        same_text(ws[1].as_str(), name)
                    } else {
                        false
                    };
                }
            },
            None => {},
        }
        let opens = count_char_exec(&tc, '{');
        let closes = count_char_exec(&tc, '}');
        depth = depth.saturating_add(opens).saturating_sub(closes);
        if in_table && in_chain {
            append(&mut collected, line.as_str());
            append(&mut collected, "\n");
        }
        if depth == 0 && tc.len() > 0 && tc[0] == '}' {
            in_chain = chain.is_none();
        }
        i += 1;
    }
    assert(ss.take(ls.len() as int) =~= ss);
    collected
}

fn cat2(a: &str, b: &str) -> (r: String)
    ensures
        r@ == a@ + b@,
{
    let mut r = owned(a);
    append(&mut r, b);
    r
}

/// A network failure of `kind`.
pub open spec fn unreachable(r: CheckOutcome, kind: Seq<char>, message: Seq<char>, expected: Option<Seq<char>>, observed: Option<Seq<char>>) -> bool {
    fails(r, kind, message, FailureCategory::NetworkUnreachable, expected, observed)
}

/// `interface_exists`: `ip -o link show` lists `interface`. `output` is that run's result,
/// or why it could not run.
pub fn interface_exists(v: &Validator, output: Result<CommandOutput, String>) -> (r: CheckOutcome)
    requires
        v.wf(),
    ensures
        match v.str_param_spec("interface"@) {
            None => is_missing_outcome(r, v.kind@, "interface"@),
            Some(i) => match output {
                Err(e) => errs(r, v.kind@, e@),
                Ok(out) => {
                    let names = filter_map_spec(lines(out.stdout@), |l: Seq<char>| interface_line(l));
                    if names.contains(i) {
                        passes(r, v.kind@, "The interface "@ + i + " exists."@)
                    } else {
                        unreachable(r, v.kind@, "There is no interface called "@ + i + "."@, Some(i), Some(join(names, ", "@)))
                    }
                },
            },
        },
{
    let interface = match args::string(v, "interface") {
        Ok(i) => i,
        Err(o) => return o,
    };
    let kind = v.kind.as_str();
    let out = match output {
        Ok(out) => out,
        Err(e) => return CheckOutcome::error(kind, e.as_str()),
    };
    let names = parse_interface_names(out.stdout.as_str());
    if crate::sys::contains_text(&names, interface) {
        CheckOutcome::pass(kind, phrase("The interface ", interface, " exists.").as_str())
    } else {
        let shown = join_strings(&names, ", ");
        CheckOutcome::fail(
            kind,
            phrase("There is no interface called ", interface, ".").as_str(),
            FailureCategory::NetworkUnreachable,
        ).expected(interface).observed(shown.as_str())
    }
}

/// The operational state of an interface as `ip -o link show dev` printed it, `unknown`
/// when no state is shown.
pub open spec fn operational(output: Seq<char>) -> Seq<char> {
    match oper_state_spec(output) {
        Some(s) => s,
        None => "unknown"@,
    }
}

/// An interface is up when its operational state says so, or when the state is unknown
/// (as for some virtual devices) while the link flags include `UP`.
pub open spec fn is_up(output: Seq<char>) -> bool {
    let op = operational(output);
    same_ignoring_ascii_case(op, "up"@) || (same_ignoring_ascii_case(op, "unknown"@) && contains(output, "state UNKNOWN"@)
        && contains(output, ",UP"@))
}

/// `interface_state`: the operational state of `interface` is `state` (`up` or `down`); an
/// interface can be administratively up while its carrier is down, and the learner needs to
/// know which.
pub fn interface_state(v: &Validator, output: Result<CommandOutput, String>) -> (r: CheckOutcome)
    requires
        v.wf(),
    ensures
        match (v.str_param_spec("interface"@), v.str_param_spec("state"@)) {
            (None, _) => is_missing_outcome(r, v.kind@, "interface"@),
            (Some(_), None) => is_missing_outcome(r, v.kind@, "state"@),
            (Some(i), Some(want)) => match output {
                Err(e) => errs(r, v.kind@, e@),
                Ok(out) => if !(out.status == 0 && !out.timed_out) {
                    unreachable(r, v.kind@, "There is no interface called "@ + i + "."@, None, None)
                } else {
                    let op = operational(out.stdout@);
                    let up = is_up(out.stdout@);
                    if (want == "up"@ && up) || (want == "down"@ && !up) {
                        passes(r, v.kind@, i + " is "@ + op + "."@)
                    } else {
                        unreachable(
                            r,
                            v.kind@,
                            i + " is "@ + op + ", not "@ + want + ". Bring it up with `ip link set "@ + i + " up`."@,
                            Some(want),
                            Some(op),
                        )
                    }
                },
            },
        },
{
    let interface = match args::string(v, "interface") {
        Ok(i) => i,
        Err(o) => return o,
    };
    let expected = match args::string(v, "state") {
        Ok(s) => s,
        Err(o) => return o,
    };
    let kind = v.kind.as_str();
    let out = match output {
        Ok(out) => out,
        Err(e) => return CheckOutcome::error(kind, e.as_str()),
    };
    if !out.success() {
        return CheckOutcome::fail(
            kind,
            phrase("There is no interface called ", interface, ".").as_str(),
            FailureCategory::NetworkUnreachable,
        );
    }
    let op = match parse_oper_state(out.stdout.as_str()) {
        Some(s) => s,
        None => owned("unknown"),
    };
    let text = chars_of(out.stdout.as_str());
    let up = eq_ignore_ascii_case(op.as_str(), "up") || (eq_ignore_ascii_case(op.as_str(), "unknown")
        && contains_chars(&text, &chars_of("state UNKNOWN")) && contains_chars(&text, &chars_of(",UP")));
    let want_up = same_text(expected, "up");
    let want_down = same_text(expected, "down");
    if (want_up && up) || (want_down && !up) {
        let mut m = phrase(interface, " is ", op.as_str());
        append(&mut m, ".");
        CheckOutcome::pass(kind, m.as_str())
    } else {
        let mut m = phrase2(interface, " is ", op.as_str(), ", not ", expected);
        append(&mut m, ". Bring it up with `ip link set ");
        append(&mut m, interface);
        append(&mut m, " up`.");
        CheckOutcome::fail(kind, m.as_str(), FailureCategory::NetworkUnreachable).expected(expected).observed(op.as_str())
    }
}

/// `ip_address`: `ip -o address show dev <interface>` lists `address`.
pub fn ip_address(v: &Validator, output: Result<CommandOutput, String>) -> (r: CheckOutcome)
    requires
        v.wf(),
    ensures
        match (v.str_param_spec("interface"@), v.str_param_spec("address"@)) {
            (None, _) => is_missing_outcome(r, v.kind@, "interface"@),
            (Some(_), None) => is_missing_outcome(r, v.kind@, "address"@),
            (Some(i), Some(a)) => match output {
                Err(e) => errs(r, v.kind@, e@),
                Ok(out) => if !(out.status == 0 && !out.timed_out) {
                    unreachable(r, v.kind@, "There is no interface called "@ + i + "."@, None, None)
                } else {
                    let addrs = addresses_spec(lines(out.stdout@));
                    if addrs.contains(a) {
                        passes(r, v.kind@, i + " has the address "@ + a + "."@)
                    } else {
                        unreachable(
                            r,
                            v.kind@,
                            i + " does not have the address "@ + a + "."@,
                            Some(a),
                            Some(
                                if addrs.len() == 0 {
                                    "no addresses"@
                                } else {
                                    join(addrs, ", "@)
                                },
                            ),
                        )
                    }
                },
            },
        },
{
    let interface = match args::string(v, "interface") {
        Ok(i) => i,
        Err(o) => return o,
    };
    let expected = match args::string(v, "address") {
        Ok(a) => a,
        Err(o) => return o,
    };
    let kind = v.kind.as_str();
    let out = match output {
        Ok(out) => out,
        Err(e) => return CheckOutcome::error(kind, e.as_str()),
    };
    if !out.success() {
        return CheckOutcome::fail(
            kind,
            phrase("There is no interface called ", interface, ".").as_str(),
            FailureCategory::NetworkUnreachable,
        );
    }
    let addrs = parse_addresses(out.stdout.as_str());
    if crate::sys::contains_text(&addrs, expected) {
        let mut m = phrase(interface, " has the address ", expected);
        append(&mut m, ".");
        CheckOutcome::pass(kind, m.as_str())
    } else {
        let shown = if addrs.len() == 0 {
            owned("no addresses")
        } else {
            join_strings(&addrs, ", ")
        };
        let mut m = phrase(interface, " does not have the address ", expected);
        append(&mut m, ".");
        CheckOutcome::fail(kind, m.as_str(), FailureCategory::NetworkUnreachable).expected(expected).observed(shown.as_str())
    }
}

/// The lines of a routing table whose destination (first word) is `destination`.
pub open spec fn routes_to(ls: Seq<Seq<char>>, destination: Seq<char>) -> Seq<Seq<char>>
    decreases ls.len(),
{
    if ls.len() == 0 {
        Seq::empty()
    } else {
        let rest = routes_to(ls.drop_last(), destination);
        let w = words(ls.last());
        if w.len() > 0 && w[0] == destination {
            rest.push(ls.last())
        } else {
            rest
        }
    }
}

fn some_line_has(ls: &Vec<String>, needle: &str) -> (r: bool)
    ensures
        r == exists|i: int| 0 <= i < ls@.len() && contains(#[trigger] strings_view(ls@)[i], needle@),
{
    let n = chars_of(needle);
    let mut i: usize = 0;
    while i < ls.len()
        invariant
            i <= ls@.len(),
            n@ == needle@,
            forall|j: int| 0 <= j < i ==> !contains(#[trigger] strings_view(ls@)[j], needle@),
        decreases ls.len() - i,
    {
        assert(strings_view(ls@)[i as int] == ls@[i as int]@);
        if contains_chars(&chars_of(ls[i].as_str()), &n) {
            return true;
        }
        i += 1;
    }
    false
}

/// `route_exists`: `ip route show` has a route to `destination`, going via `via` and using
/// `dev` when those are given.
pub fn route_exists(v: &Validator, output: Result<CommandOutput, String>) -> (r: CheckOutcome)
    requires
        v.wf(),
    ensures
        match v.str_param_spec("destination"@) {
            None => is_missing_outcome(r, v.kind@, "destination"@),
            Some(d) => match output {
                Err(e) => errs(r, v.kind@, e@),
                Ok(out) => {
                    let m = routes_to(lines(out.stdout@), d);
                    let via_missing = match v.str_param_spec("via"@) {
                        Some(via) => !exists|i: int| 0 <= i < m.len() && contains(#[trigger] m[i], "via "@ + via),
                        None => false,
                    };
                    let dev_missing = match v.str_param_spec("dev"@) {
                        Some(dev) => !exists|i: int| 0 <= i < m.len() && contains(#[trigger] m[i], "dev "@ + dev),
                        None => false,
                    };
                    if m.len() == 0 {
                        unreachable(r, v.kind@, "There is no route to "@ + d + "."@, Some(d), Some(summarise_routes_spec(out.stdout@)))
                    } else if via_missing {
                        let via = v.str_param_spec("via"@)->0;
                        unreachable(
                            r,
                            v.kind@,
                            "The route to "@ + d + " does not go via "@ + via + "."@,
                            Some("via "@ + via),
                            Some(join(m, "; "@)),
                        )
                    } else if dev_missing {
                        let dev = v.str_param_spec("dev"@)->0;
                        unreachable(
                            r,
                            v.kind@,
                            "The route to "@ + d + " does not use "@ + dev + "."@,
                            Some("dev "@ + dev),
                            Some(join(m, "; "@)),
                        )
                    } else {
                        passes(r, v.kind@, "A route to "@ + d + " exists."@)
                    }
                },
            },
        },
{
    let destination = match args::string(v, "destination") {
        Ok(d) => d,
        Err(o) => return o,
    };
    let kind = v.kind.as_str();
    let out = match output {
        Ok(out) => out,
        Err(e) => return CheckOutcome::error(kind, e.as_str()),
    };
    let ls = lines_of(out.stdout.as_str());
    let ghost lv = strings_view(ls@);
    let mut m: Vec<String> = Vec::new();
    let mut i: usize = 0;
    while i < ls.len()
        invariant
            i <= ls@.len(),
            lv == strings_view(ls@),
            strings_view(m@) == routes_to(lv.take(i as int), destination@),
        decreases ls.len() - i,
    {
        assert(lv.take(i + 1).drop_last() =~= lv.take(i as int));
        assert(lv.take(i + 1).last() == ls@[i as int]@);
        let w = words_of(ls[i].as_str());
        let ghost before = strings_view(m@);
        if w.len() > 0 {
            assert(strings_view(w@)[0] == w@[0]@);
            if same_text(w[0].as_str(), destination) {
                m.push(ls[i].clone());
                assert(strings_view(m@) =~= before.push(ls@[i as int]@));
            }
        }
        i += 1;
    }
    assert(lv.take(ls@.len() as int) =~= lv);
    if m.len() == 0 {
        let shown = summarise_routes(out.stdout.as_str());
        return CheckOutcome::fail(
            kind,
            phrase("There is no route to ", destination, ".").as_str(),
            FailureCategory::NetworkUnreachable,
        ).expected(destination).observed(shown.as_str());
    }
    match args::optional_string(v, "via") {
        Some(via) => {
            let needle = cat2("via ", via);
            if !some_line_has(&m, needle.as_str()) {
                let mut msg = phrase("The route to ", destination, " does not go via ");
                append(&mut msg, via);
                append(&mut msg, ".");
                let shown = join_strings(&m, "; ");
                return CheckOutcome::fail(kind, msg.as_str(), FailureCategory::NetworkUnreachable).expected(
                    needle.as_str(),
                ).observed(shown.as_str());
            }
        },
        None => {},
    }
    match args::optional_string(v, "dev") {
        Some(dev) => {
            let needle = cat2("dev ", dev);
            if !some_line_has(&m, needle.as_str()) {
                let mut msg = phrase("The route to ", destination, " does not use ");
                append(&mut msg, dev);
                append(&mut msg, ".");
                let shown = join_strings(&m, "; ");
                return CheckOutcome::fail(kind, msg.as_str(), FailureCategory::NetworkUnreachable).expected(
                    needle.as_str(),
                ).observed(shown.as_str());
            }
        },
        None => {},
    }
    CheckOutcome::pass(kind, phrase("A route to ", destination, " exists.").as_str())
}

/// `default_route`: `ip route show default` prints a route, going via `via` and using `dev`
/// when those are given.
pub fn default_route(v: &Validator, output: Result<CommandOutput, String>) -> (r: CheckOutcome)
    requires
        v.wf(),
    ensures
        match output {
            Err(e) => errs(r, v.kind@, e@),
            Ok(out) => {
                let line = trim(out.stdout@);
                if line.len() == 0 {
                    unreachable(
                        r,
                        v.kind@,
                        "There is no default route, so traffic to other networks has nowhere to go."@,
                        None,
                        None,
                    )
                } else if v.str_param_spec("via"@) matches Some(via) && !contains(line, "via "@ + via) {
                    unreachable(
                        r,
                        v.kind@,
                        "The default route does not go via "@ + v.str_param_spec("via"@)->0 + "."@,
                        Some("via "@ + v.str_param_spec("via"@)->0),
                        Some(line),
                    )
                } else if v.str_param_spec("dev"@) matches Some(dev) && !contains(line, "dev "@ + dev) {
                    unreachable(
                        r,
                        v.kind@,
                        "The default route does not use "@ + v.str_param_spec("dev"@)->0 + "."@,
                        Some("dev "@ + v.str_param_spec("dev"@)->0),
                        Some(line),
                    )
                } else {
                    passes_with(r, v.kind@, "A default route is configured."@, Some(line))
                }
            },
        },
{
    let kind = v.kind.as_str();
    let out = match output {
        Ok(out) => out,
        Err(e) => return CheckOutcome::error(kind, e.as_str()),
    };
    let line = out.stdout_trimmed();
    let lc = chars_of(line.as_str());
    if lc.len() == 0 {
        return CheckOutcome::fail(
            kind,
            "There is no default route, so traffic to other networks has nowhere to go.",
            FailureCategory::NetworkUnreachable,
        );
    }
    match args::optional_string(v, "via") {
        Some(via) => {
            let needle = cat2("via ", via);
            if !contains_chars(&lc, &chars_of(needle.as_str())) {
                return CheckOutcome::fail(
                    kind,
                    phrase("The default route does not go via ", via, ".").as_str(),
                    FailureCategory::NetworkUnreachable,
                ).expected(needle.as_str()).observed(line.as_str());
            }
        },
        None => {},
    }
    match args::optional_string(v, "dev") {
        Some(dev) => {
            let needle = cat2("dev ", dev);
            if !contains_chars(&lc, &chars_of(needle.as_str())) {
                return CheckOutcome::fail(
                    kind,
                    phrase("The default route does not use ", dev, ".").as_str(),
                    FailureCategory::NetworkUnreachable,
                ).expected(needle.as_str()).observed(line.as_str());
            }
        },
        None => {},
    }
    CheckOutcome::pass(kind, "A default route is configured.").observed(line.as_str())
}

/// The `dig` arguments of `dns_resolution`: short answers, a two-second single try, the
/// validator's `server` when it names one, then `name`.
pub fn dig_arguments(v: &Validator) -> (r: Result<Vec<String>, CheckOutcome>)
    requires
        v.wf(),
    ensures
        match v.str_param_spec("name"@) {
            None => r matches Err(o) && is_missing_outcome(o, v.kind@, "name"@),
            Some(n) => r matches Ok(a) && strings_view(a@) == seq!["+short"@, "+time=2"@, "+tries=1"@] + match v.str_param_spec("server"@) {
                Some(s) => seq!["@"@ + s],
                None => Seq::empty(),
            } + seq![n],
        },
{
    let name = match args::string(v, "name") {
        Ok(n) => n,
        Err(o) => return Err(o),
    };
    let mut a: Vec<String> = Vec::new();
    a.push(owned("+short"));
    a.push(owned("+time=2"));
    a.push(owned("+tries=1"));
    let ghost head = strings_view(a@);
    match args::optional_string(v, "server") {
        Some(server) => a.push(cat2("@", server)),
        None => {},
    }
    let ghost mid = strings_view(a@);
    a.push(owned(name));
    proof {
        let sp = match v.str_param_spec("server"@) {
            Some(s) => seq!["@"@ + s],
            None => Seq::<Seq<char>>::empty(),
        };
        assert(head =~= seq!["+short"@, "+time=2"@, "+tries=1"@]);
        assert(mid =~= head + sp);
        assert(strings_view(a@) =~= mid + seq![name@]);
    }
    Ok(a)
}

/// `dns_resolution`: `name` resolves, to `expect` when given. `output` is what `dig` with
/// [`dig_arguments`] printed, or why it could not run.
pub fn dns_resolution(v: &Validator, output: Result<CommandOutput, String>) -> (r: CheckOutcome)
    requires
        v.wf(),
    ensures
        match v.str_param_spec("name"@) {
            None => is_missing_outcome(r, v.kind@, "name"@),
            Some(n) => match output {
                Err(e) => errs(r, v.kind@, e@),
                Ok(out) => {
                    let answers = complaints(lines(out.stdout@));
                    if answers.len() == 0 {
                        fails(
                            r,
                            v.kind@,
                            n + " does not resolve. Check /etc/resolv.conf and the DNS server."@,
                            FailureCategory::DnsFailure,
                            Some("an address for "@ + n),
                            Some("no answer"@),
                        )
                    } else if v.str_param_spec("expect"@) matches Some(x) && !answers.contains(x) {
                        fails(
                            r,
                            v.kind@,
                            n + " resolves, but not to the expected address."@,
                            FailureCategory::DnsFailure,
                            Some(v.str_param_spec("expect"@)->0),
                            Some(join(answers, ", "@)),
                        )
                    } else {
                        passes_with(r, v.kind@, n + " resolves."@, Some(join(answers, ", "@)))
                    }
                },
            },
        },
{
    let name = match args::string(v, "name") {
        Ok(n) => n,
        Err(o) => return o,
    };
    let kind = v.kind.as_str();
    let out = match output {
        Ok(out) => out,
        Err(e) => return CheckOutcome::error(kind, e.as_str()),
    };
    let answers = super::service::nonblank_lines(out.stdout.as_str());
    if answers.len() == 0 {
        return CheckOutcome::fail(
            kind,
            cat2(name, " does not resolve. Check /etc/resolv.conf and the DNS server.").as_str(),
            FailureCategory::DnsFailure,
        ).expected(cat2("an address for ", name).as_str()).observed("no answer");
    }
    let shown = join_strings(&answers, ", ");
    match args::optional_string(v, "expect") {
        Some(x) => if !crate::sys::contains_text(&answers, x) {
            return CheckOutcome::fail(
                kind,
                cat2(name, " resolves, but not to the expected address.").as_str(),
                FailureCategory::DnsFailure,
            ).expected(x).observed(shown.as_str());
        },
        None => {},
    }
    CheckOutcome::pass(kind, cat2(name, " resolves.").as_str()).observed(shown.as_str())
}

/// Whole seconds to wait for a network tool: the validator's `timeoutMs` (or the default),
/// rounded up to a second and kept within one to thirty.
pub open spec fn wait_seconds_spec(v: Validator, default_ms: i64) -> u64 {
    let ms = match v.i64_param_spec("timeoutMs"@) {
        Some(t) => t,
        None => default_ms,
    };
    if ms <= 1000 {
        1
    } else if ms > 29000 {
        30
    } else {
        ((ms + 999) / 1000) as u64
    }
}

pub fn wait_seconds(v: &Validator, default_ms: i64) -> (r: u64)
    requires
        v.wf(),
    ensures
        r == wait_seconds_spec(*v, default_ms),
        1 <= r <= 30,
{
    let ms = match args::optional_integer(v, "timeoutMs") {
        Some(t) => t,
        None => default_ms,
    };
    if ms <= 1000 {
        1
    } else if ms > 29000 {
        30
    } else {
        ((ms + 999) / 1000) as u64
    }
}

/// `tcp_connection`: something on `host` accepts a TCP connection on `port`. `output` is what
/// `nc -z -w <seconds> <host> <port>` gave (it connects without sending data), or why it
/// could not run.
pub fn tcp_connection(v: &Validator, output: Result<CommandOutput, String>) -> (r: CheckOutcome)
    requires
        v.wf(),
    ensures
        match v.str_param_spec("host"@) {
            None => is_missing_outcome(r, v.kind@, "host"@),
            Some(h) => match v.i64_param_spec("port"@) {
                None => errs(r, v.kind@, "the port parameter is missing or not a number"@),
                Some(port) => match output {
                    Err(e) => errs(r, v.kind@, e@),
                    Ok(out) => if out.status == 0 && !out.timed_out {
                        passes(r, v.kind@, "A TCP connection to "@ + h + ":"@ + signed_decimal(port as int) + " works."@)
                    } else {
                        unreachable(
                            r,
                            v.kind@,
                            "Nothing accepted a TCP connection on "@ + h + ":"@ + signed_decimal(port as int)
                                + ". Check the service, the bind address and the firewall in that order."@,
                            None,
                            None,
                        )
                    },
                },
            },
        },
{
    let host = match args::string(v, "host") {
        Ok(h) => h,
        Err(o) => return o,
    };
    let kind = v.kind.as_str();
    let port = match args::optional_integer(v, "port") {
        Some(p) => p,
        None => return CheckOutcome::error(kind, "the port parameter is missing or not a number"),
    };
    let out = match output {
        Ok(out) => out,
        Err(e) => return CheckOutcome::error(kind, e.as_str()),
    };
    let number = signed_decimal_string(port);
    if out.success() {
        let mut m = phrase2("A TCP connection to ", host, ":", number.as_str(), " works.");
        CheckOutcome::pass(kind, m.as_str())
    } else {
        let m = phrase2(
            "Nothing accepted a TCP connection on ",
            host,
            ":",
            number.as_str(),
            ". Check the service, the bind address and the firewall in that order.",
        );
        CheckOutcome::fail(kind, m.as_str(), FailureCategory::NetworkUnreachable)
    }
}

/// The sockets bound to `port`, listening or not (UDP has no listen state).
pub open spec fn bound_to(ss: Seq<SocketFacts>, port: i64) -> Seq<SocketFacts>
    decreases ss.len(),
{
    if ss.len() == 0 {
        Seq::empty()
    } else {
        let rest = bound_to(ss.drop_last(), port);
        if ss.last().port as i64 == port {
            rest.push(ss.last())
        } else {
            rest
        }
    }
}

/// `udp_listener`: a UDP socket is bound to `port`, to `address` when given. `sockets` are
/// the UDP sockets read from `/proc/net`.
pub fn udp_listener(v: &Validator, sockets: &Vec<SocketFacts>) -> (r: CheckOutcome)
    requires
        v.wf(),
    ensures
        match v.i64_param_spec("port"@) {
            None => errs(r, v.kind@, "the port parameter is missing or not a number"@),
            Some(port) => {
                let b = bound_to(sockets@, port);
                let addresses = b.map_values(|s: SocketFacts| s.local_address@);
                if b.len() == 0 {
                    fails(
                        r,
                        v.kind@,
                        "Nothing is bound to UDP port "@ + signed_decimal(port as int) + "."@,
                        FailureCategory::WrongPort,
                        None,
                        None,
                    )
                } else if v.str_param_spec("address"@) matches Some(a) && !addresses.contains(a) {
                    fails(
                        r,
                        v.kind@,
                        "UDP port "@ + signed_decimal(port as int) + " is bound to the wrong address."@,
                        FailureCategory::WrongPort,
                        Some(v.str_param_spec("address"@)->0),
                        Some(join(addresses, ", "@)),
                    )
                } else {
                    passes(r, v.kind@, "A UDP socket is bound to port "@ + signed_decimal(port as int) + "."@)
                }
            },
        },
{
    let kind = v.kind.as_str();
    let port = match args::optional_integer(v, "port") {
        Some(p) => p,
        None => return CheckOutcome::error(kind, "the port parameter is missing or not a number"),
    };
    let number = signed_decimal_string(port);
    let mut addresses: Vec<String> = Vec::new();
    let mut i: usize = 0;
    while i < sockets.len()
        invariant
            i <= sockets@.len(),
            strings_view(addresses@) == bound_to(sockets@.take(i as int), port).map_values(|s: SocketFacts| s.local_address@),
        decreases sockets.len() - i,
    {
        assert(sockets@.take(i + 1).drop_last() =~= sockets@.take(i as int));
        assert(sockets@.take(i + 1).last() == sockets@[i as int]);
        let ghost before = strings_view(addresses@);
        if sockets[i].port as i64 == port {
            addresses.push(sockets[i].local_address.clone());
            proof {
                let f = |s: SocketFacts| s.local_address@;
                let prev = bound_to(sockets@.take(i as int), port);
                assert(strings_view(addresses@) =~= before.push(sockets@[i as int].local_address@));
                assert(prev.push(sockets@[i as int]).map_values(f) =~= prev.map_values(f).push(f(sockets@[i as int])));
            }
        }
        i += 1;
    }
    assert(sockets@.take(sockets@.len() as int) =~= sockets@);
    if addresses.len() == 0 {
        return CheckOutcome::fail(
            kind,
            phrase("Nothing is bound to UDP port ", number.as_str(), ".").as_str(),
            FailureCategory::WrongPort,
        );
    }
    match args::optional_string(v, "address") {
        Some(a) => if !crate::sys::contains_text(&addresses, a) {
            let shown = join_strings(&addresses, ", ");
            return CheckOutcome::fail(
                kind,
                phrase("UDP port ", number.as_str(), " is bound to the wrong address.").as_str(),
                FailureCategory::WrongPort,
            ).expected(a).observed(shown.as_str());
        },
        None => {},
    }
    CheckOutcome::pass(kind, phrase("A UDP socket is bound to port ", number.as_str(), ".").as_str())
}

/// The `curl` arguments for `url`: silent but showing errors, bounded by
/// [`wait_seconds`] (five seconds by default), then `extra`.
pub fn curl_arguments(v: &Validator, url: &str, extra: &Vec<String>) -> (r: Vec<String>)
    requires
        v.wf(),
    ensures
        strings_view(r@) == seq!["--silent"@, "--show-error"@, "--max-time"@, decimal(wait_seconds_spec(*v, 5000) as nat)]
            + strings_view(extra@) + seq!["--"@, url@],
{
    let mut a: Vec<String> = Vec::new();
    a.push(owned("--silent"));
    a.push(owned("--show-error"));
    a.push(owned("--max-time"));
    a.push(decimal_string(wait_seconds(v, 5000)));
    let ghost head = strings_view(a@);
    let mut i: usize = 0;
    while i < extra.len()
        invariant
            i <= extra@.len(),
            strings_view(a@) == head + strings_view(extra@).take(i as int),
        decreases extra.len() - i,
    {
        let ghost before = strings_view(a@);
        a.push(extra[i].clone());
        proof {
            assert(strings_view(a@) =~= before.push(extra@[i as int]@));
            assert(strings_view(extra@)[i as int] == extra@[i as int]@);
            assert(strings_view(extra@).take(i + 1) =~= strings_view(extra@).take(i as int).push(extra@[i as int]@));
        }
        i += 1;
    }
    assert(strings_view(extra@).take(extra@.len() as int) =~= strings_view(extra@));
    let ghost mid = strings_view(a@);
    a.push(owned("--"));
    a.push(owned(url));
    assert(strings_view(a@) =~= mid + seq!["--"@, url@]);
    a
}

/// The extra `curl` arguments of `http_status`: print only the status code, and send a
/// `HEAD` or `POST` request when `method` asks for one.
pub fn http_status_extra(v: &Validator) -> (r: Vec<String>)
    requires
        v.wf(),
    ensures
        strings_view(r@) == seq!["-o"@, "/dev/null"@, "-w"@, "%{http_code}"@] + if v.str_param_spec("method"@) == Some("HEAD"@) {
            seq!["--head"@]
        } else if v.str_param_spec("method"@) == Some("POST"@) {
            seq!["-X"@, "POST"@]
        } else {
            Seq::empty()
        },
{
    let mut a: Vec<String> = Vec::new();
    a.push(owned("-o"));
    a.push(owned("/dev/null"));
    a.push(owned("-w"));
    a.push(owned("%{http_code}"));
    let ghost head = strings_view(a@);
    proof {
        reveal_strlit("HEAD");
        reveal_strlit("POST");
    }
    match args::optional_string(v, "method") {
        Some(m) => if same_text(m, "HEAD") {
            a.push(owned("--head"));
        } else if same_text(m, "POST") {
            a.push(owned("-X"));
            a.push(owned("POST"));
        },
        None => {},
    }
    proof {
        assert(head =~= seq!["-o"@, "/dev/null"@, "-w"@, "%{http_code}"@]);
        if v.str_param_spec("method"@) == Some("HEAD"@) {
            assert(strings_view(a@) =~= head + seq!["--head"@]);
        } else if v.str_param_spec("method"@) == Some("POST"@) {
            assert(strings_view(a@) =~= head + seq!["-X"@, "POST"@]);
        } else {
            assert(strings_view(a@) =~= head + Seq::<Seq<char>>::empty());
        }
    }
    a
}

/// `http_status`: `url` answers with the status code `status`. `output` is what `curl` with
/// [`curl_arguments`] and [`http_status_extra`] printed, or the errored outcome of a run that
/// could not start.
pub fn http_status(v: &Validator, output: Result<CommandOutput, CheckOutcome>) -> (r: CheckOutcome)
    requires
        v.wf(),
    ensures
        match v.str_param_spec("url"@) {
            None => is_missing_outcome(r, v.kind@, "url"@),
            Some(u) => match v.i64_param_spec("status"@) {
                None => errs(r, v.kind@, "the status parameter is missing or not a number"@),
                Some(want) => match output {
                    Err(o) => r == o,
                    Ok(out) => {
                        let actual = trim(out.stdout@);
                        if !(out.status == 0 && !out.timed_out) && actual.len() == 0 {
                            unreachable(
                                r,
                                v.kind@,
                                u + " could not be reached at all ("@ + trim(out.stderr@) + ")."@,
                                None,
                                None,
                            )
                        } else if actual == signed_decimal(want as int) {
                            passes(r, v.kind@, u + " returned "@ + actual + "."@)
                        } else {
                            unreachable(
                                r,
                                v.kind@,
                                u + " returned "@ + actual + " rather than "@ + signed_decimal(want as int) + "."@,
                                Some(signed_decimal(want as int)),
                                Some(actual),
                            )
                        }
                    },
                },
            },
        },
{
    let url = match args::string(v, "url") {
        Ok(u) => u,
        Err(o) => return o,
    };
    let kind = v.kind.as_str();
    let want = match args::optional_integer(v, "status") {
        Some(s) => s,
        None => return CheckOutcome::error(kind, "the status parameter is missing or not a number"),
    };
    let out = match output {
        Ok(out) => out,
        Err(o) => return o,
    };
    let actual = out.stdout_trimmed();
    if !out.success() && actual.unicode_len() == 0 {
        let mut m = phrase(url, " could not be reached at all (", trimmed(out.stderr.as_str()).as_str());
        append(&mut m, ").");
        return CheckOutcome::fail(kind, m.as_str(), FailureCategory::NetworkUnreachable);
    }
    let wanted = signed_decimal_string(want);
    if same_text(actual.as_str(), wanted.as_str()) {
        let mut m = phrase(url, " returned ", actual.as_str());
        append(&mut m, ".");
        CheckOutcome::pass(kind, m.as_str())
    } else {
        let m = phrase2(url, " returned ", actual.as_str(), " rather than ", wanted.as_str());
        let mut m = m;
        append(&mut m, ".");
        CheckOutcome::fail(kind, m.as_str(), FailureCategory::NetworkUnreachable).expected(wanted.as_str()).observed(
            actual.as_str(),
        )
    }
}

/// `http_body`: what `url` returns contains `contains`. `output` is what `curl` with
/// [`curl_arguments`] printed, or the errored outcome of a run that could not start.
pub fn http_body(v: &Validator, output: Result<CommandOutput, CheckOutcome>) -> (r: CheckOutcome)
    requires
        v.wf(),
    ensures
        match (v.str_param_spec("url"@), v.str_param_spec("contains"@)) {
            (None, _) => is_missing_outcome(r, v.kind@, "url"@),
            (Some(_), None) => is_missing_outcome(r, v.kind@, "contains"@),
            (Some(u), Some(needle)) => match output {
                Err(o) => r == o,
                Ok(out) => if !(out.status == 0 && !out.timed_out) && out.stdout@.len() == 0 {
                    unreachable(r, v.kind@, u + " could not be reached ("@ + trim(out.stderr@) + ")."@, None, None)
                } else if contains(out.stdout@, needle) {
                    passes(r, v.kind@, u + " returned the expected content."@)
                } else {
                    unreachable(r, v.kind@, u + " did not return the expected content."@, Some(needle), None)
                },
            },
        },
{
    let url = match args::string(v, "url") {
        Ok(u) => u,
        Err(o) => return o,
    };
    let needle = match args::string(v, "contains") {
        Ok(n) => n,
        Err(o) => return o,
    };
    let kind = v.kind.as_str();
    let out = match output {
        Ok(out) => out,
        Err(o) => return o,
    };
    let body = chars_of(out.stdout.as_str());
    if !out.success() && body.len() == 0 {
        let mut m = phrase(url, " could not be reached (", trimmed(out.stderr.as_str()).as_str());
        append(&mut m, ").");
        return CheckOutcome::fail(kind, m.as_str(), FailureCategory::NetworkUnreachable);
    }
    if contains_chars(&body, &chars_of(needle)) {
        CheckOutcome::pass(kind, cat2(url, " returned the expected content.").as_str())
    } else {
        CheckOutcome::fail(
            kind,
            cat2(url, " did not return the expected content.").as_str(),
            FailureCategory::NetworkUnreachable,
        ).expected(needle)
    }
}

/// The part of the ruleset `firewall_rule` searches: all of it, or the named table and/or
/// chain block, so a rule in the wrong chain does not count.
pub open spec fn scoped_ruleset(ruleset: Seq<char>, table: Option<Seq<char>>, chain: Option<Seq<char>>) -> Seq<char> {
    if table is None && chain is None {
        ruleset
    } else {
        block_walk(lines(ruleset), table, chain).collected
    }
}

/// `firewall_rule`: the firewall ruleset (within the named `table`/`chain` when given)
/// contains `contains`. `output` is what `nft list ruleset` printed, or why it could not run.
pub fn firewall_rule(v: &Validator, output: Result<CommandOutput, String>) -> (r: CheckOutcome)
    requires
        v.wf(),
    ensures
        match v.str_param_spec("contains"@) {
            None => is_missing_outcome(r, v.kind@, "contains"@),
            Some(needle) => match output {
                Err(e) => errs(r, v.kind@, e@),
                Ok(out) => if !(out.status == 0 && !out.timed_out) {
                    errs(r, v.kind@, "could not read the firewall ruleset: "@ + trim(out.stderr@))
                } else if contains(
                    scoped_ruleset(out.stdout@, v.str_param_spec("table"@), v.str_param_spec("chain"@)),
                    needle,
                ) {
                    passes(r, v.kind@, "The firewall ruleset contains the expected rule."@)
                } else {
                    unreachable(r, v.kind@, "The firewall ruleset does not contain the expected rule."@, Some(needle), None)
                },
            },
        },
{
    let needle = match args::string(v, "contains") {
        Ok(n) => n,
        Err(o) => return o,
    };
    let kind = v.kind.as_str();
    let out = match output {
        Ok(out) => out,
        Err(e) => return CheckOutcome::error(kind, e.as_str()),
    };
    if !out.success() {
        return CheckOutcome::error(
            kind,
            cat2("could not read the firewall ruleset: ", trimmed(out.stderr.as_str()).as_str()).as_str(),
        );
    }
    let table = args::optional_string(v, "table");
    let chain = args::optional_string(v, "chain");
    let scoped = match (table, chain) {
        (None, None) => out.stdout.clone(),
        _ => extract_block(out.stdout.as_str(), table, chain),
    };
    if contains_chars(&chars_of(scoped.as_str()), &chars_of(needle)) {
        CheckOutcome::pass(kind, "The firewall ruleset contains the expected rule.")
    } else {
        CheckOutcome::fail(
            kind,
            "The firewall ruleset does not contain the expected rule.",
            FailureCategory::NetworkUnreachable,
        ).expected(needle)
    }
}

/// `ssh_key_valid`: `ssh-keygen -l -f <path>` accepts the key, of type `keyType` when given
/// (its summary ends in `(TYPE)`, compared ignoring case), and, with `requireSafeMode`,
/// others cannot read it (OpenSSH refuses such a private key). `output` is the ssh-keygen
/// run, or why it could not run; `permissions` is what `stat` reported for the key.
pub fn ssh_key_valid(v: &Validator, output: Result<CommandOutput, String>, permissions: Option<u32>) -> (r: CheckOutcome)
    requires
        v.wf(),
    ensures
        match v.str_param_spec("path"@) {
            None => is_missing_outcome(r, v.kind@, "path"@),
            Some(p) => match output {
                Err(e) => errs(r, v.kind@, e@),
                Ok(out) => {
                    let summary = trim(out.stdout@);
                    if !(out.status == 0 && !out.timed_out) {
                        fails(
                            r,
                            v.kind@,
                            p + " is not a valid SSH key."@,
                            FailureCategory::PermissionDenied,
                            None,
                            Some(trim(out.stderr@)),
                        )
                    } else if v.str_param_spec("keyType"@) matches Some(t) && !contains(
                        lowercase_of(summary),
                        "("@ + lowercase_of(t) + ")"@,
                    ) {
                        fails(
                            r,
                            v.kind@,
                            p + " is not an "@ + v.str_param_spec("keyType"@)->0 + " key."@,
                            FailureCategory::PermissionDenied,
                            Some(v.str_param_spec("keyType"@)->0),
                            Some(summary),
                        )
                    } else if v.bool_param_spec("requireSafeMode"@) == Some(true) && permissions is None {
                        fails(r, v.kind@, p + " could not be inspected."@, FailureCategory::WrongPath, None, None)
                    } else if v.bool_param_spec("requireSafeMode"@) == Some(true) && permissions->0 & 0o077u32 != 0 {
                        fails(
                            r,
                            v.kind@,
                            p + " is readable by other users, so ssh will refuse to use it. A private key should be 0600."@,
                            FailureCategory::WrongPermissions,
                            Some("0600"@),
                            Some(format_mode_spec(permissions->0)),
                        )
                    } else {
                        passes_with(r, v.kind@, p + " is a valid SSH key."@, Some(summary))
                    }
                },
            },
        },
{
    let path = match args::path(v, "path") {
        Ok(p) => p,
        Err(o) => return o,
    };
    let kind = v.kind.as_str();
    let out = match output {
        Ok(out) => out,
        Err(e) => return CheckOutcome::error(kind, e.as_str()),
    };
    if !out.success() {
        return CheckOutcome::fail(
            kind,
            cat2(path.as_str(), " is not a valid SSH key.").as_str(),
            FailureCategory::PermissionDenied,
        ).observed(trimmed(out.stderr.as_str()).as_str());
    }
    let summary = out.stdout_trimmed();
    match args::optional_string(v, "keyType") {
        Some(t) => {
            let lowered = to_lowercase(summary.as_str());
            let wanted = phrase("(", to_lowercase(t).as_str(), ")");
            if !contains_chars(&chars_of(lowered.as_str()), &chars_of(wanted.as_str())) {
                let mut m = phrase(path.as_str(), " is not an ", t);
                append(&mut m, " key.");
                return CheckOutcome::fail(kind, m.as_str(), FailureCategory::PermissionDenied).expected(t).observed(
                    summary.as_str(),
                );
            }
        },
        None => {},
    }
    if args::flag(v, "requireSafeMode") {
        let bits = match permissions {
            Some(b) => b,
            None => return CheckOutcome::fail(
                kind,
                cat2(path.as_str(), " could not be inspected.").as_str(),
                FailureCategory::WrongPath,
            ),
        };
        if bits & 0o077u32 != 0 {
            return CheckOutcome::fail(
                kind,
                cat2(path.as_str(), " is readable by other users, so ssh will refuse to use it. A private key should be 0600.").as_str(),
                FailureCategory::WrongPermissions,
            ).expected("0600").observed(format_mode(bits).as_str());
        }
    }
    CheckOutcome::pass(kind, cat2(path.as_str(), " is a valid SSH key.").as_str()).observed(summary.as_str())
}

/// The account `remote_file_exists` logs in as: the validator's `user`, `student` by
/// default.
pub open spec fn remote_user(v: Validator) -> Seq<char> {
    match v.str_param_spec("user"@) {
        Some(u) => u,
        None => "student"@,
    }
}

/// The `ssh` arguments of `remote_file_exists`: no password prompt (a missing key fails at
/// once), new host keys accepted, a four-second connect timeout, then `test -e <path>` as
/// [`remote_user`] on `host`.
pub fn ssh_arguments(v: &Validator) -> (r: Result<Vec<String>, CheckOutcome>)
    requires
        v.wf(),
    ensures
        match (v.str_param_spec("host"@), v.str_param_spec("path"@)) {
            (None, _) => r matches Err(o) && is_missing_outcome(o, v.kind@, "host"@),
            (Some(_), None) => r matches Err(o) && is_missing_outcome(o, v.kind@, "path"@),
            (Some(h), Some(p)) => r matches Ok(a) && strings_view(a@) == seq![
                "-o"@,
                "BatchMode=yes"@,
                "-o"@,
                "StrictHostKeyChecking=accept-new"@,
                "-o"@,
                "ConnectTimeout=4"@,
                remote_user(*v) + "@"@ + h,
                "test"@,
                "-e"@,
                p,
            ],
        },
{
    let host = match args::string(v, "host") {
        Ok(h) => h,
        Err(o) => return Err(o),
    };
    let path = match args::string(v, "path") {
        Ok(p) => p,
        Err(o) => return Err(o),
    };
    let user = match args::optional_string(v, "user") {
        Some(u) => owned(u),
        None => owned("student"),
    };
    let mut a: Vec<String> = Vec::new();
    a.push(owned("-o"));
    a.push(owned("BatchMode=yes"));
    a.push(owned("-o"));
    a.push(owned("StrictHostKeyChecking=accept-new"));
    a.push(owned("-o"));
    a.push(owned("ConnectTimeout=4"));
    a.push(phrase(user.as_str(), "@", host));
    a.push(owned("test"));
    a.push(owned("-e"));
    a.push(owned(path));
    proof {
        assert(strings_view(a@) =~= seq![
            "-o"@,
            "BatchMode=yes"@,
            "-o"@,
            "StrictHostKeyChecking=accept-new"@,
            "-o"@,
            "ConnectTimeout=4"@,
            remote_user(*v) + "@"@ + host@,
            "test"@,
            "-e"@,
            path@,
        ]);
    }
    Ok(a)
}

/// `remote_file_exists`: `path` exists on `host`, checked over ssh with [`ssh_arguments`].
/// `output` is that run's result, or why it could not run.
pub fn remote_file_exists(v: &Validator, output: Result<CommandOutput, String>) -> (r: CheckOutcome)
    requires
        v.wf(),
    ensures
        match (v.str_param_spec("host"@), v.str_param_spec("path"@)) {
            (None, _) => is_missing_outcome(r, v.kind@, "host"@),
            (Some(_), None) => is_missing_outcome(r, v.kind@, "path"@),
            (Some(h), Some(p)) => match output {
                Err(e) => errs(r, v.kind@, e@),
                Ok(out) => if out.status == 0 && !out.timed_out {
                    passes(r, v.kind@, p + " exists on "@ + h + "."@)
                } else if contains(out.stderr@, "Permission denied"@) {
                    fails(
                        r,
                        v.kind@,
                        "Could not log in to "@ + h + " as "@ + remote_user(*v) + " without a password."@,
                        FailureCategory::PermissionDenied,
                        None,
                        None,
                    )
                } else {
                    unreachable(
                        r,
                        v.kind@,
                        p + " was not found on "@ + h + ", or "@ + h + " could not be reached."@,
                        None,
                        Some(trim(out.stderr@)),
                    )
                },
            },
        },
{
    let host = match args::string(v, "host") {
        Ok(h) => h,
        Err(o) => return o,
    };
    let path = match args::string(v, "path") {
        Ok(p) => p,
        Err(o) => return o,
    };
    let user = match args::optional_string(v, "user") {
        Some(u) => owned(u),
        None => owned("student"),
    };
    let kind = v.kind.as_str();
    let out = match output {
        Ok(out) => out,
        Err(e) => return CheckOutcome::error(kind, e.as_str()),
    };
    if out.success() {
        let mut m = phrase(path, " exists on ", host);
        append(&mut m, ".");
        CheckOutcome::pass(kind, m.as_str())
    } else if contains_chars(&chars_of(out.stderr.as_str()), &chars_of("Permission denied")) {
        let m = phrase2("Could not log in to ", host, " as ", user.as_str(), " without a password.");
        CheckOutcome::fail(kind, m.as_str(), FailureCategory::PermissionDenied)
    } else {
        let m = phrase2(path, " was not found on ", host, ", or ", host);
        let mut m = m;
        append(&mut m, " could not be reached.");
        CheckOutcome::fail(kind, m.as_str(), FailureCategory::NetworkUnreachable).observed(
            trimmed(out.stderr.as_str()).as_str(),
        )
    }
}

} // verus!
