//! Transcript redaction.
//!
//! A learner who exports a session transcript may paste it into a bug report, so anything
//! that looks like a credential is masked first. Matching is on the *key* (`password=`,
//! `authorization:` and so on, ignoring ASCII case), never on entropy heuristics, so ordinary
//! output is left exactly as it was.
use crate::text::{
    chars_from_to, chars_of, is_space, is_space_char, join, lemma_join_split, owned, split_chars, split_on, string_of,
    strings_view,
};
use vstd::prelude::*;

verus! {

/// Replaces every masked value.
pub const MASK: &'static str = "***redacted***";

/// The keys whose value is masked, in the order they are tried.
pub open spec fn sensitive_keys() -> Seq<Seq<char>> {
    seq![
        "password="@,
        "passwd="@,
        "token="@,
        "secret="@,
        "api_key="@,
        "apikey="@,
        "authorization:"@,
        "auth_token="@,
        "private_key="@,
    ]
}

pub open spec fn ascii_lower(c: char) -> char {
    if 'A' <= c && c <= 'Z' {
        ((c as u32) + 32) as char
    } else {
        c
    }
}

/// Whether `key` occurs at position `i` of `s`, ignoring ASCII case.
pub open spec fn key_at(s: Seq<char>, i: int, key: Seq<char>) -> bool {
    &&& 0 <= i
    &&& i + key.len() <= s.len()
    &&& forall|j: int| 0 <= j < key.len() ==> ascii_lower(#[trigger] s[i + j]) == ascii_lower(key[j])
}

/// The first sensitive key (by its index in the list) at or after list position `k` that
/// occurs at position `i`.
pub open spec fn first_key_from(s: Seq<char>, i: int, k: nat) -> Option<nat>
    decreases sensitive_keys().len() - k,
{
    if k >= sensitive_keys().len() {
        None
    } else if key_at(s, i, sensitive_keys()[k as int]) {
        Some(k)
    } else {
        first_key_from(s, i, k + 1)
    }
}

pub open spec fn first_key(s: Seq<char>, i: int) -> Option<nat> {
    first_key_from(s, i, 0)
}

/// First position at or after `j` that is not white space.
pub open spec fn skip_space(s: Seq<char>, j: int) -> int
    decreases s.len() - j,
{
    if 0 <= j < s.len() && is_space(s[j]) {
        skip_space(s, j + 1)
    } else {
        j
    }
}

/// Whether a character ends a value. Header values may contain spaces.
pub open spec fn ends_value(c: char, header: bool) -> bool {
    c == '"' || c == '\'' || c == ';' || c == '&' || c == '|' || (!header && is_space(c))
}

/// First position at or after `j` holding a character that ends the value, or the end.
pub open spec fn value_end(s: Seq<char>, j: int, header: bool) -> int
    decreases s.len() - j,
{
    if j < 0 || j >= s.len() {
        s.len() as int
    } else if ends_value(s[j], header) {
        j
    } else {
        value_end(s, j + 1, header)
    }
}

/// Where the value after the key found at `i` starts.
pub open spec fn value_start(s: Seq<char>, i: int, key: Seq<char>) -> int {
    if key.last() == ':' {
        skip_space(s, i + key.len())
    } else {
        i + key.len()
    }
}

/// The redaction of `s` from position `i` onwards, scanning left to right and resuming after
/// each masked value.
pub open spec fn redact_from(s: Seq<char>, i: int) -> Seq<char>
    decreases s.len() - i, 0int,
{
    if i < 0 || i >= s.len() {
        Seq::empty()
    } else {
        match first_key(s, i) {
            Some(k) => {
                let key = sensitive_keys()[k as int];
                let vs = value_start(s, i, key);
                let ve = value_end(s, vs, key.last() == ':');
                if vs <= ve && i < ve && ve <= s.len() {
                    s.subrange(i, vs) + (if ve > vs {
                        MASK@
                    } else {
                        Seq::empty()
                    }) + redact_from(s, ve)
                } else {
                    Seq::empty()
                }
            },
            None => seq![s[i]] + redact_from(s, i + 1),
        }
    }
}

/// The redaction of one line.
pub open spec fn redact_line_spec(line: Seq<char>) -> Seq<char> {
    redact_from(line, 0)
}

/// The text of a line without the carriage return that may end it.
pub open spec fn line_body(piece: Seq<char>) -> Seq<char> {
    if piece.len() > 0 && piece.last() == '\r' {
        piece.drop_last()
    } else {
        piece
    }
}

/// One piece of a transcript between newlines, redacted: its text redacted, and the carriage
/// return that may end it kept.
pub open spec fn redact_piece_spec(piece: Seq<char>) -> Seq<char> {
    if piece.len() > 0 && piece.last() == '\r' {
        redact_line_spec(piece.drop_last()).push('\r')
    } else {
        redact_line_spec(piece)
    }
}

/// The redaction of a transcript: each piece between newlines redacted on its own, and the
/// pieces joined by the same newlines, so line endings come back as they were.
pub open spec fn redact_transcript_spec(t: Seq<char>) -> Seq<char> {
    join(split_on(t, '\n').map_values(|l: Seq<char>| redact_piece_spec(l)), seq!['\n'])
}

proof fn lemma_skip_space_bounds(s: Seq<char>, j: int)
    requires
        0 <= j <= s.len(),
    ensures
        j <= skip_space(s, j) <= s.len(),
    decreases s.len() - j,
{
    if j < s.len() && is_space(s[j]) {
        lemma_skip_space_bounds(s, j + 1);
    }
}

proof fn lemma_value_end_bounds(s: Seq<char>, j: int, header: bool)
    requires
        0 <= j <= s.len(),
    ensures
        j <= value_end(s, j, header) <= s.len(),
    decreases s.len() - j,
{
    if j < s.len() && !ends_value(s[j], header) {
        lemma_value_end_bounds(s, j + 1, header);
    }
}

proof fn lemma_keys_facts()
    ensures
        sensitive_keys().len() == 9,
        forall|k: int| 0 <= k < 9 ==> (#[trigger] sensitive_keys()[k]).len() > 0,
{
    reveal_strlit("password=");
    reveal_strlit("passwd=");
    reveal_strlit("token=");
    reveal_strlit("secret=");
    reveal_strlit("api_key=");
    reveal_strlit("apikey=");
    reveal_strlit("authorization:");
    reveal_strlit("auth_token=");
    reveal_strlit("private_key=");
}

proof fn lemma_first_key_found(s: Seq<char>, i: int, k: nat)
    ensures
        first_key_from(s, i, k) matches Some(f) ==> f < sensitive_keys().len() && key_at(
            s,
            i,
            sensitive_keys()[f as int],
        ),
    decreases sensitive_keys().len() - k,
{
    if k < sensitive_keys().len() && !key_at(s, i, sensitive_keys()[k as int]) {
        lemma_first_key_found(s, i, k + 1);
    }
}

/// Whether `key` occurs at position `i` of `s`, ignoring ASCII case.
fn key_matches(s: &Vec<char>, i: usize, key: &Vec<char>) -> (r: bool)
    ensures
        r == key_at(s@, i as int, key@),
{
    if i > s.len() || key.len() > s.len() - i {
        return false;
    }
    let mut j: usize = 0;
    while j < key.len()
        invariant
            i + key.len() <= s.len(),
            j <= key.len(),
            forall|m: int| 0 <= m < j ==> ascii_lower(#[trigger] s@[i + m]) == ascii_lower(key@[m]),
        decreases key.len() - j,
    {
        if lower_ascii(s[i + j]) != lower_ascii(key[j]) {
            assert(ascii_lower(s@[i + j]) != ascii_lower(key@[j as int]));
            return false;
        }
        j += 1;
    }
    true
}

/// ASCII lower-casing of one character; other characters are unchanged.
pub fn lower_ascii(c: char) -> (r: char)
    ensures
        r == ascii_lower(c),
{
    if 'A' <= c && c <= 'Z' {
        ((c as u8) + 32) as char
    } else {
        c
    }
}

/// The sensitive keys as character vectors.
fn key_table() -> (keys: Vec<Vec<char>>)
    ensures
        keys@.len() == sensitive_keys().len(),
        forall|k: int| 0 <= k < keys@.len() ==> (#[trigger] keys@[k])@ == sensitive_keys()[k],
{
    let mut keys: Vec<Vec<char>> = Vec::new();
    keys.push(chars_of("password="));
    keys.push(chars_of("passwd="));
    keys.push(chars_of("token="));
    keys.push(chars_of("secret="));
    keys.push(chars_of("api_key="));
    keys.push(chars_of("apikey="));
    keys.push(chars_of("authorization:"));
    keys.push(chars_of("auth_token="));
    keys.push(chars_of("private_key="));
    keys
}

/// Redacts one line.
fn redact_line(line: &Vec<char>) -> (out: Vec<char>)
    ensures
        out@ == redact_line_spec(line@),
{
    let keys = key_table();
    let mask = chars_of(MASK);
    let s = line;
    let mut out: Vec<char> = Vec::new();
    let mut i: usize = 0;
    proof {
        lemma_keys_facts();
    }
    while i < s.len()
        invariant
            i <= s.len(),
            keys@.len() == sensitive_keys().len(),
            sensitive_keys().len() == 9,
            forall|k: int| 0 <= k < 9 ==> (#[trigger] sensitive_keys()[k]).len() > 0,
            forall|k: int| 0 <= k < keys@.len() ==> (#[trigger] keys@[k])@ == sensitive_keys()[k],
            mask@ == MASK@,
            out@ + redact_from(s@, i as int) == redact_from(s@, 0),
        decreases s.len() - i,
    {
        // Find the first key, in list order, that occurs here.
        let mut k: usize = 0;
        while k < keys.len() && !key_matches(s, i, &keys[k])
            invariant
                k <= keys@.len(),
                keys@.len() == sensitive_keys().len(),
                forall|m: int| 0 <= m < keys@.len() ==> (#[trigger] keys@[m])@ == sensitive_keys()[m],
                first_key(s@, i as int) == first_key_from(s@, i as int, k as nat),
            decreases keys.len() - k,
        {
            k += 1;
        }
        let found: Option<usize> = if k < keys.len() {
            assert(first_key_from(s@, i as int, k as nat) == Some(k as nat));
            Some(k)
        } else {
            assert(first_key_from(s@, i as int, k as nat) is None);
            None
        };
        match found {
            Some(f) => {
                proof {
                    lemma_first_key_found(s@, i as int, 0);
                }
                let key = &keys[f];
                let ghost key_spec = sensitive_keys()[f as int];
                assert(key@ == key_spec);
                let raw_start = i + key.len();
                let header = key[key.len() - 1] == ':';
                let mut vs = raw_start;
                if header {
                    while vs < s.len() && is_space_char(s[vs])
                        invariant
                            raw_start <= vs <= s.len(),
                            skip_space(s@, raw_start as int) == skip_space(s@, vs as int),
                        decreases s.len() - vs,
                    {
                        vs += 1;
                    }
                }
                assert(vs == value_start(s@, i as int, key_spec));
                let mut ve = vs;
                while ve < s.len() && !(s[ve] == '"' || s[ve] == '\'' || s[ve] == ';' || s[ve]
                    == '&' || s[ve] == '|' || (!header && is_space_char(s[ve])))
                    invariant
                        vs <= ve <= s.len(),
                        value_end(s@, vs as int, header) == value_end(s@, ve as int, header),
                    decreases s.len() - ve,
                {
                    ve += 1;
                }
                assert(ve == value_end(s@, vs as int, header));
                let ghost before = out@;
                let mut m: usize = i;
                while m < vs
                    invariant
                        i <= m <= vs,
                        vs <= s.len(),
                        out@ == before + s@.subrange(i as int, m as int),
                    decreases vs - m,
                {
                    out.push(s[m]);
                    m += 1;
                    assert(out@ =~= before + s@.subrange(i as int, m as int));
                }
                if ve > vs {
                    let ghost mid = out@;
                    let mut q: usize = 0;
                    while q < mask.len()
                        invariant
                            q <= mask@.len(),
                            out@ == mid + mask@.subrange(0, q as int),
                        decreases mask.len() - q,
                    {
                        out.push(mask[q]);
                        q += 1;
                        assert(out@ =~= mid + mask@.subrange(0, q as int));
                    }
                    assert(mask@.subrange(0, mask@.len() as int) =~= mask@);
                }
                assert(redact_from(s@, i as int) == s@.subrange(i as int, vs as int) + (if ve
                    > vs {
                    MASK@
                } else {
                    Seq::empty()
                }) + redact_from(s@, ve as int));
                assert(out@ + redact_from(s@, ve as int) =~= before + redact_from(
                    s@,
                    i as int,
                ));
                i = ve;
            },
            None => {
                assert(first_key(s@, i as int) is None);
                let ghost before = out@;
                out.push(s[i]);
                assert(out@ + redact_from(s@, i + 1) =~= before + redact_from(s@, i as int));
                i += 1;
            },
        }
    }
    assert(out@ =~= redact_from(s@, 0));
    out
}

fn redact_piece(piece: &Vec<char>) -> (out: Vec<char>)
    ensures
        out@ == redact_piece_spec(piece@),
{
    let n = piece.len();
    if n > 0 && piece[n - 1] == '\r' {
        let body = chars_from_to(piece, 0, n - 1);
        assert(body@ =~= piece@.drop_last());
        let mut out = redact_line(&body);
        out.push('\r');
        out
    } else {
        redact_line(piece)
    }
}

/// Masks credential-looking values in a transcript, line by line.
pub fn redact_transcript(transcript: &str) -> (out: String)
    ensures
        out@ == redact_transcript_spec(transcript@),
{
    let all_lines = split_chars(&chars_of(transcript), '\n');
    let mut out: Vec<char> = Vec::new();
    let ghost redacted = split_on(transcript@, '\n').map_values(|l: Seq<char>| redact_piece_spec(l));
    let mut i: usize = 0;
    while i < all_lines.len()
        invariant
            i <= all_lines@.len(),
            strings_view(all_lines@) == split_on(transcript@, '\n'),
            redacted == split_on(transcript@, '\n').map_values(|l: Seq<char>| redact_piece_spec(l)),
            out@ == join(redacted.subrange(0, i as int), seq!['\n']),
        decreases all_lines.len() - i,
    {
        let line = chars_of(all_lines[i].as_str());
        let masked = redact_piece(&line);
        assert(masked@ == redacted[i as int]);
        let ghost before = out@;
        if i > 0 {
            out.push('\n');
        }
        let mut m: usize = 0;
        let ghost mid = out@;
        while m < masked.len()
            invariant
                m <= masked@.len(),
                out@ == mid + masked@.subrange(0, m as int),
            decreases masked.len() - m,
        {
            out.push(masked[m]);
            m += 1;
            assert(out@ =~= mid + masked@.subrange(0, m as int));
        }
        assert(masked@.subrange(0, masked@.len() as int) =~= masked@);
        assert(redacted.subrange(0, i + 1).drop_last() =~= redacted.subrange(0, i as int));
        if i > 0 {
            assert(out@ =~= join(redacted.subrange(0, i + 1), seq!['\n']));
        } else {
            assert(redacted.subrange(0, 1) =~= seq![redacted[0]]);
            assert(out@ =~= join(redacted.subrange(0, i + 1), seq!['\n']));
        }
        i += 1;
    }
    assert(redacted.subrange(0, all_lines@.len() as int) =~= redacted);
    string_of(&out)
}

proof fn lemma_plain_suffix_unchanged(s: Seq<char>, i: int)
    requires
        0 <= i <= s.len(),
        forall|j: int| 0 <= j < s.len() ==> #[trigger] first_key(s, j) is None,
    ensures
        redact_from(s, i) == s.subrange(i, s.len() as int),
    decreases s.len() - i,
{
    if i < s.len() {
        lemma_plain_suffix_unchanged(s, i + 1);
        assert(first_key(s, i) is None);
        assert(seq![s[i]] + s.subrange(i + 1, s.len() as int) =~= s.subrange(i, s.len() as int));
    } else {
        assert(s.subrange(i, s.len() as int) =~= Seq::<char>::empty());
    }
}

/// A line in which no sensitive key occurs anywhere comes out of redaction unchanged.
pub proof fn lemma_plain_line_unchanged(line: Seq<char>)
    requires
        forall|j: int| 0 <= j < line.len() ==> #[trigger] first_key(line, j) is None,
    ensures
        redact_line_spec(line) == line,
{
    lemma_plain_suffix_unchanged(line, 0);
    assert(line.subrange(0, line.len() as int) =~= line);
}

/// A key found at a position of a piece of `t` is found at the matching position of `t`.
proof fn lemma_key_found_in_whole(t: Seq<char>, off: int, piece: Seq<char>, j: int, k: nat)
    requires
        0 <= off,
        off + piece.len() <= t.len(),
        t.subrange(off, off + piece.len()) == piece,
        first_key_from(piece, j, k) is Some,
    ensures
        first_key_from(t, off + j, k) is Some,
    decreases sensitive_keys().len() - k,
{
    let key = sensitive_keys()[k as int];
    if key_at(piece, j, key) {
        assert forall|x: int| 0 <= x < key.len() implies ascii_lower(#[trigger] t[off + j + x]) == ascii_lower(key[x]) by {
            assert(t[off + j + x] == piece[j + x]);
            assert(ascii_lower(piece[j + x]) == ascii_lower(key[x]));
        }
        assert(key_at(t, off + j, key));
    } else {
        lemma_key_found_in_whole(t, off, piece, j, k + 1);
    }
}

/// `piece` stands in `t` at `off`.
spec fn stretch_at(t: Seq<char>, piece: Seq<char>, off: int) -> bool {
    0 <= off && off + piece.len() <= t.len() && t.subrange(off, off + piece.len()) == piece
}

/// `piece` stands somewhere in `t`.
spec fn is_stretch(t: Seq<char>, piece: Seq<char>) -> bool {
    exists|off: int| #[trigger] stretch_at(t, piece, off)
}

/// Every piece of `t` between occurrences of `d` is a stretch of `t`, and the last one ends it.
proof fn lemma_pieces_are_stretches(t: Seq<char>, d: char)
    ensures
        split_on(t, d).len() >= 1,
        split_on(t, d).last().len() <= t.len(),
        t.subrange(t.len() - split_on(t, d).last().len(), t.len() as int) == split_on(t, d).last(),
        forall|n: int| 0 <= n < split_on(t, d).len() ==> #[trigger] is_stretch(t, split_on(t, d)[n]),
    decreases t.len(),
{
    if t.len() == 0 {
        assert(t.subrange(0, 0) =~= split_on(t, d).last());
        assert(stretch_at(t, split_on(t, d)[0], 0));
    } else {
        let u = t.drop_last();
        lemma_pieces_are_stretches(u, d);
        let p = split_on(u, d);
        let q = split_on(t, d);
        assert forall|n: int| 0 <= n < p.len() - 1 implies #[trigger] is_stretch(t, q[n]) by {
            assert(is_stretch(u, p[n]));
            let off = choose|off: int| #[trigger] stretch_at(u, p[n], off);
            assert(q[n] == p[n]);
            assert(t.subrange(off, off + q[n].len()) =~= u.subrange(off, off + p[n].len()));
            assert(stretch_at(t, q[n], off));
        }
        let last = p.last();
        let start = u.len() - last.len();
        assert(t =~= u.push(t.last()));
        assert(u.subrange(start, u.len() as int) == last);
        if t.last() == d {
            assert(t.subrange(start, start + last.len()) =~= u.subrange(start, u.len() as int));
            assert(q[p.len() - 1] == last);
            assert(stretch_at(t, q[p.len() - 1], start));
            assert(t.subrange(t.len() as int, t.len() as int) =~= q.last());
            assert(stretch_at(t, q[q.len() - 1], t.len() as int));
            assert forall|n: int| 0 <= n < q.len() implies #[trigger] is_stretch(t, q[n]) by {
                if n == p.len() - 1 {
                    assert(stretch_at(t, q[n], start));
                } else if n == q.len() - 1 {
                    assert(stretch_at(t, q[n], t.len() as int));
                }
            }
        } else {
            assert(q.last() == last.push(t.last()));
            assert(t.subrange(start, t.len() as int) =~= last.push(t.last()));
            assert(stretch_at(t, q[q.len() - 1], start));
            assert forall|n: int| 0 <= n < q.len() implies #[trigger] is_stretch(t, q[n]) by {
                if n == q.len() - 1 {
                    assert(stretch_at(t, q[n], start));
                }
            }
        }
    }
}

/// Text in which no key occurs at any position comes back from redaction exactly as it was,
/// line endings and a final newline included.
pub proof fn lemma_keyless_transcript_unchanged(t: Seq<char>)
    requires
        forall|i: int| 0 <= i < t.len() ==> #[trigger] first_key(t, i) is None,
    ensures
        redact_transcript_spec(t) == t,
{
    let pieces = split_on(t, '\n');
    lemma_pieces_are_stretches(t, '\n');
    assert forall|n: int, j: int|
        0 <= n < pieces.len() && 0 <= j < line_body(pieces[n]).len() implies #[trigger] first_key(
        line_body(pieces[n]),
        j,
    ) is None by {
        assert(is_stretch(t, pieces[n]));
        let off = choose|off: int| #[trigger] stretch_at(t, pieces[n], off);
        let body = line_body(pieces[n]);
        assert(t.subrange(off, off + body.len()) =~= body);
        if first_key(body, j) is Some {
            lemma_key_found_in_whole(t, off, body, j, 0);
            assert(first_key(t, off + j) is Some);
        }
    }
    lemma_plain_transcript_unchanged(t);
}

/// Ordinary output, in which no line's text holds a sensitive key, comes back exactly as it was:
/// every character, line ending and final newline included.
pub proof fn lemma_plain_transcript_unchanged(t: Seq<char>)
    requires
        forall|n: int, j: int|
            0 <= n < split_on(t, '\n').len() && 0 <= j < line_body(split_on(t, '\n')[n]).len()
                ==> #[trigger] first_key(line_body(split_on(t, '\n')[n]), j) is None,
    ensures
        redact_transcript_spec(t) == t,
{
    let pieces = split_on(t, '\n');
    let redacted = pieces.map_values(|l: Seq<char>| redact_piece_spec(l));
    assert forall|n: int| 0 <= n < pieces.len() implies redacted[n] == pieces[n] by {
        lemma_plain_line_unchanged(line_body(pieces[n]));
        if pieces[n].len() > 0 && pieces[n].last() == '\r' {
            assert(pieces[n].drop_last().push('\r') =~= pieces[n]);
        }
    }
    assert(redacted =~= pieces);
    lemma_join_split(t, '\n');
}

/// The lab's own documented practice password is not a secret: masking it would make sudo
/// lessons impossible to follow in an exported transcript.
pub fn is_lab_password(value: &str) -> (r: bool)
    ensures
        r == (value@ == "linuxlab"@),
{
    let expected = owned("linuxlab");
    let given = owned(value);
    given == expected
}


// ---------------------------------------------------------------------------------------
// Redacting twice changes nothing
// ---------------------------------------------------------------------------------------

proof fn lemma_keys_have_no_star()
    ensures
        forall|k: int, x: int|
            0 <= k < 9 && 0 <= x < sensitive_keys()[k].len() ==> ascii_lower(#[trigger] sensitive_keys()[k][x]) != '*',
{
    lemma_keys_facts();
    reveal_strlit("password=");
    reveal_strlit("passwd=");
    reveal_strlit("token=");
    reveal_strlit("secret=");
    reveal_strlit("api_key=");
    reveal_strlit("apikey=");
    reveal_strlit("authorization:");
    reveal_strlit("auth_token=");
    reveal_strlit("private_key=");
}

/// A key never matches over a `*`.
proof fn lemma_key_window_has_no_star(w: Seq<char>, p: int, k: int)
    requires
        0 <= k < 9,
        key_at(w, p, sensitive_keys()[k]),
    ensures
        forall|x: int| 0 <= x < sensitive_keys()[k].len() ==> #[trigger] w[p + x] != '*',
{
    lemma_keys_have_no_star();
    let key = sensitive_keys()[k];
    assert forall|x: int| 0 <= x < key.len() implies #[trigger] w[p + x] != '*' by {
        assert(ascii_lower(w[p + x]) == ascii_lower(key[x]));
        assert(ascii_lower(sensitive_keys()[k][x]) != '*');
    }
}

/// The keys tried before the one found do not match.
proof fn lemma_first_key_is_first(s: Seq<char>, i: int, k0: nat, k: nat)
    requires
        first_key_from(s, i, k0) == Some(k),
    ensures
        k0 <= k < 9,
        key_at(s, i, sensitive_keys()[k as int]),
        forall|j: int| k0 <= j < k ==> !key_at(s, i, #[trigger] sensitive_keys()[j]),
    decreases sensitive_keys().len() - k0,
{
    lemma_keys_facts();
    if !key_at(s, i, sensitive_keys()[k0 as int]) {
        lemma_first_key_is_first(s, i, k0 + 1, k);
    }
}

/// A key that matches is found, by it or by one tried earlier.
proof fn lemma_matching_key_is_found(s: Seq<char>, i: int, k0: nat, k: int)
    requires
        k0 <= k < 9,
        key_at(s, i, sensitive_keys()[k]),
    ensures
        first_key_from(s, i, k0) is Some,
    decreases k - k0,
{
    lemma_keys_facts();
    if k0 < k && !key_at(s, i, sensitive_keys()[k0 as int]) {
        lemma_matching_key_is_found(s, i, k0 + 1, k);
    }
}

proof fn lemma_skip_space_chars(s: Seq<char>, j: int)
    requires
        0 <= j <= s.len(),
    ensures
        forall|y: int| j <= y < skip_space(s, j) ==> is_space(#[trigger] s[y]),
        skip_space(s, j) < s.len() ==> !is_space(s[skip_space(s, j)]),
    decreases s.len() - j,
{
    lemma_skip_space_bounds(s, j);
    if j < s.len() && is_space(s[j]) {
        lemma_skip_space_chars(s, j + 1);
    }
}

proof fn lemma_skip_space_stops(w: Seq<char>, j: int, e: int)
    requires
        0 <= j <= e <= w.len(),
        forall|y: int| j <= y < e ==> is_space(#[trigger] w[y]),
        e < w.len() ==> !is_space(w[e]),
    ensures
        skip_space(w, j) == e,
    decreases e - j,
{
    if j < e {
        lemma_skip_space_stops(w, j + 1, e);
    }
}

proof fn lemma_value_end_chars(s: Seq<char>, j: int, h: bool)
    requires
        0 <= j <= s.len(),
    ensures
        forall|y: int| j <= y < value_end(s, j, h) ==> !ends_value(#[trigger] s[y], h),
        value_end(s, j, h) < s.len() ==> ends_value(s[value_end(s, j, h)], h),
    decreases s.len() - j,
{
    lemma_value_end_bounds(s, j, h);
    if j < s.len() && !ends_value(s[j], h) {
        lemma_value_end_chars(s, j + 1, h);
    }
}

proof fn lemma_value_end_stops(w: Seq<char>, j: int, e: int, h: bool)
    requires
        0 <= j <= e <= w.len(),
        forall|y: int| j <= y < e ==> !ends_value(#[trigger] w[y], h),
        e < w.len() ==> ends_value(w[e], h),
    ensures
        value_end(w, j, h) == e,
    decreases e - j,
{
    if j < e {
        lemma_value_end_stops(w, j + 1, e, h);
    }
}

/// Where a key is found, its value lies after it and ends within the text.
proof fn lemma_found_value_bounds(s: Seq<char>, i: int, k: int)
    requires
        0 <= k < 9,
        key_at(s, i, sensitive_keys()[k]),
    ensures
        i + sensitive_keys()[k].len() <= value_start(s, i, sensitive_keys()[k]),
        value_start(s, i, sensitive_keys()[k]) <= value_end(
            s,
            value_start(s, i, sensitive_keys()[k]),
            sensitive_keys()[k].last() == ':',
        ) <= s.len(),
        i < value_start(s, i, sensitive_keys()[k]),
{
    lemma_keys_facts();
    let key = sensitive_keys()[k];
    lemma_skip_space_bounds(s, i + key.len());
    lemma_value_end_bounds(s, value_start(s, i, key), key.last() == ':');
}

/// Redacting from a position inside the text begins with that position's character.
proof fn lemma_redaction_starts_with(s: Seq<char>, j: int)
    requires
        0 <= j < s.len(),
    ensures
        redact_from(s, j).len() > 0,
        redact_from(s, j)[0] == s[j],
{
    match first_key(s, j) {
        Some(k) => {
            lemma_first_key_is_first(s, j, 0, k);
            lemma_found_value_bounds(s, j, k as int);
        },
        None => {},
    }
}

/// Up to its first `*`, the redaction of `s` from `i` copies `s`.
proof fn lemma_copied_prefix(s: Seq<char>, i: int, m: int)
    requires
        0 <= i <= s.len(),
        0 <= m <= redact_from(s, i).len(),
        forall|x: int| 0 <= x < m ==> #[trigger] redact_from(s, i)[x] != '*',
    ensures
        i + m <= s.len(),
        redact_from(s, i).subrange(0, m) == s.subrange(i, i + m),
    decreases s.len() - i,
{
    let t = redact_from(s, i);
    if m == 0 {
        assert(t.subrange(0, 0) =~= s.subrange(i, i));
    } else {
        match first_key(s, i) {
            None => {
                let rest = redact_from(s, i + 1);
                assert(t == seq![s[i]] + rest);
                assert forall|x: int| 0 <= x < m - 1 implies #[trigger] rest[x] != '*' by {
                    assert(rest[x] == t[x + 1]);
                }
                lemma_copied_prefix(s, i + 1, m - 1);
                assert(t.subrange(0, m) =~= seq![s[i]] + rest.subrange(0, m - 1));
                assert(s.subrange(i, i + m) =~= seq![s[i]] + s.subrange(i + 1, i + m));
            },
            Some(k) => {
                lemma_first_key_is_first(s, i, 0, k);
                lemma_found_value_bounds(s, i, k as int);
                let key = sensitive_keys()[k as int];
                let vs = value_start(s, i, key);
                let ve = value_end(s, vs, key.last() == ':');
                let a = s.subrange(i, vs);
                let rest = redact_from(s, ve);
                if m <= a.len() {
                    assert(t.subrange(0, m) =~= s.subrange(i, i + m));
                } else if ve > vs {
                    reveal_strlit("***redacted***");
                    assert(t[a.len() as int] == '*');
                } else {
                    assert(t == a + rest);
                    let n = m - a.len();
                    assert forall|x: int| 0 <= x < n implies #[trigger] rest[x] != '*' by {
                        assert(rest[x] == t[a.len() + x]);
                    }
                    lemma_copied_prefix(s, ve, n);
                    assert(t.subrange(0, m) =~= a + rest.subrange(0, n));
                    assert(s.subrange(i, i + m) =~= a + s.subrange(vs, vs + n));
                }
            },
        }
    }
}

/// A key matching in `u + redact_from(s, i)` where the redaction starts matches in `s` at `i`.
proof fn lemma_key_in_redaction(s: Seq<char>, i: int, u: Seq<char>, k: int)
    requires
        0 <= i <= s.len(),
        0 <= k < 9,
        key_at(u + redact_from(s, i), u.len() as int, sensitive_keys()[k]),
    ensures
        key_at(s, i, sensitive_keys()[k]),
{
    let t = redact_from(s, i);
    let w = u + t;
    let p = u.len() as int;
    let key = sensitive_keys()[k];
    lemma_key_window_has_no_star(w, p, k);
    assert forall|x: int| 0 <= x < key.len() implies #[trigger] t[x] != '*' by {
        assert(w[p + x] == t[x]);
    }
    lemma_copied_prefix(s, i, key.len() as int);
    assert forall|x: int| 0 <= x < key.len() implies ascii_lower(#[trigger] s[i + x]) == ascii_lower(key[x]) by {
        assert(t.subrange(0, key.len() as int)[x] == s.subrange(i, i + key.len())[x]);
        assert(w[p + x] == t[x]);
    }
}

/// Scanning a redaction again, wherever it stands, gives it back unchanged.
proof fn lemma_rescan(s: Seq<char>, i: int, u: Seq<char>)
    requires
        0 <= i <= s.len(),
    ensures
        redact_from(u + redact_from(s, i), u.len() as int) == redact_from(s, i),
    decreases s.len() - i,
{
    let t = redact_from(s, i);
    let w = u + t;
    let p = u.len() as int;
    lemma_keys_facts();
    if i == s.len() {
        return;
    }
    match first_key(s, i) {
        None => {
            let rest = redact_from(s, i + 1);
            assert(t == seq![s[i]] + rest);
            if first_key(w, p) is Some {
                let f = first_key(w, p).unwrap();
                lemma_first_key_found(w, p, 0);
                lemma_key_in_redaction(s, i, u, f as int);
                lemma_matching_key_is_found(s, i, 0, f as int);
            }
            lemma_rescan(s, i + 1, u.push(s[i]));
            assert(u.push(s[i]) + rest =~= w);
            assert(w[p] == s[i]);
        },
        Some(k) => {
            lemma_first_key_is_first(s, i, 0, k);
            lemma_found_value_bounds(s, i, k as int);
            let key = sensitive_keys()[k as int];
            let h = key.last() == ':';
            let vs = value_start(s, i, key);
            let ve = value_end(s, vs, h);
            let a = s.subrange(i, vs);
            let rest = redact_from(s, ve);
            let mask = if ve > vs { MASK@ } else { Seq::<char>::empty() };
            assert(t == a + mask + rest);
            reveal_strlit("***redacted***");
            // The same key is found first at the start of the redaction.
            assert forall|x: int| 0 <= x < key.len() implies ascii_lower(#[trigger] w[p + x]) == ascii_lower(key[x]) by {
                assert(w[p + x] == a[x]);
                assert(a[x] == s[i + x]);
            }
            assert(key_at(w, p, key));
            assert forall|j: int| 0 <= j < k implies !key_at(w, p, #[trigger] sensitive_keys()[j]) by {
                if key_at(w, p, sensitive_keys()[j]) {
                    lemma_key_in_redaction(s, i, u, j);
                }
            }
            lemma_matching_key_is_found(w, p, 0, k as int);
            let f = first_key(w, p).unwrap();
            lemma_first_key_is_first(w, p, 0, f);
            assert(f == k) by {
                if f < k {
                    assert(!key_at(w, p, sensitive_keys()[f as int]));
                } else if f > k {
                    assert(!key_at(w, p, sensitive_keys()[k as int]));
                }
            }
            // The value starts where it did.
            let vw = p + (vs - i);
            if ve == vs && vs < s.len() {
                lemma_redaction_starts_with(s, vs);
            }
            assert(vw < w.len() ==> w[vw] == (if ve > vs { '*' } else { s[vs] }));
            if h {
                lemma_skip_space_chars(s, i + key.len());
                assert forall|y: int| p + key.len() <= y < vw implies is_space(#[trigger] w[y]) by {
                    assert(w[y] == a[y - p]);
                    assert(a[y - p] == s[i + (y - p)]);
                }
                lemma_skip_space_stops(w, p + key.len(), vw);
            }
            assert(value_start(w, p, key) == vw);
            // And ends where the mask, if any, ends.
            lemma_value_end_chars(s, vs, h);
            let ew = vw + mask.len();
            if ve < s.len() {
                lemma_redaction_starts_with(s, ve);
            }
            assert(ew < w.len() ==> w[ew] == s[ve]);
            assert forall|y: int| vw <= y < ew implies !ends_value(#[trigger] w[y], h) by {
                assert(w[y] == MASK@[y - vw]);
            }
            lemma_value_end_stops(w, vw, ew, h);
            assert(w.subrange(p, vw) =~= a);
            lemma_rescan(s, ve, u + a + mask);
            assert((u + a + mask) + rest =~= w);
        },
    }
}

/// Redacting a line twice gives what redacting it once gives: a mask is never masked again.
pub proof fn lemma_line_redaction_is_idempotent(line: Seq<char>)
    ensures
        redact_line_spec(redact_line_spec(line)) == redact_line_spec(line),
{
    lemma_rescan(line, 0, Seq::empty());
    assert(Seq::<char>::empty() + redact_from(line, 0) =~= redact_from(line, 0));
}


/// A character that is neither in the text nor in the mask is not in its redaction.
proof fn lemma_redaction_adds_only_the_mask(s: Seq<char>, i: int, c: char)
    requires
        0 <= i <= s.len(),
        forall|y: int| 0 <= y < s.len() ==> #[trigger] s[y] != c,
        forall|y: int| 0 <= y < MASK@.len() ==> #[trigger] MASK@[y] != c,
    ensures
        forall|x: int| 0 <= x < redact_from(s, i).len() ==> #[trigger] redact_from(s, i)[x] != c,
    decreases s.len() - i,
{
    let t = redact_from(s, i);
    if i < s.len() {
        match first_key(s, i) {
            None => {
                lemma_redaction_adds_only_the_mask(s, i + 1, c);
                let rest = redact_from(s, i + 1);
                assert forall|x: int| 0 <= x < t.len() implies #[trigger] t[x] != c by {
                    if x > 0 {
                        assert(t[x] == rest[x - 1]);
                    }
                }
            },
            Some(k) => {
                lemma_first_key_is_first(s, i, 0, k);
                lemma_found_value_bounds(s, i, k as int);
                let key = sensitive_keys()[k as int];
                let vs = value_start(s, i, key);
                let ve = value_end(s, vs, key.last() == ':');
                let a = s.subrange(i, vs);
                let mask = if ve > vs { MASK@ } else { Seq::<char>::empty() };
                let rest = redact_from(s, ve);
                lemma_redaction_adds_only_the_mask(s, ve, c);
                assert(t == a + mask + rest);
                assert forall|x: int| 0 <= x < t.len() implies #[trigger] t[x] != c by {
                    if x < a.len() {
                        assert(t[x] == s[i + x]);
                    } else if x < a.len() + mask.len() {
                        assert(t[x] == MASK@[x - a.len()]);
                    } else {
                        assert(t[x] == rest[x - a.len() - mask.len()]);
                    }
                }
            },
        }
    }
}

proof fn lemma_split_without_delimiter(s: Seq<char>, d: char)
    requires
        forall|y: int| 0 <= y < s.len() ==> #[trigger] s[y] != d,
    ensures
        split_on(s, d) == seq![s],
    decreases s.len(),
{
    if s.len() > 0 {
        assert forall|y: int| 0 <= y < s.drop_last().len() implies #[trigger] s.drop_last()[y] != d by {
            assert(s.drop_last()[y] == s[y]);
        }
        lemma_split_without_delimiter(s.drop_last(), d);
        assert(s[s.len() - 1] != d);
        assert(s.drop_last().push(s.last()) =~= s);
        assert(seq![s.drop_last()].update(0, s.drop_last().push(s.last())) =~= seq![s]);
    } else {
        assert(s =~= Seq::<char>::empty());
    }
}

proof fn lemma_split_after_delimiter(x: Seq<char>, d: char, l: Seq<char>)
    requires
        forall|y: int| 0 <= y < l.len() ==> #[trigger] l[y] != d,
    ensures
        split_on(x + seq![d] + l, d) == split_on(x, d).push(l),
    decreases l.len(),
{
    if l.len() == 0 {
        assert(x + seq![d] + l =~= x.push(d));
        assert((x + seq![d] + l).drop_last() =~= x);
        assert(l =~= Seq::<char>::empty());
    } else {
        let front = l.drop_last();
        lemma_split_after_delimiter(x, d, front);
        let whole = x + seq![d] + l;
        assert(whole.drop_last() =~= x + seq![d] + front);
        assert(whole.last() == l.last());
        assert(front.push(l.last()) =~= l);
        assert(split_on(x, d).push(front).update(split_on(x, d).len() as int, front.push(l.last()))
            =~= split_on(x, d).push(l));
    }
}

/// Pieces free of the delimiter, joined with it, split back into themselves.
proof fn lemma_split_join(parts: Seq<Seq<char>>, d: char)
    requires
        parts.len() >= 1,
        forall|n: int, y: int| 0 <= n < parts.len() && 0 <= y < parts[n].len() ==> #[trigger] parts[n][y] != d,
    ensures
        split_on(join(parts, seq![d]), d) == parts,
    decreases parts.len(),
{
    if parts.len() == 1 {
        assert forall|y: int| 0 <= y < parts[0].len() implies #[trigger] parts[0][y] != d by {}
        lemma_split_without_delimiter(parts[0], d);
        assert(seq![parts[0]] =~= parts);
    } else {
        let front = parts.drop_last();
        assert forall|n: int, y: int| 0 <= n < front.len() && 0 <= y < front[n].len() implies #[trigger] front[n][y] != d by {
            assert(front[n] == parts[n]);
        }
        lemma_split_join(front, d);
        let last = parts.last();
        assert forall|y: int| 0 <= y < last.len() implies #[trigger] last[y] != d by {
            assert(parts[parts.len() - 1][y] != d);
        }
        lemma_split_after_delimiter(join(front, seq![d]), d, last);
        assert(front.push(last) =~= parts);
    }
}

/// Redacting a transcript twice gives what redacting it once gives: a mask is never masked
/// again. (For transcripts without carriage returns.)
pub proof fn lemma_redaction_is_idempotent(t: Seq<char>)
    requires
        forall|y: int| 0 <= y < t.len() ==> #[trigger] t[y] != '\r',
    ensures
        redact_transcript_spec(redact_transcript_spec(t)) == redact_transcript_spec(t),
{
    reveal_strlit("***redacted***");
    let pieces = split_on(t, '\n');
    lemma_join_split(t, '\n');
    lemma_pieces_are_stretches(t, '\n');
    let once = pieces.map_values(|l: Seq<char>| redact_piece_spec(l));
    // Each piece has neither newline nor carriage return, and neither has its redaction.
    assert forall|n: int| 0 <= n < pieces.len() implies {
        &&& once[n] == redact_line_spec(pieces[n])
        &&& forall|y: int| 0 <= y < once[n].len() ==> #[trigger] once[n][y] != '\n' && once[n][y] != '\r'
    } by {
        assert(is_stretch(t, pieces[n]));
        let off = choose|off: int| #[trigger] stretch_at(t, pieces[n], off);
        let pc = pieces[n];
        assert forall|y: int| 0 <= y < pc.len() implies #[trigger] pc[y] != '\r' by {
            assert(pc[y] == t.subrange(off, off + pc.len())[y]);
            assert(t[off + y] != '\r');
        }
        assert forall|y: int| 0 <= y < pc.len() implies #[trigger] pc[y] != '\n' by {
            lemma_piece_has_no_delimiter(t, '\n', n, y);
        }
        if pc.len() > 0 {
            assert(pc[pc.len() - 1] != '\r');
        }
        lemma_redaction_adds_only_the_mask(pc, 0, '\n');
        lemma_redaction_adds_only_the_mask(pc, 0, '\r');
    }
    assert forall|n: int, y: int| 0 <= n < once.len() && 0 <= y < once[n].len() implies #[trigger] once[n][y] != '\n' by {}
    lemma_split_join(once, '\n');
    let twice = once.map_values(|l: Seq<char>| redact_piece_spec(l));
    assert forall|n: int| 0 <= n < once.len() implies twice[n] == once[n] by {
        let o = once[n];
        if o.len() > 0 {
            assert(o[o.len() - 1] != '\r');
        }
        lemma_line_redaction_is_idempotent(pieces[n]);
    }
    assert(twice =~= once);
}

/// No piece of a split holds the delimiter.
proof fn lemma_piece_has_no_delimiter(t: Seq<char>, d: char, n: int, y: int)
    requires
        0 <= n < split_on(t, d).len(),
        0 <= y < split_on(t, d)[n].len(),
    ensures
        split_on(t, d)[n][y] != d,
    decreases t.len(),
{
    if t.len() > 0 {
        let u = t.drop_last();
        let p = split_on(u, d);
        if t.last() == d {
            if n < p.len() {
                lemma_piece_has_no_delimiter(u, d, n, y);
            }
        } else {
            if n < p.len() - 1 {
                lemma_piece_has_no_delimiter(u, d, n, y);
            } else {
                lemma_join_split(u, d);
                if y < p.last().len() {
                    lemma_piece_has_no_delimiter(u, d, p.len() - 1, y);
                }
            }
        }
    }
}

} // verus!
