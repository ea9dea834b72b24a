//! Character-level text handling shared by the parsers and message builders.
//!
//! Strings are modelled by their character sequences (`String::view`). The spec functions
//! below say what the standard library's splitting and trimming operations produce, and the
//! executable helpers compute exactly that.
use vstd::prelude::*;

verus! {

/// Characters with the Unicode `White_Space` property, which is what `char::is_whitespace`
/// tests and what `str::trim` and `str::split_whitespace` use.
pub open spec fn is_space(c: char) -> bool {
    ||| c == '\t'
    ||| c == '\n'
    ||| c == '\u{0B}'
    ||| c == '\u{0C}'
    ||| c == '\r'
    ||| c == ' '
    ||| c == '\u{85}'
    ||| c == '\u{A0}'
    ||| c == '\u{1680}'
    ||| ('\u{2000}' <= c && c <= '\u{200A}')
    ||| c == '\u{2028}'
    ||| c == '\u{2029}'
    ||| c == '\u{202F}'
    ||| c == '\u{205F}'
    ||| c == '\u{3000}'
}

pub fn is_space_char(c: char) -> (r: bool)
    ensures
        r == is_space(c),
{
    c == '\t' || c == '\n' || c == '\u{0B}' || c == '\u{0C}' || c == '\r' || c == ' '
        || c == '\u{85}' || c == '\u{A0}' || c == '\u{1680}' || ('\u{2000}' <= c && c
        <= '\u{200A}') || c == '\u{2028}' || c == '\u{2029}' || c == '\u{202F}' || c
        == '\u{205F}' || c == '\u{3000}'
}

pub open spec fn is_ascii_digit(c: char) -> bool {
    '0' <= c && c <= '9'
}

pub open spec fn is_ascii_alphanumeric(c: char) -> bool {
    ('0' <= c && c <= '9') || ('a' <= c && c <= 'z') || ('A' <= c && c <= 'Z')
}

/// `s` with leading white space removed (`str::trim_start`).
pub open spec fn trim_start(s: Seq<char>) -> Seq<char>
    decreases s.len(),
{
    if s.len() > 0 && is_space(s[0]) {
        trim_start(s.drop_first())
    } else {
        s
    }
}

/// `s` with trailing white space removed (`str::trim_end`).
pub open spec fn trim_end(s: Seq<char>) -> Seq<char>
    decreases s.len(),
{
    if s.len() > 0 && is_space(s.last()) {
        trim_end(s.drop_last())
    } else {
        s
    }
}

/// `str::trim`.
pub open spec fn trim(s: Seq<char>) -> Seq<char> {
    trim_end(trim_start(s))
}

/// The pieces `str::split(d)` yields, built from the left one character at a time.
pub open spec fn split_on(s: Seq<char>, d: char) -> Seq<Seq<char>>
    decreases s.len(),
{
    if s.len() == 0 {
        seq![Seq::<char>::empty()]
    } else {
        let pieces = split_on(s.drop_last(), d);
        if s.last() == d {
            pieces.push(Seq::<char>::empty())
        } else {
            pieces.update(pieces.len() - 1, pieces.last().push(s.last()))
        }
    }
}

/// Splitting at a character and joining the pieces with it again gives back the text.
pub proof fn lemma_join_split(s: Seq<char>, d: char)
    ensures
        split_on(s, d).len() >= 1,
        join(split_on(s, d), seq![d]) == s,
    decreases s.len(),
{
    if s.len() > 0 {
        let p = split_on(s.drop_last(), d);
        lemma_join_split(s.drop_last(), d);
        if s.last() == d {
            assert(split_on(s, d).drop_last() =~= p);
            assert(s =~= s.drop_last() + seq![d] + Seq::<char>::empty());
        } else {
            let q = p.update(p.len() - 1, p.last().push(s.last()));
            assert(q.drop_last() =~= p.drop_last());
            if p.len() == 1 {
                assert(s =~= p[0].push(s.last()));
            } else {
                assert(join(p, seq![d]) == join(p.drop_last(), seq![d]) + seq![d] + p.last());
                let head = join(p.drop_last(), seq![d]) + seq![d];
                assert(s.drop_last() == head + p.last());
                assert(s =~= s.drop_last().push(s.last()));
                assert(head + p.last().push(s.last()) =~= (head + p.last()).push(s.last()));
            }
        }
    }
}

/// A line as `str::lines` yields it: without a trailing carriage return.
pub open spec fn strip_cr(line: Seq<char>) -> Seq<char> {
    if line.len() > 0 && line.last() == '\r' {
        line.drop_last()
    } else {
        line
    }
}

/// `str::lines`: pieces between newlines, with no empty final piece after a trailing newline.
pub open spec fn lines(s: Seq<char>) -> Seq<Seq<char>> {
    if s.len() == 0 {
        Seq::empty()
    } else {
        let pieces = split_on(s, '\n');
        let pieces = if s.last() == '\n' {
            pieces.drop_last()
        } else {
            pieces
        };
        pieces.map_values(|l: Seq<char>| strip_cr(l))
    }
}

/// `str::split_whitespace`: the maximal runs of characters that are not white space.
pub open spec fn words(s: Seq<char>) -> Seq<Seq<char>>
    decreases s.len(),
{
    if s.len() == 0 {
        Seq::empty()
    } else {
        let before = words(s.drop_last());
        let c = s.last();
        if is_space(c) {
            before
        } else if s.len() >= 2 && !is_space(s[s.len() - 2]) {
            before.update(before.len() - 1, before.last().push(c))
        } else {
            before.push(seq![c])
        }
    }
}

/// `parts` joined with `sep` between consecutive parts (`[T]::join`).
pub open spec fn join(parts: Seq<Seq<char>>, sep: Seq<char>) -> Seq<char>
    decreases parts.len(),
{
    if parts.len() == 0 {
        Seq::empty()
    } else if parts.len() == 1 {
        parts[0]
    } else {
        join(parts.drop_last(), sep) + sep + parts.last()
    }
}

/// The digit character for a value below ten.
pub open spec fn digit_char(d: nat) -> char {
    (('0' as u32) + d) as char
}

/// Decimal rendering of a natural number, as `Display` prints it.
pub open spec fn decimal(n: nat) -> Seq<char>
    decreases n,
{
    if n < 10 {
        seq![digit_char(n)]
    } else {
        decimal(n / 10).push(digit_char(n % 10))
    }
}

/// Decimal rendering of a signed number, as `Display` prints it.
pub open spec fn signed_decimal(n: int) -> Seq<char> {
    if n < 0 {
        seq!['-'] + decimal((-n) as nat)
    } else {
        decimal(n as nat)
    }
}

/// The value of a digit in the given radix, when the character is one.
pub open spec fn digit_value(c: char, radix: nat) -> Option<nat> {
    let v: int = if '0' <= c && c <= '9' {
        c as int - '0' as int
    } else if 'a' <= c && c <= 'z' {
        c as int - 'a' as int + 10
    } else if 'A' <= c && c <= 'Z' {
        c as int - 'A' as int + 10
    } else {
        radix as int
    };
    if 0 <= v < radix {
        Some(v as nat)
    } else {
        None
    }
}

pub open spec fn all_digits(s: Seq<char>, radix: nat) -> bool {
    forall|i: int| 0 <= i < s.len() ==> (#[trigger] digit_value(s[i], radix)) is Some
}

/// The number a string of digits denotes.
pub open spec fn digits_value(s: Seq<char>, radix: nat) -> nat
    decreases s.len(),
{
    if s.len() == 0 {
        0
    } else {
        digits_value(s.drop_last(), radix) * radix + match digit_value(s.last(), radix) {
            Some(v) => v,
            None => 0,
        }
    }
}

/// What `u32::from_str_radix` (and, for radix ten, `str::parse::<u32>`) returns: an optional
/// `+`, then at least one digit, for a value that fits.
pub open spec fn parse_unsigned(s: Seq<char>, radix: nat, max: nat) -> Option<nat> {
    let body = if s.len() > 0 && s[0] == '+' {
        s.drop_first()
    } else {
        s
    };
    if body.len() > 0 && all_digits(body, radix) && digits_value(body, radix) <= max {
        Some(digits_value(body, radix))
    } else {
        None
    }
}

pub open spec fn starts_with(s: Seq<char>, prefix: Seq<char>) -> bool {
    prefix.len() <= s.len() && s.subrange(0, prefix.len() as int) == prefix
}

pub open spec fn ends_with(s: Seq<char>, suffix: Seq<char>) -> bool {
    suffix.len() <= s.len() && s.subrange(s.len() - suffix.len(), s.len() as int) == suffix
}

/// Whether `needle` occurs in `s` starting at position `i`.
pub open spec fn occurs_at(s: Seq<char>, needle: Seq<char>, i: int) -> bool {
    0 <= i && i + needle.len() <= s.len() && s.subrange(i, i + needle.len()) == needle
}

/// `str::contains` for a string pattern.
pub open spec fn contains(s: Seq<char>, needle: Seq<char>) -> bool {
    exists|i: int| occurs_at(s, needle, i)
}

/// `str::replace` for a non-empty pattern: each occurrence found scanning from the left,
/// without overlap, is replaced by `rep`. (An empty pattern leaves `s` as it is.)
pub open spec fn replace_all(s: Seq<char>, pat: Seq<char>, rep: Seq<char>) -> Seq<char>
    decreases s.len(),
{
    if s.len() == 0 {
        Seq::empty()
    } else if pat.len() > 0 && starts_with(s, pat) {
        rep + replace_all(s.skip(pat.len() as int), pat, rep)
    } else {
        seq![s[0]] + replace_all(s.skip(1), pat, rep)
    }
}

// ---------------------------------------------------------------------------------------
// Executable helpers
// ---------------------------------------------------------------------------------------

/// Appends one character (`String::push`).
#[verifier::external_body]
pub fn push_char(s: &mut String, c: char)
    ensures
        final(s)@ == old(s)@.push(c),
{
    s.push(c);
}

/// The characters of a string slice, in order.
pub fn chars_of(s: &str) -> (v: Vec<char>)
    ensures
        v@ == s@,
{
    let mut v: Vec<char> = Vec::new();
    for c in it: s.chars()
        invariant
            v@ == it.seq().take(it.index() as int),
            it.seq() == s@,
    {
        v.push(c);
    }
    v
}

/// A string holding exactly the given characters.
pub fn string_of(v: &Vec<char>) -> (s: String)
    ensures
        s@ == v@,
{
    let mut s = String::new();
    let mut i: usize = 0;
    while i < v.len()
        invariant
            i <= v.len(),
            s@ == v@.subrange(0, i as int),
        decreases v.len() - i,
    {
        push_char(&mut s, v[i]);
        i += 1;
        assert(s@ =~= v@.subrange(0, i as int));
    }
    assert(v@.subrange(0, v.len() as int) =~= v@);
    s
}

/// A string made from a string slice (`str::to_string`).
pub fn owned(s: &str) -> (r: String)
    ensures
        r@ == s@,
{
    let mut r = String::new();
    r.append(s);
    assert(r@ =~= s@);
    r
}

/// Appends a string slice.
pub fn append(s: &mut String, t: &str)
    ensures
        final(s)@ == old(s)@ + t@,
{
    s.append(t);
}

proof fn lemma_decimal_nonempty(n: nat)
    ensures
        decimal(n).len() >= 1,
    decreases n,
{
    if n >= 10 {
        lemma_decimal_nonempty(n / 10);
    }
}

/// A decimal rendering is not empty and starts with a digit.
pub proof fn lemma_decimal_digits(n: nat)
    ensures
        decimal(n).len() >= 1,
        '0' <= decimal(n)[0] <= '9',
    decreases n,
{
    if n >= 10 {
        lemma_decimal_digits(n / 10);
        assert(decimal(n)[0] == decimal(n / 10)[0]);
    }
}

/// Appends the decimal digits of `n`.
pub fn push_decimal(out: &mut Vec<char>, n: u64)
    ensures
        final(out)@ == old(out)@ + decimal(n as nat),
    decreases n,
{
    if n >= 10 {
        push_decimal(out, n / 10);
    }
    let d = (n % 10) as u32;
    let c = char_from_digit(d);
    out.push(c);
    proof {
        if n >= 10 {
            assert(decimal(n as nat) == decimal((n / 10) as nat).push(digit_char((n % 10) as nat)));
        }
    }
    assert(out@ =~= old(out)@ + decimal(n as nat));
}

/// The character for a decimal digit.
pub fn char_from_digit(d: u32) -> (c: char)
    requires
        d < 10,
    ensures
        c == digit_char(d as nat),
{
    match d {
        0 => '0',
        1 => '1',
        2 => '2',
        3 => '3',
        4 => '4',
        5 => '5',
        6 => '6',
        7 => '7',
        8 => '8',
        _ => '9',
    }
}

/// Decimal rendering of an unsigned number (`u64::to_string`).
pub fn decimal_string(n: u64) -> (s: String)
    ensures
        s@ == decimal(n as nat),
{
    let mut v: Vec<char> = Vec::new();
    push_decimal(&mut v, n);
    assert(v@ =~= decimal(n as nat));
    string_of(&v)
}

/// Decimal rendering of a signed number (`i64::to_string`).
pub fn signed_decimal_string(n: i64) -> (s: String)
    ensures
        s@ == signed_decimal(n as int),
{
    let mut v: Vec<char> = Vec::new();
    if n < 0 {
        v.push('-');
        let magnitude: u64 = if n == i64::MIN {
            9223372036854775808u64
        } else {
            (-n) as u64
        };
        push_decimal(&mut v, magnitude);
        assert(v@ =~= signed_decimal(n as int));
    } else {
        push_decimal(&mut v, n as u64);
        assert(v@ =~= signed_decimal(n as int));
    }
    string_of(&v)
}


/// The deep view of a list of strings: the character sequence of each.
pub open spec fn strings_view(v: Seq<String>) -> Seq<Seq<char>> {
    v.map_values(|s: String| s@)
}

/// The pieces of `s` between occurrences of `d` (`str::split`).
pub fn split_chars(s: &Vec<char>, d: char) -> (pieces: Vec<String>)
    ensures
        strings_view(pieces@) == split_on(s@, d),
{
    let mut pieces: Vec<String> = Vec::new();
    let mut current: Vec<char> = Vec::new();
    let mut i: usize = 0;
    assert(s@.subrange(0, 0) =~= Seq::<char>::empty());
    while i < s.len()
        invariant
            i <= s.len(),
            split_on(s@.subrange(0, i as int), d) == strings_view(pieces@).push(current@),
        decreases s.len() - i,
    {
        let c = s[i];
        let ghost prefix = s@.subrange(0, i as int);
        assert(s@.subrange(0, i + 1).drop_last() =~= prefix);
        if c == d {
            let piece = string_of(&current);
            pieces.push(piece);
            current = Vec::new();
            assert(strings_view(pieces@) =~= split_on(prefix, d));
        } else {
            current.push(c);
        }
        i += 1;
        assert(split_on(s@.subrange(0, i as int), d) =~= strings_view(pieces@).push(current@));
    }
    let last = string_of(&current);
    pieces.push(last);
    assert(s@.subrange(0, s.len() as int) =~= s@);
    assert(strings_view(pieces@) =~= split_on(s@, d));
    pieces
}

/// The characters of `line` without a trailing carriage return.
pub fn strip_cr_chars(line: &Vec<char>) -> (r: Vec<char>)
    ensures
        r@ == strip_cr(line@),
{
    let mut r = line.clone();
    if r.len() > 0 && r[r.len() - 1] == '\r' {
        r.pop();
        assert(r@ =~= line@.drop_last());
    }
    r
}

proof fn lemma_split_nonempty(s: Seq<char>, d: char)
    ensures
        split_on(s, d).len() >= 1,
    decreases s.len(),
{
    if s.len() > 0 {
        lemma_split_nonempty(s.drop_last(), d);
    }
}

/// The lines of a text (`str::lines`).
pub fn lines_of(s: &str) -> (r: Vec<String>)
    ensures
        strings_view(r@) == lines(s@),
{
    let chars = chars_of(s);
    let mut r: Vec<String> = Vec::new();
    if chars.len() == 0 {
        assert(strings_view(r@) =~= lines(s@));
        return r;
    }
    let pieces = split_chars(&chars, '\n');
    proof {
        lemma_split_nonempty(chars@, '\n');
    }
    let count = if chars[chars.len() - 1] == '\n' {
        pieces.len() - 1
    } else {
        pieces.len()
    };
    let ghost kept = if s@.last() == '\n' {
        split_on(s@, '\n').drop_last()
    } else {
        split_on(s@, '\n')
    };
    assert(kept.len() == count);
    let mut i: usize = 0;
    while i < count
        invariant
            i <= count,
            count <= pieces.len(),
            kept.len() == count,
            forall|k: int| 0 <= k < count ==> kept[k] == #[trigger] pieces@[k]@,
            strings_view(r@) == kept.subrange(0, i as int).map_values(|l: Seq<char>| strip_cr(l)),
        decreases count - i,
    {
        let piece_chars = chars_of(pieces[i].as_str());
        let stripped = strip_cr_chars(&piece_chars);
        let line = string_of(&stripped);
        assert(line@ == strip_cr(kept[i as int]));
        let ghost before = strings_view(r@);
        r.push(line);
        assert(strings_view(r@) =~= before.push(strip_cr(kept[i as int])));
        assert(kept.subrange(0, i + 1) =~= kept.subrange(0, i as int).push(kept[i as int]));
        i += 1;
        assert(strings_view(r@) =~= kept.subrange(0, i as int).map_values(
            |l: Seq<char>| strip_cr(l),
        ));
    }
    assert(kept.subrange(0, count as int) =~= kept);
    r
}

/// The white-space separated words of a text (`str::split_whitespace`).
pub fn words_of(s: &str) -> (r: Vec<String>)
    ensures
        strings_view(r@) == words(s@),
{
    let chars = chars_of(s);
    let mut r: Vec<String> = Vec::new();
    let mut current: Vec<char> = Vec::new();
    let mut i: usize = 0;
    assert(chars@.subrange(0, 0) =~= Seq::<char>::empty());
    while i < chars.len()
        invariant
            i <= chars.len(),
            chars@ == s@,
            current@.len() > 0 ==> i > 0 && !is_space(chars@[i - 1]),
            i > 0 && !is_space(chars@[i - 1]) ==> current@.len() > 0,
            current@.len() > 0 ==> words(chars@.subrange(0, i as int)) == strings_view(
                r@,
            ).push(current@),
            current@.len() == 0 ==> words(chars@.subrange(0, i as int)) == strings_view(r@),
        decreases chars.len() - i,
    {
        let c = chars[i];
        let ghost prefix = chars@.subrange(0, i as int);
        let ghost next = chars@.subrange(0, i + 1);
        assert(next.drop_last() =~= prefix);
        assert(next.last() == c);
        if i > 0 {
            assert(next[next.len() - 2] == chars@[i - 1]);
        }
        if is_space_char(c) {
            if current.len() > 0 {
                let word = string_of(&current);
                r.push(word);
                current = Vec::new();
                assert(strings_view(r@) =~= words(prefix));
            }
        } else {
            let was_empty = current.len() == 0;
            current.push(c);
            if !was_empty {
                assert(i > 0 && !is_space(chars@[i - 1]));
                assert(words(next) == words(prefix).update(
                    words(prefix).len() - 1,
                    words(prefix).last().push(c),
                ));
                assert(words(next) =~= strings_view(r@).push(current@));
            } else {
                assert(!(i > 0 && !is_space(chars@[i - 1])));
                assert(words(next) == words(prefix).push(seq![c]));
                assert(current@ =~= seq![c]);
                assert(words(next) =~= strings_view(r@).push(current@));
            }
        }
        i += 1;
        if current.len() > 0 {
            assert(words(chars@.subrange(0, i as int)) =~= strings_view(r@).push(current@));
        } else {
            assert(words(chars@.subrange(0, i as int)) =~= strings_view(r@));
        }
    }
    assert(chars@.subrange(0, chars.len() as int) =~= chars@);
    if current.len() > 0 {
        let word = string_of(&current);
        r.push(word);
        assert(strings_view(r@) =~= words(s@));
    }
    r
}

/// The characters of `s` without leading or trailing white space (`str::trim`).
pub fn trim_chars(s: &Vec<char>) -> (r: Vec<char>)
    ensures
        r@ == trim(s@),
{
    let mut start: usize = 0;
    assert(s@.subrange(0, s.len() as int) =~= s@);
    while start < s.len() && is_space_char(s[start])
        invariant
            start <= s.len(),
            trim_start(s@) == trim_start(s@.subrange(start as int, s.len() as int)),
        decreases s.len() - start,
    {
        assert(s@.subrange(start as int, s.len() as int).drop_first() =~= s@.subrange(
            start + 1,
            s.len() as int,
        ));
        start += 1;
    }
    let ghost front = s@.subrange(start as int, s.len() as int);
    assert(trim_start(s@) == front);
    let mut end: usize = s.len();
    while end > start && is_space_char(s[end - 1])
        invariant
            start <= end <= s.len(),
            front == s@.subrange(start as int, s.len() as int),
            trim_end(front) == trim_end(s@.subrange(start as int, end as int)),
        decreases end,
    {
        assert(s@.subrange(start as int, end as int).drop_last() =~= s@.subrange(
            start as int,
            end - 1,
        ));
        end -= 1;
    }
    let mut r: Vec<char> = Vec::new();
    let mut k: usize = start;
    while k < end
        invariant
            start <= k <= end,
            end <= s.len(),
            r@ == s@.subrange(start as int, k as int),
        decreases end - k,
    {
        r.push(s[k]);
        k += 1;
        assert(r@ =~= s@.subrange(start as int, k as int));
    }
    r
}

/// `str::trim` on a string slice.
pub fn trimmed(s: &str) -> (r: String)
    ensures
        r@ == trim(s@),
{
    let chars = chars_of(s);
    let t = trim_chars(&chars);
    string_of(&t)
}


/// The value of one digit in the given radix.
pub fn digit_of(c: char, radix: u32) -> (r: Option<u32>)
    requires
        2 <= radix <= 36,
    ensures
        r matches Some(v) ==> digit_value(c, radix as nat) == Some(v as nat),
        r is None ==> digit_value(c, radix as nat) is None,
{
    let v: u32 = if '0' <= c && c <= '9' {
        (c as u32) - ('0' as u32)
    } else if 'a' <= c && c <= 'z' {
        (c as u32) - ('a' as u32) + 10
    } else if 'A' <= c && c <= 'Z' {
        (c as u32) - ('A' as u32) + 10
    } else {
        radix
    };
    if v < radix {
        Some(v)
    } else {
        None
    }
}

proof fn lemma_digits_value_monotone(s: Seq<char>, radix: nat)
    requires
        radix >= 1,
        s.len() > 0,
    ensures
        digits_value(s.drop_last(), radix) <= digits_value(s, radix),
{
    let a = digits_value(s.drop_last(), radix);
    assert(a * radix >= a) by (nonlinear_arith)
        requires
            radix >= 1,
    ;
}

proof fn lemma_digits_value_prefix(s: Seq<char>, i: int, radix: nat)
    requires
        radix >= 1,
        0 <= i <= s.len(),
    ensures
        digits_value(s.subrange(0, i), radix) <= digits_value(s, radix),
    decreases s.len() - i,
{
    if i < s.len() {
        lemma_digits_value_prefix(s, i + 1, radix);
        assert(s.subrange(0, i + 1).drop_last() =~= s.subrange(0, i));
        lemma_digits_value_monotone(s.subrange(0, i + 1), radix);
    } else {
        assert(s.subrange(0, i) =~= s);
    }
}

/// Parses an unsigned number with an optional `+`, as `u32::from_str_radix` does.
pub fn parse_unsigned_chars(s: &Vec<char>, radix: u32, max: u64) -> (r: Option<u64>)
    requires
        2 <= radix <= 36,
    ensures
        r matches Some(v) ==> parse_unsigned(s@, radix as nat, max as nat) == Some(v as nat),
        r is None ==> parse_unsigned(s@, radix as nat, max as nat) is None,
{
    let start: usize = if s.len() > 0 && s[0] == '+' {
        1
    } else {
        0
    };
    let ghost body = if s@.len() > 0 && s@[0] == '+' {
        s@.drop_first()
    } else {
        s@
    };
    assert(body =~= s@.subrange(start as int, s.len() as int));
    if start >= s.len() {
        return None;
    }
    let mut value: u64 = 0;
    let mut i: usize = start;
    assert(s@.subrange(start as int, start as int) =~= Seq::<char>::empty());
    while i < s.len()
        invariant
            start <= i <= s.len(),
            2 <= radix <= 36,
            body == s@.subrange(start as int, s.len() as int),
            body == (if s@.len() > 0 && s@[0] == '+' {
                s@.drop_first()
            } else {
                s@
            }),
            all_digits(s@.subrange(start as int, i as int), radix as nat),
            value == digits_value(s@.subrange(start as int, i as int), radix as nat),
            value <= max,
        decreases s.len() - i,
    {
        let ghost prefix = s@.subrange(start as int, i as int);
        let ghost next = s@.subrange(start as int, i + 1);
        assert(next.drop_last() =~= prefix);
        match digit_of(s[i], radix) {
            None => {
                assert(!all_digits(body, radix as nat)) by {
                    assert(body[i - start] == s@[i as int]);
                    assert(digit_value(body[i - start], radix as nat) is None);
                }
                return None;
            },
            Some(d) => {
                assert(digits_value(next, radix as nat) == value * radix + d);
                if (d as u64) > max {
                    proof {
                        lemma_digits_value_prefix(body, i + 1 - start, radix as nat);
                        assert(body.subrange(0, i + 1 - start) =~= next);
                        assert(value * radix + d > max) by (nonlinear_arith)
                            requires
                                d > max,
                                value >= 0,
                                radix >= 2,
                        ;
                    }
                    return None;
                }
                if value > (max - d as u64) / (radix as u64) {
                    proof {
                        assert(value * radix + d > max) by (nonlinear_arith)
                            requires
                                value > (max - d) / (radix as int),
                                radix >= 2,
                                d <= max,
                        ;
                        lemma_digits_value_prefix(body, i + 1 - start, radix as nat);
                        assert(body.subrange(0, i + 1 - start) =~= next);
                    }
                    return None;
                }
                assert(value * radix + d <= max) by (nonlinear_arith)
                    requires
                        value <= (max - d) / (radix as int),
                        radix >= 2,
                        d <= max,
                ;
                value = value * (radix as u64) + d as u64;
                assert(all_digits(next, radix as nat)) by {
                    assert forall|k: int| 0 <= k < next.len() implies (#[trigger] digit_value(
                        next[k],
                        radix as nat,
                    )) is Some by {
                        if k < prefix.len() {
                            assert(next[k] == prefix[k]);
                        }
                    }
                }
            },
        }
        i += 1;
    }
    Some(value)
}

/// Whether `needle` occurs in `s` at position `at`.
pub fn occurs_at_chars(s: &Vec<char>, needle: &Vec<char>, at: usize) -> (r: bool)
    requires
        at <= s.len(),
    ensures
        r == occurs_at(s@, needle@, at as int),
        r == starts_with(s@.skip(at as int), needle@),
{
    if needle.len() > s.len() - at {
        return false;
    }
    let mut j: usize = 0;
    while j < needle.len()
        invariant
            j <= needle.len(),
            at + needle.len() <= s.len(),
            forall|k: int| 0 <= k < j ==> s@[at + k] == needle@[k],
        decreases needle.len() - j,
    {
        if s[at + j] != needle[j] {
            assert(s@.subrange(at as int, at + needle.len())[j as int] != needle@[j as int]);
            assert(s@.skip(at as int).subrange(0, needle.len() as int)[j as int] != needle@[j as int]);
            return false;
        }
        j += 1;
    }
    assert(s@.subrange(at as int, at + needle.len()) =~= needle@);
    assert(s@.skip(at as int).subrange(0, needle.len() as int) =~= needle@);
    true
}

/// Whether `s` begins with `prefix` (`str::starts_with`).
pub fn starts_with_chars(s: &Vec<char>, prefix: &Vec<char>) -> (r: bool)
    ensures
        r == starts_with(s@, prefix@),
{
    let r = occurs_at_chars(s, prefix, 0);
    assert(s@.skip(0) =~= s@);
    r
}

/// The characters of `v` from position `start` on.
pub fn chars_from(v: &Vec<char>, start: usize) -> (r: Vec<char>)
    requires
        start <= v.len(),
    ensures
        r@ == v@.skip(start as int),
{
    let mut r: Vec<char> = Vec::new();
    let mut i: usize = start;
    while i < v.len()
        invariant
            start <= i <= v.len(),
            r@ == v@.subrange(start as int, i as int),
        decreases v.len() - i,
    {
        r.push(v[i]);
        i += 1;
        assert(r@ =~= v@.subrange(start as int, i as int));
    }
    r
}

/// `parts` joined with `sep` (`[String]::join`).
pub fn join_strings(parts: &Vec<String>, sep: &str) -> (r: String)
    ensures
        r@ == join(strings_view(parts@), sep@),
{
    let mut r = String::new();
    let mut i: usize = 0;
    assert(r@ =~= Seq::<char>::empty());
    while i < parts.len()
        invariant
            i <= parts.len(),
            r@ == join(strings_view(parts@.subrange(0, i as int)), sep@),
        decreases parts.len() - i,
    {
        let ghost before = strings_view(parts@.subrange(0, i as int));
        if i > 0 {
            append(&mut r, sep);
        }
        append(&mut r, parts[i].as_str());
        let ghost after = strings_view(parts@.subrange(0, i + 1));
        assert(after.drop_last() =~= before);
        assert(after.last() == parts@[i as int]@);
        i += 1;
        if i == 1 {
            assert(r@ =~= after[0]);
        }
    }
    assert(parts@.subrange(0, parts.len() as int) =~= parts@);
    r
}

proof fn lemma_replace_step(s: Seq<char>, pat: Seq<char>, rep: Seq<char>, i: int)
    requires
        0 <= i < s.len(),
    ensures
        pat.len() > 0 && starts_with(s.skip(i), pat) ==> replace_all(s.skip(i), pat, rep) == rep
            + replace_all(s.skip(i + pat.len()), pat, rep),
        !(pat.len() > 0 && starts_with(s.skip(i), pat)) ==> replace_all(s.skip(i), pat, rep)
            == seq![s[i]] + replace_all(s.skip(i + 1), pat, rep),
{
    if pat.len() > 0 && starts_with(s.skip(i), pat) {
        assert(s.skip(i).skip(pat.len() as int) =~= s.skip(i + pat.len()));
    }
    assert(s.skip(i).skip(1) =~= s.skip(i + 1));
}

/// `s` with every occurrence of the non-empty pattern `pat` replaced by `rep`
/// (`str::replace`).
pub fn replace_chars(s: &Vec<char>, pat: &Vec<char>, rep: &Vec<char>) -> (r: Vec<char>)
    requires
        pat.len() > 0,
    ensures
        r@ == replace_all(s@, pat@, rep@),
{
    let mut out: Vec<char> = Vec::new();
    let mut i: usize = 0;
    let ghost full = replace_all(s@, pat@, rep@);
    assert(s@.skip(0) =~= s@);
    while i < s.len()
        invariant
            i <= s.len(),
            pat.len() > 0,
            full == replace_all(s@, pat@, rep@),
            out@ + replace_all(s@.skip(i as int), pat@, rep@) == full,
        decreases s.len() - i,
    {
        proof {
            lemma_replace_step(s@, pat@, rep@, i as int);
        }
        let ghost before = out@;
        if occurs_at_chars(s, pat, i) {
            let mut k: usize = 0;
            while k < rep.len()
                invariant
                    k <= rep.len(),
                    out@ == before + rep@.subrange(0, k as int),
                decreases rep.len() - k,
            {
                out.push(rep[k]);
                k += 1;
                assert(out@ =~= before + rep@.subrange(0, k as int));
            }
            assert(rep@.subrange(0, rep.len() as int) =~= rep@);
            i = i + pat.len();
            assert(out@ + replace_all(s@.skip(i as int), pat@, rep@) =~= before + (rep@
                + replace_all(s@.skip(i as int), pat@, rep@)));
        } else {
            out.push(s[i]);
            i = i + 1;
            assert(out@ + replace_all(s@.skip(i as int), pat@, rep@) =~= before + (seq![
                s@[i - 1],
            ] + replace_all(s@.skip(i as int), pat@, rep@)));
        }
    }
    assert(s@.skip(s.len() as int) =~= Seq::<char>::empty());
    assert(out@ + Seq::<char>::empty() =~= out@);
    out
}

/// What `str::to_lowercase` returns for a text: Unicode lower-case mapping, which depends on
/// the text alone.
pub uninterp spec fn lowercase_of(s: Seq<char>) -> Seq<char>;

/// Unicode lower-casing of a string (`str::to_lowercase`).
#[verifier::external_body]
pub(crate) fn to_lowercase(s: &str) -> (r: String)
    ensures
        r@ == lowercase_of(s@),
{
    s.to_lowercase()
}

/// Whether two character vectors are equal.
pub fn chars_equal(a: &Vec<char>, b: &Vec<char>) -> (r: bool)
    ensures
        r == (a@ == b@),
{
    if a.len() != b.len() {
        return false;
    }
    let mut i: usize = 0;
    while i < a.len()
        invariant
            i <= a.len() == b.len(),
            forall|j: int| 0 <= j < i ==> a@[j] == b@[j],
        decreases a.len() - i,
    {
        if a[i] != b[i] {
            return false;
        }
        i += 1;
    }
    assert(a@ =~= b@);
    true
}

/// Whether two strings hold the same characters.
pub fn same_text(a: &str, b: &str) -> (r: bool)
    ensures
        r == (a@ == b@),
{
    let x = chars_of(a);
    let y = chars_of(b);
    chars_equal(&x, &y)
}

/// `str::parse::<u32>`: decimal digits after an optional `+`, for a value that fits.
pub fn parse_u32(s: &str) -> (r: Option<u32>)
    ensures
        match r {
            Some(v) => parse_unsigned(s@, 10, u32::MAX as nat) == Some(v as nat),
            None => parse_unsigned(s@, 10, u32::MAX as nat) is None,
        },
{
    let chars = chars_of(s);
    match parse_unsigned_chars(&chars, 10, u32::MAX as u64) {
        Some(v) => Some(v as u32),
        None => None,
    }
}

/// Whether `s` begins with the character `c`.
pub fn starts_with_char(s: &str, c: char) -> (r: bool)
    ensures
        r == (s@.len() > 0 && s@[0] == c),
{
    s.unicode_len() > 0 && s.get_char(0) == c
}

/// The order `String`'s `Ord` uses: lexicographic by character (UTF-8 byte order agrees
/// with code point order).
pub open spec fn text_less(a: Seq<char>, b: Seq<char>) -> bool
    decreases a.len(),
{
    if a.len() == 0 {
        b.len() > 0
    } else if b.len() == 0 {
        false
    } else if a[0] != b[0] {
        a[0] < b[0]
    } else {
        text_less(a.drop_first(), b.drop_first())
    }
}

pub proof fn lemma_text_less_irreflexive(a: Seq<char>)
    ensures
        !text_less(a, a),
    decreases a.len(),
{
    if a.len() > 0 {
        lemma_text_less_irreflexive(a.drop_first());
    }
}

pub proof fn lemma_text_less_total(a: Seq<char>, b: Seq<char>)
    ensures
        a != b ==> text_less(a, b) || text_less(b, a),
        !(text_less(a, b) && text_less(b, a)),
    decreases a.len(),
{
    if a.len() > 0 && b.len() > 0 {
        lemma_text_less_total(a.drop_first(), b.drop_first());
        if a[0] == b[0] && a.drop_first() == b.drop_first() {
            assert(a =~= seq![a[0]] + a.drop_first());
            assert(b =~= seq![b[0]] + b.drop_first());
        }
    } else if a.len() == 0 && b.len() == 0 {
        assert(a =~= b);
    }
}

pub proof fn lemma_text_less_transitive(a: Seq<char>, b: Seq<char>, c: Seq<char>)
    requires
        text_less(a, b),
        text_less(b, c),
    ensures
        text_less(a, c),
    decreases a.len(),
{
    if a.len() > 0 && b.len() > 0 && c.len() > 0 {
        if a[0] == b[0] && b[0] == c[0] {
            lemma_text_less_transitive(a.drop_first(), b.drop_first(), c.drop_first());
        }
    }
}

/// Whether `a` sorts before `b` (`String` order).
pub fn text_less_exec(a: &str, b: &str) -> (r: bool)
    ensures
        r == text_less(a@, b@),
{
    let x = chars_of(a);
    let y = chars_of(b);
    let mut i: usize = 0;
    assert(x@.skip(0) =~= x@ && y@.skip(0) =~= y@);
    while i < x.len() && i < y.len() && x[i] == y[i]
        invariant
            i <= x.len(),
            i <= y.len(),
            text_less(x@, y@) == text_less(x@.skip(i as int), y@.skip(i as int)),
        decreases x.len() - i,
    {
        assert(x@.skip(i as int).drop_first() =~= x@.skip(i + 1));
        assert(y@.skip(i as int).drop_first() =~= y@.skip(i + 1));
        i += 1;
    }
    if i == x.len() {
        i < y.len()
    } else if i == y.len() {
        false
    } else {
        x[i] < y[i]
    }
}

/// `str::trim_start`.
pub fn trim_start_text(s: &str) -> (r: String)
    ensures
        r@ == trim_start(s@),
{
    let chars = chars_of(s);
    let mut start: usize = 0;
    assert(chars@.skip(0) =~= chars@);
    while start < chars.len() && is_space_char(chars[start])
        invariant
            start <= chars@.len(),
            trim_start(chars@) == trim_start(chars@.skip(start as int)),
        decreases chars.len() - start,
    {
        assert(chars@.skip(start as int).drop_first() =~= chars@.skip(start + 1));
        start += 1;
    }
    let rest = chars_from(&chars, start);
    string_of(&rest)
}

/// `str::trim_end`.
pub fn trim_end_text(s: &str) -> (r: String)
    ensures
        r@ == trim_end(s@),
{
    let chars = chars_of(s);
    let mut end: usize = chars.len();
    assert(chars@.take(end as int) =~= chars@);
    while end > 0 && is_space_char(chars[end - 1])
        invariant
            end <= chars@.len(),
            trim_end(chars@) == trim_end(chars@.take(end as int)),
        decreases end,
    {
        assert(chars@.take(end as int).drop_last() =~= chars@.take(end - 1));
        end -= 1;
    }
    let kept = chars_from_to(&chars, 0, end);
    string_of(&kept)
}

/// The characters of `v` in `start..end`.
pub fn chars_from_to(v: &Vec<char>, start: usize, end: usize) -> (r: Vec<char>)
    requires
        start <= end <= v.len(),
    ensures
        r@ == v@.subrange(start as int, end as int),
{
    let mut r: Vec<char> = Vec::new();
    let mut i: usize = start;
    while i < end
        invariant
            start <= i <= end <= v.len(),
            r@ == v@.subrange(start as int, i as int),
        decreases end - i,
    {
        r.push(v[i]);
        i += 1;
        assert(r@ =~= v@.subrange(start as int, i as int));
    }
    r
}

/// Whether `needle` occurs in `s` (`str::contains`).
pub fn contains_chars(s: &Vec<char>, needle: &Vec<char>) -> (r: bool)
    ensures
        r == contains(s@, needle@),
{
    let mut at: usize = 0;
    while at < s.len()
        invariant
            at <= s@.len(),
            forall|k: int| 0 <= k < at ==> !occurs_at(s@, needle@, k),
        decreases s.len() - at,
    {
        if occurs_at_chars(s, needle, at) {
            return true;
        }
        at += 1;
    }
    if occurs_at_chars(s, needle, at) {
        return true;
    }
    assert forall|k: int| !occurs_at(s@, needle@, k) by {
        if 0 <= k && k <= s@.len() {
            assert(k < at || k == at);
        }
    }
    false
}


/// An element-for-element copy of a list of strings.
pub fn copy_strings(v: &Vec<String>) -> (r: Vec<String>)
    ensures
        r@ == v@,
        strings_view(r@) == strings_view(v@),
{
    let mut r: Vec<String> = Vec::new();
    let mut i: usize = 0;
    while i < v.len()
        invariant
            i <= v@.len(),
            r@ == v@.take(i as int),
        decreases v.len() - i,
    {
        let item = v[i].clone();
        r.push(item);
        i += 1;
        assert(r@ =~= v@.take(i as int));
    }
    assert(v@.take(v@.len() as int) =~= v@);
    r
}

/// A copy of an optional string.
pub fn copy_optional(v: &Option<String>) -> (r: Option<String>)
    ensures
        r == *v,
{
    match v {
        Some(s) => Some(s.clone()),
        None => None,
    }
}

/// `a`, then `x`, then `b`.
pub fn phrase(a: &str, x: &str, b: &str) -> (r: String)
    ensures
        r@ == a@ + x@ + b@,
{
    let mut r = owned(a);
    append(&mut r, x);
    append(&mut r, b);
    r
}

/// `a`, `x`, `b`, `y`, then `c`.
pub fn phrase2(a: &str, x: &str, b: &str, y: &str, c: &str) -> (r: String)
    ensures
        r@ == a@ + x@ + b@ + y@ + c@,
{
    let mut r = phrase(a, x, b);
    append(&mut r, y);
    append(&mut r, c);
    r
}

/// Whether `s` begins with `prefix` (`str::starts_with`).
pub fn starts_with_text(s: &str, prefix: &str) -> (r: bool)
    ensures
        r == starts_with(s@, prefix@),
{
    let sc = chars_of(s);
    let pc = chars_of(prefix);
    starts_with_chars(&sc, &pc)
}

} // verus!
