//! What the serial console says when the guest fails to boot.
use crate::text::{
    chars_from_to, chars_of, contains, contains_chars, lines, lines_of, string_of, strings_view,
    trim, trimmed,
};
use vstd::prelude::*;

verus! {

/// The text `String::from_utf8_lossy` decodes from `bytes`: the bytes read as UTF-8, each
/// invalid sequence replaced by U+FFFD.
pub uninterp spec fn lossy_text(bytes: Seq<u8>) -> Seq<char>;

/// `String::from_utf8_lossy`.
#[verifier::external_body]
pub(crate) fn from_utf8_lossy(bytes: &[u8]) -> (r: String)
    ensures
        r@ == lossy_text(bytes@),
{
    String::from_utf8_lossy(bytes).into_owned()
}

/// At most the first `n` characters of `s`.
pub open spec fn clip(s: Seq<char>, n: nat) -> Seq<char> {
    if s.len() <= n {
        s
    } else {
        s.take(n as int)
    }
}

/// The lines of the console output, trimmed, without the blank ones.
pub open spec fn console_lines(text: Seq<char>) -> Seq<Seq<char>> {
    lines(text).map_values(|l: Seq<char>| trim(l)).filter(|l: Seq<char>| l.len() > 0)
}

/// The last line that contains `marker`.
pub open spec fn last_containing(ls: Seq<Seq<char>>, marker: Seq<char>) -> Option<Seq<char>>
    decreases ls.len(),
{
    if ls.len() == 0 {
        None
    } else if contains(ls.last(), marker) {
        Some(ls.last())
    } else {
        last_containing(ls.drop_last(), marker)
    }
}

/// The failure markers, most telling first.
pub open spec fn console_markers() -> Seq<Seq<char>> {
    seq!["Kernel panic"@, "VFS:"@, "Waiting for root device"@, "[FAILED]"@, " error:"@]
}

/// The last line with the first marker that occurs at all; failing that, the last line.
pub open spec fn summary_from(ls: Seq<Seq<char>>, markers: Seq<Seq<char>>) -> Option<Seq<char>>
    decreases markers.len(),
{
    if markers.len() == 0 {
        if ls.len() == 0 {
            None
        } else {
            Some(clip(ls.last(), 500))
        }
    } else {
        match last_containing(ls, markers[0]) {
            Some(l) => Some(clip(l, 500)),
            None => summary_from(ls, markers.drop_first()),
        }
    }
}

/// The one line of console output that best explains a failed boot, clipped to 500 characters.
pub open spec fn console_summary(text: Seq<char>) -> Option<Seq<char>> {
    summary_from(console_lines(text), console_markers())
}

/// At most the first `n` characters of `s`.
pub fn clip_text(s: &str, n: usize) -> (r: String)
    ensures
        r@ == clip(s@, n as nat),
{
    let chars = chars_of(s);
    if chars.len() <= n {
        string_of(&chars)
    } else {
        let head = chars_from_to(&chars, 0, n);
        string_of(&head)
    }
}

/// The trimmed, non-blank lines of `text`.
fn kept_lines(text: &str) -> (r: Vec<String>)
    ensures
        strings_view(r@) == console_lines(text@),
{
    let all = lines_of(text);
    let ghost trimmed_all = lines(text@).map_values(|l: Seq<char>| trim(l));
    let mut out: Vec<String> = Vec::new();
    let mut i: usize = 0;
    while i < all.len()
        invariant
            i <= all@.len(),
            strings_view(all@) == lines(text@),
            trimmed_all == lines(text@).map_values(|l: Seq<char>| trim(l)),
            strings_view(out@) == trimmed_all.take(i as int).filter(|l: Seq<char>| l.len() > 0),
        decreases all.len() - i,
    {
        let t = trimmed(all[i].as_str());
        assert(all@[i as int]@ == lines(text@)[i as int]);
        assert(trimmed_all.take(i + 1).drop_last() =~= trimmed_all.take(i as int));
        reveal(Seq::filter);
        let ghost before = strings_view(out@);
        let tc = chars_of(t.as_str());
        if tc.len() > 0 {
            out.push(t);
            assert(strings_view(out@) =~= before.push(trimmed_all[i as int]));
        }
        i += 1;
    }
    assert(trimmed_all.take(all@.len() as int) =~= trimmed_all);
    out
}

/// The last of `ls` that contains `marker`.
fn find_last_containing(ls: &Vec<String>, marker: &str) -> (r: Option<usize>)
    ensures
        match last_containing(strings_view(ls@), marker@) {
            Some(l) => r matches Some(i) && i < ls@.len() && ls@[i as int]@ == l,
            None => r is None,
        },
{
    let needle = chars_of(marker);
    let ghost sv = strings_view(ls@);
    let mut i: usize = ls.len();
    assert(sv.take(i as int) =~= sv);
    while i > 0
        invariant
            i <= ls@.len(),
            sv == strings_view(ls@),
            needle@ == marker@,
            last_containing(sv, marker@) == last_containing(sv.take(i as int), marker@),
        decreases i,
    {
        let line = chars_of(ls[i - 1].as_str());
        let ghost pre = sv.take(i as int);
        assert(pre.drop_last() =~= sv.take(i - 1));
        assert(pre.last() == ls@[i - 1]@);
        if contains_chars(&line, &needle) {
            return Some(i - 1);
        }
        i -= 1;
    }
    None
}

/// The line of console output that best explains a failed boot, from its decoded text.
pub fn summarise_console_text(text: &str) -> (r: Option<String>)
    ensures
        match r {
            Some(s) => console_summary(text@) == Some(s@),
            None => console_summary(text@) is None,
        },
{
    let ls = kept_lines(text);
    let ghost sv = strings_view(ls@);
    let markers: [&str; 5] = ["Kernel panic", "VFS:", "Waiting for root device", "[FAILED]", " error:"];
    proof {
        reveal_strlit("Kernel panic");
        reveal_strlit("VFS:");
        reveal_strlit("Waiting for root device");
        reveal_strlit("[FAILED]");
        reveal_strlit(" error:");
    }
    let mut m: usize = 0;
    assert(console_markers().skip(0) =~= console_markers());
    while m < 5
        invariant
            m <= 5,
            sv == strings_view(ls@),
            sv == console_lines(text@),
            forall|k: int| 0 <= k < 5 ==> #[trigger] markers@[k]@ == console_markers()[k],
            summary_from(sv, console_markers()) == summary_from(
                sv,
                console_markers().skip(m as int),
            ),
        decreases 5 - m,
    {
        let ghost rest = console_markers().skip(m as int);
        assert(rest[0] == markers@[m as int]@);
        assert(rest.drop_first() =~= console_markers().skip(m + 1));
        match find_last_containing(&ls, markers[m]) {
            Some(i) => {
                return Some(clip_text(ls[i].as_str(), 500));
            },
            None => {},
        }
        m += 1;
    }
    assert(console_markers().skip(5) =~= Seq::<Seq<char>>::empty());
    if ls.len() == 0 {
        None
    } else {
        assert(ls@[ls@.len() - 1]@ == sv.last());
        Some(clip_text(ls[ls.len() - 1].as_str(), 500))
    }
}

/// The line of console output that best explains a failed boot.
pub fn summarise_console(bytes: &[u8]) -> (r: Option<String>)
    ensures
        match r {
            Some(s) => console_summary(lossy_text(bytes@)) == Some(s@),
            None => console_summary(lossy_text(bytes@)) is None,
        },
{
    let text = from_utf8_lossy(bytes);
    summarise_console_text(text.as_str())
}

} // verus!
