//! The writable storage layers stacked on the read-only base image.
//!
//! ```text
//! debian-base.raw        read-only, shipped, never opened for writing
//!        v
//! free-practice.qcow2    persistent user overlay
//!        v
//! lesson-<id>.qcow2      disposable lesson overlay, recreated on every reset
//! ```
use crate::paths::{join_path, join_spec};
use crate::text::{append, chars_equal, chars_of, is_ascii_alphanumeric, owned, string_of};
use vstd::prelude::*;

verus! {

/// Where the overlays live, and the `qemu-img` that creates them.
#[derive(Debug, Clone, PartialEq, Eq)]
pub struct OverlayManager {
    pub qemu_img: String,
    pub data_dir: String,
}

/// Where a writable layer lives and what it is stacked on.
#[derive(Debug, Clone, PartialEq, Eq)]
pub struct OverlaySpec {
    pub path: String,
    pub backing: String,
}

/// A character that may stay in a file name as it is.
pub open spec fn is_name_char(c: char) -> bool {
    is_ascii_alphanumeric(c) || c == '-' || c == '_'
}

/// The character-by-character cleaning pass: unsafe characters become `_`, and a dot that
/// would follow a dot does too.
pub open spec fn clean_spec(s: Seq<char>) -> Seq<char>
    decreases s.len(),
{
    if s.len() == 0 {
        Seq::empty()
    } else {
        let before = clean_spec(s.drop_last());
        let c = s.last();
        let dot_ok = c == '.' && !(before.len() > 0 && before.last() == '.');
        before.push(
            if is_name_char(c) || dot_ok {
                c
            } else {
                '_'
            },
        )
    }
}

/// `s` without leading dots.
pub open spec fn trim_leading_dots(s: Seq<char>) -> Seq<char>
    decreases s.len(),
{
    if s.len() > 0 && s[0] == '.' {
        trim_leading_dots(s.drop_first())
    } else {
        s
    }
}

/// `s` without trailing dots.
pub open spec fn trim_trailing_dots(s: Seq<char>) -> Seq<char>
    decreases s.len(),
{
    if s.len() > 0 && s.last() == '.' {
        trim_trailing_dots(s.drop_last())
    } else {
        s
    }
}

pub open spec fn all_dots(s: Seq<char>) -> bool {
    forall|i: int| 0 <= i < s.len() ==> s[i] == '.'
}

/// The file-name-safe form of a lesson id or snapshot name.
pub open spec fn sanitise_spec(id: Seq<char>) -> Seq<char> {
    if id.len() == 0 || all_dots(id) {
        "unnamed"@
    } else {
        let cleaned = trim_trailing_dots(trim_leading_dots(clean_spec(id)));
        if cleaned.len() == 0 {
            "unnamed"@
        } else {
            cleaned
        }
    }
}

/// A name that can stand as one file name inside a directory: not empty, only letters,
/// digits, `-`, `_` and `.`, no two dots in a row, and no dot at either end.
pub open spec fn is_safe_name(s: Seq<char>) -> bool {
    &&& s.len() > 0
    &&& forall|i: int| 0 <= i < s.len() ==> is_name_char(#[trigger] s[i]) || s[i] == '.'
    &&& forall|i: int| 0 <= i < s.len() - 1 ==> !(#[trigger] s[i] == '.' && s[i + 1] == '.')
    &&& s[0] != '.'
    &&& s.last() != '.'
}

proof fn lemma_clean_shape(s: Seq<char>)
    ensures
        clean_spec(s).len() == s.len(),
        forall|i: int|
            0 <= i < clean_spec(s).len() ==> is_name_char(#[trigger] clean_spec(s)[i])
                || clean_spec(s)[i] == '.',
        forall|i: int|
            0 <= i < clean_spec(s).len() - 1 ==> !(#[trigger] clean_spec(s)[i] == '.' && clean_spec(
                s,
            )[i + 1] == '.'),
    decreases s.len(),
{
    if s.len() > 0 {
        lemma_clean_shape(s.drop_last());
        let before = clean_spec(s.drop_last());
        let r = clean_spec(s);
        assert forall|i: int| 0 <= i < r.len() - 1 implies !(#[trigger] r[i] == '.' && r[i + 1]
            == '.') by {
            if i < r.len() - 2 {
                assert(r[i] == before[i] && r[i + 1] == before[i + 1]);
            } else {
                assert(r[i] == before.last());
            }
        }
        assert forall|i: int| 0 <= i < r.len() implies is_name_char(#[trigger] r[i]) || r[i]
            == '.' by {
            if i < r.len() - 1 {
                assert(r[i] == before[i]);
            }
        }
    }
}

proof fn lemma_trim_leading(s: Seq<char>)
    ensures
        trim_leading_dots(s).len() <= s.len(),
        trim_leading_dots(s).len() > 0 ==> trim_leading_dots(s)[0] != '.',
        exists|k: int|
            0 <= k <= s.len() && trim_leading_dots(s) == s.skip(k),
    decreases s.len(),
{
    if s.len() > 0 && s[0] == '.' {
        lemma_trim_leading(s.drop_first());
        let k = choose|k: int|
            0 <= k <= s.drop_first().len() && trim_leading_dots(s.drop_first()) == s.drop_first().skip(k);
        assert(s.drop_first().skip(k) =~= s.skip(k + 1));
    } else {
        assert(s.skip(0) =~= s);
    }
}

proof fn lemma_trim_trailing(s: Seq<char>)
    ensures
        trim_trailing_dots(s).len() > 0 ==> trim_trailing_dots(s).last() != '.',
        exists|k: int|
            0 <= k <= s.len() && trim_trailing_dots(s) == s.take(k),
    decreases s.len(),
{
    if s.len() > 0 && s.last() == '.' {
        lemma_trim_trailing(s.drop_last());
        let k = choose|k: int|
            0 <= k <= s.drop_last().len() && trim_trailing_dots(s.drop_last()) == s.drop_last().take(k);
        assert(s.drop_last().take(k) =~= s.take(k));
    } else {
        assert(s.take(s.len() as int) =~= s);
    }
}

/// Whatever a lesson package names its lesson, the sanitised name is one safe file name: it
/// cannot climb out of the data directory or name it.
pub proof fn lemma_sanitised_name_is_safe(id: Seq<char>)
    ensures
        is_safe_name(sanitise_spec(id)),
{
    reveal_strlit("unnamed");
    if !(id.len() == 0 || all_dots(id)) {
        let c = clean_spec(id);
        lemma_clean_shape(id);
        lemma_trim_leading(c);
        let l = trim_leading_dots(c);
        let k1 = choose|k: int| 0 <= k <= c.len() && l == c.skip(k);
        lemma_trim_trailing(l);
        let t = trim_trailing_dots(l);
        let k2 = choose|k: int| 0 <= k <= l.len() && t == l.take(k);
        if t.len() > 0 {
            assert forall|i: int| 0 <= i < t.len() implies is_name_char(#[trigger] t[i]) || t[i]
                == '.' by {
                assert(t[i] == c[i + k1]);
            }
            assert forall|i: int| 0 <= i < t.len() - 1 implies !(#[trigger] t[i] == '.' && t[i
                + 1] == '.') by {
                assert(t[i] == c[i + k1] && t[i + 1] == c[i + 1 + k1]);
            }
            assert(t[0] == l[0]);
        }
    }
}

/// Keeps lesson ids and snapshot names from escaping the data directory. Lesson ids come
/// from lesson packages, which are untrusted input.
pub fn sanitise_id(id: &str) -> (r: String)
    ensures
        r@ == sanitise_spec(id@),
        is_safe_name(r@),
{
    proof {
        lemma_sanitised_name_is_safe(id@);
    }
    let chars = chars_of(id);
    let mut only_dots = true;
    let mut i: usize = 0;
    while i < chars.len()
        invariant
            i <= chars.len(),
            only_dots == all_dots(chars@.subrange(0, i as int)),
        decreases chars.len() - i,
    {
        if chars[i] != '.' {
            only_dots = false;
            assert(chars@.subrange(0, i + 1)[i as int] != '.');
        }
        i += 1;
        assert(only_dots ==> all_dots(chars@.subrange(0, i as int)));
    }
    assert(chars@.subrange(0, chars.len() as int) =~= chars@);
    if chars.len() == 0 || only_dots {
        return owned("unnamed");
    }
    let mut cleaned: Vec<char> = Vec::new();
    let mut j: usize = 0;
    while j < chars.len()
        invariant
            j <= chars.len(),
            cleaned@ == clean_spec(chars@.subrange(0, j as int)),
        decreases chars.len() - j,
    {
        let c = chars[j];
        let after_dot = cleaned.len() > 0 && cleaned[cleaned.len() - 1] == '.';
        let alnum = ('0' <= c && c <= '9') || ('a' <= c && c <= 'z') || ('A' <= c && c <= 'Z');
        let keep = alnum || c == '-' || c == '_' || (c == '.' && !after_dot);
        assert(chars@.subrange(0, j + 1).drop_last() =~= chars@.subrange(0, j as int));
        if keep {
            cleaned.push(c);
        } else {
            cleaned.push('_');
        }
        j += 1;
    }
    assert(chars@.subrange(0, chars.len() as int) =~= chars@);
    // Trim dots at both ends: a name made only of dots would still name a parent directory.
    let mut start: usize = 0;
    assert(cleaned@.skip(0) =~= cleaned@);
    while start < cleaned.len() && cleaned[start] == '.'
        invariant
            start <= cleaned.len(),
            trim_leading_dots(cleaned@) == trim_leading_dots(cleaned@.skip(start as int)),
        decreases cleaned.len() - start,
    {
        assert(cleaned@.skip(start as int).drop_first() =~= cleaned@.skip(start + 1));
        start += 1;
    }
    let ghost lead = cleaned@.skip(start as int);
    assert(trim_leading_dots(lead) == lead);
    let mut end: usize = cleaned.len();
    while end > start && cleaned[end - 1] == '.'
        invariant
            start <= end <= cleaned.len(),
            lead == cleaned@.skip(start as int),
            trim_trailing_dots(lead) == trim_trailing_dots(cleaned@.subrange(start as int, end as int)),
        decreases end - start,
    {
        assert(cleaned@.subrange(start as int, end as int).drop_last() =~= cleaned@.subrange(
            start as int,
            end - 1,
        ));
        end -= 1;
    }
    let ghost trimmed = cleaned@.subrange(start as int, end as int);
    assert(trim_trailing_dots(trimmed) == trimmed);
    assert(cleaned@.subrange(start as int, cleaned.len() as int) =~= lead);
    if start == end {
        return owned("unnamed");
    }
    let mut out: Vec<char> = Vec::new();
    let mut k: usize = start;
    while k < end
        invariant
            start <= k <= end <= cleaned.len(),
            out@ == cleaned@.subrange(start as int, k as int),
        decreases end - k,
    {
        out.push(cleaned[k]);
        k += 1;
        assert(out@ =~= cleaned@.subrange(start as int, k as int));
    }
    string_of(&out)
}

/// The file name of a path: what follows the last separator, ignoring trailing ones.
pub open spec fn is_separator(c: char) -> bool {
    c == '/' || c == '\\'
}

pub open spec fn strip_trailing_separators(p: Seq<char>) -> Seq<char>
    decreases p.len(),
{
    if p.len() > 0 && is_separator(p.last()) {
        strip_trailing_separators(p.drop_last())
    } else {
        p
    }
}

/// The last component of a path.
pub open spec fn file_name(p: Seq<char>) -> Seq<char>
    decreases p.len(),
{
    let q = strip_trailing_separators(p);
    last_component(q)
}

pub open spec fn last_component(q: Seq<char>) -> Seq<char>
    decreases q.len(),
{
    if q.len() == 0 {
        q
    } else if is_separator(q.last()) {
        Seq::empty()
    } else {
        last_component(q.drop_last()).push(q.last())
    }
}

/// Whether a file name's extension, the text after its last dot (a leading dot does not
/// start one), is `qcow2`.
pub open spec fn has_qcow2_extension(name: Seq<char>) -> bool {
    exists|k: int|
        0 < k < name.len() && name[k] == '.' && (forall|j: int| k < j < name.len() ==> name[j]
            != '.') && #[trigger] name.skip(k + 1) == "qcow2"@
}

/// The `-F` format for a backing file: the extension decides, `raw` unless it is `qcow2`.
pub open spec fn backing_format_spec(path: Seq<char>) -> Seq<char> {
    if has_qcow2_extension(file_name(path)) {
        "qcow2"@
    } else {
        "raw"@
    }
}

/// The backing format stated explicitly to `qemu-img` (without it the backing file is
/// probed, which is slower and a known security footgun).
pub fn backing_format(path: &str) -> (r: &'static str)
    ensures
        r@ == backing_format_spec(path@),
{
    let chars = chars_of(path);
    // Drop trailing separators.
    let mut end: usize = chars.len();
    assert(chars@.take(end as int) =~= chars@);
    while end > 0 && (chars[end - 1] == '/' || chars[end - 1] == '\\')
        invariant
            end <= chars.len(),
            strip_trailing_separators(chars@) == strip_trailing_separators(chars@.take(end as int)),
        decreases end,
    {
        assert(chars@.take(end as int).drop_last() =~= chars@.take(end - 1));
        end -= 1;
    }
    let ghost q = chars@.take(end as int);
    assert(strip_trailing_separators(q) == q);
    // The last component starts after the last separator.
    let mut start: usize = end;
    while start > 0 && !(chars[start - 1] == '/' || chars[start - 1] == '\\')
        invariant
            start <= end <= chars.len(),
            q == chars@.take(end as int),
            last_component(q) == last_component(chars@.take(start as int)) + chars@.subrange(
                start as int,
                end as int,
            ),
        decreases start,
    {
        let ghost before = chars@.take(start as int);
        assert(before.drop_last() =~= chars@.take(start - 1));
        assert(chars@.subrange(start - 1, end as int) =~= seq![before.last()] + chars@.subrange(
            start as int,
            end as int,
        ));
        assert(last_component(before) == last_component(before.drop_last()).push(before.last()));
        assert(last_component(before.drop_last()).push(before.last()) + chars@.subrange(
            start as int,
            end as int,
        ) =~= last_component(before.drop_last()) + chars@.subrange(start - 1, end as int));
        start -= 1;
    }
    assert(last_component(chars@.take(start as int)) =~= Seq::<char>::empty());
    let ghost name = chars@.subrange(start as int, end as int);
    assert(file_name(chars@) =~= name);
    // Find the last dot of the name.
    let mut dot: usize = end;
    let mut found = false;
    let mut k: usize = end;
    while k > start
        invariant
            start <= k <= end <= chars@.len(),
            !found ==> forall|j: int| k <= j < end ==> chars@[j] != '.',
            found ==> start <= dot < end && chars@[dot as int] == '.' && forall|j: int|
                dot < j < end ==> chars@[j] != '.',
        decreases k - start,
    {
        k -= 1;
        if !found && chars[k] == '.' {
            found = true;
            dot = k;
        }
    }
    if !found || dot == start {
        proof {
            if has_qcow2_extension(name) {
                let w = choose|w: int|
                    0 < w < name.len() && name[w] == '.' && (forall|j: int|
                        w < j < name.len() ==> name[j] != '.') && #[trigger] name.skip(w + 1)
                        == "qcow2"@;
                assert(name[w] == chars@[start + w]);
                if found {
                    assert(start + w <= dot);
                }
            }
        }
        return "raw";
    }
    let ext = chars_from_range(&chars, dot + 1, end);
    let expected = chars_of("qcow2");
    let same = chars_equal(&ext, &expected);
    proof {
        let w = (dot - start) as int;
        assert(name.skip(w + 1) =~= ext@);
        assert(name[w] == '.');
        assert forall|j: int| w < j < name.len() implies name[j] != '.' by {
            assert(name[j] == chars@[start + j]);
        }
        if has_qcow2_extension(name) {
            let v = choose|v: int|
                0 < v < name.len() && name[v] == '.' && (forall|j: int|
                    v < j < name.len() ==> name[j] != '.') && #[trigger] name.skip(v + 1) == "qcow2"@;
            assert(v == w);
        }
    }
    if same {
        "qcow2"
    } else {
        "raw"
    }
}

/// The characters of `v` in `start..end`.
fn chars_from_range(v: &Vec<char>, start: usize, end: usize) -> (r: Vec<char>)
    requires
        start <= end <= v.len(),
    ensures
        r@ == v@.subrange(start as int, end as int),
{
    let mut r: Vec<char> = Vec::new();
    let mut i: usize = start;
    while i < end
        invariant
            start <= i <= end <= v.len(),
            r@ == v@.subrange(start as int, i as int),
        decreases end - i,
    {
        r.push(v[i]);
        i += 1;
        assert(r@ =~= v@.subrange(start as int, i as int));
    }
    r
}

/// The file name of a lesson overlay.
pub open spec fn lesson_file_name(lesson_id: Seq<char>) -> Seq<char> {
    "lesson-"@ + sanitise_spec(lesson_id) + ".qcow2"@
}

impl OverlayManager {
    pub fn new(qemu_img: &str, data_dir: &str) -> (r: OverlayManager)
        ensures
            r.qemu_img@ == qemu_img@,
            r.data_dir@ == data_dir@,
    {
        OverlayManager { qemu_img: owned(qemu_img), data_dir: owned(data_dir) }
    }

    /// The persistent Free Practice overlay, stacked on the base image.
    pub fn free_practice_spec(&self, base_image: &str) -> (r: OverlaySpec)
        ensures
            r.path@ == join_spec(self.data_dir@, "free-practice.qcow2"@),
            r.backing@ == base_image@,
    {
        OverlaySpec {
            path: join_path(self.data_dir.as_str(), "free-practice.qcow2"),
            backing: owned(base_image),
        }
    }

    /// A lesson overlay stacks on the read-only base, not on Free Practice: a lesson starts
    /// from a known checkpoint, whatever the learner did to their sandbox.
    pub fn lesson_spec(&self, lesson_id: &str, base_image: &str) -> (r: OverlaySpec)
        ensures
            r.path@ == join_spec(join_spec(self.data_dir@, "lessons"@), lesson_file_name(lesson_id@)),
            r.backing@ == base_image@,
            is_safe_name(sanitise_spec(lesson_id@)),
    {
        let lessons = join_path(self.data_dir.as_str(), "lessons");
        let mut name = owned("lesson-");
        let id = sanitise_id(lesson_id);
        append(&mut name, id.as_str());
        append(&mut name, ".qcow2");
        OverlaySpec { path: join_path(lessons.as_str(), name.as_str()), backing: owned(base_image) }
    }

    /// Where a named snapshot of the practice overlay is kept.
    pub fn snapshot_path(&self, name: &str) -> (r: String)
        ensures
            r@ == join_spec(join_spec(self.data_dir@, "snapshots"@), sanitise_spec(name@) + ".qcow2"@),
            is_safe_name(sanitise_spec(name@)),
    {
        let dir = join_path(self.data_dir.as_str(), "snapshots");
        let mut file = sanitise_id(name);
        append(&mut file, ".qcow2");
        join_path(dir.as_str(), file.as_str())
    }
}

} // verus!
