//! The guest agent's decisions outside validation: where a lesson script may be read from,
//! which directories the File Tree panel may browse and how it orders them, how a checkpoint
//! is named, how the terminal is sized, and how system tool output is read.
use crate::paths::{join_path, join_spec};
use crate::sys::{filter_map_spec, find_first_pub, first_index, lemma_filter_map_step, split_once_spec, SocketFacts};
use crate::text::{
    append, chars_from, chars_from_to, chars_of, ends_with, lines, lines_of, owned, parse_unsigned,
    parse_u32, phrase, same_text, split_chars, split_on, string_of, strings_view, text_less,
    text_less_exec, words, words_of,
};
use crate::validators::{lesson_root_for, lesson_root_spec};
use vstd::prelude::*;

verus! {

/// The names along a guest path: the pieces between slashes, without empty and `.` ones.
pub open spec fn path_names(p: Seq<char>) -> Seq<Seq<char>> {
    split_on(p, '/').filter(|n: Seq<char>| n.len() > 0 && n != "."@)
}

/// `Path::file_name`: the last name, unless the path ends in `..` or names nothing.
pub open spec fn file_name_spec(p: Seq<char>) -> Option<Seq<char>> {
    let ns = path_names(p);
    if ns.len() == 0 || ns.last() == ".."@ {
        None
    } else {
        Some(ns.last())
    }
}

fn is_normal_name(n: &str) -> (r: bool)
    ensures
        r == (n@.len() > 0 && n@ != "."@),
{
    let c = chars_of(n);
    c.len() > 0 && !same_text(n, ".")
}

/// The last name of a guest path, as `Path::file_name` gives it.
pub fn file_name(p: &str) -> (r: Option<String>)
    ensures
        match file_name_spec(p@) {
            Some(n) => r matches Some(s) && s@ == n,
            None => r is None,
        },
{
    let chars = chars_of(p);
    let pieces = split_chars(&chars, '/');
    let ghost ps = strings_view(pieces@);
    let ghost keep = |n: Seq<char>| n.len() > 0 && n != "."@;
    let mut last: Option<usize> = None;
    let mut count: usize = 0;
    let mut i: usize = 0;
    while i < pieces.len()
        invariant
            i <= pieces@.len(),
            ps == strings_view(pieces@),
            ps == split_on(p@, '/'),
            keep == (|n: Seq<char>| n.len() > 0 && n != "."@),
            count == ps.take(i as int).filter(keep).len(),
            count <= i,
            match last {
                Some(k) => k < i && count > 0 && ps[k as int] == ps.take(i as int).filter(keep).last(),
                None => count == 0,
            },
        decreases pieces.len() - i,
    {
        assert(ps.take(i + 1).drop_last() =~= ps.take(i as int));
        reveal(Seq::filter);
        if is_normal_name(pieces[i].as_str()) {
            last = Some(i);
            count += 1;
        }
        i += 1;
    }
    assert(ps.take(ps.len() as int) =~= ps);
    match last {
        Some(k) => {
            if same_text(pieces[k].as_str(), "..") {
                None
            } else {
                Some(owned(pieces[k].as_str()))
            }
        },
        None => None,
    }
}

/// The directory of a lesson inside the guest.
pub fn lesson_dir(lesson_id: &str) -> (r: String)
    ensures
        r@ == lesson_root_spec(lesson_id@),
{
    lesson_root_for(lesson_id)
}

/// Where a lesson's script is read from: only its file name is kept, so the path stays in the
/// lesson's directory whatever the package says.
pub fn lesson_script_path(lesson_id: &str, script: &str) -> (r: Result<String, String>)
    ensures
        match file_name_spec(script@) {
            Some(n) => r matches Ok(p) && p@ == join_spec(lesson_root_spec(lesson_id@), n),
            None => r matches Err(m) && m@ == "'"@ + script@ + "' is not a script file name"@,
        },
{
    match file_name(script) {
        Some(name) => {
            let root = lesson_dir(lesson_id);
            Ok(join_path(root.as_str(), name.as_str()))
        },
        None => Err(phrase("'", script, "' is not a script file name")),
    }
}

/// The lesson script to run, given whether a regular file exists at its path.
pub fn resolve_lesson_script(lesson_id: &str, script: &str, installed: bool) -> (r: Result<String, String>)
    ensures
        match file_name_spec(script@) {
            Some(n) => {
                let path = join_spec(lesson_root_spec(lesson_id@), n);
                if installed {
                    r matches Ok(p) && p@ == path
                } else {
                    r matches Err(m) && m@ == "the lesson script "@ + path + " is not installed"@
                }
            },
            None => r matches Err(m) && m@ == "'"@ + script@ + "' is not a script file name"@,
        },
{
    let path = lesson_script_path(lesson_id, script)?;
    if !installed {
        return Err(phrase("the lesson script ", path.as_str(), " is not installed"));
    }
    Ok(path)
}

/// A character a checkpoint name may keep.
pub open spec fn checkpoint_char(c: char) -> bool {
    ('0' <= c && c <= '9') || ('a' <= c && c <= 'z') || ('A' <= c && c <= 'Z') || c == '-' || c == '_'
}

/// A checkpoint's file name: the characters of `name` that are ASCII letters, digits, `-` or
/// `_`, in order; an error when none remain.
pub fn checkpoint_name(name: &str) -> (r: Result<String, String>)
    ensures
        name@.filter(|c: char| checkpoint_char(c)).len() == 0 ==> (r matches Err(m) && m@
            == "checkpoint names must contain at least one letter or digit"@),
        name@.filter(|c: char| checkpoint_char(c)).len() > 0 ==> (r matches Ok(s) && s@ == name@.filter(
            |c: char| checkpoint_char(c),
        )),
{
    let chars = chars_of(name);
    let ghost f = |c: char| checkpoint_char(c);
    let mut out: Vec<char> = Vec::new();
    let mut i: usize = 0;
    while i < chars.len()
        invariant
            i <= chars@.len(),
            chars@ == name@,
            f == (|c: char| checkpoint_char(c)),
            out@ == chars@.take(i as int).filter(f),
        decreases chars.len() - i,
    {
        assert(chars@.take(i + 1).drop_last() =~= chars@.take(i as int));
        reveal(Seq::filter);
        let c = chars[i];
        if ('0' <= c && c <= '9') || ('a' <= c && c <= 'z') || ('A' <= c && c <= 'Z') || c == '-' || c == '_' {
            out.push(c);
        }
        i += 1;
    }
    assert(chars@.take(chars@.len() as int) =~= chars@);
    if out.len() == 0 {
        return Err(owned("checkpoint names must contain at least one letter or digit"));
    }
    Ok(string_of(&out))
}

/// The terminal size the guest applies: a nonsense size from a resize race is clamped, rows to
/// 10..=300 and columns to 20..=500.
pub fn terminal_size(rows: u16, cols: u16) -> (r: (u16, u16))
    ensures
        r.0 == (if rows < 10 { 10 } else if rows > 300 { 300 } else { rows }),
        r.1 == (if cols < 20 { 20 } else if cols > 500 { 500 } else { cols }),
{
    let r = if rows < 10 {
        10
    } else if rows > 300 {
        300
    } else {
        rows
    };
    let c = if cols < 20 {
        20
    } else if cols > 500 {
        500
    } else {
        cols
    };
    (r, c)
}

/// The first word of each line of `systemctl list-units --state=failed --plain`: the units.
pub open spec fn failed_units_spec(out: Seq<char>) -> Seq<Seq<char>> {
    filter_map_spec(lines(out), |l: Seq<char>| if words(l).len() > 0 {
        Some(words(l)[0])
    } else {
        None
    })
}

pub fn failed_units(stdout: &str) -> (r: Vec<String>)
    ensures
        strings_view(r@) == failed_units_spec(stdout@),
{
    let ls = lines_of(stdout);
    let ghost lv = strings_view(ls@);
    let ghost f = |l: Seq<char>| if words(l).len() > 0 {
        Some(words(l)[0])
    } else {
        None
    };
    let mut out: Vec<String> = Vec::new();
    let mut i: usize = 0;
    while i < ls.len()
        invariant
            i <= ls@.len(),
            lv == strings_view(ls@),
            lv == lines(stdout@),
            f == (|l: Seq<char>| if words(l).len() > 0 {
                Some(words(l)[0])
            } else {
                None
            }),
            strings_view(out@) == filter_map_spec(lv.take(i as int), f),
        decreases ls.len() - i,
    {
        proof {
            lemma_filter_map_step(lv, f, i as int);
        }
        let ws = words_of(ls[i].as_str());
        let ghost before = strings_view(out@);
        if ws.len() > 0 {
            out.push(owned(ws[0].as_str()));
            assert(strings_view(out@) =~= before.push(words(lv[i as int])[0]));
        }
        i += 1;
    }
    assert(lv.take(lv.len() as int) =~= lv);
    out
}

/// The first field ending in `%` among the words of a line.
pub open spec fn percent_field(ws: Seq<Seq<char>>) -> Option<Seq<char>>
    decreases ws.len(),
{
    if ws.len() == 0 {
        None
    } else {
        match percent_field(ws.drop_last()) {
            Some(f) => Some(f),
            None => if ends_with(ws.last(), "%"@) {
                Some(ws.last())
            } else {
                None
            },
        }
    }
}

/// `s` without its trailing `%` signs.
pub open spec fn without_percent(s: Seq<char>) -> Seq<char>
    decreases s.len(),
{
    if s.len() > 0 && s.last() == '%' {
        without_percent(s.drop_last())
    } else {
        s
    }
}

/// The use percentage `df -P` reports on its second line, or zero when it cannot be read.
pub open spec fn usage_percent_spec(out: Seq<char>) -> u8 {
    let ls = lines(out);
    if ls.len() < 2 {
        0
    } else {
        match percent_field(words(ls[1])) {
            Some(f) => match parse_unsigned(without_percent(f), 10, 255) {
                Some(v) => v as u8,
                None => 0,
            },
            None => 0,
        }
    }
}

proof fn lemma_percent_field_prefix(ws: Seq<Seq<char>>, n: int)
    requires
        0 <= n <= ws.len(),
        percent_field(ws.take(n)) is Some,
    ensures
        percent_field(ws) == percent_field(ws.take(n)),
    decreases ws.len() - n,
{
    if n < ws.len() {
        assert(ws.take(n + 1).drop_last() =~= ws.take(n));
        lemma_percent_field_prefix(ws, n + 1);
    } else {
        assert(ws.take(n) =~= ws);
    }
}

pub fn usage_percent(stdout: &str) -> (r: u8)
    ensures
        r == usage_percent_spec(stdout@),
{
    let ls = lines_of(stdout);
    if ls.len() < 2 {
        return 0;
    }
    let ws = words_of(ls[1].as_str());
    let ghost wv = strings_view(ws@);
    let mut i: usize = 0;
    assert(wv.take(0) =~= Seq::<Seq<char>>::empty());
    while i < ws.len()
        invariant
            i <= ws@.len(),
            wv == strings_view(ws@),
            ls@.len() >= 2,
            strings_view(ls@) == lines(stdout@),
            wv == words(strings_view(ls@)[1]),
            percent_field(wv.take(i as int)) is None,
        decreases ws.len() - i,
    {
        assert(wv.take(i + 1).drop_last() =~= wv.take(i as int));
        assert(wv.take(i + 1).last() == ws@[i as int]@);
        let field = chars_of(ws[i].as_str());
        if field.len() > 0 && field[field.len() - 1] == '%' {
            proof {
                reveal_strlit("%");
                assert(field@.subrange(field@.len() - 1, field@.len() as int) =~= "%"@);
                assert(ends_with(field@, "%"@));
                assert(percent_field(wv.take(i + 1)) == Some(wv[i as int]));
                lemma_percent_field_prefix(wv, i + 1);
                assert(strings_view(ls@)[1] == lines(stdout@)[1]);
            }
            let mut end: usize = field.len();
            assert(field@.take(end as int) =~= field@);
            while end > 0 && field[end - 1] == '%'
                invariant
                    end <= field@.len(),
                    without_percent(field@) == without_percent(field@.take(end as int)),
                decreases end,
            {
                assert(field@.take(end as int).drop_last() =~= field@.take(end - 1));
                end -= 1;
            }
            let digits = chars_from_to(&field, 0, end);
            assert(digits@ =~= field@.take(end as int));
            return match crate::text::parse_unsigned_chars(&digits, 10, 255) {
                Some(v) => v as u8,
                None => 0,
            };
        } else {
            proof {
                reveal_strlit("%");
                if ends_with(field@, "%"@) {
                    assert(field@[field@.len() - 1] == "%"@[0]);
                }
            }
        }
        i += 1;
    }
    assert(wv.take(wv.len() as int) =~= wv);
    0
}

/// An installed package and its version.
#[derive(Debug, Clone, PartialEq, Eq)]
pub struct PackageInfo {
    pub name: String,
    pub version: String,
}

/// The packages `dpkg-query -W -f='${Package}\t${Version}\n'` lists: each line split at its
/// first tab; lines without one are skipped.
pub open spec fn packages_spec(out: Seq<char>) -> Seq<(Seq<char>, Seq<char>)> {
    filter_map_spec(lines(out), |l: Seq<char>| split_once_spec(l, '\t'))
}

pub fn installed_packages(stdout: &str) -> (r: Vec<PackageInfo>)
    ensures
        r@.map_values(|p: PackageInfo| (p.name@, p.version@)) == packages_spec(stdout@),
{
    let ls = lines_of(stdout);
    let ghost lv = strings_view(ls@);
    let ghost f = |l: Seq<char>| split_once_spec(l, '\t');
    let mut out: Vec<PackageInfo> = Vec::new();
    let mut i: usize = 0;
    while i < ls.len()
        invariant
            i <= ls@.len(),
            lv == strings_view(ls@),
            lv == lines(stdout@),
            f == (|l: Seq<char>| split_once_spec(l, '\t')),
            out@.map_values(|p: PackageInfo| (p.name@, p.version@)) == filter_map_spec(lv.take(i as int), f),
        decreases ls.len() - i,
    {
        proof {
            lemma_filter_map_step(lv, f, i as int);
        }
        let line = chars_of(ls[i].as_str());
        let ghost before = out@.map_values(|p: PackageInfo| (p.name@, p.version@));
        match find_first_pub(&line, '\t') {
            Some(k) => {
                let name = chars_from_to(&line, 0, k);
                let len = line.len();
                assert(k < len);
                let version = chars_from(&line, k + 1);
                assert(name@ =~= line@.take(k as int));
                out.push(PackageInfo { name: string_of(&name), version: string_of(&version) });
                assert(out@.map_values(|p: PackageInfo| (p.name@, p.version@)) =~= before.push(
                    (line@.take(k as int), line@.skip(k + 1)),
                ));
            },
            None => {},
        }
        i += 1;
    }
    assert(lv.take(lv.len() as int) =~= lv);
    out
}

/// The ports something listens on, ascending and each once.
pub fn listening_ports(sockets: &Vec<SocketFacts>) -> (r: Vec<u16>)
    ensures
        forall|i: int, j: int| 0 <= i < j < r@.len() ==> r@[i] < r@[j],
        r@.to_set() == Set::new(|p: u16| exists|k: int| 0 <= k < sockets@.len() && (#[trigger] sockets@[k]).listening && sockets@[k].port == p),
{
    let ghost target = |n: int| Set::new(|p: u16| exists|k: int| 0 <= k < n && (#[trigger] sockets@[k]).listening && sockets@[k].port == p);
    let mut out: Vec<u16> = Vec::new();
    let mut n: usize = 0;
    assert(out@.to_set() =~= target(0));
    while n < sockets.len()
        invariant
            n <= sockets@.len(),
            target == (|n: int| Set::new(|p: u16| exists|k: int| 0 <= k < n && (#[trigger] sockets@[k]).listening && sockets@[k].port == p)),
            forall|i: int, j: int| 0 <= i < j < out@.len() ==> out@[i] < out@[j],
            out@.to_set() == target(n as int),
        decreases sockets.len() - n,
    {
        if sockets[n].listening {
            let port = sockets[n].port;
            let mut k: usize = 0;
            while k < out.len() && out[k] < port
                invariant
                    k <= out@.len(),
                    forall|j: int| 0 <= j < k ==> out@[j] < port,
                decreases out.len() - k,
            {
                k += 1;
            }
            let ghost before = out@;
            if k < out.len() && out[k] == port {
                assert(target(n + 1) =~= target(n as int)) by {
                    assert(before.to_set().contains(port));
                }
            } else {
                out.insert(k, port);
                assert(out@ =~= before.insert(k as int, port));
                assert forall|i: int, j: int| 0 <= i < j < out@.len() implies out@[i] < out@[j] by {
                    if j < k {
                        assert(out@[i] == before[i] && out@[j] == before[j]);
                    } else if i < k && j == k {
                        assert(out@[i] == before[i]);
                    } else if i < k {
                        assert(out@[i] == before[i] && out@[j] == before[j - 1]);
                        assert(before[k as int] > port);
                    } else if i == k {
                        assert(out@[j] == before[j - 1]);
                        assert(before[k as int] > port || before[k as int] == port);
                    } else {
                        assert(out@[i] == before[i - 1] && out@[j] == before[j - 1]);
                    }
                }
                assert forall|p: u16| out@.to_set().contains(p) <==> target(n + 1).contains(p) by {
                    if out@.to_set().contains(p) {
                        let x = choose|x: int| 0 <= x < out@.len() && out@[x] == p;
                        if x < k {
                            assert(before[x] == p);
                            assert(before.to_set().contains(p));
                        } else if x > k {
                            assert(before[x - 1] == p);
                            assert(before.to_set().contains(p));
                        }
                    }
                    if target(n + 1).contains(p) {
                        if p != port {
                            assert(target(n as int).contains(p));
                            let x = choose|x: int| 0 <= x < before.len() && before[x] == p;
                            if x < k {
                                assert(out@[x] == p);
                            } else {
                                assert(out@[x + 1] == p);
                            }
                        } else {
                            assert(out@[k as int] == p);
                        }
                    }
                }
                assert(out@.to_set() =~= target(n + 1));
            }
        } else {
            assert(target(n + 1) =~= target(n as int));
        }
        n += 1;
    }
    out
}


/// The names along a guest path, in executable form.
fn names_exec(p: &str) -> (r: Vec<String>)
    ensures
        strings_view(r@) == path_names(p@),
{
    let chars = chars_of(p);
    let pieces = split_chars(&chars, '/');
    let ghost ps = strings_view(pieces@);
    let ghost keep = |n: Seq<char>| n.len() > 0 && n != "."@;
    let mut out: Vec<String> = Vec::new();
    let mut i: usize = 0;
    while i < pieces.len()
        invariant
            i <= pieces@.len(),
            ps == strings_view(pieces@),
            ps == split_on(p@, '/'),
            keep == (|n: Seq<char>| n.len() > 0 && n != "."@),
            strings_view(out@) == ps.take(i as int).filter(keep),
        decreases pieces.len() - i,
    {
        assert(ps.take(i + 1).drop_last() =~= ps.take(i as int));
        reveal(Seq::filter);
        let ghost before = strings_view(out@);
        if is_normal_name(pieces[i].as_str()) {
            out.push(owned(pieces[i].as_str()));
            assert(strings_view(out@) =~= before.push(ps[i as int]));
        }
        i += 1;
    }
    assert(ps.take(ps.len() as int) =~= ps);
    out
}

/// The directories the File Tree panel may browse.
pub open spec fn browsable_roots() -> Seq<Seq<char>> {
    seq!["/home"@, "/tmp"@, "/var/log"@, "/etc"@, "/opt/linuxlab/lessons"@, "/srv"@]
}

/// `Path::starts_with` for an absolute path: the root's names begin the path's names.
pub open spec fn under_root(p: Seq<char>, root: Seq<char>) -> bool {
    p.len() > 0 && p[0] == '/' && path_names(root).len() <= path_names(p).len() && path_names(p).take(
        path_names(root).len() as int,
    ) == path_names(root)
}

/// Whether a canonical guest path lies in one of the browsable directories. Anything else is
/// refused, so the panel cannot become a general way to read the guest.
pub fn is_browsable(canonical: &str) -> (r: bool)
    ensures
        r == exists|i: int| 0 <= i < 6 && under_root(canonical@, #[trigger] browsable_roots()[i]),
{
    let roots: [&str; 6] = ["/home", "/tmp", "/var/log", "/etc", "/opt/linuxlab/lessons", "/srv"];
    proof {
        reveal_strlit("/home");
        reveal_strlit("/tmp");
        reveal_strlit("/var/log");
        reveal_strlit("/etc");
        reveal_strlit("/opt/linuxlab/lessons");
        reveal_strlit("/srv");
    }
    let chars = chars_of(canonical);
    let absolute = chars.len() > 0 && chars[0] == '/';
    let names = names_exec(canonical);
    let mut i: usize = 0;
    while i < 6
        invariant
            i <= 6,
            forall|j: int| 0 <= j < 6 ==> (#[trigger] roots@[j])@ == browsable_roots()[j],
            strings_view(names@) == path_names(canonical@),
            absolute == (canonical@.len() > 0 && canonical@[0] == '/'),
            forall|j: int| 0 <= j < i ==> !under_root(canonical@, #[trigger] browsable_roots()[j]),
        decreases 6 - i,
    {
        let root = names_exec(roots[i]);
        let ghost rv = strings_view(root@);
        let ghost nv = strings_view(names@);
        let mut matches = absolute && root.len() <= names.len();
        let mut k: usize = 0;
        while matches && k < root.len()
            invariant
                k <= root@.len(),
                matches ==> root@.len() <= names@.len(),
                matches ==> absolute,
                rv == strings_view(root@),
                nv == strings_view(names@),
                matches ==> forall|m: int| 0 <= m < k ==> nv[m] == rv[m],
                !matches ==> !(absolute && rv.len() <= nv.len() && nv.take(rv.len() as int) == rv),
            decreases root@.len() - k,
        {
            if !same_text(names[k].as_str(), root[k].as_str()) {
                matches = false;
                assert(nv.take(rv.len() as int)[k as int] != rv[k as int]);
            }
            k += 1;
        }
        if matches {
            assert(nv.take(rv.len() as int) =~= rv);
            assert(roots@[i as int]@ == browsable_roots()[i as int]);
            assert(rv == path_names(browsable_roots()[i as int]));
            assert(under_root(canonical@, browsable_roots()[i as int]));
            return true;
        }
        assert(roots@[i as int]@ == browsable_roots()[i as int]);
        i += 1;
    }
    false
}

/// One entry of a directory listing.
#[derive(Debug, Clone, PartialEq, Eq)]
pub struct DirEntryInfo {
    pub name: String,
    pub file_type: String,
    pub size: u64,
    pub mode: String,
    pub owner: String,
    pub group: String,
    pub link_target: Option<String>,
}

/// Whether a listing shows the entry: hidden names only when asked for.
pub fn shows_entry(name: &str, include_hidden: bool) -> (r: bool)
    ensures
        r == (include_hidden || !(name@.len() > 0 && name@[0] == '.')),
{
    if include_hidden {
        return true;
    }
    let c = chars_of(name);
    !(c.len() > 0 && c[0] == '.')
}

pub open spec fn is_directory(e: DirEntryInfo) -> bool {
    e.file_type@ == "directory"@
}

/// `a` is listed strictly before `b`: directories first, then by name.
pub open spec fn listed_before(a: DirEntryInfo, b: DirEntryInfo) -> bool {
    (is_directory(a) && !is_directory(b)) || (is_directory(a) == is_directory(b) && text_less(a.name@, b.name@))
}

/// Where a stable insertion puts `e` into `s`.
pub open spec fn listing_slot(s: Seq<DirEntryInfo>, e: DirEntryInfo) -> int
    decreases s.len(),
{
    if s.len() == 0 {
        0
    } else if listed_before(e, s.last()) {
        listing_slot(s.drop_last(), e)
    } else {
        s.len() as int
    }
}

/// The entries in the order a file manager uses, equal entries keeping their order.
pub open spec fn listing_order(es: Seq<DirEntryInfo>) -> Seq<DirEntryInfo>
    decreases es.len(),
{
    if es.len() == 0 {
        Seq::empty()
    } else {
        let s = listing_order(es.drop_last());
        s.insert(listing_slot(s, es.last()), es.last())
    }
}

fn listed_before_exec(a: &DirEntryInfo, b: &DirEntryInfo) -> (r: bool)
    ensures
        r == listed_before(*a, *b),
{
    let ad = same_text(a.file_type.as_str(), "directory");
    let bd = same_text(b.file_type.as_str(), "directory");
    (ad && !bd) || (ad == bd && text_less_exec(a.name.as_str(), b.name.as_str()))
}

/// Sorts a listing: directories first, then by name.
pub fn sort_listing(entries: Vec<DirEntryInfo>) -> (r: Vec<DirEntryInfo>)
    ensures
        r@ == listing_order(entries@),
{
    let ghost orig = entries@;
    let mut rest = entries;
    let mut sorted: Vec<DirEntryInfo> = Vec::new();
    let ghost mut moved: int = 0;
    assert(orig.take(0) =~= Seq::<DirEntryInfo>::empty());
    assert(orig.skip(0) =~= orig);
    while rest.len() > 0
        invariant
            0 <= moved <= orig.len(),
            rest@ == orig.skip(moved),
            sorted@ == listing_order(orig.take(moved)),
        decreases rest.len(),
    {
        let e = rest.remove(0);
        assert(e == orig[moved]);
        let mut k: usize = sorted.len();
        assert(sorted@.take(k as int) =~= sorted@);
        while k > 0 && listed_before_exec(&e, &sorted[k - 1])
            invariant
                k <= sorted@.len(),
                listing_slot(sorted@, e) == listing_slot(sorted@.take(k as int), e),
            decreases k,
        {
            assert(sorted@.take(k as int).drop_last() =~= sorted@.take(k - 1));
            k -= 1;
        }
        proof {
            if k > 0 {
                assert(sorted@.take(k as int).last() == sorted@[k - 1]);
            }
            assert(orig.take(moved + 1).drop_last() =~= orig.take(moved));
            assert(orig.take(moved + 1).last() == orig[moved]);
        }
        sorted.insert(k, e);
        proof {
            moved = moved + 1;
            assert(rest@ =~= orig.skip(moved));
        }
    }
    assert(orig.take(orig.len() as int) =~= orig);
    sorted
}

/// The sudoers drop-in a lesson's escalation policy installs for the learner: every command
/// allowed, or every command refused.
pub open spec fn sudo_policy_spec(allowed: bool) -> Seq<char> {
    if allowed {
        "# Managed by linuxlab-agent. Lesson permits escalation.\nstudent ALL=(ALL:ALL) ALL\n"@
    } else {
        "# Managed by linuxlab-agent. Lesson does not permit escalation.\nstudent ALL=(ALL:ALL) !ALL\n"@
    }
}

pub fn sudo_policy(allowed: bool) -> (r: &'static str)
    ensures
        r@ == sudo_policy_spec(allowed),
{
    if allowed {
        "# Managed by linuxlab-agent. Lesson permits escalation.\nstudent ALL=(ALL:ALL) ALL\n"
    } else {
        "# Managed by linuxlab-agent. Lesson does not permit escalation.\nstudent ALL=(ALL:ALL) !ALL\n"
    }
}

/// The warning for a fixture a lesson needs that the image does not have.
pub fn missing_fixture_warning(fixture: &str) -> (r: String)
    ensures
        r@ == "fixture '"@ + fixture@ + "' is not installed in the image"@,
{
    phrase("fixture '", fixture, "' is not installed in the image")
}

/// The warning for a lesson network that did not come up cleanly.
pub fn network_warning(stderr: &str) -> (r: String)
    ensures
        r@ == "the internal network laboratory did not start cleanly: "@ + crate::text::trim(stderr@),
{
    let mut r = owned("the internal network laboratory did not start cleanly: ");
    append(&mut r, crate::text::trimmed(stderr).as_str());
    r
}

/// Why a lesson's `setup` or `reset` script failed: its exit status and what it said.
pub fn script_failure(which: &str, status: i32, stderr: &str) -> (r: String)
    ensures
        r@ == "the lesson "@ + which@ + " script failed ("@ + crate::text::signed_decimal(status as int) + "): "@
            + crate::text::trim(stderr@),
{
    let mut r = phrase("the lesson ", which, " script failed (");
    append(&mut r, crate::text::signed_decimal_string(status as i64).as_str());
    append(&mut r, "): ");
    append(&mut r, crate::text::trimmed(stderr).as_str());
    r
}

/// What the host is told when a request cannot be carried out: what could not be done, for
/// which subject, and why (`could not <what> <subject>: <why>`).
pub fn request_failure(what: &str, subject: &str, why: &str) -> (r: String)
    ensures
        r@ == "could not "@ + what@ + " "@ + subject@ + ": "@ + why@,
{
    let mut r = phrase("could not ", what, " ");
    append(&mut r, subject);
    append(&mut r, ": ");
    append(&mut r, why);
    r
}

/// The refusal of a directory listing outside the browsable roots.
pub fn outside_browsable(path: &str) -> (r: String)
    ensures
        r@ == path@ + " is outside the directories this panel may browse"@,
{
    let mut r = owned(path);
    append(&mut r, " is outside the directories this panel may browse");
    r
}

/// The refusal of a frame whose control token does not match.
pub fn invalid_token_message() -> (r: &'static str)
    ensures
        r@ == "invalid control token"@,
{
    "invalid control token"
}

/// The answer to a frame that could not be parsed, with the parser's reason.
pub fn malformed_request(why: &str) -> (r: String)
    ensures
        r@ == "malformed request: "@ + why@,
{
    let mut r = owned("malformed request: ");
    append(&mut r, why);
    r
}

/// Why the terminal could not be resized: what `stty` said, trimmed.
pub fn resize_failure(stderr: &str) -> (r: String)
    ensures
        r@ == "could not set the terminal size: "@ + crate::text::trim(stderr@),
{
    let mut r = owned("could not set the terminal size: ");
    append(&mut r, crate::text::trimmed(stderr).as_str());
    r
}

} // verus!
