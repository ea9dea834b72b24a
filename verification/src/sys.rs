//! Parsers for the pieces of Linux the guest validators inspect: `/etc/passwd`,
//! `/etc/group`, `/proc`, file modes. The agent reads the files; these functions turn their
//! text into facts.
use crate::lesson::ParamValue;
use crate::text::{
    chars_of, lines, lines_of, owned, parse_u32, parse_unsigned, split_chars, split_on,
    starts_with_char, string_of, strings_view, text_less, text_less_exec, trim, trimmed,
    lemma_text_less_irreflexive, lemma_text_less_total, lemma_text_less_transitive, append,
    same_text, join, join_strings, words, words_of,
};
use vstd::prelude::*;

verus! {

/// The outcome of a command the agent ran.
#[derive(Debug, Clone, PartialEq, Eq)]
pub struct CommandOutput {
    pub status: i32,
    pub stdout: String,
    pub stderr: String,
    pub timed_out: bool,
}

impl CommandOutput {
    /// Exit status zero, within the time limit.
    pub fn success(&self) -> (r: bool)
        ensures
            r == (self.status == 0 && !self.timed_out),
    {
        self.status == 0 && !self.timed_out
    }

    /// Standard output without surrounding white space.
    pub fn stdout_trimmed(&self) -> (r: String)
        ensures
            r@ == trim(self.stdout@),
    {
        trimmed(self.stdout.as_str())
    }
}

/// The elements `f` maps to something, in order, mapped.
pub open spec fn filter_map_spec<A, B>(s: Seq<A>, f: spec_fn(A) -> Option<B>) -> Seq<B>
    decreases s.len(),
{
    if s.len() == 0 {
        Seq::empty()
    } else {
        let before = filter_map_spec(s.drop_last(), f);
        match f(s.last()) {
            Some(b) => before.push(b),
            None => before,
        }
    }
}

pub proof fn lemma_filter_map_step<A, B>(s: Seq<A>, f: spec_fn(A) -> Option<B>, i: int)
    requires
        0 <= i < s.len(),
    ensures
        filter_map_spec(s.take(i + 1), f) == match f(s[i]) {
            Some(b) => filter_map_spec(s.take(i), f).push(b),
            None => filter_map_spec(s.take(i), f),
        },
{
    assert(s.take(i + 1).drop_last() =~= s.take(i));
}

/// A blank line or a comment, which the account files may hold.
pub open spec fn is_skipped_line(line: Seq<char>) -> bool {
    trim(line).len() == 0 || (line.len() > 0 && line[0] == '#')
}

/// A field as `str::parse::<u32>` reads it.
pub open spec fn u32_field(s: Seq<char>) -> Option<u32> {
    match parse_unsigned(s, 10, u32::MAX as nat) {
        Some(v) => Some(v as u32),
        None => None,
    }
}

fn field_u32(s: &str) -> (r: Option<u32>)
    ensures
        r == u32_field(s@),
{
    parse_u32(s)
}

#[derive(Debug, Clone, PartialEq, Eq)]
pub struct PasswdEntry {
    pub name: String,
    pub uid: u32,
    pub gid: u32,
    pub home: String,
    pub shell: String,
}

pub struct PasswdView {
    pub name: Seq<char>,
    pub uid: u32,
    pub gid: u32,
    pub home: Seq<char>,
    pub shell: Seq<char>,
}

impl View for PasswdEntry {
    type V = PasswdView;

    open spec fn view(&self) -> PasswdView {
        PasswdView {
            name: self.name@,
            uid: self.uid,
            gid: self.gid,
            home: self.home@,
            shell: self.shell@,
        }
    }
}

/// The entry an `/etc/passwd` line describes. Blank lines, comments, lines with fewer than
/// seven fields and lines whose ids are not numbers describe none: a lesson may corrupt the
/// file on purpose, and the rest must still be read.
pub open spec fn passwd_line(line: Seq<char>) -> Option<PasswdView> {
    let f = split_on(line, ':');
    if is_skipped_line(line) || f.len() < 7 {
        None
    } else {
        match (u32_field(f[2]), u32_field(f[3])) {
            (Some(uid), Some(gid)) => Some(
                PasswdView { name: f[0], uid, gid, home: f[5], shell: f[6] },
            ),
            _ => None,
        }
    }
}

pub open spec fn passwd_spec(content: Seq<char>) -> Seq<PasswdView> {
    filter_map_spec(lines(content), |l: Seq<char>| passwd_line(l))
}

fn passwd_entry_of(line: &str) -> (r: Option<PasswdEntry>)
    ensures
        match r {
            Some(e) => passwd_line(line@) == Some(e@),
            None => passwd_line(line@) is None,
        },
{
    let t = trimmed(line);
    if t.unicode_len() == 0 || starts_with_char(line, '#') {
        return None;
    }
    let fields = split_chars(&chars_of(line), ':');
    if fields.len() < 7 {
        return None;
    }
    let uid = field_u32(fields[2].as_str());
    let gid = field_u32(fields[3].as_str());
    match (uid, gid) {
        (Some(uid), Some(gid)) => Some(
            PasswdEntry {
                name: fields[0].clone(),
                uid,
                gid,
                home: fields[5].clone(),
                shell: fields[6].clone(),
            },
        ),
        _ => None,
    }
}

/// Parses `/etc/passwd` text. Malformed lines are skipped rather than failing the run.
pub fn parse_passwd(content: &str) -> (r: Result<Vec<PasswdEntry>, String>)
    ensures
        r matches Ok(v) && v@.map_values(|e: PasswdEntry| e@) == passwd_spec(content@),
{
    let ls = lines_of(content);
    let ghost ss = strings_view(ls@);
    let mut out: Vec<PasswdEntry> = Vec::new();
    let mut i: usize = 0;
    while i < ls.len()
        invariant
            i <= ls.len(),
            ss == strings_view(ls@),
            ss == lines(content@),
            out@.map_values(|e: PasswdEntry| e@) == filter_map_spec(
                ss.take(i as int),
                |l: Seq<char>| passwd_line(l),
            ),
        decreases ls.len() - i,
    {
        proof {
            lemma_filter_map_step(ss, |l: Seq<char>| passwd_line(l), i as int);
        }
        let ghost before = out@;
        match passwd_entry_of(ls[i].as_str()) {
            Some(e) => {
                out.push(e);
                assert(out@.map_values(|e: PasswdEntry| e@) =~= before.map_values(
                    |e: PasswdEntry| e@,
                ).push(e@));
            },
            None => {},
        }
        i += 1;
    }
    assert(ss.take(ls.len() as int) =~= ss);
    Ok(out)
}

#[derive(Debug, Clone, PartialEq, Eq)]
pub struct GroupEntry {
    pub name: String,
    pub gid: u32,
    pub members: Vec<String>,
}

pub struct GroupView {
    pub name: Seq<char>,
    pub gid: u32,
    pub members: Seq<Seq<char>>,
}

impl View for GroupEntry {
    type V = GroupView;

    open spec fn view(&self) -> GroupView {
        GroupView { name: self.name@, gid: self.gid, members: strings_view(self.members@) }
    }
}

/// The non-empty names of a comma-separated member list.
pub open spec fn member_names(field: Seq<char>) -> Seq<Seq<char>> {
    filter_map_spec(
        split_on(field, ','),
        |m: Seq<char>|
            if m.len() > 0 {
                Some(m)
            } else {
                None
            },
    )
}

/// The group an `/etc/group` line describes, if it is well formed.
pub open spec fn group_line(line: Seq<char>) -> Option<GroupView> {
    let f = split_on(line, ':');
    if is_skipped_line(line) || f.len() < 4 {
        None
    } else {
        match u32_field(f[2]) {
            Some(gid) => Some(GroupView { name: f[0], gid, members: member_names(f[3]) }),
            None => None,
        }
    }
}

pub open spec fn groups_spec(content: Seq<char>) -> Seq<GroupView> {
    filter_map_spec(lines(content), |l: Seq<char>| group_line(l))
}

fn members_of(field: &str) -> (r: Vec<String>)
    ensures
        strings_view(r@) == member_names(field@),
{
    let pieces = split_chars(&chars_of(field), ',');
    let ghost ps = strings_view(pieces@);
    let mut out: Vec<String> = Vec::new();
    let mut i: usize = 0;
    while i < pieces.len()
        invariant
            i <= pieces.len(),
            ps == strings_view(pieces@),
            ps == split_on(field@, ','),
            strings_view(out@) == filter_map_spec(
                ps.take(i as int),
                |m: Seq<char>|
                    if m.len() > 0 {
                        Some(m)
                    } else {
                        None
                    },
            ),
        decreases pieces.len() - i,
    {
        proof {
            lemma_filter_map_step(
                ps,
                |m: Seq<char>|
                    if m.len() > 0 {
                        Some(m)
                    } else {
                        None
                    },
                i as int,
            );
        }
        let ghost before = out@;
        if pieces[i].unicode_len() > 0 {
            out.push(pieces[i].clone());
            assert(strings_view(out@) =~= strings_view(before).push(ps[i as int]));
        }
        i += 1;
    }
    assert(ps.take(pieces.len() as int) =~= ps);
    out
}

fn group_entry_of(line: &str) -> (r: Option<GroupEntry>)
    ensures
        match r {
            Some(e) => group_line(line@) == Some(e@),
            None => group_line(line@) is None,
        },
{
    let t = trimmed(line);
    if t.unicode_len() == 0 || starts_with_char(line, '#') {
        return None;
    }
    let fields = split_chars(&chars_of(line), ':');
    if fields.len() < 4 {
        return None;
    }
    match field_u32(fields[2].as_str()) {
        Some(gid) => Some(
            GroupEntry {
                name: fields[0].clone(),
                gid,
                members: members_of(fields[3].as_str()),
            },
        ),
        None => None,
    }
}

/// Parses `/etc/group` text, skipping malformed lines.
pub fn parse_groups(content: &str) -> (r: Result<Vec<GroupEntry>, String>)
    ensures
        r matches Ok(v) && v@.map_values(|e: GroupEntry| e@) == groups_spec(content@),
{
    let ls = lines_of(content);
    let ghost ss = strings_view(ls@);
    let mut out: Vec<GroupEntry> = Vec::new();
    let mut i: usize = 0;
    while i < ls.len()
        invariant
            i <= ls.len(),
            ss == strings_view(ls@),
            ss == lines(content@),
            out@.map_values(|e: GroupEntry| e@) == filter_map_spec(
                ss.take(i as int),
                |l: Seq<char>| group_line(l),
            ),
        decreases ls.len() - i,
    {
        proof {
            lemma_filter_map_step(ss, |l: Seq<char>| group_line(l), i as int);
        }
        let ghost before = out@;
        match group_entry_of(ls[i].as_str()) {
            Some(e) => {
                out.push(e);
                assert(out@.map_values(|e: GroupEntry| e@) =~= before.map_values(
                    |e: GroupEntry| e@,
                ).push(e@));
            },
            None => {},
        }
        i += 1;
    }
    assert(ss.take(ls.len() as int) =~= ss);
    Ok(out)
}

/// The uid of the first account named `user`.
pub fn uid_for(user: &str, passwd: &Vec<PasswdEntry>) -> (r: Result<u32, String>)
    ensures
        match r {
            Ok(uid) => exists|i: int|
                0 <= i < passwd@.len() && #[trigger] passwd@[i].name@ == user@ && passwd@[i].uid
                    == uid && forall|j: int| 0 <= j < i ==> passwd@[j].name@ != user@,
            Err(e) => e@ == "no such user "@ + user@ && forall|i: int|
                0 <= i < passwd@.len() ==> #[trigger] passwd@[i].name@ != user@,
        },
{
    let mut i: usize = 0;
    while i < passwd.len()
        invariant
            i <= passwd@.len(),
            forall|j: int| 0 <= j < i ==> #[trigger] passwd@[j].name@ != user@,
        decreases passwd.len() - i,
    {
        if same_text(passwd[i].name.as_str(), user) {
            return Ok(passwd[i].uid);
        }
        i += 1;
    }
    let mut e = owned("no such user ");
    append(&mut e, user);
    Err(e)
}

/// The name of the first account with this uid, if any.
pub open spec fn uid_name(passwd: Seq<PasswdEntry>, uid: u32) -> Option<Seq<char>>
    decreases passwd.len(),
{
    if passwd.len() == 0 {
        None
    } else if passwd[0].uid == uid {
        Some(passwd[0].name@)
    } else {
        uid_name(passwd.drop_first(), uid)
    }
}

/// The name of the first group with this gid, if any.
pub open spec fn gid_name(groups: Seq<GroupEntry>, gid: u32) -> Option<Seq<char>>
    decreases groups.len(),
{
    if groups.len() == 0 {
        None
    } else if groups[0].gid == gid {
        Some(groups[0].name@)
    } else {
        gid_name(groups.drop_first(), gid)
    }
}

/// The name of the first account with this uid.
pub fn user_for_uid(uid: u32, passwd: &Vec<PasswdEntry>) -> (r: Option<String>)
    ensures
        crate::vm_manager::opt_view(r) == uid_name(passwd@, uid),
        match r {
            Some(name) => exists|i: int|
                0 <= i < passwd@.len() && #[trigger] passwd@[i].uid == uid && passwd@[i].name@
                    == name@ && forall|j: int| 0 <= j < i ==> passwd@[j].uid != uid,
            None => forall|i: int| 0 <= i < passwd@.len() ==> #[trigger] passwd@[i].uid != uid,
        },
{
    let mut i: usize = 0;
    assert(passwd@.skip(0) =~= passwd@);
    while i < passwd.len()
        invariant
            i <= passwd@.len(),
            forall|j: int| 0 <= j < i ==> #[trigger] passwd@[j].uid != uid,
            uid_name(passwd@, uid) == uid_name(passwd@.skip(i as int), uid),
        decreases passwd.len() - i,
    {
        assert(passwd@.skip(i as int).drop_first() =~= passwd@.skip(i + 1));
        if passwd[i].uid == uid {
            return Some(passwd[i].name.clone());
        }
        i += 1;
    }
    None
}

/// The name of the first group with this gid.
pub fn group_for_gid(gid: u32, groups: &Vec<GroupEntry>) -> (r: Option<String>)
    ensures
        crate::vm_manager::opt_view(r) == gid_name(groups@, gid),
        match r {
            Some(name) => exists|i: int|
                0 <= i < groups@.len() && #[trigger] groups@[i].gid == gid && groups@[i].name@
                    == name@ && forall|j: int| 0 <= j < i ==> groups@[j].gid != gid,
            None => forall|i: int| 0 <= i < groups@.len() ==> #[trigger] groups@[i].gid != gid,
        },
{
    let mut i: usize = 0;
    assert(groups@.skip(0) =~= groups@);
    while i < groups.len()
        invariant
            i <= groups@.len(),
            forall|j: int| 0 <= j < i ==> #[trigger] groups@[j].gid != gid,
            gid_name(groups@, gid) == gid_name(groups@.skip(i as int), gid),
        decreases groups.len() - i,
    {
        assert(groups@.skip(i as int).drop_first() =~= groups@.skip(i + 1));
        if groups[i].gid == gid {
            return Some(groups[i].name.clone());
        }
        i += 1;
    }
    None
}

/// The primary gid of the first account named `user`, if there is one.
pub open spec fn primary_gid(user: Seq<char>, passwd: Seq<PasswdEntry>) -> Option<u32> {
    if exists|i: int| 0 <= i < passwd.len() && #[trigger] passwd[i].name@ == user {
        let i = choose|i: int|
            0 <= i < passwd.len() && #[trigger] passwd[i].name@ == user && forall|j: int|
                0 <= j < i ==> passwd[j].name@ != user;
        Some(passwd[i].gid)
    } else {
        None
    }
}

/// Whether `user` belongs to the group, as a listed member or through its primary gid.
pub open spec fn in_group(g: GroupEntry, user: Seq<char>, primary: Option<u32>) -> bool {
    strings_view(g.members@).contains(user) || primary == Some(g.gid)
}

/// Strictly increasing in `String` order: sorted, with no name twice.
pub open spec fn strictly_sorted(s: Seq<Seq<char>>) -> bool {
    forall|i: int, j: int| 0 <= i < j < s.len() ==> text_less(#[trigger] s[i], #[trigger] s[j])
}

/// Whether `list` holds `item`.
pub fn contains_text(list: &Vec<String>, item: &str) -> (r: bool)
    ensures
        r == strings_view(list@).contains(item@),
{
    let mut i: usize = 0;
    while i < list.len()
        invariant
            i <= list@.len(),
            forall|j: int| 0 <= j < i ==> list@[j]@ != item@,
        decreases list.len() - i,
    {
        if same_text(list[i].as_str(), item) {
            assert(strings_view(list@)[i as int] == item@);
            return true;
        }
        i += 1;
    }
    assert forall|j: int| 0 <= j < strings_view(list@).len() implies strings_view(list@)[j]
        != item@ by {
        assert(strings_view(list@)[j] == list@[j]@);
    }
    false
}

/// The position of the first account named `user`.
fn first_account(user: &str, passwd: &Vec<PasswdEntry>) -> (r: Option<usize>)
    ensures
        match r {
            Some(i) => i < passwd@.len() && passwd@[i as int].name@ == user@ && forall|j: int|
                0 <= j < i ==> passwd@[j].name@ != user@,
            None => forall|i: int| 0 <= i < passwd@.len() ==> #[trigger] passwd@[i].name@ != user@,
        },
{
    let mut i: usize = 0;
    while i < passwd.len()
        invariant
            i <= passwd@.len(),
            forall|j: int| 0 <= j < i ==> #[trigger] passwd@[j].name@ != user@,
        decreases passwd.len() - i,
    {
        if same_text(passwd[i].name.as_str(), user) {
            return Some(i);
        }
        i += 1;
    }
    None
}

/// Inserts `name` into a strictly sorted list, unless it is there already.
pub fn insert_sorted(list: &mut Vec<String>, name: String)
    requires
        strictly_sorted(strings_view(old(list)@)),
    ensures
        strictly_sorted(strings_view(final(list)@)),
        strings_view(final(list)@).to_set() == strings_view(old(list)@).to_set().insert(name@),
{
    let ghost old_view = strings_view(list@);
    let mut i: usize = 0;
    while i < list.len() && text_less_exec(list[i].as_str(), name.as_str())
        invariant
            i <= list@.len(),
            list@ == old(list)@,
            old_view == strings_view(list@),
            strictly_sorted(old_view),
            forall|j: int| 0 <= j < i ==> text_less(#[trigger] old_view[j], name@),
        decreases list.len() - i,
    {
        i += 1;
    }
    if i < list.len() && same_text(list[i].as_str(), name.as_str()) {
        assert(old_view.to_set().insert(name@) =~= old_view.to_set()) by {
            assert(old_view[i as int] == name@);
        }
        return;
    }
    proof {
        if i < old_view.len() {
            lemma_text_less_total(old_view[i as int], name@);
            assert forall|k: int| i <= k < old_view.len() implies text_less(
                name@,
                #[trigger] old_view[k],
            ) by {
                if k > i {
                    lemma_text_less_transitive(name@, old_view[i as int], old_view[k]);
                }
            }
        }
    }
    let ghost nv = name@;
    list.insert(i, name);
    let ghost new_view = strings_view(list@);
    assert(new_view =~= old_view.insert(i as int, nv));
    assert forall|a: int, b: int| 0 <= a < b < new_view.len() implies text_less(
        #[trigger] new_view[a],
        #[trigger] new_view[b],
    ) by {
        if b < i {
        } else if a < i && b == i {
        } else if a < i && b > i {
            assert(text_less(nv, old_view[b - 1]));
            lemma_text_less_transitive(new_view[a], nv, new_view[b]);
        } else if a == i {
            assert(text_less(nv, old_view[b - 1]));
        } else {
        }
    }
    assert(new_view.to_set() =~= old_view.to_set().insert(nv)) by {
        assert forall|x: Seq<char>| new_view.to_set().contains(x) implies old_view.to_set().insert(
            nv,
        ).contains(x) by {
            let k = choose|k: int| 0 <= k < new_view.len() && new_view[k] == x;
            if k < i {
                assert(old_view[k] == x);
            } else if k > i {
                assert(old_view[k - 1] == x);
            }
        }
        assert forall|x: Seq<char>| old_view.to_set().insert(nv).contains(x) implies new_view.to_set().contains(
            x,
        ) by {
            if x == nv {
                assert(new_view[i as int] == x);
            } else {
                let k = choose|k: int| 0 <= k < old_view.len() && old_view[k] == x;
                if k < i {
                    assert(new_view[k] == x);
                } else {
                    assert(new_view[k + 1] == x);
                }
            }
        }
    }
}

/// The names of the groups `user` belongs to, primary and supplementary.
pub open spec fn user_group_names(
    user: Seq<char>,
    passwd: Seq<PasswdEntry>,
    groups: Seq<GroupEntry>,
) -> Set<Seq<char>> {
    Set::new(
        |n: Seq<char>|
            exists|i: int|
                0 <= i < groups.len() && #[trigger] groups[i].name@ == n && in_group(
                    groups[i],
                    user,
                    primary_gid(user, passwd),
                ),
    )
}

/// Every group a user belongs to, primary and supplementary, sorted and without repeats.
pub fn groups_for_user(user: &str, passwd: &Vec<PasswdEntry>, groups: &Vec<GroupEntry>) -> (r:
    Vec<String>)
    ensures
        strictly_sorted(strings_view(r@)),
        strings_view(r@).to_set() == user_group_names(user@, passwd@, groups@),
{
    let primary = match first_account(user, passwd) {
        Some(i) => Some(passwd[i].gid),
        None => None,
    };
    assert(primary == primary_gid(user@, passwd@)) by {
        if exists|i: int| 0 <= i < passwd@.len() && #[trigger] passwd@[i].name@ == user@ {
            let w = choose|i: int| 0 <= i < passwd@.len() && #[trigger] passwd@[i].name@ == user@;
            lemma_first_exists(user@, passwd@, w);
        }
    }
    let mut names: Vec<String> = Vec::new();
    let mut i: usize = 0;
    while i < groups.len()
        invariant
            i <= groups@.len(),
            primary == primary_gid(user@, passwd@),
            strictly_sorted(strings_view(names@)),
            strings_view(names@).to_set() == Set::new(
                |n: Seq<char>|
                    exists|k: int|
                        0 <= k < i && #[trigger] groups@[k].name@ == n && in_group(
                            groups@[k],
                            user@,
                            primary,
                        ),
            ),
        decreases groups.len() - i,
    {
        let g = &groups[i];
        let member = contains_text(&g.members, user);
        let by_gid = match primary {
            Some(p) => p == g.gid,
            None => false,
        };
        let ghost before = strings_view(names@).to_set();
        if member || by_gid {
            insert_sorted(&mut names, g.name.clone());
        }
        i += 1;
        assert(strings_view(names@).to_set() =~= Set::new(
            |n: Seq<char>|
                exists|k: int|
                    0 <= k < i && #[trigger] groups@[k].name@ == n && in_group(
                        groups@[k],
                        user@,
                        primary,
                    ),
        )) by {
            assert forall|n: Seq<char>| #[trigger] strings_view(names@).to_set().contains(n) implies exists|k: int|
                0 <= k < i && #[trigger] groups@[k].name@ == n && in_group(
                    groups@[k],
                    user@,
                    primary,
                ) by {
                if !before.contains(n) {
                    assert(groups@[i - 1].name@ == n);
                }
            }
        }
    }
    names
}

/// When some account has the name, a first one does.
proof fn lemma_first_exists(user: Seq<char>, passwd: Seq<PasswdEntry>, w: int)
    requires
        0 <= w < passwd.len(),
        passwd[w].name@ == user,
    ensures
        exists|i: int|
            0 <= i < passwd.len() && #[trigger] passwd[i].name@ == user && forall|j: int|
                0 <= j < i ==> passwd[j].name@ != user,
    decreases w,
{
    if exists|j: int| 0 <= j < w && #[trigger] passwd[j].name@ == user {
        let v = choose|j: int| 0 <= j < w && #[trigger] passwd[j].name@ == user;
        lemma_first_exists(user, passwd, v);
    }
}

#[derive(Debug, Clone, Copy, PartialEq, Eq, Structural)]
pub enum FileKind {
    Regular,
    Directory,
    Symlink,
    Fifo,
    Socket,
    Block,
    Char,
    Unknown,
}

/// The file type bits of a mode.
pub open spec fn file_kind_spec(mode: u32) -> FileKind {
    let t = mode & 0o170000u32;
    if t == 0o100000u32 {
        FileKind::Regular
    } else if t == 0o040000u32 {
        FileKind::Directory
    } else if t == 0o120000u32 {
        FileKind::Symlink
    } else if t == 0o010000u32 {
        FileKind::Fifo
    } else if t == 0o140000u32 {
        FileKind::Socket
    } else if t == 0o060000u32 {
        FileKind::Block
    } else if t == 0o020000u32 {
        FileKind::Char
    } else {
        FileKind::Unknown
    }
}

impl FileKind {
    pub open spec fn name_spec(self) -> Seq<char> {
        match self {
            FileKind::Regular => "regular"@,
            FileKind::Directory => "directory"@,
            FileKind::Symlink => "symlink"@,
            FileKind::Fifo => "fifo"@,
            FileKind::Socket => "socket"@,
            FileKind::Block => "block"@,
            FileKind::Char => "char"@,
            FileKind::Unknown => "unknown"@,
        }
    }

    pub fn as_str(&self) -> (r: &'static str)
        ensures
            r@ == self.name_spec(),
    {
        match self {
            FileKind::Regular => "regular",
            FileKind::Directory => "directory",
            FileKind::Symlink => "symlink",
            FileKind::Fifo => "fifo",
            FileKind::Socket => "socket",
            FileKind::Block => "block",
            FileKind::Char => "char",
            FileKind::Unknown => "unknown",
        }
    }

    /// The kind a `st_mode` value's type bits name.
    pub fn from_mode(mode: u32) -> (r: FileKind)
        ensures
            r == file_kind_spec(mode),
    {
        let t = mode & 0o170000u32;
        if t == 0o100000u32 {
            FileKind::Regular
        } else if t == 0o040000u32 {
            FileKind::Directory
        } else if t == 0o120000u32 {
            FileKind::Symlink
        } else if t == 0o010000u32 {
            FileKind::Fifo
        } else if t == 0o140000u32 {
            FileKind::Socket
        } else if t == 0o060000u32 {
            FileKind::Block
        } else if t == 0o020000u32 {
            FileKind::Char
        } else {
            FileKind::Unknown
        }
    }
}

/// What `lstat` or `stat` reports about a path.
#[derive(Debug, Clone, PartialEq, Eq)]
pub struct FileFacts {
    pub kind: FileKind,
    /// Permission and special bits only, i.e. mode & 0o7777.
    pub permissions: u32,
    pub size: u64,
    pub uid: u32,
    pub gid: u32,
    pub inode: u64,
}

pub open spec fn octal_digit(d: nat) -> char {
    (('0' as u32) + d) as char
}

/// The permission and special bits of a mode as four octal digits (`{:04o}`).
pub open spec fn format_mode_spec(mode: u32) -> Seq<char> {
    let m = (mode & 0o7777u32) as nat;
    seq![octal_digit(m / 512), octal_digit(m / 64 % 8), octal_digit(m / 8 % 8), octal_digit(m % 8)]
}

fn octal_char(d: u32) -> (c: char)
    requires
        d < 8,
    ensures
        c == octal_digit(d as nat),
{
    match d {
        0 => '0',
        1 => '1',
        2 => '2',
        3 => '3',
        4 => '4',
        5 => '5',
        6 => '6',
        _ => '7',
    }
}

pub fn format_mode(mode: u32) -> (r: String)
    ensures
        r@ == format_mode_spec(mode),
{
    let m = mode & 0o7777u32;
    assert(m <= 0o7777u32) by (bit_vector)
        requires
            m == mode & 0o7777u32,
    ;
    let mut v: Vec<char> = Vec::new();
    v.push(octal_char(m / 512));
    v.push(octal_char(m / 64 % 8));
    v.push(octal_char(m / 8 % 8));
    v.push(octal_char(m % 8));
    assert(v@ =~= format_mode_spec(mode));
    string_of(&v)
}

/// `s` with every leading copy of `prefix` removed (`str::trim_start_matches`).
pub open spec fn strip_repeated_prefix(s: Seq<char>, prefix: Seq<char>) -> Seq<char>
    decreases s.len(),
{
    if prefix.len() > 0 && prefix.len() <= s.len() && s.take(prefix.len() as int) == prefix {
        strip_repeated_prefix(s.skip(prefix.len() as int), prefix)
    } else {
        s
    }
}

/// A mode written as text (`"0644"`, `"644"`, `"0o600"`) or as a JSON number (420): the text
/// is read as octal after trimming and dropping `0o`; a non-negative integer is taken as
/// `u32` (wrapping, as `as u32` does).
pub open spec fn parse_mode_spec(value: ParamValue) -> Option<u32> {
    match value {
        ParamValue::String(s) => match parse_unsigned(
            strip_repeated_prefix(trim(s@), "0o"@),
            8,
            u32::MAX as nat,
        ) {
            Some(v) => Some(v as u32),
            None => None,
        },
        ParamValue::Integer(i) => if i >= 0 {
            Some((i % 0x1_0000_0000) as u32)
        } else {
            None
        },
        ParamValue::Unsigned(u) => Some((u % 0x1_0000_0000) as u32),
        _ => None,
    }
}

/// Accepts a mode written as `"0644"`, `"644"`, `"0o600"` or the number 420, since lesson
/// authors and JSON both have opinions about leading zeros.
pub fn parse_mode(value: &ParamValue) -> (r: Option<u32>)
    ensures
        r == parse_mode_spec(*value),
{
    match value {
        ParamValue::String(s) => {
            let t = trimmed(s.as_str());
            let body = strip_octal_prefix(t.as_str());
            let chars = chars_of(body.as_str());
            match crate::text::parse_unsigned_chars(&chars, 8, u32::MAX as u64) {
                Some(v) => Some(v as u32),
                None => None,
            }
        },
        ParamValue::Integer(i) => {
            if *i >= 0 {
                let u = *i as u64;
                Some((u % 0x1_0000_0000) as u32)
            } else {
                None
            }
        },
        ParamValue::Unsigned(u) => Some((*u % 0x1_0000_0000) as u32),
        _ => None,
    }
}

/// What the agent reads about one process.
#[derive(Debug, Clone, PartialEq, Eq)]
pub struct ProcessFacts {
    pub pid: u32,
    pub ppid: u32,
    pub uid: u32,
    /// Full command line with arguments separated by single spaces.
    pub cmdline: String,
    /// The executable name from `/proc/<pid>/stat`, which survives an empty cmdline.
    pub comm: String,
    pub session_id: u32,
    /// Foreground process group of the controlling terminal, or -1.
    pub tpgid: i32,
    pub pgrp: u32,
}

impl ProcessFacts {
    /// What validator patterns are matched against: the command line when there is one,
    /// the executable name otherwise (kernel threads, processes that scrubbed their argv).
    pub fn match_text(&self) -> (r: &str)
        ensures
            r@ == if trim(self.cmdline@).len() == 0 {
                self.comm@
            } else {
                self.cmdline@
            },
    {
        let t = trimmed(self.cmdline.as_str());
        if t.unicode_len() == 0 {
            self.comm.as_str()
        } else {
            self.cmdline.as_str()
        }
    }

    /// An equal copy.
    pub fn duplicate(&self) -> (r: ProcessFacts)
        ensures
            r == *self,
    {
        ProcessFacts {
            pid: self.pid,
            ppid: self.ppid,
            uid: self.uid,
            cmdline: self.cmdline.clone(),
            comm: self.comm.clone(),
            session_id: self.session_id,
            tpgid: self.tpgid,
            pgrp: self.pgrp,
        }
    }
}

/// The position of the first `c` in `s`.
#[verifier::opaque]
pub open spec fn first_index(s: Seq<char>, c: char) -> Option<int> {
    if exists|i: int| 0 <= i < s.len() && s[i] == c {
        Some(choose|i: int| 0 <= i < s.len() && s[i] == c && forall|j: int| 0 <= j < i ==> s[j] != c)
    } else {
        None
    }
}

/// The position of the last `c` in `s`.
#[verifier::opaque]
pub open spec fn last_index(s: Seq<char>, c: char) -> Option<int> {
    if exists|i: int| 0 <= i < s.len() && s[i] == c {
        Some(choose|i: int| 0 <= i < s.len() && s[i] == c && forall|j: int| i < j < s.len() ==> s[j] != c)
    } else {
        None
    }
}

proof fn lemma_first_index(s: Seq<char>, c: char, i: int)
    requires
        0 <= i < s.len(),
        s[i] == c,
        forall|j: int| 0 <= j < i ==> s[j] != c,
    ensures
        first_index(s, c) == Some(i),
{
    reveal(first_index);
    let k = choose|k: int| 0 <= k < s.len() && s[k] == c && forall|j: int| 0 <= j < k ==> s[j] != c;
    assert(k == i) by {
        if k < i {
            assert(s[k] != c);
        }
        if i < k {
            assert(s[i] != c);
        }
    }
}

proof fn lemma_last_index(s: Seq<char>, c: char, i: int)
    requires
        0 <= i < s.len(),
        s[i] == c,
        forall|j: int| i < j < s.len() ==> s[j] != c,
    ensures
        last_index(s, c) == Some(i),
{
    reveal(last_index);
    let k = choose|k: int| 0 <= k < s.len() && s[k] == c && forall|j: int| k < j < s.len() ==> s[j] != c;
    assert(k == i) by {
        if k < i {
            assert(s[i] != c);
        }
        if i < k {
            assert(s[k] != c);
        }
    }
}

/// The position of the first `c` in `s`.
fn find_first(s: &Vec<char>, c: char) -> (r: Option<usize>)
    ensures
        match r {
            Some(i) => i < s@.len() && s@[i as int] == c && first_index(s@, c) == Some(i as int),
            None => first_index(s@, c) is None,
        },
{
    let mut i: usize = 0;
    while i < s.len()
        invariant
            i <= s@.len(),
            forall|j: int| 0 <= j < i ==> s@[j] != c,
        decreases s.len() - i,
    {
        if s[i] == c {
            proof {
                lemma_first_index(s@, c, i as int);
            }
            return Some(i);
        }
        i += 1;
    }
    proof {
        reveal(first_index);
    }
    None
}

/// The position of the last `c` in `s`.
fn find_last(s: &Vec<char>, c: char) -> (r: Option<usize>)
    ensures
        match r {
            Some(i) => i < s@.len() && s@[i as int] == c && last_index(s@, c) == Some(i as int),
            None => last_index(s@, c) is None,
        },
{
    let mut i: usize = s.len();
    while i > 0
        invariant
            i <= s@.len(),
            forall|j: int| i <= j < s@.len() ==> s@[j] != c,
        decreases i,
    {
        if s[i - 1] == c {
            proof {
                lemma_last_index(s@, c, i - 1);
            }
            return Some(i - 1);
        }
        i -= 1;
    }
    proof {
        reveal(last_index);
    }
    None
}

/// `/proc/<pid>/stat` split around the comm field: the text between the first `(` and the
/// last `)`, and what follows, without leading white space. The comm may itself hold spaces
/// and parentheses, which is why the line is not split on white space.
pub open spec fn split_proc_stat_spec(stat: Seq<char>) -> Option<(Seq<char>, Seq<char>)> {
    match (first_index(stat, '('), last_index(stat, ')')) {
        (Some(open), Some(close)) => if close < open {
            None
        } else {
            Some((stat.subrange(open + 1, close), crate::text::trim_start(stat.skip(close + 1))))
        },
        _ => None,
    }
}

pub fn split_proc_stat(stat: &str) -> (r: Option<(String, String)>)
    ensures
        match r {
            Some((comm, rest)) => split_proc_stat_spec(stat@) == Some((comm@, rest@)),
            None => split_proc_stat_spec(stat@) is None,
        },
{
    let chars = chars_of(stat);
    let open = match find_first(&chars, '(') {
        Some(i) => i,
        None => return None,
    };
    let close = match find_last(&chars, ')') {
        Some(i) => i,
        None => return None,
    };
    if close < open {
        return None;
    }
    assert(open < close);
    let mut comm: Vec<char> = Vec::new();
    let mut i: usize = open + 1;
    while i < close
        invariant
            open < i <= close < chars@.len(),
            comm@ == chars@.subrange(open + 1, i as int),
        decreases close - i,
    {
        comm.push(chars[i]);
        i += 1;
        assert(comm@ =~= chars@.subrange(open + 1, i as int));
    }
    assert(close < chars.len());
    let tail = crate::text::chars_from(&chars, close + 1);
    let tail_text = string_of(&tail);
    let rest = crate::text::trim_start_text(tail_text.as_str());
    Some((string_of(&comm), rest))
}

pub open spec fn is_uid_line(l: Seq<char>) -> bool {
    crate::text::starts_with(l, "Uid:"@)
}

/// The position of the first `Uid:` line.
pub open spec fn first_uid_line(ls: Seq<Seq<char>>) -> Option<int> {
    if exists|i: int| 0 <= i < ls.len() && is_uid_line(#[trigger] ls[i]) {
        Some(
            choose|i: int|
                0 <= i < ls.len() && is_uid_line(#[trigger] ls[i]) && forall|j: int|
                    0 <= j < i ==> !is_uid_line(#[trigger] ls[j]),
        )
    } else {
        None
    }
}

/// The real uid from `/proc/<pid>/status`: the second word of the first `Uid:` line.
pub open spec fn status_uid_spec(status: Seq<char>) -> Option<u32> {
    let ls = lines(status);
    match first_uid_line(ls) {
        Some(i) => {
            let ws = crate::text::words(ls[i]);
            if ws.len() >= 2 {
                u32_field(ws[1])
            } else {
                None
            }
        },
        None => None,
    }
}

pub fn parse_status_uid(status: &str) -> (r: Option<u32>)
    ensures
        r == status_uid_spec(status@),
{
    let ls = lines_of(status);
    let ghost ss = strings_view(ls@);
    let prefix = chars_of("Uid:");
    let mut i: usize = 0;
    while i < ls.len()
        invariant
            i <= ls@.len(),
            ss == strings_view(ls@),
            ss == lines(status@),
            prefix@ == "Uid:"@,
            forall|j: int| 0 <= j < i ==> !is_uid_line(#[trigger] ss[j]),
        decreases ls.len() - i,
    {
        let line = chars_of(ls[i].as_str());
        assert(ss[i as int] == ls@[i as int]@);
        if crate::text::starts_with_chars(&line, &prefix) {
            proof {
                assert(is_uid_line(ss[i as int]));
                let k = choose|k: int|
                    0 <= k < ss.len() && is_uid_line(#[trigger] ss[k]) && forall|j: int|
                        0 <= j < k ==> !is_uid_line(#[trigger] ss[j]);
                assert(k == i) by {
                    if k < i {
                        assert(!is_uid_line(ss[k]));
                    }
                    if i < k {
                        assert(!is_uid_line(ss[i as int]));
                    }
                }
            }
            let ws = crate::text::words_of(ls[i].as_str());
            if ws.len() >= 2 {
                assert(strings_view(ws@)[1] == ws@[1]@);
                return field_u32(ws[1].as_str());
            }
            return None;
        }
        i += 1;
    }
    None
}

/// The shells a login session can run.
pub open spec fn is_shell_spec(comm: Seq<char>) -> bool {
    comm == "bash"@ || comm == "sh"@ || comm == "dash"@ || comm == "-bash"@
}

pub fn is_shell(comm: &str) -> (r: bool)
    ensures
        r == is_shell_spec(comm@),
{
    same_text(comm, "bash") || same_text(comm, "sh") || same_text(comm, "dash") || same_text(
        comm,
        "-bash",
    )
}

/// A process that may be the learner's login shell.
pub open spec fn is_shell_of(p: ProcessFacts, uid: u32) -> bool {
    p.uid == uid && is_shell_spec(p.comm@)
}

/// The uid of the first account named `user`.
pub open spec fn account_uid(user: Seq<char>, passwd: Seq<PasswdEntry>) -> Option<u32> {
    if exists|i: int| 0 <= i < passwd.len() && #[trigger] passwd[i].name@ == user {
        let i = choose|i: int|
            0 <= i < passwd.len() && #[trigger] passwd[i].name@ == user && forall|j: int|
                0 <= j < i ==> passwd[j].name@ != user;
        Some(passwd[i].uid)
    } else {
        None
    }
}

/// Which process is the login shell of the user with this uid, by position: the first
/// session leader among the user's shells, else the last of those with the highest pid
/// (the most recently started).
pub open spec fn login_shell_index(uid: u32, ps: Seq<ProcessFacts>) -> Option<int> {
    if exists|i: int| 0 <= i < ps.len() && is_shell_of(#[trigger] ps[i], uid) && ps[i].pid == ps[i].session_id {
        Some(
            choose|i: int|
                0 <= i < ps.len() && is_shell_of(#[trigger] ps[i], uid) && ps[i].pid
                    == ps[i].session_id && forall|j: int|
                    0 <= j < i ==> !(is_shell_of(#[trigger] ps[j], uid) && ps[j].pid == ps[j].session_id),
        )
    } else if exists|i: int| 0 <= i < ps.len() && is_shell_of(#[trigger] ps[i], uid) {
        Some(
            choose|i: int|
                0 <= i < ps.len() && is_shell_of(#[trigger] ps[i], uid) && (forall|j: int|
                    0 <= j < ps.len() && is_shell_of(#[trigger] ps[j], uid) ==> ps[j].pid <= ps[i].pid)
                    && (forall|j: int|
                    i < j < ps.len() && is_shell_of(#[trigger] ps[j], uid) ==> ps[j].pid < ps[i].pid),
        )
    } else {
        None
    }
}

/// The learner's interactive login shell among `processes`. The session leader is
/// preferred, because that is the shell attached to the serial console rather than a
/// subshell a script spawned.
pub fn find_login_shell(user: &str, passwd: &Vec<PasswdEntry>, processes: &Vec<ProcessFacts>) -> (r:
    Option<ProcessFacts>)
    ensures
        match account_uid(user@, passwd@) {
            None => r is None,
            Some(uid) => match login_shell_index(uid, processes@) {
                Some(i) => r == Some(processes@[i]),
                None => r is None,
            },
        },
{
    let first = first_account(user, passwd);
    let uid = match first {
        Some(i) => passwd[i].uid,
        None => {
            return None;
        },
    };
    assert(account_uid(user@, passwd@) == Some(uid)) by {
        let i = first->0 as int;
        let k = choose|k: int|
            0 <= k < passwd@.len() && #[trigger] passwd@[k].name@ == user@ && forall|j: int|
                0 <= j < k ==> passwd@[j].name@ != user@;
        assert(k == i) by {
            if k < i {
                assert(passwd@[k].name@ != user@);
            }
            if i < k {
                assert(passwd@[i].name@ != user@);
            }
        }
    }
    let ghost ps = processes@;
    let mut leader: Option<usize> = None;
    let mut best: Option<usize> = None;
    let mut i: usize = 0;
    while i < processes.len()
        invariant
            i <= ps.len(),
            ps == processes@,
            match leader {
                Some(l) => l < i && is_shell_of(ps[l as int], uid) && ps[l as int].pid
                    == ps[l as int].session_id && forall|j: int|
                    0 <= j < l ==> !(is_shell_of(#[trigger] ps[j], uid) && ps[j].pid == ps[j].session_id),
                None => forall|j: int|
                    0 <= j < i ==> !(is_shell_of(#[trigger] ps[j], uid) && ps[j].pid == ps[j].session_id),
            },
            match best {
                Some(b) => b < i && is_shell_of(ps[b as int], uid) && (forall|j: int|
                    0 <= j < i && is_shell_of(#[trigger] ps[j], uid) ==> ps[j].pid <= ps[b as int].pid)
                    && (forall|j: int|
                    b < j < i && is_shell_of(#[trigger] ps[j], uid) ==> ps[j].pid < ps[b as int].pid),
                None => forall|j: int| 0 <= j < i ==> !is_shell_of(#[trigger] ps[j], uid),
            },
        decreases ps.len() - i,
    {
        let p = &processes[i];
        if p.uid == uid && is_shell(p.comm.as_str()) {
            if leader.is_none() && p.pid == p.session_id {
                leader = Some(i);
            }
            let better = match best {
                Some(b) => p.pid >= processes[b].pid,
                None => true,
            };
            if better {
                best = Some(i);
            }
        }
        i += 1;
    }
    match leader {
        Some(l) => {
            proof {
                let k = choose|k: int|
                    0 <= k < ps.len() && is_shell_of(#[trigger] ps[k], uid) && ps[k].pid
                        == ps[k].session_id && forall|j: int|
                        0 <= j < k ==> !(is_shell_of(#[trigger] ps[j], uid) && ps[j].pid
                            == ps[j].session_id);
                assert(k == l) by {
                    if k < l {
                        assert(!(is_shell_of(ps[k], uid) && ps[k].pid == ps[k].session_id));
                    }
                    if (l as int) < k {
                        assert(!(is_shell_of(ps[l as int], uid) && ps[l as int].pid
                            == ps[l as int].session_id));
                    }
                }
            }
            Some(processes[l].duplicate())
        },
        None => match best {
            Some(b) => {
                proof {
                    assert(is_shell_of(ps[b as int], uid));
                    let k = choose|k: int|
                        0 <= k < ps.len() && is_shell_of(#[trigger] ps[k], uid) && (forall|j: int|
                            0 <= j < ps.len() && is_shell_of(#[trigger] ps[j], uid) ==> ps[j].pid
                                <= ps[k].pid) && (forall|j: int|
                            k < j < ps.len() && is_shell_of(#[trigger] ps[j], uid) ==> ps[j].pid
                                < ps[k].pid);
                    assert(k == b) by {
                        if k < b {
                            assert(ps[b as int].pid < ps[k].pid);
                            assert(ps[k].pid <= ps[b as int].pid);
                        }
                        if (b as int) < k {
                            assert(ps[k].pid < ps[b as int].pid);
                            assert(ps[b as int].pid <= ps[k].pid);
                        }
                    }
                }
                Some(processes[b].duplicate())
            },
            None => None,
        },
    }
}

#[derive(Debug, Clone, PartialEq, Eq)]
pub struct SocketFacts {
    pub local_address: String,
    pub port: u16,
    pub listening: bool,
    pub inode: u64,
}

pub struct SocketView {
    pub local_address: Seq<char>,
    pub port: u16,
    pub listening: bool,
    pub inode: u64,
}

impl View for SocketFacts {
    type V = SocketView;

    open spec fn view(&self) -> SocketView {
        SocketView {
            local_address: self.local_address@,
            port: self.port,
            listening: self.listening,
            inode: self.inode,
        }
    }
}

/// Byte `k` (0 to 3) of a 32-bit word stored little-endian.
pub open spec fn le_byte(raw: nat, k: int) -> nat {
    if k == 0 {
        raw % 256
    } else if k == 1 {
        raw / 256 % 256
    } else if k == 2 {
        raw / 65536 % 256
    } else {
        raw / 16777216 % 256
    }
}

/// A number in lower-case hexadecimal without leading zeros (`{:x}`).
pub open spec fn hex_plain(n: nat) -> Seq<char>
    decreases n,
{
    if n < 16 {
        seq![crate::vm_manager::hex_digit(n)]
    } else {
        hex_plain(n / 16).push(crate::vm_manager::hex_digit(n % 16))
    }
}

/// An IPv4 address stored as one little-endian word, dotted.
pub open spec fn ipv4_text(raw: nat) -> Seq<char> {
    crate::text::decimal(le_byte(raw, 0)) + "."@ + crate::text::decimal(le_byte(raw, 1)) + "."@
        + crate::text::decimal(le_byte(raw, 2)) + "."@ + crate::text::decimal(le_byte(raw, 3))
}

/// The sixteen bytes of an IPv6 address stored as four little-endian words.
pub open spec fn ipv6_bytes(words: Seq<nat>) -> Seq<nat> {
    Seq::new(16, |i: int| le_byte(words[i / 4], i % 4))
}

/// The eight 16-bit groups of an address, big-endian within a group.
pub open spec fn ipv6_groups(bytes: Seq<nat>) -> Seq<nat> {
    Seq::new(8, |g: int| bytes[2 * g] * 256 + bytes[2 * g + 1])
}

/// An IPv6 address: `::` when all zero, else its groups in hexadecimal joined by `:`.
pub open spec fn ipv6_text(words: Seq<nat>) -> Seq<char> {
    let bytes = ipv6_bytes(words);
    if forall|i: int| 0 <= i < 16 ==> bytes[i] == 0 {
        "::"@
    } else {
        crate::text::join(ipv6_groups(bytes).map_values(|g: nat| hex_plain(g)), ":"@)
    }
}

/// A hex word as `u32::from_str_radix(_, 16)` reads it.
pub open spec fn hex_word(s: Seq<char>) -> Option<nat> {
    parse_unsigned(s, 16, u32::MAX as nat)
}

/// A `/proc/net` address column decoded: eight hex digits are IPv4, thirty-two are IPv6;
/// anything else, or what does not parse, is shown as it is.
pub open spec fn decode_hex_address_spec(hex: Seq<char>) -> Seq<char> {
    if hex.len() == 8 {
        match hex_word(hex) {
            Some(raw) => ipv4_text(raw),
            None => hex,
        }
    } else if hex.len() == 32 {
        let parts = Seq::new(4, |w: int| hex_word(hex.subrange(8 * w, 8 * w + 8)));
        if forall|w: int| 0 <= w < 4 ==> (#[trigger] parts[w]) is Some {
            ipv6_text(Seq::new(4, |w: int| parts[w]->0))
        } else {
            hex
        }
    } else {
        hex
    }
}

fn hex_plain_string(n: u32) -> (r: String)
    ensures
        r@ == hex_plain(n as nat),
    decreases n,
{
    let mut r = if n >= 16 {
        hex_plain_string(n / 16)
    } else {
        String::new()
    };
    let d = (n % 16) as u8;
    let c = hex_digit_char(d);
    crate::text::push_char(&mut r, c);
    proof {
        if n >= 16 {
            assert(hex_plain(n as nat) == hex_plain((n / 16) as nat).push(
                crate::vm_manager::hex_digit((n % 16) as nat),
            ));
        }
    }
    assert(r@ =~= hex_plain(n as nat));
    r
}

fn hex_digit_char(d: u8) -> (c: char)
    requires
        d < 16,
    ensures
        c == crate::vm_manager::hex_digit(d as nat),
{
    match d {
        0 => '0',
        1 => '1',
        2 => '2',
        3 => '3',
        4 => '4',
        5 => '5',
        6 => '6',
        7 => '7',
        8 => '8',
        9 => '9',
        10 => 'a',
        11 => 'b',
        12 => 'c',
        13 => 'd',
        14 => 'e',
        _ => 'f',
    }
}

fn parse_hex_word(s: &Vec<char>) -> (r: Option<u32>)
    ensures
        match r {
            Some(v) => hex_word(s@) == Some(v as nat),
            None => hex_word(s@) is None,
        },
{
    match crate::text::parse_unsigned_chars(s, 16, u32::MAX as u64) {
        Some(v) => Some(v as u32),
        None => None,
    }
}

fn le_byte_exec(raw: u32, k: u32) -> (r: u32)
    requires
        k < 4,
    ensures
        r == le_byte(raw as nat, k as int),
        r < 256,
{
    if k == 0 {
        raw % 256
    } else if k == 1 {
        raw / 256 % 256
    } else if k == 2 {
        raw / 65536 % 256
    } else {
        raw / 16777216 % 256
    }
}

/// Decodes a `/proc/net` address column.
pub fn decode_hex_address(hex: &str) -> (r: String)
    ensures
        r@ == decode_hex_address_spec(hex@),
{
    let chars = chars_of(hex);
    if chars.len() == 8 {
        match parse_hex_word(&chars) {
            Some(raw) => {
                let mut out = crate::text::decimal_string(le_byte_exec(raw, 0) as u64);
                let mut k: u32 = 1;
                while k < 4
                    invariant
                        1 <= k <= 4,
                        out@ == ipv4_prefix(raw as nat, k as int),
                    decreases 4 - k,
                {
                    append(&mut out, ".");
                    let part = crate::text::decimal_string(le_byte_exec(raw, k) as u64);
                    append(&mut out, part.as_str());
                    k += 1;
                }
                assert(out@ =~= ipv4_text(raw as nat)) by {
                    reveal_with_fuel(ipv4_prefix, 4);
                }
                out
            },
            None => owned(hex),
        }
    } else if chars.len() == 32 {
        let ghost parts = Seq::new(4, |w: int| hex_word(hex@.subrange(8 * w, 8 * w + 8)));
        let mut words: Vec<u32> = Vec::new();
        let mut w: usize = 0;
        while w < 4
            invariant
                w <= 4,
                chars@ == hex@,
                chars@.len() == 32,
                words@.len() == w,
                parts == Seq::new(4, |w: int| hex_word(hex@.subrange(8 * w, 8 * w + 8))),
                forall|j: int| 0 <= j < w ==> parts[j] == Some(words@[j] as nat),
            decreases 4 - w,
        {
            let piece = crate::text::chars_from_to(&chars, 8 * w, 8 * w + 8);
            match parse_hex_word(&piece) {
                Some(v) => {
                    words.push(v);
                },
                None => {
                    assert(parts[w as int] is None);
                    return owned(hex);
                },
            }
            w += 1;
        }
        let ghost ws = Seq::new(4, |w: int| parts[w]->0);
        assert forall|j: int| 0 <= j < 4 implies ws[j] == words@[j] as nat by {}
        let mut bytes: Vec<u32> = Vec::new();
        let mut b: usize = 0;
        while b < 16
            invariant
                b <= 16,
                words@.len() == 4,
                forall|j: int| 0 <= j < 4 ==> ws[j] == words@[j] as nat,
                bytes@.len() == b,
                forall|j: int| 0 <= j < b ==> bytes@[j] as nat == #[trigger] ipv6_bytes(ws)[j],
                forall|j: int| 0 <= j < b ==> bytes@[j] < 256,
            decreases 16 - b,
        {
            let v = le_byte_exec(words[b / 4], (b % 4) as u32);
            bytes.push(v);
            b += 1;
        }
        let ghost bs = ipv6_bytes(ws);
        let mut all_zero = true;
        let mut z: usize = 0;
        while z < 16
            invariant
                z <= 16,
                bytes@.len() == 16,
                forall|j: int| 0 <= j < 16 ==> bytes@[j] as nat == #[trigger] bs[j],
                all_zero == forall|j: int| 0 <= j < z ==> bs[j] == 0,
            decreases 16 - z,
        {
            assert(bytes@[z as int] as nat == bs[z as int]);
            if bytes[z] != 0 {
                all_zero = false;
            }
            z += 1;
        }
        assert(ws =~= Seq::new(4, |w: int| parts[w]->0));
        if all_zero {
            return owned("::");
        }
        let mut groups: Vec<String> = Vec::new();
        let mut g: usize = 0;
        while g < 8
            invariant
                g <= 8,
                bytes@.len() == 16,
                forall|j: int| 0 <= j < 16 ==> bytes@[j] as nat == #[trigger] bs[j],
                forall|j: int| 0 <= j < 16 ==> bytes@[j] < 256,
                strings_view(groups@) == ipv6_groups(bs).map_values(|v: nat| hex_plain(v)).take(g as int),
            decreases 8 - g,
        {
            assert(bytes@[2 * g] as nat == bs[2 * g] && bytes@[2 * g + 1] as nat == bs[2 * g + 1]);
            let value = bytes[2 * g] * 256 + bytes[2 * g + 1];
            assert(value as nat == ipv6_groups(bs)[g as int]);
            let text = hex_plain_string(value);
            let ghost before = strings_view(groups@);
            groups.push(text);
            assert(strings_view(groups@) =~= before.push(hex_plain(ipv6_groups(bs)[g as int])));
            assert(ipv6_groups(bs).len() == 8);
            assert(ipv6_groups(bs).map_values(|v: nat| hex_plain(v))[g as int] == hex_plain(
                ipv6_groups(bs)[g as int],
            ));
            assert(strings_view(groups@) =~= ipv6_groups(bs).map_values(|v: nat| hex_plain(v)).take(
                g + 1,
            ));
            g += 1;
        }
        assert(ipv6_groups(bs).map_values(|v: nat| hex_plain(v)).take(8) =~= ipv6_groups(bs).map_values(
            |v: nat| hex_plain(v),
        ));
        crate::text::join_strings(&groups, ":")
    } else {
        owned(hex)
    }
}

/// The first `k` bytes of a dotted IPv4 address.
pub open spec fn ipv4_prefix(raw: nat, k: int) -> Seq<char>
    decreases k,
{
    if k <= 1 {
        crate::text::decimal(le_byte(raw, 0))
    } else {
        ipv4_prefix(raw, k - 1) + "."@ + crate::text::decimal(le_byte(raw, k - 1))
    }
}

/// `str::split_once` on a character: the text before its first occurrence and after it.
pub open spec fn split_once_spec(s: Seq<char>, c: char) -> Option<(Seq<char>, Seq<char>)> {
    match first_index(s, c) {
        Some(k) => Some((s.take(k), s.skip(k + 1))),
        None => None,
    }
}

/// The `st` column of a listening TCP socket (`0A`, compared ignoring ASCII case).
pub open spec fn is_listen_state(s: Seq<char>) -> bool {
    s == "0A"@ || s == "0a"@
}

/// A field as `str::parse::<u64>` reads it, or zero.
pub open spec fn u64_or_zero(s: Seq<char>) -> u64 {
    match parse_unsigned(s, 10, u64::MAX as nat) {
        Some(v) => v as u64,
        None => 0,
    }
}

/// The socket a `/proc/net/{tcp,udp}` row describes. UDP has no listen state, so a bound UDP
/// socket counts as listening.
pub open spec fn socket_line(line: Seq<char>, is_udp: bool) -> Option<SocketView> {
    let f = crate::text::words(line);
    if f.len() < 10 {
        None
    } else {
        match split_once_spec(f[1], ':') {
            Some((address, port)) => match parse_unsigned(port, 16, u16::MAX as nat) {
                Some(port) => Some(
                    SocketView {
                        local_address: decode_hex_address_spec(address),
                        port: port as u16,
                        listening: is_udp || is_listen_state(f[3]),
                        inode: u64_or_zero(f[9]),
                    },
                ),
                None => None,
            },
            None => None,
        }
    }
}

/// The rows of a table: every line but the header.
pub open spec fn table_rows(ls: Seq<Seq<char>>) -> Seq<Seq<char>> {
    if ls.len() > 0 {
        ls.skip(1)
    } else {
        ls
    }
}

pub open spec fn proc_net_spec(content: Seq<char>, is_udp: bool) -> Seq<SocketView> {
    filter_map_spec(table_rows(lines(content)), |l: Seq<char>| socket_line(l, is_udp))
}

fn socket_of(line: &str, is_udp: bool) -> (r: Option<SocketFacts>)
    ensures
        match r {
            Some(s) => socket_line(line@, is_udp) == Some(s@),
            None => socket_line(line@, is_udp) is None,
        },
{
    let fields = crate::text::words_of(line);
    let ghost f = strings_view(fields@);
    if fields.len() < 10 {
        return None;
    }
    assert(f[1] == fields@[1]@ && f[3] == fields@[3]@ && f[9] == fields@[9]@);
    let column = chars_of(fields[1].as_str());
    let colon = match find_first(&column, ':') {
        Some(k) => k,
        None => {
            return None;
        },
    };
    let address = crate::text::chars_from_to(&column, 0, colon);
    assert(colon < column.len());
    let port_text = crate::text::chars_from(&column, colon + 1);
    assert(address@ =~= column@.take(colon as int));
    let port = match crate::text::parse_unsigned_chars(&port_text, 16, u16::MAX as u64) {
        Some(p) => p as u16,
        None => {
            return None;
        },
    };
    let state = fields[3].as_str();
    let listening = is_udp || same_text(state, "0A") || same_text(state, "0a");
    let inode_chars = chars_of(fields[9].as_str());
    let inode = match crate::text::parse_unsigned_chars(&inode_chars, 10, u64::MAX) {
        Some(v) => v,
        None => 0,
    };
    let address_text = string_of(&address);
    Some(
        SocketFacts {
            local_address: decode_hex_address(address_text.as_str()),
            port,
            listening,
            inode,
        },
    )
}

/// Sockets from `/proc/net/tcp` (or `udp`) text. The table uses hex, per-word little-endian
/// addresses and a numeric state column; `0A` is LISTEN.
pub fn parse_proc_net(content: &str, is_udp: bool) -> (r: Vec<SocketFacts>)
    ensures
        r@.map_values(|s: SocketFacts| s@) == proc_net_spec(content@, is_udp),
{
    let ls = lines_of(content);
    let ghost all = strings_view(ls@);
    let ghost rows = table_rows(all);
    let mut out: Vec<SocketFacts> = Vec::new();
    if ls.len() == 0 {
        assert(out@.map_values(|s: SocketFacts| s@) =~= proc_net_spec(content@, is_udp));
        return out;
    }
    let mut i: usize = 1;
    assert(rows.take(0) =~= Seq::<Seq<char>>::empty());
    while i < ls.len()
        invariant
            1 <= i <= ls@.len(),
            all == strings_view(ls@),
            all == lines(content@),
            rows == all.skip(1),
            out@.map_values(|s: SocketFacts| s@) == filter_map_spec(
                rows.take(i - 1),
                |l: Seq<char>| socket_line(l, is_udp),
            ),
        decreases ls.len() - i,
    {
        proof {
            lemma_filter_map_step(rows, |l: Seq<char>| socket_line(l, is_udp), i - 1);
            assert(rows[i - 1] == ls@[i as int]@);
        }
        let ghost before = out@;
        match socket_of(ls[i].as_str(), is_udp) {
            Some(sock) => {
                out.push(sock);
                assert(out@.map_values(|s: SocketFacts| s@) =~= before.map_values(
                    |s: SocketFacts| s@,
                ).push(sock@));
            },
            None => {},
        }
        i += 1;
    }
    assert(rows.take(ls.len() - 1) =~= rows);
    out
}

/// `s` without leading `c` characters.
pub open spec fn strip_leading(s: Seq<char>, c: char) -> Seq<char>
    decreases s.len(),
{
    if s.len() > 0 && s[0] == c {
        strip_leading(s.drop_first(), c)
    } else {
        s
    }
}

/// `s` without trailing `c` characters.
pub open spec fn strip_trailing(s: Seq<char>, c: char) -> Seq<char>
    decreases s.len(),
{
    if s.len() > 0 && s.last() == c {
        strip_trailing(s.drop_last(), c)
    } else {
        s
    }
}

/// `str::trim_matches(c)`.
pub open spec fn strip_both(s: Seq<char>, c: char) -> Seq<char> {
    strip_trailing(strip_leading(s, c), c)
}

pub fn strip_both_text(s: &str, c: char) -> (r: String)
    ensures
        r@ == strip_both(s@, c),
{
    let chars = chars_of(s);
    let mut start: usize = 0;
    assert(chars@.skip(0) =~= chars@);
    while start < chars.len() && chars[start] == c
        invariant
            start <= chars@.len(),
            strip_leading(chars@, c) == strip_leading(chars@.skip(start as int), c),
        decreases chars.len() - start,
    {
        assert(chars@.skip(start as int).drop_first() =~= chars@.skip(start + 1));
        start += 1;
    }
    let ghost lead = chars@.skip(start as int);
    let mut end: usize = chars.len();
    assert(chars@.subrange(start as int, end as int) =~= lead);
    while end > start && chars[end - 1] == c
        invariant
            start <= end <= chars@.len(),
            lead == chars@.skip(start as int),
            strip_trailing(lead, c) == strip_trailing(chars@.subrange(start as int, end as int), c),
        decreases end - start,
    {
        assert(chars@.subrange(start as int, end as int).drop_last() =~= chars@.subrange(
            start as int,
            end - 1,
        ));
        end -= 1;
    }
    let out = crate::text::chars_from_to(&chars, start, end);
    string_of(&out)
}

/// The key and value a `key=value` line holds: both trimmed, the value without surrounding
/// double quotes. Blank lines and comments hold none.
pub open spec fn env_line(line: Seq<char>) -> Option<(Seq<char>, Seq<char>)> {
    let t = trim(line);
    if t.len() == 0 || t[0] == '#' {
        None
    } else {
        match split_once_spec(t, '=') {
            Some((k, v)) => Some((trim(k), strip_both(trim(v), '"'))),
            None => None,
        }
    }
}

/// Key-value pairs as a map; a later pair for a key replaces an earlier one.
pub open spec fn pairs_to_map(ps: Seq<(Seq<char>, Seq<char>)>) -> Map<Seq<char>, Seq<char>>
    decreases ps.len(),
{
    if ps.len() == 0 {
        Map::empty()
    } else {
        pairs_to_map(ps.drop_last()).insert(ps.last().0, ps.last().1)
    }
}

/// What a `key=value` file such as `/etc/os-release` sets.
pub open spec fn env_spec(content: Seq<char>) -> Map<Seq<char>, Seq<char>> {
    pairs_to_map(filter_map_spec(lines(content), |l: Seq<char>| env_line(l)))
}

pub open spec fn pairs_view(v: Seq<(String, String)>) -> Seq<(Seq<char>, Seq<char>)> {
    v.map_values(|p: (String, String)| (p.0@, p.1@))
}

pub open spec fn keys_unique(ps: Seq<(Seq<char>, Seq<char>)>) -> bool {
    forall|i: int, j: int| 0 <= i < j < ps.len() ==> (#[trigger] ps[i]).0 != (#[trigger] ps[j]).0
}

proof fn lemma_pairs_update(ps: Seq<(Seq<char>, Seq<char>)>, j: int, v: Seq<char>)
    requires
        keys_unique(ps),
        0 <= j < ps.len(),
    ensures
        pairs_to_map(ps.update(j, (ps[j].0, v))) == pairs_to_map(ps).insert(ps[j].0, v),
    decreases ps.len(),
{
    let k = ps[j].0;
    let nps = ps.update(j, (k, v));
    if j == ps.len() - 1 {
        assert(nps.drop_last() =~= ps.drop_last());
        assert(pairs_to_map(ps).insert(k, v) =~= pairs_to_map(ps.drop_last()).insert(k, v));
    } else {
        assert(keys_unique(ps.drop_last()));
        lemma_pairs_update(ps.drop_last(), j, v);
        assert(nps.drop_last() =~= ps.drop_last().update(j, (k, v)));
        assert(ps.last().0 != k);
        assert(pairs_to_map(nps) =~= pairs_to_map(ps).insert(k, v));
    }
}

/// Parses `key=value` lines, as `/etc/os-release` holds them. Each key appears once in the
/// result, with the value of its last line.
pub fn parse_env_file(content: &str) -> (r: Vec<(String, String)>)
    ensures
        keys_unique(pairs_view(r@)),
        pairs_to_map(pairs_view(r@)) == env_spec(content@),
{
    let ls = lines_of(content);
    let ghost ss = strings_view(ls@);
    let mut out: Vec<(String, String)> = Vec::new();
    let mut i: usize = 0;
    assert(pairs_to_map(pairs_view(out@)) =~= pairs_to_map(
        filter_map_spec(ss.take(0), |l: Seq<char>| env_line(l)),
    ));
    while i < ls.len()
        invariant
            i <= ls@.len(),
            ss == strings_view(ls@),
            ss == lines(content@),
            keys_unique(pairs_view(out@)),
            pairs_to_map(pairs_view(out@)) == pairs_to_map(
                filter_map_spec(ss.take(i as int), |l: Seq<char>| env_line(l)),
            ),
        decreases ls.len() - i,
    {
        proof {
            lemma_filter_map_step(ss, |l: Seq<char>| env_line(l), i as int);
            assert(ss[i as int] == ls@[i as int]@);
        }
        let ghost prev = filter_map_spec(ss.take(i as int), |l: Seq<char>| env_line(l));
        let t = trimmed(ls[i].as_str());
        if !(t.unicode_len() > 0 && !starts_with_char(t.as_str(), '#')) {
            assert(env_line(ss[i as int]) is None);
        }
        if t.unicode_len() > 0 && !starts_with_char(t.as_str(), '#') {
            let tc = chars_of(t.as_str());
            match find_first(&tc, '=') {
                Some(k) => {
                    let key_part = string_of(&crate::text::chars_from_to(&tc, 0, k));
                    let value_part = string_of(&crate::text::chars_from(&tc, k + 1));
                    assert(key_part@ =~= tc@.take(k as int));
                    let key = trimmed(key_part.as_str());
                    let value_trimmed = trimmed(value_part.as_str());
                    let value = strip_both_text(value_trimmed.as_str(), '"');
                    let ghost kv = (key@, value@);
                    assert(env_line(ss[i as int]) == Some(kv));
                    // Replace the value of a key seen before, else add the key.
                    let mut j: usize = 0;
                    let mut found: Option<usize> = None;
                    while j < out.len()
                        invariant
                            j <= out@.len(),
                            found is None ==> forall|m: int| 0 <= m < j ==> pairs_view(out@)[m].0 != key@,
                            found matches Some(f) ==> f < out@.len() && pairs_view(out@)[f as int].0 == key@,
                        decreases out.len() - j,
                    {
                        if found.is_none() && same_text(out[j].0.as_str(), key.as_str()) {
                            found = Some(j);
                        }
                        j += 1;
                    }
                    let ghost before = pairs_view(out@);
                    match found {
                        Some(f) => {
                            proof {
                                lemma_pairs_update(before, f as int, value@);
                            }
                            out.set(f, (key, value));
                            assert(pairs_view(out@) =~= before.update(f as int, (before[f as int].0, kv.1)));
                        },
                        None => {
                            out.push((key, value));
                            assert(pairs_view(out@) =~= before.push(kv));
                            assert(pairs_view(out@).drop_last() =~= before);
                        },
                    }
                    assert(pairs_to_map(pairs_view(out@)) == pairs_to_map(before).insert(kv.0, kv.1));
                    assert(prev.push(kv).drop_last() =~= prev);
                    assert(filter_map_spec(ss.take(i + 1), |l: Seq<char>| env_line(l)) == prev.push(kv));
                },
                None => {
                    assert(env_line(ss[i as int]) is None);
                },
            }
        }
        i += 1;
    }
    assert(ss.take(ls.len() as int) =~= ss);
    out
}

/// The position of the first `c` in `s`.
pub fn find_first_pub(s: &Vec<char>, c: char) -> (r: Option<usize>)
    ensures
        match r {
            Some(i) => i < s@.len() && s@[i as int] == c && first_index(s@, c) == Some(i as int),
            None => first_index(s@, c) is None,
        },
{
    find_first(s, c)
}

/// `s` without its leading `0o` prefixes (`str::trim_start_matches("0o")`).
pub fn strip_octal_prefix(s: &str) -> (r: String)
    ensures
        r@ == strip_repeated_prefix(s@, "0o"@),
{
    let chars = chars_of(s);
    let mut start: usize = 0;
    assert(chars@.skip(0) =~= chars@);
    while start < chars.len() && chars.len() - start >= 2 && chars[start] == '0' && chars[start
        + 1] == 'o'
        invariant
            start <= chars@.len(),
            strip_repeated_prefix(chars@, "0o"@) == strip_repeated_prefix(
                chars@.skip(start as int),
                "0o"@,
            ),
        decreases chars.len() - start,
    {
        proof {
            reveal_strlit("0o");
            let rest = chars@.skip(start as int);
            assert(rest.take(2) =~= "0o"@);
            assert(rest.skip(2) =~= chars@.skip(start + 2));
        }
        start += 2;
    }
    proof {
        reveal_strlit("0o");
        let rest = chars@.skip(start as int);
        if rest.len() >= 2 && rest.take(2) == "0o"@ {
            assert(rest[0] == rest.take(2)[0] && rest[1] == rest.take(2)[1]);
        }
    }
    let body = crate::text::chars_from(&chars, start);
    string_of(&body)
}

/// `str::parse::<i32>`: an optional sign, then decimal digits, for a value that fits.
pub open spec fn i32_field(s: Seq<char>) -> Option<i32> {
    if s.len() > 0 && s[0] == '-' {
        let rest = s.drop_first();
        if rest.len() > 0 && rest[0] == '+' {
            None
        } else {
            match parse_unsigned(rest, 10, 0x8000_0000) {
                Some(v) => Some((0 - v) as i32),
                None => None,
            }
        }
    } else {
        match parse_unsigned(s, 10, 0x7fff_ffff) {
            Some(v) => Some(v as i32),
            None => None,
        }
    }
}

pub fn parse_i32(s: &str) -> (r: Option<i32>)
    ensures
        r == i32_field(s@),
{
    let c = chars_of(s);
    if c.len() > 0 && c[0] == '-' {
        let rest = crate::text::chars_from(&c, 1);
        assert(rest@ =~= s@.drop_first());
        if rest.len() > 0 && rest[0] == '+' {
            return None;
        }
        match crate::text::parse_unsigned_chars(&rest, 10, 0x8000_0000) {
            Some(v) => {
                let n: i64 = 0 - (v as i64);
                Some(n as i32)
            },
            None => None,
        }
    } else {
        match crate::text::parse_unsigned_chars(&c, 10, 0x7fff_ffff) {
            Some(v) => Some(v as i32),
            None => None,
        }
    }
}

/// The pieces of `bytes` between NUL bytes.
pub open spec fn split_nul(bytes: Seq<u8>) -> Seq<Seq<u8>>
    decreases bytes.len(),
{
    if bytes.len() == 0 {
        seq![Seq::<u8>::empty()]
    } else {
        let pieces = split_nul(bytes.drop_last());
        if bytes.last() == 0 {
            pieces.push(Seq::<u8>::empty())
        } else {
            pieces.update(pieces.len() - 1, pieces.last().push(bytes.last()))
        }
    }
}

/// The non-empty pieces, each decoded as `String::from_utf8_lossy` decodes it.
pub open spec fn decoded_args(pieces: Seq<Seq<u8>>) -> Seq<Seq<char>>
    decreases pieces.len(),
{
    if pieces.len() == 0 {
        Seq::empty()
    } else {
        let rest = decoded_args(pieces.drop_last());
        if pieces.last().len() > 0 {
            rest.push(crate::console::lossy_text(pieces.last()))
        } else {
            rest
        }
    }
}

/// A process's command line from `/proc/<pid>/cmdline`: its NUL-separated arguments, empty
/// ones dropped, joined by single spaces.
pub open spec fn cmdline_spec(bytes: Seq<u8>) -> Seq<char> {
    join(decoded_args(split_nul(bytes)), " "@)
}

proof fn lemma_split_nul_nonempty(bytes: Seq<u8>)
    ensures
        split_nul(bytes).len() >= 1,
    decreases bytes.len(),
{
    if bytes.len() > 0 {
        lemma_split_nul_nonempty(bytes.drop_last());
    }
}

/// Decodes `/proc/<pid>/cmdline`.
pub fn cmdline_text(bytes: &[u8]) -> (r: String)
    ensures
        r@ == cmdline_spec(bytes@),
{
    let mut pieces: Vec<Vec<u8>> = Vec::new();
    pieces.push(Vec::new());
    let mut i: usize = 0;
    assert(bytes@.take(0) =~= Seq::<u8>::empty());
    assert(pieces@.map_values(|v: Vec<u8>| v@) =~= split_nul(bytes@.take(0)));
    while i < bytes.len()
        invariant
            i <= bytes@.len(),
            pieces@.len() >= 1,
            pieces@.map_values(|v: Vec<u8>| v@) == split_nul(bytes@.take(i as int)),
        decreases bytes.len() - i,
    {
        let ghost before = pieces@.map_values(|v: Vec<u8>| v@);
        assert(bytes@.take(i + 1).drop_last() =~= bytes@.take(i as int));
        assert(bytes@.take(i + 1).last() == bytes@[i as int]);
        let b = bytes[i];
        if b == 0 {
            pieces.push(Vec::new());
            assert(pieces@.map_values(|v: Vec<u8>| v@) =~= before.push(Seq::<u8>::empty()));
        } else {
            let last = pieces.len() - 1;
            let mut piece = pieces.remove(last);
            let ghost old_piece = piece@;
            piece.push(b);
            pieces.push(piece);
            assert(before[last as int] == old_piece);
            assert(pieces@.map_values(|v: Vec<u8>| v@) =~= before.update(last as int, old_piece.push(b)));
        }
        i += 1;
    }
    assert(bytes@.take(bytes@.len() as int) =~= bytes@);
    let ghost ps = pieces@.map_values(|v: Vec<u8>| v@);
    let mut args: Vec<String> = Vec::new();
    let mut k: usize = 0;
    while k < pieces.len()
        invariant
            k <= pieces@.len(),
            ps == pieces@.map_values(|v: Vec<u8>| v@),
            strings_view(args@) == decoded_args(ps.take(k as int)),
        decreases pieces.len() - k,
    {
        assert(ps.take(k + 1).drop_last() =~= ps.take(k as int));
        assert(ps.take(k + 1).last() == pieces@[k as int]@);
        let ghost before = strings_view(args@);
        if pieces[k].len() > 0 {
            let text = crate::console::from_utf8_lossy(pieces[k].as_slice());
            args.push(text);
            assert(strings_view(args@) =~= before.push(crate::console::lossy_text(pieces@[k as int]@)));
        }
        k += 1;
    }
    assert(ps.take(pieces@.len() as int) =~= ps);
    join_strings(&args, " ")
}

/// A field of `/proc/<pid>/stat` as a number, zero when it is not one.
pub open spec fn number_or_zero(s: Seq<char>) -> u32 {
    match u32_field(s) {
        Some(v) => v,
        None => 0,
    }
}

/// What `/proc/<pid>/stat`, `cmdline` and `status` say about a process. `stat` must split
/// around its command name and hold at least six fields after it (state, parent, group,
/// session, terminal and the terminal's foreground group); numbers that do not parse read as
/// zero (the foreground group as -1), a command line that could not be read is empty, and an
/// unreadable uid is root's.
pub open spec fn process_spec(pid: u32, stat: Seq<char>, cmdline: Option<Seq<u8>>, status: Option<Seq<char>>) -> Option<(u32, u32, u32, Seq<char>, Seq<char>, u32, i32, u32)> {
    match split_proc_stat_spec(stat) {
        None => None,
        Some((comm, rest)) => {
            let f = words(rest);
            if f.len() < 6 {
                None
            } else {
                Some(
                    (
                        pid,
                        number_or_zero(f[1]),
                        match status {
                            Some(st) => match status_uid_spec(st) {
                                Some(u) => u,
                                None => 0,
                            },
                            None => 0,
                        },
                        match cmdline {
                            Some(b) => cmdline_spec(b),
                            None => Seq::empty(),
                        },
                        comm,
                        number_or_zero(f[3]),
                        match i32_field(f[5]) {
                            Some(t) => t,
                            None => -1i32,
                        },
                        number_or_zero(f[2]),
                    ),
                )
            }
        },
    }
}

fn number_or_zero_exec(s: &str) -> (r: u32)
    ensures
        r == number_or_zero(s@),
{
    match parse_u32(s) {
        Some(v) => v,
        None => 0,
    }
}

/// The facts about process `pid` from its `/proc` files.
pub fn process_facts(pid: u32, stat: &str, cmdline: Option<&[u8]>, status: Option<&str>) -> (r: Option<ProcessFacts>)
    ensures
        match process_spec(pid, stat@, match cmdline { Some(b) => Some(b@), None => None }, match status { Some(s) => Some(s@), None => None }) {
            None => r is None,
            Some((p, ppid, uid, cl, comm, session, tpgid, pgrp)) => r matches Some(f) && f.pid == p && f.ppid == ppid
                && f.uid == uid && f.cmdline@ == cl && f.comm@ == comm && f.session_id == session
                && f.tpgid == tpgid && f.pgrp == pgrp,
        },
{
    let (comm, rest) = match split_proc_stat(stat) {
        Some(pair) => pair,
        None => return None,
    };
    let fields = words_of(rest.as_str());
    if fields.len() < 6 {
        return None;
    }
    assert(strings_view(fields@)[1] == fields@[1]@);
    assert(strings_view(fields@)[2] == fields@[2]@);
    assert(strings_view(fields@)[3] == fields@[3]@);
    assert(strings_view(fields@)[5] == fields@[5]@);
    let ppid = number_or_zero_exec(fields[1].as_str());
    let pgrp = number_or_zero_exec(fields[2].as_str());
    let session_id = number_or_zero_exec(fields[3].as_str());
    let tpgid = match parse_i32(fields[5].as_str()) {
        Some(t) => t,
        None => -1,
    };
    let cmd = match cmdline {
        Some(b) => cmdline_text(b),
        None => String::new(),
    };
    let uid = match status {
        Some(st) => match parse_status_uid(st) {
            Some(u) => u,
            None => 0,
        },
        None => 0,
    };
    Some(ProcessFacts { pid, ppid, uid, cmdline: cmd, comm, session_id, tpgid, pgrp })
}

/// The `/proc/net` files that list a protocol's sockets: UDP's for `udp`, TCP's otherwise,
/// IPv4 then IPv6.
pub fn socket_files(protocol: &str) -> (r: (&'static str, &'static str, bool))
    ensures
        protocol@ == "udp"@ ==> r.0@ == "/proc/net/udp"@ && r.1@ == "/proc/net/udp6"@ && r.2,
        protocol@ != "udp"@ ==> r.0@ == "/proc/net/tcp"@ && r.1@ == "/proc/net/tcp6"@ && !r.2,
{
    if same_text(protocol, "udp") {
        ("/proc/net/udp", "/proc/net/udp6", true)
    } else {
        ("/proc/net/tcp", "/proc/net/tcp6", false)
    }
}

/// The index of the first line starting with `key`.
pub open spec fn first_starting(ls: Seq<Seq<char>>, key: Seq<char>) -> Option<int>
    decreases ls.len(),
{
    if ls.len() == 0 {
        None
    } else if crate::text::starts_with(ls[0], key) {
        Some(0)
    } else {
        match first_starting(ls.drop_first(), key) {
            Some(i) => Some(i + 1),
            None => None,
        }
    }
}

/// A `/proc/meminfo` value: the number after the first line that starts with `key`, zero
/// when there is none or it is not a number.
pub open spec fn meminfo_spec(content: Seq<char>, key: Seq<char>) -> u64 {
    let ls = lines(content);
    match first_starting(ls, key) {
        Some(i) => {
            let w = words(ls[i]);
            if w.len() > 1 {
                match parse_unsigned(w[1], 10, u64::MAX as nat) {
                    Some(v) => v as u64,
                    None => 0,
                }
            } else {
                0
            }
        },
        None => 0,
    }
}

proof fn lemma_first_starting_bounds(ls: Seq<Seq<char>>, key: Seq<char>)
    ensures
        first_starting(ls, key) matches Some(i) ==> 0 <= i < ls.len(),
    decreases ls.len(),
{
    if ls.len() > 0 && !crate::text::starts_with(ls[0], key) {
        lemma_first_starting_bounds(ls.drop_first(), key);
    }
}

pub fn meminfo_value(content: &str, key: &str) -> (r: u64)
    ensures
        r == meminfo_spec(content@, key@),
{
    let ls = lines_of(content);
    let ghost lv = strings_view(ls@);
    let k = chars_of(key);
    let mut i: usize = 0;
    assert(lv.skip(0) =~= lv);
    proof {
        lemma_first_starting_bounds(lv, key@);
    }
    while i < ls.len()
        invariant
            i <= ls@.len(),
            lv == strings_view(ls@),
            lv == lines(content@),
            k@ == key@,
            first_starting(lv, key@) == match first_starting(lv.skip(i as int), key@) {
                Some(j) => Some(j + i),
                None => None::<int>,
            },
        decreases ls.len() - i,
    {
        assert(lv.skip(i as int).drop_first() =~= lv.skip(i + 1));
        assert(lv.skip(i as int)[0] == ls@[i as int]@);
        if crate::text::starts_with_chars(&chars_of(ls[i].as_str()), &k) {
            assert(first_starting(lv.skip(i as int), key@) == Some(0int));
            assert(first_starting(lv, key@) == Some(i as int));
            let w = words_of(ls[i].as_str());
            if w.len() > 1 {
                assert(strings_view(w@)[1] == w@[1]@);
                let digits = chars_of(w[1].as_str());
                return match crate::text::parse_unsigned_chars(&digits, 10, u64::MAX) {
                    Some(v) => v,
                    None => 0,
                };
            }
            return 0;
        }
        i += 1;
    }
    0
}

} // verus!
