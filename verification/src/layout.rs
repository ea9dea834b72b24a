//! Where the application keeps its files. Everything lives under the user's local
//! application data, writable by a standard user: no path here needs administrator rights.
//! Paths are text; they are compared by components, separated by `/` or `\`.
use crate::paths::{join_path, join_spec};
use crate::text::{append, owned, split_chars, split_on, strings_view, trim};
use crate::qemu_path::slashes;
use vstd::prelude::*;

verus! {

/// Version of the runtime bundle this build expects, and the name of its directory.
pub const RUNTIME_VERSION: &'static str = "0.1.0";

/// The data directory's name under the local application data directory.
pub const DATA_DIR_NAME: &'static str = "LinuxPracticeLab";

/// The install directory's name under the local application data directory.
pub const INSTALL_DIR_NAME: &'static str = "Programs";

#[derive(Debug, Clone, PartialEq, Eq)]
pub struct Layout {
    /// Root of user data: overlays, progress database, snapshots, logs.
    pub data_root: String,
    /// Root of the versioned runtime: QEMU, kernel, base image, licences.
    pub runtime_root: String,
    /// Read-only copy of the compressed runtime shipped as an application resource.
    pub bundled_runtime_root: String,
    /// Lesson packages shipped with the application.
    pub lessons_root: String,
    pub runtime_version: String,
    /// Whether the host is Windows, which decides the executables' names.
    pub windows_host: bool,
}

pub open spec fn qemu_system_name(windows: bool) -> Seq<char> {
    if windows {
        "qemu-system-x86_64.exe"@
    } else {
        "qemu-system-x86_64"@
    }
}

pub open spec fn qemu_img_name(windows: bool) -> Seq<char> {
    if windows {
        "qemu-img.exe"@
    } else {
        "qemu-img"@
    }
}

/// The QEMU system emulator's file name on a Windows host or another one.
pub fn qemu_system_filename(windows: bool) -> (r: &'static str)
    ensures
        r@ == qemu_system_name(windows),
{
    if windows {
        "qemu-system-x86_64.exe"
    } else {
        "qemu-system-x86_64"
    }
}

/// The `qemu-img` tool's file name on a Windows host or another one.
pub fn qemu_img_filename(windows: bool) -> (r: &'static str)
    ensures
        r@ == qemu_img_name(windows),
{
    if windows {
        "qemu-img.exe"
    } else {
        "qemu-img"
    }
}

/// Where user data lives: an explicit directory when one is configured (blank values do not
/// count), beside the application when the portable marker is present, otherwise under the
/// local application data directory, when one is known.
pub open spec fn data_root_spec(
    explicit: Option<Seq<char>>,
    portable_marker: bool,
    resource_dir: Seq<char>,
    local_app_data: Option<Seq<char>>,
) -> Option<Seq<char>> {
    match explicit {
        Some(e) if trim(e).len() > 0 => Some(e),
        _ => if portable_marker {
            Some(join_spec(resource_dir, "portable-data"@))
        } else {
            match local_app_data {
                Some(l) => Some(join_spec(l, "LinuxPracticeLab"@)),
                None => None,
            }
        },
    }
}

/// Chooses the data root. The error says no writable application data directory is known.
pub fn data_root_for(
    explicit: Option<&str>,
    portable_marker: bool,
    resource_dir: &str,
    local_app_data: Option<&str>,
) -> (r: Result<String, String>)
    ensures
        match data_root_spec(
            match explicit {
                Some(e) => Some(e@),
                None => None,
            },
            portable_marker,
            resource_dir@,
            match local_app_data {
                Some(l) => Some(l@),
                None => None,
            },
        ) {
            Some(root) => r matches Ok(s) && s@ == root,
            None => r matches Err(e) && e@
                == "could not determine a writable application data directory"@,
        },
{
    if let Some(e) = explicit {
        let t = crate::text::trimmed(e);
        if t.unicode_len() > 0 {
            return Ok(owned(e));
        }
    }
    if portable_marker {
        return Ok(join_path(resource_dir, "portable-data"));
    }
    match local_app_data {
        Some(l) => Ok(join_path(l, "LinuxPracticeLab")),
        None => Err(owned("could not determine a writable application data directory")),
    }
}

impl Layout {
    /// The layout for a data root and the resources shipped with the application.
    pub fn new(data_root: &str, resource_dir: &str, runtime_version: &str, windows_host: bool) -> (r:
        Layout)
        ensures
            r.data_root@ == data_root@,
            r.runtime_root@ == join_spec(join_spec(data_root@, "runtime"@), runtime_version@),
            r.bundled_runtime_root@ == join_spec(join_spec(resource_dir@, "runtime"@), runtime_version@),
            r.lessons_root@ == join_spec(resource_dir@, "lessons"@),
            r.runtime_version@ == runtime_version@,
            r.windows_host == windows_host,
    {
        let runtime = join_path(data_root, "runtime");
        let bundled = join_path(resource_dir, "runtime");
        Layout {
            data_root: owned(data_root),
            runtime_root: join_path(runtime.as_str(), runtime_version),
            bundled_runtime_root: join_path(bundled.as_str(), runtime_version),
            lessons_root: join_path(resource_dir, "lessons"),
            runtime_version: owned(runtime_version),
            windows_host,
        }
    }

    /// A layout rooted in one directory, on a host that is not Windows.
    pub fn for_test(root: &str, runtime_version: &str) -> (r: Layout)
        ensures
            r.data_root@ == join_spec(root@, "data"@),
            r.runtime_root@ == join_spec(join_spec(root@, "runtime"@), runtime_version@),
            r.bundled_runtime_root@ == join_spec(join_spec(root@, "bundled-runtime"@), runtime_version@),
            r.lessons_root@ == join_spec(root@, "lessons"@),
            r.runtime_version@ == runtime_version@,
            !r.windows_host,
    {
        let runtime = join_path(root, "runtime");
        let bundled = join_path(root, "bundled-runtime");
        Layout {
            data_root: join_path(root, "data"),
            runtime_root: join_path(runtime.as_str(), runtime_version),
            bundled_runtime_root: join_path(bundled.as_str(), runtime_version),
            lessons_root: join_path(root, "lessons"),
            runtime_version: owned(runtime_version),
            windows_host: false,
        }
    }

    pub open spec fn user_data_spec(self) -> Seq<char> {
        join_spec(self.data_root@, "data"@)
    }

    pub open spec fn logs_spec(self) -> Seq<char> {
        join_spec(self.data_root@, "logs"@)
    }

    pub fn qemu_system(&self) -> (r: String)
        ensures
            r@ == join_spec(self.runtime_root@, qemu_system_name(self.windows_host)),
    {
        join_path(self.runtime_root.as_str(), qemu_system_filename(self.windows_host))
    }

    pub fn qemu_img(&self) -> (r: String)
        ensures
            r@ == join_spec(self.runtime_root@, qemu_img_name(self.windows_host)),
    {
        join_path(self.runtime_root.as_str(), qemu_img_filename(self.windows_host))
    }

    pub fn kernel(&self) -> (r: String)
        ensures
            r@ == join_spec(self.runtime_root@, "vmlinuz"@),
    {
        join_path(self.runtime_root.as_str(), "vmlinuz")
    }

    pub fn initrd(&self) -> (r: String)
        ensures
            r@ == join_spec(self.runtime_root@, "initrd.img"@),
    {
        join_path(self.runtime_root.as_str(), "initrd.img")
    }

    /// The decompressed read-only base image, expanded on first run beside its compressed
    /// form.
    pub fn base_image(&self) -> (r: String)
        ensures
            r@ == join_spec(self.runtime_root@, "debian-base.raw"@),
    {
        join_path(self.runtime_root.as_str(), "debian-base.raw")
    }

    pub fn base_image_compressed(&self) -> (r: String)
        ensures
            r@ == join_spec(self.runtime_root@, "debian-base.raw.zst"@),
    {
        join_path(self.runtime_root.as_str(), "debian-base.raw.zst")
    }

    pub fn licences_dir(&self) -> (r: String)
        ensures
            r@ == join_spec(self.runtime_root@, "licences"@),
    {
        join_path(self.runtime_root.as_str(), "licences")
    }

    pub fn checksums_file(&self) -> (r: String)
        ensures
            r@ == join_spec(self.runtime_root@, "checksums.json"@),
    {
        join_path(self.runtime_root.as_str(), "checksums.json")
    }

    pub fn user_data_dir(&self) -> (r: String)
        ensures
            r@ == self.user_data_spec(),
    {
        join_path(self.data_root.as_str(), "data")
    }

    pub fn progress_db(&self) -> (r: String)
        ensures
            r@ == join_spec(self.user_data_spec(), "progress.db"@),
    {
        join_path(self.user_data_dir().as_str(), "progress.db")
    }

    pub fn settings_file(&self) -> (r: String)
        ensures
            r@ == join_spec(self.user_data_spec(), "settings.json"@),
    {
        join_path(self.user_data_dir().as_str(), "settings.json")
    }

    pub fn free_practice_overlay(&self) -> (r: String)
        ensures
            r@ == join_spec(self.user_data_spec(), "free-practice.qcow2"@),
    {
        join_path(self.user_data_dir().as_str(), "free-practice.qcow2")
    }

    pub fn snapshots_dir(&self) -> (r: String)
        ensures
            r@ == join_spec(self.user_data_spec(), "snapshots"@),
    {
        join_path(self.user_data_dir().as_str(), "snapshots")
    }

    pub fn lesson_cache_dir(&self) -> (r: String)
        ensures
            r@ == join_spec(self.user_data_spec(), "lesson-cache"@),
    {
        join_path(self.user_data_dir().as_str(), "lesson-cache")
    }

    pub fn logs_dir(&self) -> (r: String)
        ensures
            r@ == self.logs_spec(),
    {
        join_path(self.data_root.as_str(), "logs")
    }

    pub fn application_log(&self) -> (r: String)
        ensures
            r@ == join_spec(self.logs_spec(), "application.log"@),
    {
        join_path(self.logs_dir().as_str(), "application.log")
    }

    pub fn vm_log(&self) -> (r: String)
        ensures
            r@ == join_spec(self.logs_spec(), "vm.log"@),
    {
        join_path(self.logs_dir().as_str(), "vm.log")
    }

    /// Lock file proving only one instance runs. Its presence at startup means the previous
    /// run did not exit cleanly.
    pub fn session_lock(&self) -> (r: String)
        ensures
            r@ == join_spec(self.data_root@, "session.lock"@),
    {
        join_path(self.data_root.as_str(), "session.lock")
    }

    /// The directories the application writes to, in the order they are created. Runtime
    /// directories are the installer's.
    pub fn writable_dirs(&self) -> (r: Vec<String>)
        ensures
            strings_view(r@) == seq![
                self.user_data_spec(),
                join_spec(self.user_data_spec(), "snapshots"@),
                join_spec(self.user_data_spec(), "lesson-cache"@),
                self.logs_spec(),
                join_spec(self.user_data_spec(), "lessons"@),
            ],
    {
        let mut r: Vec<String> = Vec::new();
        r.push(self.user_data_dir());
        r.push(self.snapshots_dir());
        r.push(self.lesson_cache_dir());
        r.push(self.logs_dir());
        let data = self.user_data_dir();
        r.push(join_path(data.as_str(), "lessons"));
        assert(strings_view(r@) =~= seq![
            self.user_data_spec(),
            join_spec(self.user_data_spec(), "snapshots"@),
            join_spec(self.user_data_spec(), "lesson-cache"@),
            self.logs_spec(),
            join_spec(self.user_data_spec(), "lessons"@),
        ]);
        r
    }

    /// Guards against a lesson id or snapshot name escaping the data directory. The caller
    /// supplies what canonicalising the data root and the path gave (`None` where it failed).
    /// Without a canonical root nothing is inside; with a canonical path it decides;
    /// otherwise the path is normalised lexically (`..` removes a component, `.` none) and
    /// compared with the root as given and as canonicalised.
    pub fn contains(&self, path: &str, canonical_root: Option<&str>, canonical_path: Option<&str>) -> (r:
        bool)
        ensures
            r == match canonical_root {
                None => false,
                Some(cr) => match canonical_path {
                    Some(cp) => path_starts_with(components(cp@), components(cr@)),
                    None => path_starts_with(normalised(path@), components(self.data_root@))
                        || path_starts_with(normalised(path@), components(cr@)),
                },
            },
    {
        match canonical_root {
            None => false,
            Some(cr) => {
                let root = components_of(cr);
                match canonical_path {
                    Some(cp) => {
                        let p = components_of(cp);
                        starts_with_components(&p, &root)
                    },
                    None => {
                        let n = normalised_of(path);
                        let given = components_of(self.data_root.as_str());
                        starts_with_components(&n, &given) || starts_with_components(&n, &root)
                    },
                }
            },
        }
    }
}

/// A path's components: whether it is absolute, and its names, without empty and `.`
/// components.
pub struct Components {
    pub absolute: bool,
    pub names: Seq<Seq<char>>,
}

pub open spec fn is_name(n: Seq<char>) -> bool {
    n.len() > 0 && n != "."@
}

/// The names of a path in order: the separated pieces, without empty and `.` ones.
pub open spec fn names_of(pieces: Seq<Seq<char>>) -> Seq<Seq<char>>
    decreases pieces.len(),
{
    if pieces.len() == 0 {
        Seq::empty()
    } else if is_name(pieces.last()) {
        names_of(pieces.drop_last()).push(pieces.last())
    } else {
        names_of(pieces.drop_last())
    }
}

pub open spec fn components(p: Seq<char>) -> Components {
    let s = slashes(p);
    Components { absolute: s.len() > 0 && s[0] == '/', names: names_of(split_on(s, '/')) }
}

/// Names with `..` applied: each removes the name before it, when there is one.
pub open spec fn resolve_parents(names: Seq<Seq<char>>) -> Seq<Seq<char>>
    decreases names.len(),
{
    if names.len() == 0 {
        Seq::empty()
    } else {
        let before = resolve_parents(names.drop_last());
        if names.last() == ".."@ {
            if before.len() > 0 {
                before.drop_last()
            } else {
                before
            }
        } else {
            before.push(names.last())
        }
    }
}

pub open spec fn normalised(p: Seq<char>) -> Components {
    let c = components(p);
    Components { absolute: c.absolute, names: resolve_parents(c.names) }
}

/// `Path::starts_with`: the same kind of path, and the base's names a prefix of the path's.
pub open spec fn path_starts_with(p: Components, base: Components) -> bool {
    p.absolute == base.absolute && base.names.len() <= p.names.len() && p.names.take(
        base.names.len() as int,
    ) == base.names
}

/// Executable form of [`Components`].
pub struct ComponentList {
    pub absolute: bool,
    pub names: Vec<String>,
}

impl ComponentList {
    pub open spec fn view_components(self) -> Components {
        Components { absolute: self.absolute, names: strings_view(self.names@) }
    }
}

fn components_of(p: &str) -> (r: ComponentList)
    ensures
        r.view_components() == components(p@),
{
    let qemu_form = crate::qemu_path::slashed(p);
    let chars = crate::text::chars_of(qemu_form.as_str());
    let absolute = chars.len() > 0 && chars[0] == '/';
    let pieces = split_chars(&chars, '/');
    let ghost ps = strings_view(pieces@);
    let mut names: Vec<String> = Vec::new();
    let mut i: usize = 0;
    assert(ps.take(0) =~= Seq::<Seq<char>>::empty());
    while i < pieces.len()
        invariant
            i <= pieces@.len(),
            ps == strings_view(pieces@),
            strings_view(names@) == names_of(ps.take(i as int)),
        decreases pieces.len() - i,
    {
        assert(ps.take(i + 1).drop_last() =~= ps.take(i as int));
        assert(ps[i as int] == pieces@[i as int]@);
        let piece = &pieces[i];
        let ghost before = strings_view(names@);
        if piece.unicode_len() > 0 && !crate::text::same_text(piece.as_str(), ".") {
            names.push(piece.clone());
            assert(strings_view(names@) =~= before.push(ps[i as int]));
        }
        i += 1;
    }
    assert(ps.take(pieces.len() as int) =~= ps);
    ComponentList { absolute, names }
}

fn normalised_of(p: &str) -> (r: ComponentList)
    ensures
        r.view_components() == normalised(p@),
{
    let c = components_of(p);
    let ghost ns = strings_view(c.names@);
    let mut out: Vec<String> = Vec::new();
    let mut i: usize = 0;
    assert(ns.take(0) =~= Seq::<Seq<char>>::empty());
    while i < c.names.len()
        invariant
            i <= c.names@.len(),
            ns == strings_view(c.names@),
            strings_view(out@) == resolve_parents(ns.take(i as int)),
        decreases c.names.len() - i,
    {
        assert(ns.take(i + 1).drop_last() =~= ns.take(i as int));
        assert(ns[i as int] == c.names@[i as int]@);
        let ghost before = strings_view(out@);
        if crate::text::same_text(c.names[i].as_str(), "..") {
            if out.len() > 0 {
                out.pop();
                assert(strings_view(out@) =~= before.drop_last());
            }
        } else {
            out.push(c.names[i].clone());
            assert(strings_view(out@) =~= before.push(ns[i as int]));
        }
        i += 1;
    }
    assert(ns.take(c.names.len() as int) =~= ns);
    ComponentList { absolute: c.absolute, names: out }
}

fn starts_with_components(p: &ComponentList, base: &ComponentList) -> (r: bool)
    ensures
        r == path_starts_with(p.view_components(), base.view_components()),
{
    if p.absolute != base.absolute || base.names.len() > p.names.len() {
        return false;
    }
    let ghost pv = strings_view(p.names@);
    let ghost bv = strings_view(base.names@);
    let mut i: usize = 0;
    while i < base.names.len()
        invariant
            i <= base.names@.len() <= p.names@.len(),
            pv == strings_view(p.names@),
            bv == strings_view(base.names@),
            forall|j: int| 0 <= j < i ==> pv[j] == bv[j],
        decreases base.names.len() - i,
    {
        if !crate::text::same_text(p.names[i].as_str(), base.names[i].as_str()) {
            assert(pv.take(bv.len() as int)[i as int] != bv[i as int]);
            return false;
        }
        i += 1;
    }
    assert(pv.take(bv.len() as int) =~= bv);
    true
}


/// Progress lives under the data root alone, so it survives a runtime upgrade.
pub proof fn lemma_progress_survives_upgrade(a: Layout, b: Layout)
    requires
        a.data_root@ == b.data_root@,
    ensures
        join_spec(a.user_data_spec(), "progress.db"@) == join_spec(b.user_data_spec(), "progress.db"@),
{
}

/// Joining relative names onto one directory keeps different names apart: each runtime version
/// has a directory of its own, so an upgrade never overwrites a running install.
pub proof fn lemma_runtime_root_is_versioned(dir: Seq<char>, v1: Seq<char>, v2: Seq<char>)
    requires
        v1 != v2,
        !(v1.len() > 0 && v1[0] == '/'),
        !(v2.len() > 0 && v2[0] == '/'),
    ensures
        join_spec(dir, v1) != join_spec(dir, v2),
{
    if dir.len() > 0 {
        let p = if dir.last() == '/' { dir } else { dir + "/"@ };
        assert(join_spec(dir, v1) == p + v1);
        assert(join_spec(dir, v2) == p + v2);
        if p + v1 == p + v2 {
            assert((p + v1).skip(p.len() as int) =~= v1);
            assert((p + v2).skip(p.len() as int) =~= v2);
        }
    }
}

} // verus!
