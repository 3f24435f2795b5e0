//! Resolving an icon name to a file: the names and directories tried, the clean-up
//! of `file://` names, and a depth-limited search through directory listings.
use crate::desktop::{join_path, join_spec};
use crate::text::{chars_eq, chars_of, concat, lowercase_of, owned, string_of, to_lowercase};
use crate::texts::texts_view;
use vstd::prelude::*;

verus! {

/// The file names an icon may have, given the name and its lower-case form: PNG, SVG
/// and XPM files of the name, then of the lower-case form.
pub open spec fn icon_names_spec(name: Seq<char>, lower: Seq<char>) -> Seq<Seq<char>> {
    seq![name + ".png"@, name + ".svg"@, name + ".xpm"@, lower + ".png"@, lower + ".svg"@, lower + ".xpm"@]
}

/// The file names an icon may have.
pub open spec fn icon_target_names_spec(name: Seq<char>) -> Seq<Seq<char>> {
    icon_names_spec(name, lowercase_of(name))
}

/// The file names an icon may have, given the name and its lower-case form.
pub fn icon_names_with(name: &str, lower: &str) -> (res: Vec<String>)
    ensures
        texts_view(res@) == icon_names_spec(name@, lower@),
{
    let mut res: Vec<String> = Vec::new();
    res.push(concat(name, ".png"));
    res.push(concat(name, ".svg"));
    res.push(concat(name, ".xpm"));
    res.push(concat(lower, ".png"));
    res.push(concat(lower, ".svg"));
    res.push(concat(lower, ".xpm"));
    proof {
        assert(texts_view(res@) =~= icon_names_spec(name@, lower@));
    }
    res
}

/// The file names an icon may have.
pub fn icon_target_names(name: &str) -> (res: Vec<String>)
    ensures
        texts_view(res@) == icon_target_names_spec(name@),
{
    let l = to_lowercase(name);
    icon_names_with(name, l.as_str())
}

/// A directory searched for icons.
pub struct IconDir {
    pub path: String,
    /// Whether its subdirectories are searched too (pixmap directories are flat).
    pub recurse: bool,
}

/// The directories searched for icons, in order, given the user's data and home
/// directories when they are known.
pub open spec fn icon_dirs_spec(data_dir: Option<Seq<char>>, home_dir: Option<Seq<char>>) -> Seq<(Seq<char>, bool)> {
    let data = match data_dir {
        Some(d) => seq![(join_spec(d, "icons"@), true)],
        None => Seq::empty(),
    };
    let home = match home_dir {
        Some(h) => seq![(join_spec(h, ".icons"@), true)],
        None => Seq::empty(),
    };
    data + home + seq![
        ("/usr/share/icons"@, true),
        ("/usr/share/pixmaps"@, false),
        ("/usr/local/share/icons"@, true),
        ("/usr/local/share/pixmaps"@, false),
    ]
}

/// The abstract content of a list of icon directories.
pub open spec fn icon_dirs_view(v: Seq<IconDir>) -> Seq<(Seq<char>, bool)> {
    v.map_values(|d: IconDir| (d.path@, d.recurse))
}

/// The directories searched for icons.
pub fn icon_search_dirs(data_dir: Option<&str>, home_dir: Option<&str>) -> (res: Vec<IconDir>)
    ensures
        icon_dirs_view(res@) == icon_dirs_spec(
            match data_dir {
                Some(d) => Some(d@),
                None => None,
            },
            match home_dir {
                Some(h) => Some(h@),
                None => None,
            },
        ),
{
    let mut res: Vec<IconDir> = Vec::new();
    match data_dir {
        Some(d) => res.push(IconDir { path: join_path(d, "icons"), recurse: true }),
        None => {},
    }
    match home_dir {
        Some(h) => res.push(IconDir { path: join_path(h, ".icons"), recurse: true }),
        None => {},
    }
    res.push(IconDir { path: owned("/usr/share/icons"), recurse: true });
    res.push(IconDir { path: owned("/usr/share/pixmaps"), recurse: false });
    res.push(IconDir { path: owned("/usr/local/share/icons"), recurse: true });
    res.push(IconDir { path: owned("/usr/local/share/pixmaps"), recurse: false });
    proof {
        assert(icon_dirs_view(res@) =~= icon_dirs_spec(
            match data_dir {
                Some(d) => Some(d@),
                None => None,
            },
            match home_dir {
                Some(h) => Some(h@),
                None => None,
            },
        ));
    }
    res
}

/// The fallback icon of an application: when its desktop file names an icon, the
/// file that name resolves to, or else the name itself; when it names none, the file
/// the application id resolves to. (`resolved_entry_icon` is read only when there is
/// an entry icon, `resolved_app_id` only when there is none.)
pub fn application_fallback_icon(
    entry_icon: Option<String>,
    resolved_entry_icon: Option<String>,
    resolved_app_id: Option<String>,
) -> (res: Option<String>)
    ensures
        res == match entry_icon {
            Some(icon) => Some(
                match resolved_entry_icon {
                    Some(r) => r,
                    None => icon,
                },
            ),
            None => resolved_app_id,
        },
{
    match entry_icon {
        Some(icon) => Some(
            match resolved_entry_icon {
                Some(r) => r,
                None => icon,
            },
        ),
        None => resolved_app_id,
    }
}

/// A step of the icon file search.
#[derive(Clone, Debug)]
pub enum IconProbe {
    /// The icon is this file, if it exists.
    File(String),
    /// Search below this directory, if it exists.
    Tree(String),
}

/// The abstract content of an `IconProbe`.
pub enum ProbeView {
    File(Seq<char>),
    Tree(Seq<char>),
}

impl View for IconProbe {
    type V = ProbeView;

    open spec fn view(&self) -> ProbeView {
        match self {
            IconProbe::File(p) => ProbeView::File(p@),
            IconProbe::Tree(p) => ProbeView::Tree(p@),
        }
    }
}

/// The candidate files directly inside each of the first `n` directories that exist
/// (`present[i]` tells whether `dirs[i]` does), directory by directory, in target
/// order.
pub open spec fn top_level_probes(
    dirs: Seq<(Seq<char>, bool)>,
    present: Seq<bool>,
    targets: Seq<Seq<char>>,
    n: int,
) -> Seq<ProbeView>
    decreases n,
{
    if n <= 0 {
        Seq::empty()
    } else {
        let prev = top_level_probes(dirs, present, targets, n - 1);
        if present[n - 1] {
            prev + targets.map_values(|t: Seq<char>| ProbeView::File(join_spec(dirs[n - 1].0, t)))
        } else {
            prev
        }
    }
}

/// One tree search per searchable directory that exists among the first `n`, below
/// its `hicolor` subdirectory when `hicolor` is set, else below the directory itself.
pub open spec fn tree_probes(dirs: Seq<(Seq<char>, bool)>, present: Seq<bool>, hicolor: bool, n: int) -> Seq<ProbeView>
    decreases n,
{
    if n <= 0 {
        Seq::empty()
    } else {
        let prev = tree_probes(dirs, present, hicolor, n - 1);
        let d = dirs[n - 1];
        if d.1 && present[n - 1] {
            prev.push(ProbeView::Tree(if hicolor { join_spec(d.0, "hicolor"@) } else { d.0 }))
        } else {
            prev
        }
    }
}

/// The icon file search in order: the files directly inside every existing
/// directory, then the `hicolor` theme below every existing searchable directory,
/// then every existing searchable directory.
pub open spec fn icon_probes_spec(dirs: Seq<(Seq<char>, bool)>, present: Seq<bool>, targets: Seq<Seq<char>>) -> Seq<ProbeView> {
    top_level_probes(dirs, present, targets, dirs.len() as int) + tree_probes(dirs, present, true, dirs.len() as int)
        + tree_probes(dirs, present, false, dirs.len() as int)
}

fn push_tree_probes(out: &mut Vec<IconProbe>, dirs: &Vec<IconDir>, present: &Vec<bool>, hicolor: bool)
    requires
        present@.len() == dirs@.len(),
    ensures
        final(out)@.map_values(|p: IconProbe| p@) == old(out)@.map_values(|p: IconProbe| p@) + tree_probes(
            icon_dirs_view(dirs@),
            present@,
            hicolor,
            dirs@.len() as int,
        ),
{
    let ghost dv = icon_dirs_view(dirs@);
    let ghost base = out@.map_values(|p: IconProbe| p@);
    let mut i: usize = 0;
    proof {
        assert(out@.map_values(|p: IconProbe| p@) =~= base + tree_probes(dv, present@, hicolor, 0));
    }
    while i < dirs.len()
        invariant
            i <= dirs@.len(),
            present@.len() == dirs@.len(),
            dv == icon_dirs_view(dirs@),
            out@.map_values(|p: IconProbe| p@) == base + tree_probes(dv, present@, hicolor, i as int),
        decreases dirs@.len() - i,
    {
        let d = &dirs[i];
        let ghost before = out@.map_values(|p: IconProbe| p@);
        if d.recurse && present[i] {
            let root = if hicolor { join_path(d.path.as_str(), "hicolor") } else { d.path.clone() };
            out.push(IconProbe::Tree(root));
            proof {
                assert(out@.map_values(|p: IconProbe| p@) =~= before.push(out@[out@.len() - 1]@));
            }
        }
        i += 1;
    }
}

/// The icon file search for the given directories, of which those marked present
/// exist, and the given file names.
pub fn icon_probes(dirs: &Vec<IconDir>, present: &Vec<bool>, targets: &Vec<String>) -> (res: Vec<IconProbe>)
    requires
        present@.len() == dirs@.len(),
    ensures
        res@.map_values(|p: IconProbe| p@) == icon_probes_spec(icon_dirs_view(dirs@), present@, texts_view(targets@)),
{
    let ghost dv = icon_dirs_view(dirs@);
    let ghost tv = texts_view(targets@);
    let mut out: Vec<IconProbe> = Vec::new();
    let mut i: usize = 0;
    proof {
        assert(out@.map_values(|p: IconProbe| p@) =~= top_level_probes(dv, present@, tv, 0));
    }
    while i < dirs.len()
        invariant
            i <= dirs@.len(),
            present@.len() == dirs@.len(),
            dv == icon_dirs_view(dirs@),
            tv == texts_view(targets@),
            out@.map_values(|p: IconProbe| p@) == top_level_probes(dv, present@, tv, i as int),
        decreases dirs@.len() - i,
    {
        if present[i] {
            let ghost prev = out@.map_values(|p: IconProbe| p@);
            let ghost d = dv[i as int].0;
            let ghost f = |t: Seq<char>| ProbeView::File(join_spec(d, t));
            let mut j: usize = 0;
            proof {
                assert(tv.take(0).map_values(f) =~= Seq::<ProbeView>::empty());
                assert(out@.map_values(|p: IconProbe| p@) =~= prev + tv.take(0).map_values(f));
            }
            while j < targets.len()
                invariant
                    j <= targets@.len(),
                    i < dirs@.len(),
                    dv == icon_dirs_view(dirs@),
                    tv == texts_view(targets@),
                    d == dv[i as int].0,
                    f == (|t: Seq<char>| ProbeView::File(join_spec(d, t))),
                    out@.map_values(|p: IconProbe| p@) == prev + tv.take(j as int).map_values(f),
                decreases targets@.len() - j,
            {
                let ghost before = out@.map_values(|p: IconProbe| p@);
                out.push(IconProbe::File(join_path(dirs[i].path.as_str(), targets[j].as_str())));
                proof {
                    assert(tv.take(j as int + 1).map_values(f) =~= tv.take(j as int).map_values(f).push(f(tv[j as int])));
                    assert(out@.map_values(|p: IconProbe| p@) =~= before.push(f(tv[j as int])));
                }
                j += 1;
            }
            proof {
                assert(tv.take(tv.len() as int) =~= tv);
            }
        }
        i += 1;
    }
    push_tree_probes(&mut out, dirs, present, true);
    push_tree_probes(&mut out, dirs, present, false);
    out
}

/// The characters of `file://`.
pub open spec fn file_scheme() -> Seq<char> {
    seq!['f', 'i', 'l', 'e', ':', '/', '/']
}

/// An icon name with every leading `file://` removed.
pub open spec fn strip_file_scheme_spec(s: Seq<char>) -> Seq<char>
    decreases s.len(),
{
    if file_scheme().is_prefix_of(s) {
        strip_file_scheme_spec(s.skip(7))
    } else {
        s
    }
}

/// The characters from `a` up to `b`.
fn slice_of(cs: &Vec<char>, a: usize, b: usize) -> (res: Vec<char>)
    requires
        a <= b <= cs@.len(),
    ensures
        res@ == cs@.subrange(a as int, b as int),
{
    let mut out: Vec<char> = Vec::new();
    let mut j: usize = a;
    while j < b
        invariant
            a <= j <= b <= cs@.len(),
            out@ == cs@.subrange(a as int, j as int),
        decreases b - j,
    {
        out.push(cs[j]);
        proof {
            assert(cs@.subrange(a as int, j as int + 1) =~= out@);
        }
        j += 1;
    }
    out
}

/// Removes every leading `file://` from an icon name.
pub fn strip_file_scheme(name: &str) -> (res: String)
    ensures
        res@ == strip_file_scheme_spec(name@),
{
    let cs = chars_of(name);
    let scheme = chars_of("file://");
    proof {
        reveal_strlit("file://");
        assert(scheme@ =~= file_scheme());
        assert(name@.skip(0) =~= name@);
    }
    let mut start: usize = 0;
    while cs.len() >= 7 && start <= cs.len() - 7 && chars_eq(slice_of(&cs, start, start + 7).as_slice(), scheme.as_slice())
        invariant
            start <= cs.len(),
            cs@ == name@,
            scheme@ == file_scheme(),
            strip_file_scheme_spec(name@) == strip_file_scheme_spec(name@.skip(start as int)),
        decreases cs.len() - start,
    {
        proof {
            let rest = name@.skip(start as int);
            assert(cs@.subrange(start as int, start + 7) == scheme@);
            assert(rest.subrange(0, 7) =~= cs@.subrange(start as int, start + 7));
            assert(file_scheme().is_prefix_of(rest));
            assert(rest.skip(7) =~= name@.skip(start + 7));
        }
        start += 7;
    }
    let mut out: Vec<char> = Vec::new();
    let mut j: usize = start;
    while j < cs.len()
        invariant
            start <= j <= cs.len(),
            out@ == cs@.subrange(start as int, j as int),
        decreases cs.len() - j,
    {
        out.push(cs[j]);
        proof {
            assert(cs@.subrange(start as int, j as int + 1) =~= out@);
        }
        j += 1;
    }
    proof {
        let rest = name@.skip(start as int);
        assert(out@ =~= rest);
        if file_scheme().is_prefix_of(rest) {
            assert(start + 7 <= cs.len());
            assert(cs@.subrange(start as int, start + 7) =~= rest.subrange(0, 7));
            assert(cs@.subrange(start as int, start + 7) == scheme@);
        }
    }
    string_of(out.as_slice())
}

/// Where an icon comes from.
#[derive(Clone, Debug)]
pub enum IconSource {
    /// An image file.
    File(String),
    /// A name looked up in the icon theme.
    Named(String),
}

/// A cleaned icon name is a file when it is an absolute path or names an existing
/// file; otherwise it is a theme icon name.
pub fn icon_source(clean: String, exists: bool) -> (res: IconSource)
    ensures
        match res {
            IconSource::File(p) => p@ == clean@ && ((clean@.len() > 0 && clean@[0] == '/') || exists),
            IconSource::Named(n) => n@ == clean@ && !(clean@.len() > 0 && clean@[0] == '/') && !exists,
        },
{
    let cs = chars_of(clean.as_str());
    if (cs.len() > 0 && cs[0] == '/') || exists {
        IconSource::File(clean)
    } else {
        IconSource::Named(clean)
    }
}

/// How an icon name lookup starts.
pub enum IconStart {
    /// An empty name has no icon.
    NoIcon,
    /// An absolute path to an existing file is its own icon.
    Direct(String),
    /// Otherwise the icon directories are searched.
    Search,
}

/// The first step of resolving an icon name; `exists` tells whether a file of that
/// name exists.
pub fn icon_start(name: &str, exists: bool) -> (res: IconStart)
    ensures
        match res {
            IconStart::NoIcon => name@.len() == 0,
            IconStart::Direct(p) => name@.len() > 0 && name@[0] == '/' && exists && p@ == name@,
            IconStart::Search => name@.len() > 0 && !(name@[0] == '/' && exists),
        },
{
    let cs = chars_of(name);
    if cs.len() == 0 {
        IconStart::NoIcon
    } else if cs[0] == '/' && exists {
        IconStart::Direct(owned(name))
    } else {
        IconStart::Search
    }
}

/// One entry of a directory listing.
#[derive(Clone, Debug)]
pub struct DirEntryInfo {
    /// The full path of the entry.
    pub path: String,
    /// The entry's file name, when it is valid text.
    pub name: Option<String>,
    pub is_dir: bool,
    pub is_file: bool,
}

/// The entry is a file named like one of the targets.
pub open spec fn entry_matches(e: DirEntryInfo, targets: Seq<Seq<char>>) -> bool {
    e.is_file && (e.name matches Some(n) && targets.contains(n@))
}

/// The entry is a subdirectory to descend into: any directory, except one named
/// `hicolor` directly inside the starting directory.
pub open spec fn entry_descends(e: DirEntryInfo, depth: usize) -> bool {
    e.is_dir && !(depth == 0 && (e.name matches Some(n) && n@ == "hicolor"@))
}

/// A depth-first search for an icon file, fed one directory listing at a time.
pub struct DirSearch {
    targets: Vec<String>,
    max_depth: usize,
    /// Directories still to read, with their depth; the last one is read next.
    stack: Vec<(String, usize)>,
}

/// The abstract state of a search: the targets, the depth limit and the
/// directories still to read (next one last).
pub struct DirSearchView {
    pub targets: Seq<Seq<char>>,
    pub max_depth: usize,
    pub pending: Seq<(Seq<char>, usize)>,
}

impl View for DirSearch {
    type V = DirSearchView;

    closed spec fn view(&self) -> DirSearchView {
        DirSearchView {
            targets: texts_view(self.targets@),
            max_depth: self.max_depth,
            pending: self.stack@.map_values(|e: (String, usize)| (e.0@, e.1)),
        }
    }
}

/// The subdirectories of a listing that the search descends into, in listing order.
pub open spec fn descents(entries: Seq<DirEntryInfo>, depth: usize) -> Seq<Seq<char>>
    decreases entries.len(),
{
    if entries.len() == 0 {
        Seq::empty()
    } else {
        let prev = descents(entries.drop_last(), depth);
        let e = entries.last();
        if entry_descends(e, depth) {
            prev.push(e.path@)
        } else {
            prev
        }
    }
}

/// How deep below a theme or icon directory the tree search reads.
pub const ICON_SEARCH_DEPTH: usize = 5;

impl DirSearch {
    /// The tree search for icon files below `root`, down to `ICON_SEARCH_DEPTH`.
    pub fn for_icon_tree(root: String, targets: Vec<String>) -> (res: DirSearch)
        ensures
            res@.targets == texts_view(targets@),
            res@.max_depth == ICON_SEARCH_DEPTH,
            res@.pending == seq![(root@, 0usize)],
    {
        DirSearch::new(root, targets, ICON_SEARCH_DEPTH)
    }

    /// A search that starts at `root` (depth 0) and reads directories down to
    /// `max_depth`.
    pub fn new(root: String, targets: Vec<String>, max_depth: usize) -> (res: DirSearch)
        ensures
            res@.targets == texts_view(targets@),
            res@.max_depth == max_depth,
            res@.pending == seq![(root@, 0usize)],
    {
        let mut stack: Vec<(String, usize)> = Vec::new();
        stack.push((root, 0));
        let res = DirSearch { targets, max_depth, stack };
        proof {
            assert(res@.pending =~= seq![(res.stack@[0].0@, 0usize)]);
        }
        res
    }

    /// The next directory to read, with its depth.
    pub fn next_dir(&mut self) -> (res: Option<(String, usize)>)
        ensures
            final(self)@.targets == old(self)@.targets,
            final(self)@.max_depth == old(self)@.max_depth,
            match res {
                Some((d, depth)) => {
                    &&& old(self)@.pending.len() > 0
                    &&& (d@, depth) == old(self)@.pending.last()
                    &&& final(self)@.pending == old(self)@.pending.drop_last()
                },
                None => old(self)@.pending.len() == 0 && final(self)@.pending == old(self)@.pending,
            },
    {
        let ghost before = self.stack@;
        let r = self.stack.pop();
        proof {
            assert(self.stack@.map_values(|e: (String, usize)| (e.0@, e.1)) =~= before.map_values(
                |e: (String, usize)| (e.0@, e.1),
            ).subrange(0, self.stack@.len() as int));
        }
        r
    }

    fn matches_target(&self, name: &str) -> (res: bool)
        ensures
            res == self@.targets.contains(name@),
    {
        let nc = chars_of(name);
        let mut i: usize = 0;
        while i < self.targets.len()
            invariant
                i <= self.targets@.len(),
                nc@ == name@,
                forall|j: int| 0 <= j < i ==> self.targets@[j]@ != name@,
            decreases self.targets@.len() - i,
        {
            let tc = chars_of(self.targets[i].as_str());
            if chars_eq(tc.as_slice(), nc.as_slice()) {
                proof {
                    assert(self@.targets[i as int] == name@);
                }
                return true;
            }
            i += 1;
        }
        proof {
            assert forall|j: int| 0 <= j < self@.targets.len() implies self@.targets[j] != name@ by {
                assert(self@.targets[j] == self.targets@[j]@);
            }
        }
        false
    }

    /// Reads the listing of a directory at `depth`: the first file named like a target
    /// is the answer; otherwise the subdirectories to descend into (when they are
    /// within the depth limit) are read next, in listing order, before the
    /// directories that were already waiting.
    pub fn visit(&mut self, depth: usize, entries: Vec<DirEntryInfo>) -> (res: Option<String>)
        ensures
            final(self)@.targets == old(self)@.targets,
            final(self)@.max_depth == old(self)@.max_depth,
            match res {
                Some(p) => exists|i: int| {
                    &&& 0 <= i < entries@.len()
                    &&& entry_matches(#[trigger] entries@[i], old(self)@.targets)
                    &&& entries@[i].path@ == p@
                    &&& forall|j: int| 0 <= j < i ==> !entry_matches(entries@[j], old(self)@.targets)
                },
                None => {
                    &&& forall|i: int| 0 <= i < entries@.len() ==> !entry_matches(#[trigger] entries@[i], old(self)@.targets)
                    &&& final(self)@.pending == if depth < old(self)@.max_depth {
                        old(self)@.pending + descents(entries@, depth).reverse().map_values(
                            |d: Seq<char>| (d, (depth + 1) as usize),
                        )
                    } else {
                        old(self)@.pending
                    }
                },
            },
    {
        let ghost t = self@.targets;
        let mut subdirs: Vec<String> = Vec::new();
        let mut i: usize = 0;
        proof {
            assert(entries@.take(0) =~= Seq::<DirEntryInfo>::empty());
            assert(texts_view(subdirs@) =~= descents(entries@.take(0), depth));
        }
        while i < entries.len()
            invariant
                i <= entries@.len(),
                t == self@.targets,
                self@ == old(self)@,
                forall|j: int| 0 <= j < i ==> !entry_matches(#[trigger] entries@[j], t),
                texts_view(subdirs@) == descents(entries@.take(i as int), depth),
            decreases entries@.len() - i,
        {
            let e = &entries[i];
            proof {
                assert(entries@.take(i as int + 1).drop_last() =~= entries@.take(i as int));
                assert(entries@.take(i as int + 1).last() == *e);
            }
            if e.is_file {
                match &e.name {
                    Some(n) => {
                        if self.matches_target(n.as_str()) {
                            let found = e.path.clone();
                            proof {
                                assert(entry_matches(entries@[i as int], t));
                            }
                            return Some(found);
                        }
                    },
                    None => {},
                }
            }
            if e.is_dir {
                let skip = depth == 0 && match &e.name {
                    Some(n) => crate::text::text_eq(n.as_str(), "hicolor"),
                    None => false,
                };
                if !skip {
                    let ghost before = texts_view(subdirs@);
                    subdirs.push(e.path.clone());
                    proof {
                        assert(texts_view(subdirs@) =~= before.push(e.path@));
                    }
                }
            }
            i += 1;
        }
        proof {
            assert(entries@.take(entries@.len() as int) =~= entries@);
        }
        if depth < self.max_depth {
            let ghost st0 = self@.pending;
            let ghost sv = texts_view(subdirs@);
            let mut k: usize = subdirs.len();
            while k > 0
                invariant
                    k <= subdirs@.len(),
                    sv == texts_view(subdirs@),
                    depth < self.max_depth,
                    self@.targets == t,
                    self@.max_depth == old(self)@.max_depth,
                    self@.pending == st0 + sv.subrange(k as int, sv.len() as int).reverse().map_values(
                        |d: Seq<char>| (d, (depth + 1) as usize),
                    ),
                decreases k,
            {
                k -= 1;
                let ghost before = self@.pending;
                self.stack.push((subdirs[k].clone(), depth + 1));
                proof {
                    assert(sv.subrange(k as int, sv.len() as int).reverse() =~= sv.subrange(k as int + 1, sv.len() as int).reverse().push(sv[k as int]));
                    assert(self@.pending =~= before.push((sv[k as int], (depth + 1) as usize)));
                    assert(self@.pending =~= st0 + sv.subrange(k as int, sv.len() as int).reverse().map_values(
                        |d: Seq<char>| (d, (depth + 1) as usize),
                    ));
                }
            }
            proof {
                assert(sv.subrange(0, sv.len() as int) =~= sv);
            }
        }
        None
    }
}

} // verus!
