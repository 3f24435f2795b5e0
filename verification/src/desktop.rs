//! Finding the desktop file of an application: the directories searched, the file
//! names tried, which directory entries count as a match, and the values read from
//! a desktop entry.
use crate::text::{chars_end_with, chars_of, chars_start_with, concat, eq_ignore_ascii_case, eq_ignore_ascii_case_spec, lowercase_of, owned, string_of, to_lowercase};
use crate::texts::texts_view;
use vstd::prelude::*;

verus! {

/// `PathBuf::join` with one more path: an absolute path replaces the directory;
/// otherwise it is appended after a separator unless the directory is empty or
/// already ends in one.
pub open spec fn join_spec(dir: Seq<char>, name: Seq<char>) -> Seq<char> {
    if name.len() > 0 && name[0] == '/' {
        name
    } else if dir.len() == 0 {
        name
    } else if dir.last() == '/' {
        dir + name
    } else {
        dir + seq!['/'] + name
    }
}

/// A path joined as `PathBuf::join` does.
pub fn join_path(dir: &str, name: &str) -> (res: String)
    ensures
        res@ == join_spec(dir@, name@),
{
    let d = chars_of(dir);
    let n = chars_of(name);
    if n.len() > 0 && n[0] == '/' {
        return owned(name);
    }
    if d.len() == 0 {
        return owned(name);
    }
    if d[d.len() - 1] == '/' {
        return concat(dir, name);
    }
    let with_sep = concat(dir, "/");
    proof {
        reveal_strlit("/");
        assert("/"@ =~= seq!['/']);
    }
    concat(with_sep.as_str(), name)
}

/// The directories searched for desktop files, in order, given the user's data
/// directory if it is known.
pub open spec fn application_dirs_spec(data_dir: Option<Seq<char>>) -> Seq<Seq<char>> {
    let base = seq!["/usr/share/applications"@, "/usr/local/share/applications"@];
    let user = match data_dir {
        Some(d) => seq![join_spec(d, "applications"@), join_spec(d, "flatpak/exports/share/applications"@)],
        None => Seq::empty(),
    };
    base + user + seq!["/var/lib/flatpak/exports/share/applications"@]
}

/// The directories searched for desktop files.
pub fn application_dirs(data_dir: Option<&str>) -> (res: Vec<String>)
    ensures
        texts_view(res@) == application_dirs_spec(match data_dir {
            Some(d) => Some(d@),
            None => None,
        }),
{
    let mut res: Vec<String> = Vec::new();
    res.push(owned("/usr/share/applications"));
    res.push(owned("/usr/local/share/applications"));
    match data_dir {
        Some(d) => {
            res.push(join_path(d, "applications"));
            res.push(join_path(d, "flatpak/exports/share/applications"));
        },
        None => {},
    }
    res.push(owned("/var/lib/flatpak/exports/share/applications"));
    proof {
        assert(texts_view(res@) =~= application_dirs_spec(match data_dir {
            Some(d) => Some(d@),
            None => None,
        }));
    }
    res
}

/// A step of the desktop file search.
#[derive(Clone, Debug)]
pub enum DesktopProbe {
    /// The desktop file is this file, if it exists.
    File(String),
    /// Look through the entries of this directory.
    Scan(String),
}

/// The abstract content of a `DesktopProbe`.
pub enum DesktopProbeView {
    File(Seq<char>),
    Scan(Seq<char>),
}

impl View for DesktopProbe {
    type V = DesktopProbeView;

    open spec fn view(&self) -> DesktopProbeView {
        match self {
            DesktopProbe::File(p) => DesktopProbeView::File(p@),
            DesktopProbe::Scan(p) => DesktopProbeView::Scan(p@),
        }
    }
}

/// The desktop file search through the first `n` directories, skipping those that do
/// not exist (`present[i]` tells whether `dirs[i]` does): in each, the exact names
/// first, then a look through its entries.
pub open spec fn desktop_probes_spec(
    dirs: Seq<Seq<char>>,
    present: Seq<bool>,
    names: Seq<Seq<char>>,
    n: int,
) -> Seq<DesktopProbeView>
    decreases n,
{
    if n <= 0 {
        Seq::empty()
    } else {
        let d = dirs[n - 1];
        let prev = desktop_probes_spec(dirs, present, names, n - 1);
        if present[n - 1] {
            prev + names.map_values(|t: Seq<char>| DesktopProbeView::File(join_spec(d, t))).push(DesktopProbeView::Scan(d))
        } else {
            prev
        }
    }
}

/// The desktop file search for the given directories, of which those marked present
/// exist, and the given names.
pub fn desktop_probes(dirs: &Vec<String>, present: &Vec<bool>, names: &Vec<String>) -> (res: Vec<DesktopProbe>)
    requires
        present@.len() == dirs@.len(),
    ensures
        res@.map_values(|p: DesktopProbe| p@) == desktop_probes_spec(
            texts_view(dirs@),
            present@,
            texts_view(names@),
            dirs@.len() as int,
        ),
{
    let ghost dv = texts_view(dirs@);
    let ghost nv = texts_view(names@);
    let mut out: Vec<DesktopProbe> = Vec::new();
    let mut i: usize = 0;
    proof {
        assert(out@.map_values(|p: DesktopProbe| p@) =~= desktop_probes_spec(dv, present@, nv, 0));
    }
    while i < dirs.len()
        invariant
            i <= dirs@.len(),
            present@.len() == dirs@.len(),
            dv == texts_view(dirs@),
            nv == texts_view(names@),
            out@.map_values(|p: DesktopProbe| p@) == desktop_probes_spec(dv, present@, nv, i as int),
        decreases dirs@.len() - i,
    {
        if present[i] {
            let ghost prev = out@.map_values(|p: DesktopProbe| p@);
            let ghost d = dv[i as int];
            let ghost f = |t: Seq<char>| DesktopProbeView::File(join_spec(d, t));
            let mut j: usize = 0;
            proof {
                assert(out@.map_values(|p: DesktopProbe| p@) =~= prev + nv.take(0).map_values(f));
            }
            while j < names.len()
                invariant
                    j <= names@.len(),
                    i < dirs@.len(),
                    dv == texts_view(dirs@),
                    nv == texts_view(names@),
                    d == dv[i as int],
                    f == (|t: Seq<char>| DesktopProbeView::File(join_spec(d, t))),
                    out@.map_values(|p: DesktopProbe| p@) == prev + nv.take(j as int).map_values(f),
                decreases names@.len() - j,
            {
                let ghost before = out@.map_values(|p: DesktopProbe| p@);
                out.push(DesktopProbe::File(join_path(dirs[i].as_str(), names[j].as_str())));
                proof {
                    assert(nv.take(j as int + 1).map_values(f) =~= nv.take(j as int).map_values(f).push(f(nv[j as int])));
                    assert(out@.map_values(|p: DesktopProbe| p@) =~= before.push(f(nv[j as int])));
                }
                j += 1;
            }
            let ghost before = out@.map_values(|p: DesktopProbe| p@);
            out.push(DesktopProbe::Scan(dirs[i].clone()));
            proof {
                assert(nv.take(nv.len() as int) =~= nv);
                assert(out@.map_values(|p: DesktopProbe| p@) =~= before.push(DesktopProbeView::Scan(d)));
            }
        }
        i += 1;
    }
    out
}

/// The part of `s` after its last `.` (all of `s` when it has none).
pub open spec fn after_last_dot(s: Seq<char>) -> Seq<char>
    decreases s.len(),
{
    if s.len() == 0 {
        s
    } else if s.last() == '.' {
        Seq::empty()
    } else {
        after_last_dot(s.drop_last()).push(s.last())
    }
}

proof fn lemma_after_last_dot(s: Seq<char>, i: int)
    requires
        0 <= i <= s.len(),
        s[i - 1] == '.' || i == 0,
        forall|j: int| i <= j < s.len() ==> s[j] != '.',
    ensures
        after_last_dot(s) == s.subrange(i, s.len() as int),
    decreases s.len(),
{
    if s.len() == i {
        if s.len() > 0 {
            assert(s.last() == '.');
        }
        assert(s.subrange(i, s.len() as int) =~= Seq::<char>::empty());
    } else {
        lemma_after_last_dot(s.drop_last(), i);
        assert(s.subrange(i, s.len() as int) =~= s.drop_last().subrange(i, s.len() - 1).push(s.last()));
    }
}

/// The names tried for the desktop file of `app_id`, given its lower-case form and the
/// lower-case form of its part after the last `.`: the id and its lower-case form,
/// and for reverse-domain ids also the last part and its lower-case form, each with
/// `.desktop` appended.
pub open spec fn desktop_names_spec(app_id: Seq<char>, app_id_lower: Seq<char>, last_lower: Seq<char>) -> Seq<Seq<char>> {
    let ext = ".desktop"@;
    let base = seq![app_id + ext, app_id_lower + ext];
    if app_id.contains('.') {
        base + seq![after_last_dot(app_id) + ext, last_lower + ext]
    } else {
        base
    }
}

/// The names tried for the desktop file of `app_id`.
pub open spec fn desktop_search_names_spec(app_id: Seq<char>) -> Seq<Seq<char>> {
    desktop_names_spec(app_id, lowercase_of(app_id), lowercase_of(after_last_dot(app_id)))
}

/// The part of a text after its last `.`.
pub fn after_last_dot_of(s: &str) -> (res: String)
    ensures
        res@ == after_last_dot(s@),
        res@.len() < s@.len() <==> s@.contains('.'),
{
    let cs = chars_of(s);
    let mut i: usize = cs.len();
    while i > 0 && cs[i - 1] != '.'
        invariant
            i <= cs.len(),
            cs@ == s@,
            forall|j: int| i <= j < cs.len() ==> cs@[j] != '.',
        decreases i,
    {
        i -= 1;
    }
    let mut tail: Vec<char> = Vec::new();
    let mut j: usize = i;
    while j < cs.len()
        invariant
            i <= j <= cs.len(),
            tail@ == cs@.subrange(i as int, j as int),
        decreases cs.len() - j,
    {
        tail.push(cs[j]);
        proof {
            assert(cs@.subrange(i as int, j as int + 1) =~= tail@);
        }
        j += 1;
    }
    proof {
        lemma_after_last_dot(s@, i as int);
        if i > 0 {
            assert(s@[i - 1] == '.');
        } else {
            assert forall|k: int| 0 <= k < s@.len() implies s@[k] != '.' by {}
        }
    }
    string_of(tail.as_slice())
}

/// The names tried for the desktop file of an application, given the lower-case
/// forms of its id and of the id's last part.
pub fn desktop_names_with(app_id: &str, app_id_lower: &str, last_lower: &str) -> (res: Vec<String>)
    ensures
        texts_view(res@) == desktop_names_spec(app_id@, app_id_lower@, last_lower@),
{
    let mut res: Vec<String> = Vec::new();
    res.push(concat(app_id, ".desktop"));
    res.push(concat(app_id_lower, ".desktop"));
    let last = after_last_dot_of(app_id);
    if chars_of(last.as_str()).len() < chars_of(app_id).len() {
        res.push(concat(last.as_str(), ".desktop"));
        res.push(concat(last_lower, ".desktop"));
    }
    proof {
        assert(texts_view(res@) =~= desktop_names_spec(app_id@, app_id_lower@, last_lower@));
    }
    res
}

/// The names tried for the desktop file of an application.
pub fn desktop_search_names(app_id: &str) -> (res: Vec<String>)
    ensures
        texts_view(res@) == desktop_search_names_spec(app_id@),
{
    let lower = to_lowercase(app_id);
    let last = after_last_dot_of(app_id);
    let last_lower = to_lowercase(last.as_str());
    desktop_names_with(app_id, lower.as_str(), last_lower.as_str())
}

/// How a directory entry relates to the application looked for.
pub enum DesktopCandidate {
    /// Not a desktop file.
    NotDesktop,
    /// Its name matches the application id.
    NameMatch,
    /// A desktop file whose `StartupWMClass` has to be compared.
    CheckWmClass,
}

/// The verdict for a directory entry whose lower-case name is `lower`, when looking
/// for the application whose lower-case id is `app_id_lower`.
pub open spec fn classify_lowered_spec(lower: Seq<char>, app_id_lower: Seq<char>) -> DesktopCandidate {
    if !".desktop"@.is_suffix_of(lower) {
        DesktopCandidate::NotDesktop
    } else if app_id_lower.is_prefix_of(lower) || (seq!['.'] + app_id_lower + ".desktop"@).is_suffix_of(lower) {
        DesktopCandidate::NameMatch
    } else {
        DesktopCandidate::CheckWmClass
    }
}

/// The verdict for a directory entry named `file_name` when looking for `app_id`;
/// names are compared in lower case.
pub open spec fn classify_spec(file_name: Seq<char>, app_id: Seq<char>) -> DesktopCandidate {
    classify_lowered_spec(lowercase_of(file_name), lowercase_of(app_id))
}

/// Classifies a directory entry by its lower-case name.
pub fn classify_lowered(lower: &str, app_id_lower: &str) -> (res: DesktopCandidate)
    ensures
        res == classify_lowered_spec(lower@, app_id_lower@),
{
    let lc = chars_of(lower);
    let ext = chars_of(".desktop");
    if !chars_end_with(lc.as_slice(), ext.as_slice()) {
        return DesktopCandidate::NotDesktop;
    }
    let id = chars_of(app_id_lower);
    let dotted = concat(".", app_id_lower);
    let dotted_ext = concat(dotted.as_str(), ".desktop");
    let dc = chars_of(dotted_ext.as_str());
    proof {
        reveal_strlit(".");
        assert("."@ =~= seq!['.']);
    }
    if chars_start_with(lc.as_slice(), id.as_slice()) || chars_end_with(lc.as_slice(), dc.as_slice()) {
        DesktopCandidate::NameMatch
    } else {
        DesktopCandidate::CheckWmClass
    }
}

/// Classifies a directory entry by its file name.
pub fn classify_desktop_file(file_name: &str, app_id: &str) -> (res: DesktopCandidate)
    ensures
        res == classify_spec(file_name@, app_id@),
{
    let lower = to_lowercase(file_name);
    let app_id_lower = to_lowercase(app_id);
    classify_lowered(lower.as_str(), app_id_lower.as_str())
}

/// The value of `key` in the `Desktop Entry` group of the desktop entry at `path`
/// whose text is `content`, if it parses and has the key.
pub uninterp spec fn desktop_entry_value_spec(path: Seq<char>, content: Seq<char>, key: Seq<char>) -> Option<Seq<char>>;

/// Trusted: `freedesktop_desktop_entry::DesktopEntry::from_str` on the text with no
/// locale filter, then `DesktopEntry::desktop_entry(key)`. The result is named
/// `desktop_entry_value_spec` of the path, the text and the key; what the parser
/// accepts is left to the crate.
#[verifier::external_body]
fn desktop_entry_value(path: &str, content: &str, key: &str) -> (res: Option<String>)
    ensures
        opt_chars(res) == desktop_entry_value_spec(path@, content@, key@),
{
    match freedesktop_desktop_entry::DesktopEntry::from_str(path, content, None::<&[&str]>) {
        Ok(entry) => match entry.desktop_entry(key) {
            Some(v) => Some(v.to_string()),
            None => None,
        },
        Err(_) => None,
    }
}

/// The characters of an optional text.
pub open spec fn opt_chars(o: Option<String>) -> Option<Seq<char>> {
    match o {
        Some(s) => Some(s@),
        None => None,
    }
}

/// Whether a `StartupWMClass` value, if there is one, equals the lower-case
/// application id up to ASCII case.
pub fn wm_class_equals(wm_class: Option<String>, app_id_lower: &str) -> (res: bool)
    ensures
        res == match opt_chars(wm_class) {
            Some(v) => eq_ignore_ascii_case_spec(v, app_id_lower@),
            None => false,
        },
{
    match wm_class {
        Some(v) => eq_ignore_ascii_case(v.as_str(), app_id_lower),
        None => false,
    }
}

/// Whether the desktop entry's `StartupWMClass` equals the lower-case application id
/// up to ASCII case.
pub fn wm_class_matches(path: &str, content: &str, app_id: &str) -> (res: bool)
    ensures
        res == match desktop_entry_value_spec(path@, content@, "StartupWMClass"@) {
            Some(v) => eq_ignore_ascii_case_spec(v, lowercase_of(app_id@)),
            None => false,
        },
{
    let app_id_lower = to_lowercase(app_id);
    wm_class_equals(desktop_entry_value(path, content, "StartupWMClass"), app_id_lower.as_str())
}

/// The `Name` of a desktop entry.
pub fn desktop_entry_name(path: &str, content: &str) -> (res: Option<String>)
    ensures
        opt_chars(res) == desktop_entry_value_spec(path@, content@, "Name"@),
{
    desktop_entry_value(path, content, "Name")
}

/// The `Icon` of a desktop entry.
pub fn desktop_entry_icon(path: &str, content: &str) -> (res: Option<String>)
    ensures
        opt_chars(res) == desktop_entry_value_spec(path@, content@, "Icon"@),
{
    desktop_entry_value(path, content, "Icon")
}

} // verus!
