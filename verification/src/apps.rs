//! The application catalog: the snapshot type handed to the presentation
//! layer, and the directory search that finds installed applications.
//!
//! The search works on a snapshot of the directory tree: the shell lists
//! the filesystem and hands the library one node per entry, with its full
//! path; every decision about which entries are applications and which
//! directories to descend into is made and proved here.

use vstd::prelude::*;
use vstd::string::StrSliceExecFns;
use vstd::string::StringSliceAdditionalSpecFns;
use vstd::utf8::encode_utf8;
use vstd::string::StringExecFns;
use crate::access::opt_text_view;

verus! {

/// One application, as handed to the presentation layer.  Recomputed on
/// every query, never cached.  The two text fields are independently
/// optional: absence means none was found, not an empty string.
pub struct Application {
    pub id: String,
    pub name: String,
    pub icon: String,
    pub path: String,
    pub selected_text: Option<String>,
    pub focused_text: Option<String>,
}

/// The specification-level mirror of `Application`.
pub struct SpecApplication {
    pub id: Seq<char>,
    pub name: Seq<char>,
    pub icon: Seq<char>,
    pub path: Seq<char>,
    pub selected_text: Option<Seq<char>>,
    pub focused_text: Option<Seq<char>>,
}

impl View for Application {
    type V = SpecApplication;

    open spec fn view(&self) -> SpecApplication {
        SpecApplication {
            id: self.id@,
            name: self.name@,
            icon: self.icon@,
            path: self.path@,
            selected_text: opt_text_view(self.selected_text),
            focused_text: opt_text_view(self.focused_text),
        }
    }
}

/// Whether `s` ends with `suffix`.
pub open spec fn spec_ends_with(s: Seq<char>, suffix: Seq<char>) -> bool {
    s.len() >= suffix.len() && s.subrange(s.len() - suffix.len(), s.len() as int) == suffix
}

/// Whether `s` ends with `suffix`, by characters.
pub fn str_ends_with(s: &str, suffix: &str) -> (r: bool)
    ensures
        r == spec_ends_with(s@, suffix@),
{
    let n = s.unicode_len();
    let m = suffix.unicode_len();
    if m > n {
        return false;
    }
    let mut j: usize = 0;
    while j < m
        invariant
            j <= m,
            m <= n,
            n == s@.len(),
            m == suffix@.len(),
            forall|k: int| 0 <= k < j ==> s@[n - m + k] == suffix@[k],
        decreases m - j,
    {
        if s.get_char(n - m + j) != suffix.get_char(j) {
            proof {
                assert(s@.subrange(n - m, n as int)[j as int] == s@[n - m + j]);
            }
            return false;
        }
        j += 1;
    }
    proof {
        assert(s@.subrange(n - m, n as int) =~= suffix@);
    }
    true
}

/// An application bundle: a path ending in ".app".
pub open spec fn spec_is_app_path(s: Seq<char>) -> bool {
    spec_ends_with(s, ".app"@)
}

/// Whether the path ends in ".app".
pub fn is_app_path(s: &str) -> (r: bool)
    ensures
        r == spec_is_app_path(s@),
{
    str_ends_with(s, ".app")
}

/// Whether the path ends in a dot followed only by lowercase letters — a
/// plain file extension.  Directories named so (bundles other than
/// applications) are not descended into.
pub open spec fn spec_has_plain_extension(s: Seq<char>) -> bool {
    exists|i: int|
        0 <= i < s.len() && s[i] == '.' && (forall|j: int| i < j < s.len() ==> 'a' <= #[trigger] s[j] <= 'z')
}

/// Whether the path ends in a dot followed only by lowercase letters.
pub fn has_plain_extension(s: &str) -> (r: bool)
    ensures
        r == spec_has_plain_extension(s@),
{
    let n = s.unicode_len();
    let mut p: usize = n;
    while p > 0
        invariant
            p <= n,
            n == s@.len(),
            forall|j: int| p <= j < n ==> 'a' <= #[trigger] s@[j] <= 'z',
        decreases p,
    {
        let c = s.get_char(p - 1);
        if c == '.' {
            proof {
                assert(s@[p - 1] == '.');
            }
            return true;
        }
        if c < 'a' || c > 'z' {
            proof {
                assert forall|i: int|
                    0 <= i < s@.len() && s@[i] == '.' implies !(forall|j: int|
                    i < j < s@.len() ==> 'a' <= #[trigger] s@[j] <= 'z') by {
                    if i < p - 1 {
                        assert(s@[p - 1] == c);
                        assert(!('a' <= s@[p - 1] <= 'z'));
                    } else {
                        assert(i >= p);
                        assert('a' <= s@[i] <= 'z');
                        assert(s@[i] != '.');
                    }
                }
            }
            return false;
        }
        p -= 1;
    }
    proof {
        assert forall|i: int| 0 <= i < s@.len() implies s@[i] != '.' by {
            assert('a' <= s@[i] <= 'z');
        }
    }
    false
}

/// One entry of the directory-tree snapshot, with its full path.
pub struct DirNode {
    pub path: String,
    pub is_dir: bool,
    pub children: Vec<DirNode>,
}

/// The paths of a sequence of strings.
pub open spec fn paths_view(v: Seq<String>) -> Seq<Seq<char>> {
    v.map(|i: int, s: String| s@)
}

/// The application paths found under `n`, in pre-order: a node whose path
/// ends in ".app" is an application and is not searched further; any other
/// node contributes what its child directories yield.
pub open spec fn spec_app_paths(n: DirNode) -> Seq<Seq<char>>
    decreases n, 2int, 0int,
{
    if spec_is_app_path(n.path@) {
        seq![n.path@]
    } else {
        spec_app_paths_list(n, 0)
    }
}

/// The application paths contributed by `n`'s children from index `i` on.
pub open spec fn spec_app_paths_list(n: DirNode, i: int) -> Seq<Seq<char>>
    decreases n, 1int, n.children.len() - i,
{
    if i < 0 || i >= n.children.len() {
        Seq::<Seq<char>>::empty()
    } else {
        spec_child_paths(n.children[i]) + spec_app_paths_list(n, i + 1)
    }
}

/// What one child entry contributes: files nothing; a directory ending in
/// ".app" itself; a directory with a plain file extension nothing; any
/// other directory what a search below it finds.
pub open spec fn spec_child_paths(c: DirNode) -> Seq<Seq<char>>
    decreases c, 2int, 0int,
{
    if !c.is_dir {
        Seq::<Seq<char>>::empty()
    } else if spec_is_app_path(c.path@) {
        seq![c.path@]
    } else if !spec_has_plain_extension(c.path@) {
        spec_app_paths_list(c, 0)
    } else {
        Seq::<Seq<char>>::empty()
    }
}

/// Searches the directory snapshot for application bundles, depth first,
/// in directory order.
pub fn search_for_applications(node: &DirNode) -> (paths: Vec<String>)
    ensures
        paths_view(paths@) == spec_app_paths(*node),
    decreases *node,
{
    if is_app_path(node.path.as_str()) {
        let mut v: Vec<String> = Vec::new();
        v.push(node.path.clone());
        proof {
            assert(paths_view(v@) =~= seq![node.path@]);
        }
        return v;
    }
    let mut out: Vec<String> = Vec::new();
    proof {
        assert(paths_view(out@) =~= Seq::<Seq<char>>::empty());
    }
    let mut i: usize = 0;
    while i < node.children.len()
        invariant
            i <= node.children.len(),
            paths_view(out@) + spec_app_paths_list(*node, i as int) == spec_app_paths_list(
                *node,
                0,
            ),
        decreases node.children.len() - i,
    {
        let ghost collected = paths_view(out@);
        let ghost contribution = spec_child_paths(node.children@[i as int]);
        let child = &node.children[i];
        if child.is_dir {
            if is_app_path(child.path.as_str()) {
                out.push(child.path.clone());
                proof {
                    assert(paths_view(out@) =~= collected + contribution);
                }
            } else if !has_plain_extension(child.path.as_str()) {
                let mut sub = search_for_applications(child);
                out.append(&mut sub);
                proof {
                    assert(paths_view(out@) =~= collected + contribution);
                }
            } else {
                proof {
                    assert(paths_view(out@) =~= collected + contribution);
                }
            }
        } else {
            proof {
                assert(paths_view(out@) =~= collected + contribution);
            }
        }
        i += 1;
        proof {
            assert((collected + contribution) + spec_app_paths_list(*node, i as int)
                =~= collected + (contribution + spec_app_paths_list(*node, i as int)));
        }
    }
    proof {
        assert(paths_view(out@) + spec_app_paths_list(*node, node.children@.len() as int)
            =~= paths_view(out@));
    }
    out
}

/// The application paths under every root, in root order.
pub open spec fn spec_roots_app_paths(roots: Seq<DirNode>) -> Seq<Seq<char>>
    decreases roots.len(),
{
    if roots.len() == 0 {
        Seq::<Seq<char>>::empty()
    } else {
        spec_app_paths(roots[0]) + spec_roots_app_paths(roots.drop_first())
    }
}

/// Every application bundle found under the given root snapshots, searched
/// in order.
pub fn get_application_paths(roots: &Vec<DirNode>) -> (paths: Vec<String>)
    ensures
        paths_view(paths@) == spec_roots_app_paths(roots@),
{
    let mut out: Vec<String> = Vec::new();
    proof {
        assert(paths_view(out@) =~= Seq::<Seq<char>>::empty());
        assert(roots@.skip(0) =~= roots@);
    }
    let mut i: usize = 0;
    while i < roots.len()
        invariant
            i <= roots.len(),
            paths_view(out@) + spec_roots_app_paths(roots@.skip(i as int))
                == spec_roots_app_paths(roots@),
        decreases roots.len() - i,
    {
        let ghost collected = paths_view(out@);
        let ghost rem = roots@.skip(i as int);
        let mut sub = search_for_applications(&roots[i]);
        out.append(&mut sub);
        i += 1;
        proof {
            assert(rem[0] == roots@[i - 1]);
            assert(rem.drop_first() =~= roots@.skip(i as int));
            assert(paths_view(out@) =~= collected + spec_app_paths(rem[0]));
            assert((collected + spec_app_paths(rem[0])) + spec_roots_app_paths(
                rem.drop_first(),
            ) =~= collected + (spec_app_paths(rem[0]) + spec_roots_app_paths(rem.drop_first())));
        }
    }
    proof {
        assert(roots@.skip(roots@.len() as int) =~= Seq::<DirNode>::empty());
        assert(paths_view(out@) + Seq::<Seq<char>>::empty() =~= paths_view(out@));
    }
    out
}

/// The three roots the catalog searches: the file manager's own bundle and
/// the two application directories.
pub fn application_root_paths() -> (roots: Vec<String>)
    ensures
        roots@.len() == 3,
        roots@[0]@ == "/System/Library/CoreServices/Finder.app"@,
        roots@[1]@ == "/Applications/"@,
        roots@[2]@ == "/System/Applications/"@,
{
    let mut roots: Vec<String> = Vec::new();
    roots.push(String::from_str("/System/Library/CoreServices/Finder.app"));
    roots.push(String::from_str("/Applications/"));
    roots.push(String::from_str("/System/Applications/"));
    roots
}

/// The part of `s` after its last slash; `s` itself when it has none.
pub open spec fn spec_after_last_slash(s: Seq<char>) -> Seq<char>
    decreases s.len(),
{
    if s.len() == 0 {
        s
    } else if s[s.len() - 1] == '/' {
        Seq::<char>::empty()
    } else {
        spec_after_last_slash(s.drop_last()).push(s.last())
    }
}

proof fn lemma_after_last_slash_subrange(s: Seq<char>, p: int)
    requires
        0 <= p <= s.len(),
        p == 0 || s[p - 1] == '/',
        forall|j: int| p <= j < s.len() ==> s[j] != '/',
    ensures
        spec_after_last_slash(s) == s.subrange(p, s.len() as int),
    decreases s.len(),
{
    if s.len() == 0 {
        assert(s.subrange(0, 0) =~= s);
    } else if p == s.len() {
        assert(s.subrange(p, s.len() as int) =~= Seq::<char>::empty());
    } else {
        assert(s[s.len() - 1] != '/');
        lemma_after_last_slash_subrange(s.drop_last(), p);
        assert(s.subrange(p, s.len() as int) =~= s.drop_last().subrange(
            p,
            s.len() - 1,
        ).push(s.last()));
    }
}

/// The last path segment: everything after the last slash.
pub fn after_last_slash<'a>(s: &'a str) -> (r: &'a str)
    ensures
        r@ == spec_after_last_slash(s@),
{
    let n = s.unicode_len();
    let mut p: usize = n;
    while p > 0
        invariant
            p <= n,
            n == s@.len(),
            forall|j: int| p <= j < n ==> s@[j] != '/',
        ensures
            p <= n,
            forall|j: int| p <= j < n ==> s@[j] != '/',
            p == 0 || s@[p - 1] == '/',
        decreases p,
    {
        if s.get_char(p - 1) == '/' {
            break;
        }
        p -= 1;
    }
    let r = s.substring_char(p, n);
    proof {
        lemma_after_last_slash_subrange(s@, p as int);
    }
    r
}

/// The first index where ".app" occurs in `s` at or after `i`.
pub open spec fn spec_find_app(s: Seq<char>, i: int) -> Option<int>
    decreases s.len() - i,
{
    if i < 0 || i + 4 > s.len() {
        None
    } else if s.subrange(i, i + 4) == ".app"@ {
        Some(i)
    } else {
        spec_find_app(s, i + 1)
    }
}

/// An executable path truncated just past the first ".app": the bundle the
/// executable belongs to.  Absent when the path has no ".app" at all.
pub open spec fn spec_bundle_prefix(s: Seq<char>) -> Option<Seq<char>> {
    match spec_find_app(s, 0) {
        Some(i) => Some(s.subrange(0, i + 4)),
        None => None,
    }
}

/// The bundle path that contains the given executable path.
pub fn bundle_prefix_of(executable_path: &str) -> (r: Option<String>)
    ensures
        match r {
            Some(p) => spec_bundle_prefix(executable_path@) == Some(p@),
            None => spec_bundle_prefix(executable_path@) is None,
        },
{
    let n = executable_path.unicode_len();
    proof {
        reveal_strlit(".app");
        assert(".app"@ =~= seq!['.', 'a', 'p', 'p']);
    }
    if n < 4 {
        return None;
    }
    let mut i: usize = 0;
    while n - i >= 4
        invariant
            i <= n,
            n == executable_path@.len(),
            spec_find_app(executable_path@, 0) == spec_find_app(executable_path@, i as int),
            ".app"@ =~= seq!['.', 'a', 'p', 'p'],
        decreases n - i,
    {
        if executable_path.get_char(i) == '.' && executable_path.get_char(i + 1) == 'a' && executable_path.get_char(i + 2) == 'p'
            && executable_path.get_char(i + 3) == 'p' {
            proof {
                assert(executable_path@.subrange(i as int, i + 4) =~= ".app"@);
                assert(spec_find_app(executable_path@, i as int) == Some(i as int));
            }
            let prefix = executable_path.substring_char(0, i + 4);
            let owned = prefix.to_owned();
            proof {
                assert(owned@ == executable_path@.subrange(0, i + 4));
            }
            return Some(owned);
        }
        proof {
            let ghost piece = executable_path@.subrange(i as int, i + 4);
            if piece == ".app"@ {
                assert(piece[0] == executable_path@[i as int]);
                assert(piece[1] == executable_path@[i + 1]);
                assert(piece[2] == executable_path@[i + 2]);
                assert(piece[3] == executable_path@[i + 3]);
                assert(false);
            }
        }
        i += 1;
    }
    None
}

/// Whether `pat` occurs in `s` at position `i`.
fn matches_at(s: &str, i: usize, pat: &str) -> (r: bool)
    requires
        i + pat@.len() <= s@.len(),
    ensures
        r == (s@.subrange(i as int, i as int + pat@.len() as int) == pat@),
{
    let n = s.unicode_len();
    let m = pat.unicode_len();
    let mut k: usize = 0;
    while k < m
        invariant
            k <= m,
            m == pat@.len(),
            n == s@.len(),
            i + m <= n,
            forall|t: int| 0 <= t < k ==> s@[i + t] == pat@[t],
        decreases m - k,
    {
        if s.get_char(i + k) != pat.get_char(k) {
            proof {
                assert(s@.subrange(i as int, i as int + m as int)[k as int] == s@[i + k]);
            }
            return false;
        }
        k += 1;
    }
    proof {
        assert(s@.subrange(i as int, i as int + m as int) =~= pat@);
    }
    true
}

/// `s` with every occurrence of `pat` removed, scanning left to right and
/// never rescanning what a removal uncovers.
pub open spec fn spec_remove_all(s: Seq<char>, pat: Seq<char>) -> Seq<char>
    decreases s.len(),
    when pat.len() > 0
{
    if s.len() == 0 {
        s
    } else if s.len() >= pat.len() && s.subrange(0, pat.len() as int) == pat {
        spec_remove_all(s.skip(pat.len() as int), pat)
    } else {
        seq![s[0]] + spec_remove_all(s.skip(1), pat)
    }
}

/// Removes every occurrence of `pat` from `s`, left to right.
pub fn remove_all_occurrences(s: &str, pat: &str) -> (r: String)
    requires
        pat@.len() > 0,
    ensures
        r@ == spec_remove_all(s@, pat@),
{
    let n = s.unicode_len();
    let m = pat.unicode_len();
    let mut out = String::new();
    proof {
        assert(s@.skip(0) =~= s@);
    }
    let mut i: usize = 0;
    while i < n
        invariant
            i <= n,
            n == s@.len(),
            m == pat@.len(),
            m > 0,
            out@ + spec_remove_all(s@.skip(i as int), pat@) == spec_remove_all(s@, pat@),
        decreases n - i,
    {
        let ghost rest = s@.skip(i as int);
        if n - i >= m && matches_at(s, i, pat) {
            proof {
                assert(rest.subrange(0, m as int) =~= s@.subrange(i as int, i as int + m as int));
                assert(rest.skip(m as int) =~= s@.skip(i + m));
            }
            i += m;
        } else {
            let piece = s.substring_char(i, i + 1);
            out.append(piece);
            proof {
                if rest.len() >= m && rest.subrange(0, m as int) == pat@ {
                    assert(rest.subrange(0, m as int) =~= s@.subrange(
                        i as int,
                        i as int + m as int,
                    ));
                    assert(false);
                }
                assert(piece@ =~= seq![rest[0]]);
                assert(rest.skip(1) =~= s@.skip(i + 1));
            }
            i += 1;
        }
    }
    proof {
        assert(s@.skip(n as int) =~= Seq::<char>::empty());
        assert(out@ + Seq::<char>::empty() =~= out@);
    }
    out
}

/// The display name of an application bundle: the last path segment with
/// ".app" removed.
pub open spec fn spec_bundle_name(path: Seq<char>) -> Seq<char> {
    spec_remove_all(spec_after_last_slash(path), ".app"@)
}

/// The display name of the application bundle at `path`.
pub fn bundle_name_of(path: &str) -> (name: String)
    ensures
        name@ == spec_bundle_name(path@),
{
    proof {
        reveal_strlit(".app");
    }
    let segment = after_last_slash(path);
    remove_all_occurrences(segment, ".app")
}

/// The property list of an application bundle, as string keys and values.
pub struct PlistDict {
    pub entries: Vec<(String, String)>,
}

/// The first value stored under `key`.
pub open spec fn spec_plist_get(entries: Seq<(String, String)>, key: Seq<char>) -> Option<
    Seq<char>,
>
    decreases entries.len(),
{
    if entries.len() == 0 {
        None
    } else if entries[0].0@ == key {
        Some(entries[0].1@)
    } else {
        spec_plist_get(entries.drop_first(), key)
    }
}

/// Looks a string property up in the bundle's property list.
pub fn get_key_from_plist(plist: &PlistDict, key: &String) -> (r: Option<String>)
    ensures
        opt_text_view(r) == spec_plist_get(plist.entries@, key@),
{
    let mut i: usize = 0;
    proof {
        assert(plist.entries@.skip(0) =~= plist.entries@);
    }
    while i < plist.entries.len()
        invariant
            i <= plist.entries.len(),
            spec_plist_get(plist.entries@, key@) == spec_plist_get(
                plist.entries@.skip(i as int),
                key@,
            ),
        decreases plist.entries.len() - i,
    {
        let ghost rem = plist.entries@.skip(i as int);
        proof {
            assert(rem[0] == plist.entries@[i as int]);
            assert(rem.drop_first() =~= plist.entries@.skip(i + 1));
        }
        let pair = &plist.entries[i];
        if pair.0 == *key {
            return Some(pair.1.clone());
        }
        i += 1;
    }
    proof {
        assert(plist.entries@.skip(plist.entries@.len() as int) =~= Seq::<(
            String,
            String,
        )>::empty());
    }
    None
}

/// The bundle identifier a property list declares; empty when it declares
/// none.
pub open spec fn spec_bundle_id(entries: Seq<(String, String)>) -> Seq<char> {
    match spec_plist_get(entries, "CFBundleIdentifier"@) {
        Some(id) => id,
        None => Seq::<char>::empty(),
    }
}

/// The bundle identifier of the application, or empty.
pub fn bundle_id_of(plist: &PlistDict) -> (id: String)
    ensures
        id@ == spec_bundle_id(plist.entries@),
{
    let key = String::from_str("CFBundleIdentifier");
    match get_key_from_plist(plist, &key) {
        Some(id) => id,
        None => String::new(),
    }
}

/// The path of an icon file inside the icon cache directory.
pub fn icon_path_in(icons_dir: &String, icon_id: &String) -> (p: String)
    ensures
        p@ == icons_dir@ + "/"@ + icon_id@ + ".png"@,
{
    let mut p = icons_dir.clone();
    p.append("/");
    p.append(icon_id.as_str());
    p.append(".png");
    p
}

/// Where the cached icon of the application described by `plist` lives.
pub fn get_icon_path(icons_dir: &String, plist: &PlistDict) -> (p: String)
    ensures
        p@ == icons_dir@ + "/"@ + spec_bundle_id(plist.entries@) + ".png"@,
{
    let id = bundle_id_of(plist);
    icon_path_in(icons_dir, &id)
}

/// Where the bundle's own icon file lives: under its resources directory,
/// named by the property list's icon entry with any ".icns" removed and
/// one ".icns" put back.  Absent when the bundle declares no icon.
pub fn get_icon_icns_path(application_path: &String, plist: &PlistDict) -> (r: Option<String>)
    ensures
        match spec_plist_get(plist.entries@, "CFBundleIconFile"@) {
            Some(f) => r matches Some(p) && p@ == application_path@ + "/Contents/Resources/"@
                + spec_remove_all(f, ".icns"@) + ".icns"@,
            None => r is None,
        },
{
    let key = String::from_str("CFBundleIconFile");
    match get_key_from_plist(plist, &key) {
        Some(icon_file) => {
            proof {
                reveal_strlit(".icns");
            }
            let stripped = remove_all_occurrences(icon_file.as_str(), ".icns");
            let mut p = application_path.clone();
            p.append("/Contents/Resources/");
            p.append(stripped.as_str());
            p.append(".icns");
            Some(p)
        },
        None => None,
    }
}

/// The application snapshot for the bundle at `path`: identifier and icon
/// from its property list, display name from the path, no text read yet.
pub fn get_application_from_path(path: &String, plist: &PlistDict, icons_dir: &String) -> (app:
    Application)
    ensures
        app@.id == spec_bundle_id(plist.entries@),
        app@.name == spec_bundle_name(path@),
        app@.icon == icons_dir@ + "/"@ + spec_bundle_id(plist.entries@) + ".png"@,
        app@.path == path@,
        app@.selected_text is None,
        app@.focused_text is None,
{
    let id = bundle_id_of(plist);
    let name = bundle_name_of(path.as_str());
    let icon = icon_path_in(icons_dir, &id);
    Application {
        id,
        name,
        icon,
        path: path.clone(),
        selected_text: None,
        focused_text: None,
    }
}

/// The launcher's own bundle identifier; its own catalog entry and its own
/// panel never count as an external application.
pub open spec fn spec_own_bundle_id() -> Seq<char> {
    "com.lander.Lander"@
}

/// Whether an identifier is the launcher's own.
pub fn is_own_bundle_id(id: &String) -> (r: bool)
    ensures
        r == (id@ == spec_own_bundle_id()),
{
    let own = String::from_str("com.lander.Lander");
    *id == own
}

/// The 64-bit digest that seeds start-menu application identifiers.
pub uninterp spec fn xxhash64_of(bytes: Seq<u8>) -> u64;

/// Relies on twox_hash::XxHash64::oneshot with seed 0: the 64-bit digest
/// of the bytes, a function of the bytes alone.
#[verifier::external_body]
fn xxhash64(bytes: &[u8]) -> (h: u64)
    ensures
        h == xxhash64_of(bytes@),
{
    twox_hash::XxHash64::oneshot(0, bytes)
}

/// The decimal digit characters of a non-negative number, most significant
/// first.
pub open spec fn spec_decimal_digits(n: int) -> Seq<char>
    decreases n,
    when n >= 0
{
    if n < 10 {
        seq![spec_digit_char(n)]
    } else {
        spec_decimal_digits(n / 10).push(spec_digit_char(n % 10))
    }
}

/// The character of one decimal digit.
pub open spec fn spec_digit_char(d: int) -> char {
    if d == 0 {
        '0'
    } else if d == 1 {
        '1'
    } else if d == 2 {
        '2'
    } else if d == 3 {
        '3'
    } else if d == 4 {
        '4'
    } else if d == 5 {
        '5'
    } else if d == 6 {
        '6'
    } else if d == 7 {
        '7'
    } else if d == 8 {
        '8'
    } else {
        '9'
    }
}

/// Appends one decimal digit character.
fn append_digit(out: &mut String, d: u64)
    requires
        d < 10,
    ensures
        final(out)@ == old(out)@.push(spec_digit_char(d as int)),
{
    let piece: &str = if d == 0 {
        "0"
    } else if d == 1 {
        "1"
    } else if d == 2 {
        "2"
    } else if d == 3 {
        "3"
    } else if d == 4 {
        "4"
    } else if d == 5 {
        "5"
    } else if d == 6 {
        "6"
    } else if d == 7 {
        "7"
    } else if d == 8 {
        "8"
    } else {
        "9"
    };
    proof {
        reveal_strlit("0");
        reveal_strlit("1");
        reveal_strlit("2");
        reveal_strlit("3");
        reveal_strlit("4");
        reveal_strlit("5");
        reveal_strlit("6");
        reveal_strlit("7");
        reveal_strlit("8");
        reveal_strlit("9");
        assert(piece@ =~= seq![spec_digit_char(d as int)]);
    }
    out.append(piece);
    proof {
        assert(old(out)@ + seq![spec_digit_char(d as int)] =~= old(out)@.push(
            spec_digit_char(d as int),
        ));
    }
}

/// Appends the decimal digits of `n`.
fn append_decimal(out: &mut String, n: u64)
    ensures
        final(out)@ == old(out)@ + spec_decimal_digits(n as int),
    decreases n,
{
    if n < 10 {
        append_digit(out, n);
        proof {
            assert(old(out)@.push(spec_digit_char(n as int)) =~= old(out)@ + spec_decimal_digits(
                n as int,
            ));
        }
    } else {
        append_decimal(out, n / 10);
        append_digit(out, n % 10);
        proof {
            assert((old(out)@ + spec_decimal_digits((n / 10) as int)).push(
                spec_digit_char((n % 10) as int),
            ) =~= old(out)@ + spec_decimal_digits(n as int));
        }
    }
}

/// The decimal text of a 64-bit number.
pub fn u64_to_decimal(n: u64) -> (r: String)
    ensures
        r@ == spec_decimal_digits(n as int),
{
    let mut out = String::new();
    append_decimal(&mut out, n);
    proof {
        assert(Seq::<char>::empty() + spec_decimal_digits(n as int) =~= spec_decimal_digits(
            n as int,
        ));
    }
    out
}

/// Remembers which path each hashed start-menu identifier stands for, so a
/// launch request by identifier can be resolved back to a path.
pub struct ApplicationIdStore {
    pub entries: Vec<(String, String)>,
}

/// The path most recently recorded under `id`.
pub open spec fn spec_store_get(entries: Seq<(String, String)>, id: Seq<char>) -> Option<Seq<char>>
    decreases entries.len(),
{
    if entries.len() == 0 {
        None
    } else if entries.last().0@ == id {
        Some(entries.last().1@)
    } else {
        spec_store_get(entries.drop_last(), id)
    }
}

impl ApplicationIdStore {
    pub fn new() -> (s: ApplicationIdStore)
        ensures
            s.entries@ == Seq::<(String, String)>::empty(),
    {
        ApplicationIdStore { entries: Vec::new() }
    }

    /// The path recorded under `id`, latest record winning.
    pub fn lookup(&self, id: &String) -> (r: Option<String>)
        ensures
            opt_text_view(r) == spec_store_get(self.entries@, id@),
    {
        let mut p: usize = self.entries.len();
        proof {
            assert(self.entries@.take(self.entries@.len() as int) =~= self.entries@);
        }
        while p > 0
            invariant
                p <= self.entries.len(),
                spec_store_get(self.entries@, id@) == spec_store_get(
                    self.entries@.take(p as int),
                    id@,
                ),
            decreases p,
        {
            let ghost kept = self.entries@.take(p as int);
            proof {
                assert(kept.last() == self.entries@[p - 1]);
                assert(kept.drop_last() =~= self.entries@.take(p - 1));
            }
            let pair = &self.entries[p - 1];
            if pair.0 == *id {
                return Some(pair.1.clone());
            }
            p -= 1;
        }
        proof {
            assert(self.entries@.take(0) =~= Seq::<(String, String)>::empty());
        }
        None
    }
}

/// The catalog identifier of a start-menu application: the decimal form of
/// the path's digest.  The identifier-to-path pair is recorded so a later
/// launch by identifier finds the path again.
pub fn get_start_menu_app_id(application_path: &str, store: &mut ApplicationIdStore) -> (id:
    String)
    ensures
        id@ == spec_decimal_digits(xxhash64_of(application_path.spec_bytes()) as int),
        final(store).entries@.len() == old(store).entries@.len() + 1,
        final(store).entries@.drop_last() == old(store).entries@,
        final(store).entries@.last().0@ == id@,
        final(store).entries@.last().1@ == application_path@,
{
    let h = xxhash64(application_path.as_bytes());
    let id = u64_to_decimal(h);
    store.entries.push((id.clone(), application_path.to_owned()));
    proof {
        assert(final(store).entries@.drop_last() =~= old(store).entries@);
    }
    id
}

/// One application as the platform's catalog helper reports it.
pub struct WindowsApplication {
    pub id: String,
    pub name: String,
    pub path: String,
    pub selected_text: Option<String>,
    pub uwp: bool,
}

/// Copies an optional text attribute.
pub fn clone_opt_text(o: &Option<String>) -> (r: Option<String>)
    ensures
        opt_text_view(r) == opt_text_view(*o),
{
    match o {
        Some(s) => Some(s.clone()),
        None => None,
    }
}

/// Copies an application snapshot.
pub fn clone_application(app: &Application) -> (c: Application)
    ensures
        c@ == app@,
{
    Application {
        id: app.id.clone(),
        name: app.name.clone(),
        icon: app.icon.clone(),
        path: app.path.clone(),
        selected_text: clone_opt_text(&app.selected_text),
        focused_text: clone_opt_text(&app.focused_text),
    }
}

/// The catalog snapshot of one reported application: a store-managed
/// application keeps its own identifier for its icon; a start-menu one is
/// identified by its path's digest, recorded for later launches.
pub fn get_application_from_windows_application(
    w: &WindowsApplication,
    icons_dir: &String,
    store: &mut ApplicationIdStore,
) -> (app: Application)
    ensures
        app@.id == w.id@,
        app@.name == w.name@,
        app@.path == w.path@,
        app@.selected_text == opt_text_view(w.selected_text),
        app@.focused_text is None,
        w.uwp ==> app@.icon == icons_dir@ + "/"@ + w.id@ + ".png"@ && *final(store) == *old(
            store,
        ),
        !w.uwp ==> app@.icon == icons_dir@ + "/"@ + spec_decimal_digits(
            xxhash64_of(encode_utf8(w.path@)) as int,
        ) + ".png"@,
{
    let icon_id = if w.uwp {
        w.id.clone()
    } else {
        get_start_menu_app_id(w.path.as_str(), store)
    };
    let icon = icon_path_in(icons_dir, &icon_id);
    Application {
        id: w.id.clone(),
        name: w.name.clone(),
        icon,
        path: w.path.clone(),
        selected_text: clone_opt_text(&w.selected_text),
        focused_text: None,
    }
}

/// The case-folded form of a name, as the platform's lowercase mapping
/// gives it.
pub uninterp spec fn lower_of(s: Seq<char>) -> Seq<char>;

/// Relies on str::to_lowercase: the lowercase form of the string, a
/// function of its characters alone.
#[verifier::external_body]
fn lowercase(s: &str) -> (r: String)
    ensures
        r@ == lower_of(s@),
{
    s.to_lowercase()
}

/// Lexicographic order on character sequences, by code point.
pub open spec fn spec_lex_le(a: Seq<char>, b: Seq<char>) -> bool
    decreases a.len(),
{
    if a.len() == 0 {
        true
    } else if b.len() == 0 {
        false
    } else if a[0] != b[0] {
        a[0] < b[0]
    } else {
        spec_lex_le(a.drop_first(), b.drop_first())
    }
}

/// The lexicographic order is total.
pub proof fn lemma_lex_le_total(a: Seq<char>, b: Seq<char>)
    ensures
        spec_lex_le(a, b) || spec_lex_le(b, a),
    decreases a.len(),
{
    if a.len() > 0 && b.len() > 0 && a[0] == b[0] {
        lemma_lex_le_total(a.drop_first(), b.drop_first());
    }
}

/// Lexicographic comparison, by characters.
pub fn str_lex_le(a: &str, b: &str) -> (r: bool)
    ensures
        r == spec_lex_le(a@, b@),
{
    let n = a.unicode_len();
    let m = b.unicode_len();
    let mut i: usize = 0;
    proof {
        assert(a@.skip(0) =~= a@);
        assert(b@.skip(0) =~= b@);
    }
    while i < n && i < m
        invariant
            i <= n,
            i <= m,
            n == a@.len(),
            m == b@.len(),
            spec_lex_le(a@, b@) == spec_lex_le(a@.skip(i as int), b@.skip(i as int)),
        decreases n - i,
    {
        let ca = a.get_char(i);
        let cb = b.get_char(i);
        proof {
            assert(a@.skip(i as int)[0] == a@[i as int]);
            assert(b@.skip(i as int)[0] == b@[i as int]);
            assert(a@.skip(i as int).drop_first() =~= a@.skip(i + 1));
            assert(b@.skip(i as int).drop_first() =~= b@.skip(i + 1));
        }
        if ca != cb {
            return ca < cb;
        }
        i += 1;
    }
    proof {
        if i >= n {
            assert(a@.skip(i as int).len() == 0);
        } else {
            assert(b@.skip(i as int).len() == 0);
            assert(a@.skip(i as int).len() > 0);
        }
    }
    n <= m
}

/// Catalog order: applications sort by the case-folded form of their
/// display names.
pub open spec fn spec_name_le(a: SpecApplication, b: SpecApplication) -> bool {
    spec_lex_le(lower_of(a.name), lower_of(b.name))
}

/// Whether `a` sorts at or before `b` in the catalog.
pub fn name_le(a: &Application, b: &Application) -> (r: bool)
    ensures
        r == spec_name_le(a@, b@),
{
    let la = lowercase(a.name.as_str());
    let lb = lowercase(b.name.as_str());
    str_lex_le(la.as_str(), lb.as_str())
}

/// The applications of a sequence, as specification values.
pub open spec fn apps_view(s: Seq<Application>) -> Seq<SpecApplication> {
    s.map(|i: int, a: Application| a@)
}

/// Sorted by case-folded display name, each neighbour in order.
pub open spec fn spec_sorted_by_name(s: Seq<SpecApplication>) -> bool {
    forall|k: int| 0 <= k && k + 1 < s.len() ==> spec_name_le(#[trigger] s[k], s[k + 1])
}

/// Sorts the catalog by case-folded display name; the entries themselves
/// are exactly those that went in.
pub fn sort_applications_by_name(apps: &mut Vec<Application>)
    ensures
        final(apps)@.len() == old(apps)@.len(),
        apps_view(final(apps)@).to_multiset() == apps_view(old(apps)@).to_multiset(),
        spec_sorted_by_name(apps_view(final(apps)@)),
{
    let mut i: usize = 1;
    while i < apps.len()
        invariant
            i >= 1,
            apps@.len() == old(apps)@.len(),
            apps_view(apps@).to_multiset() == apps_view(old(apps)@).to_multiset(),
            forall|k: int|
                0 <= k && k + 1 < i ==> spec_name_le(#[trigger] apps_view(apps@)[k], apps_view(
                    apps@,
                )[k + 1]),
        decreases apps@.len() - i,
    {
        let ghost entry = apps_view(apps@);
        let mut j: usize = i;
        while j > 0 && !name_le(&apps[j - 1], &apps[j])
            invariant
                j <= i,
                i < apps@.len(),
                apps@.len() == old(apps)@.len(),
                apps_view(apps@).to_multiset() == apps_view(old(apps)@).to_multiset(),
                forall|k: int|
                    0 <= k && k + 1 <= j - 1 ==> spec_name_le(
                        #[trigger] apps_view(apps@)[k],
                        apps_view(apps@)[k + 1],
                    ),
                forall|k: int|
                    j <= k && k + 1 <= i ==> spec_name_le(
                        #[trigger] apps_view(apps@)[k],
                        apps_view(apps@)[k + 1],
                    ),
                1 <= j && j < i ==> spec_name_le(apps_view(apps@)[j - 1], apps_view(apps@)[j + 1]),
            decreases j,
        {
            proof {
                lemma_lex_le_total(
                    lower_of(apps_view(apps@)[j - 1].name),
                    lower_of(apps_view(apps@)[j as int].name),
                );
            }
            let ghost before = apps_view(apps@);
            let moved = apps.remove(j);
            apps.insert(j - 1, moved);
            proof {
                broadcast use vstd::seq_lib::to_multiset_update;
                broadcast use vstd::seq_lib::group_to_multiset_ensures;
                broadcast use vstd::multiset::group_multiset_axioms;

                assert(apps_view(apps@) =~= before.update(j - 1, before[j as int]).update(
                    j as int,
                    before[j - 1],
                ));
                assert(before.contains(before[j - 1]));
                assert(before.update(j - 1, before[j as int])[j as int] == before[j as int]);
                assert(apps_view(apps@).to_multiset() =~= before.to_multiset());
            }
            j -= 1;
        }
        proof {
            assert forall|k: int|
                0 <= k && k + 1 <= i implies spec_name_le(
                #[trigger] apps_view(apps@)[k],
                apps_view(apps@)[k + 1],
            ) by {
                if k + 1 <= j - 1 {
                } else if k >= j {
                }
            }
        }
        i += 1;
    }
}

/// The catalog entry for one bundle, before any text is read.
pub open spec fn spec_catalog_entry(
    path: Seq<char>,
    plist: PlistDict,
    icons_dir: Seq<char>,
) -> SpecApplication {
    SpecApplication {
        id: spec_bundle_id(plist.entries@),
        name: spec_bundle_name(path),
        icon: icons_dir + "/"@ + spec_bundle_id(plist.entries@) + ".png"@,
        path: path,
        selected_text: None,
        focused_text: None,
    }
}

/// The catalog of the given bundles, in order, with the launcher's own
/// bundle left out.
pub open spec fn spec_catalog(entries: Seq<(String, PlistDict)>, icons_dir: Seq<char>) -> Seq<
    SpecApplication,
>
    decreases entries.len(),
{
    if entries.len() == 0 {
        Seq::<SpecApplication>::empty()
    } else {
        let head = spec_catalog_entry(entries[0].0@, entries[0].1, icons_dir);
        let rest = spec_catalog(entries.drop_first(), icons_dir);
        if head.id == spec_own_bundle_id() {
            rest
        } else {
            seq![head] + rest
        }
    }
}

/// The installed applications: one catalog entry per bundle, the
/// launcher's own bundle left out, sorted by case-folded display name.
pub fn get_installed_applications(
    entries: &Vec<(String, PlistDict)>,
    icons_dir: &String,
) -> (apps: Vec<Application>)
    ensures
        apps_view(apps@).to_multiset() == spec_catalog(entries@, icons_dir@).to_multiset(),
        spec_sorted_by_name(apps_view(apps@)),
{
    let mut out: Vec<Application> = Vec::new();
    proof {
        assert(apps_view(out@) =~= Seq::<SpecApplication>::empty());
        assert(entries@.skip(0) =~= entries@);
    }
    let mut i: usize = 0;
    while i < entries.len()
        invariant
            i <= entries.len(),
            apps_view(out@) + spec_catalog(entries@.skip(i as int), icons_dir@) == spec_catalog(
                entries@,
                icons_dir@,
            ),
        decreases entries.len() - i,
    {
        let ghost collected = apps_view(out@);
        let ghost rem = entries@.skip(i as int);
        proof {
            assert(rem[0] == entries@[i as int]);
            assert(rem.drop_first() =~= entries@.skip(i + 1));
        }
        let pair = &entries[i];
        let app = get_application_from_path(&pair.0, &pair.1, icons_dir);
        proof {
            assert(app@ == spec_catalog_entry(rem[0].0@, rem[0].1, icons_dir@));
        }
        if !is_own_bundle_id(&app.id) {
            out.push(app);
            proof {
                assert(apps_view(out@) =~= collected + seq![
                    spec_catalog_entry(rem[0].0@, rem[0].1, icons_dir@),
                ]);
                assert((collected + seq![spec_catalog_entry(rem[0].0@, rem[0].1, icons_dir@)])
                    + spec_catalog(rem.drop_first(), icons_dir@) =~= collected + (seq![
                    spec_catalog_entry(rem[0].0@, rem[0].1, icons_dir@),
                ] + spec_catalog(rem.drop_first(), icons_dir@)));
            }
        }
        i += 1;
    }
    proof {
        assert(entries@.skip(entries@.len() as int) =~= Seq::<(String, PlistDict)>::empty());
        assert(apps_view(out@) + Seq::<SpecApplication>::empty() =~= apps_view(out@));
    }
    sort_applications_by_name(&mut out);
    out
}

/// The externally focused application, assembled from the focused process's
/// bundle and its accessibility tree: its catalog fields from the bundle,
/// its selected and edited text from the tree's focused element.  Absent
/// when the focused bundle is the launcher itself — its own panel never
/// counts as an external application.
pub fn get_focused_application(
    path: &String,
    plist: &PlistDict,
    icons_dir: &String,
    tree: &crate::access::AxNode,
) -> (r: Option<Application>)
    ensures
        spec_bundle_id(plist.entries@) == spec_own_bundle_id() ==> r is None,
        spec_bundle_id(plist.entries@) != spec_own_bundle_id() ==> (r matches Some(app) && {
            &&& app@.id == spec_bundle_id(plist.entries@)
            &&& app@.name == spec_bundle_name(path@)
            &&& app@.icon == icons_dir@ + "/"@ + spec_bundle_id(plist.entries@) + ".png"@
            &&& app@.path == path@
            &&& app@.selected_text == crate::access::spec_read_focused_text(*tree).0
            &&& app@.focused_text == crate::access::spec_read_focused_text(*tree).1
        }),
{
    let mut app = get_application_from_path(path, plist, icons_dir);
    if is_own_bundle_id(&app.id) {
        return None;
    }
    let texts = crate::access::read_focused_text(tree);
    app.selected_text = texts.selected_text;
    app.focused_text = texts.focused_text;
    Some(app)
}

} // verus!
