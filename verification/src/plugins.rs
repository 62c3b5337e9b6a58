//! External plugin discovery and file serving.
//!
//! A plugin lives in a directory of its own under the plugins directory,
//! with a `plugin.json` manifest naming its id, display name and entry point.
//! The shell lists those directories and reads their manifests; this module
//! decides which plugins are offered, and which requested files a plugin may
//! be served from.

use vstd::prelude::*;

verus! {

/// The manifest of an installed plugin (`plugin.json`).
pub struct PluginManifest {
    pub id: String,
    pub name: String,
    /// Path to the plugin's JS entry point, relative to the plugin's own
    /// directory (e.g. "index.js").
    pub entry: String,
}

impl Clone for PluginManifest {
    fn clone(&self) -> (r: Self)
        ensures
            r == *self,
    {
        PluginManifest { id: self.id.clone(), name: self.name.clone(), entry: self.entry.clone() }
    }
}

/// A subdirectory of the plugins directory, with what reading its manifest
/// gave: the manifest, or why it could not be read or parsed.
pub struct PluginCandidate {
    pub dir_name: String,
    pub manifest: Result<PluginManifest, String>,
}

/// A candidate is offered when its manifest was read and its id is the name
/// of its own directory.
pub open spec fn candidate_accepted(c: PluginCandidate) -> bool {
    c.manifest matches Ok(m) && m.id@ == c.dir_name@
}

/// The manifests of the accepted candidates, in the order of the candidates.
pub open spec fn accepted_manifests(s: Seq<PluginCandidate>) -> Seq<PluginManifest>
    decreases s.len(),
{
    if s.len() == 0 {
        Seq::empty()
    } else {
        let before = accepted_manifests(s.drop_last());
        if candidate_accepted(s.last()) {
            before.push(s.last().manifest->Ok_0)
        } else {
            before
        }
    }
}

impl PluginCandidate {
    /// Whether this candidate is offered as a plugin.
    pub fn is_accepted(&self) -> (r: bool)
        ensures
            r == candidate_accepted(*self),
    {
        match &self.manifest {
            Ok(m) => m.id == self.dir_name,
            Err(_) => false,
        }
    }
}

/// The plugins to offer, out of the subdirectories found: a missing or
/// malformed manifest, or one whose id is not its directory's name, skips
/// that directory only.
pub fn collect_plugin_manifests(candidates: &Vec<PluginCandidate>) -> (r: Vec<PluginManifest>)
    ensures
        r@ == accepted_manifests(candidates@),
{
    let mut out: Vec<PluginManifest> = Vec::new();
    let n = candidates.len();
    for i in 0..n
        invariant
            n == candidates@.len(),
            out@ == accepted_manifests(candidates@.take(i as int)),
    {
        proof {
            assert(candidates@.take(i + 1).drop_last() =~= candidates@.take(i as int));
        }
        let c = &candidates[i];
        if c.is_accepted() {
            match &c.manifest {
                Ok(m) => {
                    out.push(m.clone());
                },
                Err(_) => {},
            }
        }
    }
    proof {
        assert(candidates@.take(n as int) =~= candidates@);
    }
    out
}

/// One bad plugin directory does not take the others down: the plugins
/// offered out of two lists of directories are those offered out of each.
pub proof fn lemma_accepted_manifests_append(a: Seq<PluginCandidate>, b: Seq<PluginCandidate>)
    ensures
        accepted_manifests(a + b) == accepted_manifests(a) + accepted_manifests(b),
    decreases b.len(),
{
    if b.len() == 0 {
        assert(a + b =~= a);
        assert(accepted_manifests(a) + accepted_manifests(b) =~= accepted_manifests(a));
    } else {
        lemma_accepted_manifests_append(a, b.drop_last());
        assert((a + b).drop_last() =~= a + b.drop_last());
        assert((a + b).last() == b.last());
        if candidate_accepted(b.last()) {
            assert(accepted_manifests(a) + accepted_manifests(b) =~= (accepted_manifests(a)
                + accepted_manifests(b.drop_last())).push(b.last().manifest->Ok_0));
        }
    }
}

/// Every plugin offered has the id of a directory it was found in, and a
/// directory that is not accepted adds nothing.
pub proof fn lemma_rejected_candidate_adds_nothing(a: Seq<PluginCandidate>, c: PluginCandidate)
    requires
        !candidate_accepted(c),
    ensures
        accepted_manifests(a.push(c)) == accepted_manifests(a),
{
    assert(a.push(c).drop_last() =~= a);
}

/// The plugin's own directory decides nothing but its id: a candidate whose
/// manifest was read and whose id is its directory's name is offered,
/// whatever the manifest's name and entry point; one whose manifest could
/// not be read, or whose id differs, adds nothing.
pub proof fn lemma_offered_exactly_when_id_matches(a: Seq<PluginCandidate>, c: PluginCandidate)
    ensures
        (c.manifest matches Ok(m) && m.id@ == c.dir_name@) ==> accepted_manifests(a.push(c))
            == accepted_manifests(a).push(c.manifest->Ok_0),
        (c.manifest is Err || c.manifest->Ok_0.id@ != c.dir_name@) ==> accepted_manifests(a.push(c))
            == accepted_manifests(a),
{
    assert(a.push(c).drop_last() =~= a);
}

/// Every plugin offered has the name of a directory that was found as its
/// id: where no directory is named `d`, no plugin offered has the id `d`.
pub proof fn lemma_offered_ids_name_directories(s: Seq<PluginCandidate>, d: Seq<char>)
    requires
        forall|j: int| 0 <= j < s.len() ==> #[trigger] s[j].dir_name@ != d,
    ensures
        forall|i: int|
            0 <= i < accepted_manifests(s).len() ==> #[trigger] accepted_manifests(s)[i].id@ != d,
    decreases s.len(),
{
    if s.len() > 0 {
        let t = s.drop_last();
        assert forall|j: int| 0 <= j < t.len() implies #[trigger] t[j].dir_name@ != d by {
            assert(t[j] == s[j]);
        }
        lemma_offered_ids_name_directories(t, d);
        assert(s[s.len() - 1] == s.last());
        let a = accepted_manifests(s);
        let b = accepted_manifests(t);
        assert forall|i: int| 0 <= i < a.len() implies #[trigger] a[i].id@ != d by {
            if i < b.len() {
                assert(a[i] == b[i]);
            } else {
                assert(a[i] == s.last().manifest->Ok_0);
            }
        }
    }
}

/// Plugin directories have distinct names, so the plugins offered have
/// pairwise distinct ids.
pub proof fn lemma_offered_ids_distinct(s: Seq<PluginCandidate>)
    requires
        forall|i: int, j: int|
            0 <= i < s.len() && 0 <= j < s.len() && i != j ==> #[trigger] s[i].dir_name@
                != #[trigger] s[j].dir_name@,
    ensures
        forall|i: int, j: int|
            0 <= i < accepted_manifests(s).len() && 0 <= j < accepted_manifests(s).len() && i != j
                ==> #[trigger] accepted_manifests(s)[i].id@ != #[trigger] accepted_manifests(s)[j].id@,
    decreases s.len(),
{
    if s.len() > 0 {
        let t = s.drop_last();
        assert forall|i: int, j: int|
            0 <= i < t.len() && 0 <= j < t.len() && i != j implies #[trigger] t[i].dir_name@
            != #[trigger] t[j].dir_name@ by {
            assert(s[i].dir_name@ != s[j].dir_name@);
        }
        lemma_offered_ids_distinct(t);
        let a = accepted_manifests(s);
        let b = accepted_manifests(t);
        if candidate_accepted(s.last()) {
            let d = s.last().dir_name@;
            assert forall|j: int| 0 <= j < t.len() implies #[trigger] t[j].dir_name@ != d by {
                assert(s[j].dir_name@ != s[s.len() - 1].dir_name@);
            }
            lemma_offered_ids_name_directories(t, d);
            assert forall|i: int, j: int|
                0 <= i < a.len() && 0 <= j < a.len() && i != j implies #[trigger] a[i].id@
                != #[trigger] a[j].id@ by {
                if i < b.len() && j < b.len() {
                    assert(a[i] == b[i] && a[j] == b[j]);
                } else if i < b.len() {
                    assert(a[i] == b[i]);
                    assert(a[j].id@ == d);
                } else {
                    assert(a[j] == b[j]);
                    assert(a[i].id@ == d);
                }
            }
        }
    }
}

/// The number of `/` characters that `s` starts with.
pub open spec fn leading_slashes(s: Seq<char>) -> nat
    decreases s.len(),
{
    if s.len() > 0 && s[0] == '/' {
        1 + leading_slashes(s.drop_first())
    } else {
        0
    }
}

proof fn lemma_leading_slashes_skip(s: Seq<char>, k: int)
    requires
        0 <= k <= s.len(),
        forall|j: int| 0 <= j < k ==> s[j] == '/',
    ensures
        leading_slashes(s) == k + leading_slashes(s.skip(k)),
    decreases k,
{
    if k > 0 {
        lemma_leading_slashes_skip(s.drop_first(), k - 1);
        assert(s.drop_first().skip(k - 1) =~= s.skip(k));
    } else {
        assert(s.skip(0) =~= s);
    }
}

proof fn lemma_leading_slashes_bound(s: Seq<char>)
    ensures
        leading_slashes(s) <= s.len(),
        forall|j: int| 0 <= j < leading_slashes(s) ==> s[j] == '/',
        leading_slashes(s) < s.len() ==> s[leading_slashes(s) as int] != '/',
    decreases s.len(),
{
    if s.len() > 0 && s[0] == '/' {
        lemma_leading_slashes_bound(s.drop_first());
        assert forall|j: int| 0 <= j < leading_slashes(s) implies s[j] == '/' by {
            if j > 0 {
                assert(s[j] == s.drop_first()[j - 1]);
            }
        }
    }
}

/// `path` without the `/` characters it starts with, so that it names a file
/// relative to a plugin's directory.
pub fn trim_leading_slashes(path: &str) -> (r: &str)
    ensures
        r@ == path@.skip(leading_slashes(path@) as int),
{
    let n = path.unicode_len();
    let mut k: usize = 0;
    while k < n && path.get_char(k) == '/'
        invariant
            n == path@.len(),
            k <= n,
            forall|j: int| 0 <= j < k ==> path@[j] == '/',
        decreases n - k,
    {
        k = k + 1;
    }
    proof {
        lemma_leading_slashes_skip(path@, k as int);
        let rest = path@.skip(k as int);
        if rest.len() > 0 {
            assert(rest[0] == path@[k as int]);
        }
    }
    path.substring_char(k, n)
}

/// A relative path, once trimmed, does not start with `/`, and trimming it
/// again changes nothing.
pub proof fn lemma_trimmed_path_is_relative(s: Seq<char>)
    ensures
        s.skip(leading_slashes(s) as int).len() == 0 || s.skip(leading_slashes(s) as int)[0] != '/',
        leading_slashes(s.skip(leading_slashes(s) as int)) == 0,
{
    lemma_leading_slashes_bound(s);
    let rest = s.skip(leading_slashes(s) as int);
    if rest.len() > 0 {
        assert(rest[0] == s[leading_slashes(s) as int]);
    }
}

/// Trimming removes the `/` characters a path starts with and nothing else:
/// the path is those slashes followed by the result, which does not start
/// with `/`.
pub proof fn lemma_trim_removes_only_leading_slashes(s: Seq<char>)
    ensures
        leading_slashes(s) <= s.len(),
        forall|j: int| 0 <= j < leading_slashes(s) ==> s[j] == '/',
        s =~= s.take(leading_slashes(s) as int) + s.skip(leading_slashes(s) as int),
        s.skip(leading_slashes(s) as int).len() == 0 || s.skip(leading_slashes(s) as int)[0] != '/',
{
    lemma_leading_slashes_bound(s);
    lemma_trimmed_path_is_relative(s);
}

/// The components of `base` are the first components of `path`; components
/// are compared whole, as raw bytes.
pub open spec fn path_starts_with(path: Seq<Seq<u8>>, base: Seq<Seq<u8>>) -> bool {
    base.len() <= path.len() && forall|i: int| 0 <= i < base.len() ==> #[trigger] path[i] == base[i]
}

/// The components of a path as byte sequences.
pub open spec fn component_bytes(p: Seq<Vec<u8>>) -> Seq<Seq<u8>> {
    p.map_values(|c: Vec<u8>| c@)
}

fn bytes_equal(a: &Vec<u8>, b: &Vec<u8>) -> (r: bool)
    ensures
        r == (a@ == b@),
{
    if a.len() != b.len() {
        return false;
    }
    let n = a.len();
    for i in 0..n
        invariant
            n == a@.len(),
            n == b@.len(),
            forall|j: int| 0 <= j < i ==> a@[j] == b@[j],
    {
        if a[i] != b[i] {
            return false;
        }
    }
    proof {
        assert(a@ =~= b@);
    }
    true
}

/// Whether the path with components `path` lies inside the directory with
/// components `base` (or is that directory). Both are expected to be
/// canonical, so that no component is `.` or `..`.
pub fn path_within(path: &Vec<Vec<u8>>, base: &Vec<Vec<u8>>) -> (r: bool)
    ensures
        r == path_starts_with(component_bytes(path@), component_bytes(base@)),
{
    if base.len() > path.len() {
        return false;
    }
    let n = base.len();
    for i in 0..n
        invariant
            n == base@.len(),
            n <= path@.len(),
            forall|j: int| 0 <= j < i ==> #[trigger] path@[j]@ == base@[j]@,
    {
        if !bytes_equal(&path[i], &base[i]) {
            proof {
                assert(component_bytes(path@)[i as int] != component_bytes(base@)[i as int]);
            }
            return false;
        }
    }
    proof {
        assert forall|j: int| 0 <= j < base@.len() implies #[trigger] component_bytes(path@)[j]
            == component_bytes(base@)[j] by {
            assert(path@[j]@ == base@[j]@);
        }
    }
    true
}

/// A component that names an entry of a directory: not empty, `.` or `..`.
pub open spec fn ordinary_component(c: Seq<u8>) -> bool {
    c.len() > 0 && c != seq![46u8] && c != seq![46u8, 46u8]
}

/// `root` is a directory directly inside `dir`: `dir` followed by one
/// ordinary component.
pub open spec fn is_child_dir(root: Seq<Seq<u8>>, dir: Seq<Seq<u8>>) -> bool {
    root.len() == dir.len() + 1 && path_starts_with(root, dir) && ordinary_component(
        root[root.len() - 1],
    )
}

/// Why a requested plugin file is refused.
#[derive(Clone, Copy, PartialEq, Eq, Structural, Debug)]
pub enum PluginFileError {
    /// The plugin id does not name a directory directly inside the plugins
    /// directory.
    NotAPluginDirectory,
    /// The requested path leads out of the plugin's directory.
    EscapesPluginDirectory,
}

/// The verdict on a requested plugin file, given the canonical components
/// of the plugins directory, of the plugin's directory and of the file.
pub open spec fn plugin_file_verdict(
    plugins_dir: Seq<Seq<u8>>,
    plugin_root: Seq<Seq<u8>>,
    resolved: Seq<Seq<u8>>,
) -> Result<(), PluginFileError> {
    if !is_child_dir(plugin_root, plugins_dir) {
        Err(PluginFileError::NotAPluginDirectory)
    } else if !path_starts_with(resolved, plugin_root) {
        Err(PluginFileError::EscapesPluginDirectory)
    } else {
        Ok(())
    }
}

fn is_ordinary_component(c: &Vec<u8>) -> (r: bool)
    ensures
        r == ordinary_component(c@),
{
    if c.len() == 0 {
        return false;
    }
    if c.len() == 1 && c[0] == 46u8 {
        proof {
            assert(c@ =~= seq![46u8]);
        }
        return false;
    }
    if c.len() == 2 && c[0] == 46u8 && c[1] == 46u8 {
        proof {
            assert(c@ =~= seq![46u8, 46u8]);
        }
        return false;
    }
    proof {
        if c@.len() == 1 {
            assert(c@ != seq![46u8, 46u8]);
            assert(c@[0] != seq![46u8][0]);
        }
        if c@.len() == 2 {
            assert(c@ != seq![46u8]);
            assert(c@[0] != seq![46u8, 46u8][0] || c@[1] != seq![46u8, 46u8][1]);
        }
    }
    true
}

/// Decides whether a requested plugin file may be served: the plugin's
/// directory must lie directly inside the plugins directory, and the file
/// inside the plugin's directory. All three paths are expected canonical.
pub fn check_plugin_file(
    plugins_dir: &Vec<Vec<u8>>,
    plugin_root: &Vec<Vec<u8>>,
    resolved: &Vec<Vec<u8>>,
) -> (r: Result<(), PluginFileError>)
    ensures
        r == plugin_file_verdict(
            component_bytes(plugins_dir@),
            component_bytes(plugin_root@),
            component_bytes(resolved@),
        ),
{
    if plugin_root.len() == 0 || plugin_root.len() - 1 != plugins_dir.len() || !path_within(plugin_root, plugins_dir)
        || !is_ordinary_component(&plugin_root[plugin_root.len() - 1]) {
        return Err(PluginFileError::NotAPluginDirectory);
    }
    if !path_within(resolved, plugin_root) {
        return Err(PluginFileError::EscapesPluginDirectory);
    }
    Ok(())
}

/// A file that may be served lies inside the plugins directory and inside
/// its own plugin's directory, and never inside another plugin's directory.
pub proof fn lemma_served_file_confined(
    plugins_dir: Seq<Seq<u8>>,
    plugin_root: Seq<Seq<u8>>,
    other_root: Seq<Seq<u8>>,
    resolved: Seq<Seq<u8>>,
)
    requires
        plugin_file_verdict(plugins_dir, plugin_root, resolved) is Ok,
        is_child_dir(other_root, plugins_dir),
        other_root != plugin_root,
    ensures
        path_starts_with(resolved, plugin_root),
        path_starts_with(resolved, plugins_dir),
        !path_starts_with(resolved, other_root),
{
    let n = plugins_dir.len() as int;
    assert forall|i: int| 0 <= i < n implies #[trigger] resolved[i] == plugins_dir[i] by {
        assert(resolved[i] == plugin_root[i]);
    }
    if path_starts_with(resolved, other_root) {
        assert(other_root[n] == resolved[n]);
        assert(plugin_root[n] == resolved[n]);
        assert(other_root =~= plugin_root) by {
            assert forall|i: int| 0 <= i < other_root.len() implies other_root[i] == plugin_root[i] by {
                if i < n {
                    assert(other_root[i] == plugins_dir[i]);
                    assert(plugin_root[i] == plugins_dir[i]);
                }
            }
        }
    }
}

/// Any plugin id naming one entry of the plugins directory is served from:
/// a component is ordinary exactly when it is not empty, `.` or `..`; then
/// a plugin directory directly inside the plugins directory is accepted, and
/// so is every file inside it.
pub proof fn lemma_plugin_file_complete(
    plugins_dir: Seq<Seq<u8>>,
    name: Seq<u8>,
    resolved: Seq<Seq<u8>>,
)
    ensures
        ordinary_component(name) <==> (name.len() > 0 && name != seq![46u8] && name != seq![
            46u8,
            46u8,
        ]),
        ordinary_component(name) && path_starts_with(resolved, plugins_dir.push(name))
            ==> plugin_file_verdict(plugins_dir, plugins_dir.push(name), resolved) == Ok::<
            (),
            PluginFileError,
        >(()),
        !ordinary_component(name) ==> plugin_file_verdict(plugins_dir, plugins_dir.push(name), resolved)
            == Err::<(), PluginFileError>(PluginFileError::NotAPluginDirectory),
        ordinary_component(name) && !path_starts_with(resolved, plugins_dir.push(name))
            ==> plugin_file_verdict(plugins_dir, plugins_dir.push(name), resolved) == Err::<
            (),
            PluginFileError,
        >(PluginFileError::EscapesPluginDirectory),
{
    let root = plugins_dir.push(name);
    assert(root[root.len() - 1] == name);
    assert forall|i: int| 0 <= i < plugins_dir.len() implies #[trigger] root[i] == plugins_dir[i] by {}
}

/// A plugin directory that is not directly inside the plugins directory,
/// such as the plugins directory itself or its parent, is refused.
pub proof fn lemma_plugin_root_must_be_child(
    plugins_dir: Seq<Seq<u8>>,
    plugin_root: Seq<Seq<u8>>,
    resolved: Seq<Seq<u8>>,
)
    requires
        plugin_root.len() != plugins_dir.len() + 1 || !path_starts_with(plugin_root, plugins_dir),
    ensures
        plugin_file_verdict(plugins_dir, plugin_root, resolved) == Err::<(), PluginFileError>(
            PluginFileError::NotAPluginDirectory,
        ),
{
}

/// Being inside a directory compares whole components from the start: a
/// path is inside itself, and being inside is transitive.
pub proof fn lemma_path_starts_with(a: Seq<Seq<u8>>, b: Seq<Seq<u8>>, c: Seq<Seq<u8>>)
    ensures
        path_starts_with(a, a),
        path_starts_with(a, b) <==> (b.len() <= a.len() && a.take(b.len() as int) == b),
        path_starts_with(a, b) && path_starts_with(b, c) ==> path_starts_with(a, c),
{
    if b.len() <= a.len() {
        if path_starts_with(a, b) {
            assert(a.take(b.len() as int) =~= b);
        }
        if a.take(b.len() as int) == b {
            assert forall|i: int| 0 <= i < b.len() implies #[trigger] a[i] == b[i] by {
                assert(a.take(b.len() as int)[i] == a[i]);
            }
        }
    }
    if path_starts_with(a, b) && path_starts_with(b, c) {
        assert forall|i: int| 0 <= i < c.len() implies #[trigger] a[i] == c[i] by {
            assert(a[i] == b[i]);
        }
    }
}

} // verus!
