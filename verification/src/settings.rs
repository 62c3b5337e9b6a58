//! Per-plugin settings: an enabled flag and a free-form JSON configuration
//! blob that each plugin interprets itself.
//!
//! A plugin that has never been customized behaves as if it were enabled and
//! had no configuration, so an empty or missing settings file is the same as
//! a fresh install.

use vstd::prelude::*;

verus! {

/// The JSON value type of `serde_json`, carried through unchanged.
#[verifier::external_type_specification]
#[verifier::external_body]
pub struct ExJsonValue(serde_json::Value);

/// `serde_json::Value` derives `Clone`, so a clone is a deep copy equal to
/// the original value. This is the only property of it that is relied on.
pub assume_specification[ <serde_json::Value as Clone>::clone ](v: &serde_json::Value) -> (r:
    serde_json::Value)
    ensures
        r == *v,
;

/// A plugin is enabled unless its settings say otherwise.
pub fn default_enabled() -> (enabled: bool)
    ensures
        enabled,
{
    true
}

/// The settings of one plugin.
///
/// `config` is `None` where the stored configuration is JSON `null`, which is
/// also what a plugin that was never configured has.
pub struct PluginSettings {
    pub enabled: bool,
    pub config: Option<serde_json::Value>,
}

/// What a plugin that has no stored settings behaves as.
pub open spec fn fresh_settings() -> PluginSettings {
    PluginSettings { enabled: true, config: None }
}

impl Clone for PluginSettings {
    fn clone(&self) -> (r: Self)
        ensures
            r == *self,
    {
        let config = match &self.config {
            Some(v) => Some(v.clone()),
            None => None,
        };
        PluginSettings { enabled: self.enabled, config }
    }
}

impl Default for PluginSettings {
    fn default() -> (r: Self)
        ensures
            r == fresh_settings(),
    {
        PluginSettings { enabled: default_enabled(), config: None }
    }
}

/// The settings a plugin has under the map `m`: its stored settings, or the
/// fresh ones where nothing is stored for it.
pub open spec fn effective_settings(m: Map<Seq<char>, PluginSettings>, id: Seq<char>) -> PluginSettings {
    if m.dom().contains(id) {
        m[id]
    } else {
        fresh_settings()
    }
}

/// `m` after the plugin `id` was switched on or off; its configuration stays.
pub open spec fn with_enabled(m: Map<Seq<char>, PluginSettings>, id: Seq<char>, enabled: bool) -> Map<
    Seq<char>,
    PluginSettings,
> {
    m.insert(id, PluginSettings { enabled, config: effective_settings(m, id).config })
}

/// `m` after the plugin `id` got a new configuration; its enabled flag stays.
pub open spec fn with_config(
    m: Map<Seq<char>, PluginSettings>,
    id: Seq<char>,
    config: Option<serde_json::Value>,
) -> Map<Seq<char>, PluginSettings> {
    m.insert(id, PluginSettings { enabled: effective_settings(m, id).enabled, config })
}

/// No two entries have the same plugin id.
pub open spec fn keys_unique(s: Seq<(String, PluginSettings)>) -> bool {
    forall|i: int, j: int|
        0 <= i < s.len() && 0 <= j < s.len() && i != j ==> #[trigger] s[i].0@ != #[trigger] s[j].0@
}

/// The map that a list of entries describes; where an id occurs more than
/// once, the later entry wins.
pub open spec fn map_of(s: Seq<(String, PluginSettings)>) -> Map<Seq<char>, PluginSettings>
    decreases s.len(),
{
    if s.len() == 0 {
        Map::empty()
    } else {
        map_of(s.drop_last()).insert(s.last().0@, s.last().1)
    }
}

proof fn lemma_map_of_dom(s: Seq<(String, PluginSettings)>, k: Seq<char>)
    ensures
        map_of(s).dom().contains(k) <==> exists|i: int| 0 <= i < s.len() && #[trigger] s[i].0@ == k,
    decreases s.len(),
{
    if s.len() > 0 {
        lemma_map_of_dom(s.drop_last(), k);
        if map_of(s).dom().contains(k) && s.last().0@ != k {
            let i = choose|i: int| 0 <= i < s.len() - 1 && #[trigger] s.drop_last()[i].0@ == k;
            assert(s[i].0@ == k);
        }
        if exists|i: int| 0 <= i < s.len() && #[trigger] s[i].0@ == k {
            let i = choose|i: int| 0 <= i < s.len() && #[trigger] s[i].0@ == k;
            if i < s.len() - 1 {
                assert(s.drop_last()[i].0@ == k);
            }
        }
    }
}

proof fn lemma_keys_unique_drop_last(s: Seq<(String, PluginSettings)>)
    requires
        keys_unique(s),
        s.len() > 0,
    ensures
        keys_unique(s.drop_last()),
{
    let t = s.drop_last();
    assert forall|a: int, b: int|
        0 <= a < t.len() && 0 <= b < t.len() && a != b implies #[trigger] t[a].0@ != #[trigger] t[b].0@ by {
        assert(s[a].0@ != s[b].0@);
    }
}

proof fn lemma_map_of_index(s: Seq<(String, PluginSettings)>, i: int)
    requires
        keys_unique(s),
        0 <= i < s.len(),
    ensures
        map_of(s).dom().contains(s[i].0@),
        map_of(s)[s[i].0@] == s[i].1,
    decreases s.len(),
{
    if i < s.len() - 1 {
        let t = s.drop_last();
        lemma_keys_unique_drop_last(s);
        lemma_map_of_index(t, i);
        assert(t[i] == s[i]);
        assert(s.last().0@ != s[i].0@) by {
            assert(s[s.len() - 1].0@ != s[i].0@);
        }
    }
}

/// Settings built from entries: an entry added last decides what its id
/// gets, and leaves every other id as it was.
pub proof fn lemma_map_of_push(s: Seq<(String, PluginSettings)>, e: (String, PluginSettings))
    ensures
        map_of(s.push(e)) == map_of(s).insert(e.0@, e.1),
        map_of(Seq::<(String, PluginSettings)>::empty()) == Map::<Seq<char>, PluginSettings>::empty(),
{
    assert(s.push(e).drop_last() =~= s);
}

proof fn lemma_map_of_update(s: Seq<(String, PluginSettings)>, i: int, e: (String, PluginSettings))
    requires
        keys_unique(s),
        0 <= i < s.len(),
        e.0@ == s[i].0@,
    ensures
        keys_unique(s.update(i, e)),
        map_of(s.update(i, e)) == map_of(s).insert(e.0@, e.1),
    decreases s.len(),
{
    let u = s.update(i, e);
    assert forall|a: int, b: int|
        0 <= a < u.len() && 0 <= b < u.len() && a != b implies #[trigger] u[a].0@ != #[trigger] u[b].0@ by {
        assert(s[a].0@ != s[b].0@);
    }
    if i == s.len() - 1 {
        assert(u.drop_last() =~= s.drop_last());
        assert(map_of(u) =~= map_of(s).insert(e.0@, e.1));
    } else {
        let t = s.drop_last();
        lemma_keys_unique_drop_last(s);
        lemma_map_of_update(t, i, e);
        assert(u.drop_last() =~= t.update(i, e));
        assert(s.last().0@ != e.0@) by {
            assert(s[s.len() - 1].0@ != s[i].0@);
        }
        assert(map_of(u) =~= map_of(s).insert(e.0@, e.1));
    }
}

/// The index of the entry for `id` in `entries`, if there is one.
fn entry_index(entries: &Vec<(String, PluginSettings)>, id: &String) -> (r: Option<usize>)
    ensures
        match r {
            Some(i) => i < entries@.len() && entries@[i as int].0@ == id@,
            None => forall|i: int| 0 <= i < entries@.len() ==> #[trigger] entries@[i].0@ != id@,
        },
{
    let n = entries.len();
    let mut i: usize = 0;
    while i < n
        invariant
            n == entries@.len(),
            i <= n,
            forall|j: int| 0 <= j < i ==> #[trigger] entries@[j].0@ != id@,
        decreases n - i,
    {
        if entries[i].0 == *id {
            return Some(i);
        }
        i = i + 1;
    }
    None
}

/// The settings of all plugins, one entry per plugin id.
pub struct SettingsFile {
    entries: Vec<(String, PluginSettings)>,
}

impl View for SettingsFile {
    type V = Map<Seq<char>, PluginSettings>;

    closed spec fn view(&self) -> Map<Seq<char>, PluginSettings> {
        map_of(self.entries@)
    }
}

impl SettingsFile {
    #[verifier::type_invariant]
    spec fn ids_unique(self) -> bool {
        keys_unique(self.entries@)
    }

    /// Settings in which no plugin has been customized.
    pub fn new() -> (f: Self)
        ensures
            f@ == Map::<Seq<char>, PluginSettings>::empty(),
    {
        SettingsFile { entries: Vec::new() }
    }

    /// The stored settings of `id`, if any are stored.
    pub fn get(&self, id: &String) -> (r: Option<&PluginSettings>)
        ensures
            r == (if self@.dom().contains(id@) {
                Some(&self@[id@])
            } else {
                None
            }),
    {
        proof {
            use_type_invariant(self);
        }
        match entry_index(&self.entries, id) {
            Some(i) => {
                proof {
                    lemma_map_of_index(self.entries@, i as int);
                }
                Some(&self.entries[i].1)
            },
            None => {
                proof {
                    lemma_map_of_dom(self.entries@, id@);
                }
                None
            },
        }
    }

    /// The settings `id` has: the stored ones, or the fresh ones.
    pub fn settings_for(&self, id: &String) -> (r: PluginSettings)
        ensures
            r == effective_settings(self@, id@),
    {
        match self.get(id) {
            Some(s) => s.clone(),
            None => PluginSettings::default(),
        }
    }

    /// Stores `settings` for `id`, replacing what was stored for it.
    fn store(&mut self, id: String, settings: PluginSettings)
        ensures
            final(self)@ == old(self)@.insert(id@, settings),
    {
        proof {
            use_type_invariant(&*self);
        }
        let mut entries: Vec<(String, PluginSettings)> = Vec::new();
        std::mem::swap(&mut entries, &mut self.entries);
        let ghost before = entries@;
        match entry_index(&entries, &id) {
            Some(i) => {
                let (key, _) = entries.remove(i);
                entries.insert(i, (key, settings));
                proof {
                    assert(entries@ =~= before.update(i as int, entries@[i as int]));
                    lemma_map_of_update(before, i as int, entries@[i as int]);
                }
            },
            None => {
                entries.push((id, settings));
                proof {
                    lemma_map_of_push(before, entries@.last());
                    assert(before.push(entries@.last()) =~= entries@);
                    assert(keys_unique(entries@)) by {
                        assert forall|a: int, b: int|
                            0 <= a < entries@.len() && 0 <= b < entries@.len() && a != b implies #[trigger] entries@[a].0@
                            != #[trigger] entries@[b].0@ by {
                            if a < before.len() && b < before.len() {
                                assert(before[a].0@ != before[b].0@);
                            }
                        }
                    }
                }
            },
        }
        self.entries = entries;
    }

    /// Settings built from a list of entries; where an id occurs more than
    /// once, the later entry wins.
    pub fn from_entries(entries: Vec<(String, PluginSettings)>) -> (f: Self)
        ensures
            f@ == map_of(entries@),
    {
        let ghost all = entries@;
        let mut rest = entries;
        let mut file = SettingsFile::new();
        let ghost mut k: int = 0;
        while rest.len() > 0
            invariant
                0 <= k <= all.len(),
                rest@ == all.skip(k),
                file@ == map_of(all.take(k)),
            decreases rest@.len(),
        {
            let (id, settings) = rest.remove(0);
            proof {
                assert(all.take(k + 1).drop_last() =~= all.take(k));
                assert(all[k] == (id, settings));
                assert(rest@ =~= all.skip(k + 1));
                k = k + 1;
            }
            file.store(id, settings);
        }
        proof {
            assert(all.take(k) =~= all);
        }
        file
    }

    /// The entries of these settings, one per plugin id.
    pub fn into_entries(self) -> (v: Vec<(String, PluginSettings)>)
        ensures
            keys_unique(v@),
            map_of(v@) == self@,
    {
        proof {
            use_type_invariant(&self);
        }
        self.entries
    }

    /// Switches the plugin `id` on or off, keeping its configuration, and
    /// returns the settings it has afterwards.
    pub fn set_plugin_enabled(&mut self, id: String, enabled: bool) -> (changed: PluginSettings)
        ensures
            final(self)@ == with_enabled(old(self)@, id@, enabled),
            changed == effective_settings(final(self)@, id@),
    {
        let current = self.settings_for(&id);
        let key = id.clone();
        self.store(id, PluginSettings { enabled, config: current.config });
        self.settings_for(&key)
    }

    /// Replaces the configuration of the plugin `id`, keeping its enabled
    /// flag, and returns the settings it has afterwards.
    pub fn set_plugin_config(&mut self, id: String, config: Option<serde_json::Value>) -> (changed:
        PluginSettings)
        ensures
            final(self)@ == with_config(old(self)@, id@, config),
            changed == effective_settings(final(self)@, id@),
    {
        let current = self.settings_for(&id);
        let key = id.clone();
        self.store(id, PluginSettings { enabled: current.enabled, config });
        self.settings_for(&key)
    }
}

/// A plugin with no stored settings, as under an empty or missing settings
/// file, is enabled and has no configuration.
pub proof fn lemma_unset_plugin_is_fresh(id: Seq<char>)
    ensures
        effective_settings(Map::empty(), id) == fresh_settings(),
        fresh_settings().enabled,
        fresh_settings().config is None,
{
}

/// What a plugin was switched to is what its settings then say, and its
/// configuration is what it was.
pub proof fn lemma_enabled_read_back(m: Map<Seq<char>, PluginSettings>, id: Seq<char>, enabled: bool)
    ensures
        effective_settings(with_enabled(m, id, enabled), id).enabled == enabled,
        effective_settings(with_enabled(m, id, enabled), id).config == effective_settings(m, id).config,
{
}

/// The configuration a plugin was given is what its settings then say, and
/// its enabled flag is what it was.
pub proof fn lemma_config_read_back(
    m: Map<Seq<char>, PluginSettings>,
    id: Seq<char>,
    config: Option<serde_json::Value>,
)
    ensures
        effective_settings(with_config(m, id, config), id).config == config,
        effective_settings(with_config(m, id, config), id).enabled == effective_settings(m, id).enabled,
{
}

/// Changing the settings of one plugin leaves those of every other plugin as
/// they were.
pub proof fn lemma_other_plugins_untouched(
    m: Map<Seq<char>, PluginSettings>,
    id: Seq<char>,
    other: Seq<char>,
    enabled: bool,
    config: Option<serde_json::Value>,
)
    requires
        other != id,
    ensures
        effective_settings(with_enabled(m, id, enabled), other) == effective_settings(m, other),
        effective_settings(with_config(m, id, config), other) == effective_settings(m, other),
{
}

/// Two changes made one after the other are both kept: switching plugin `a`
/// and then plugin `b` leaves `a` switched as asked.
pub proof fn lemma_successive_changes_both_kept(
    m: Map<Seq<char>, PluginSettings>,
    a: Seq<char>,
    enabled_a: bool,
    b: Seq<char>,
    enabled_b: bool,
)
    requires
        a != b,
    ensures
        effective_settings(with_enabled(with_enabled(m, a, enabled_a), b, enabled_b), a).enabled
            == enabled_a,
        effective_settings(with_enabled(with_enabled(m, a, enabled_a), b, enabled_b), b).enabled
            == enabled_b,
{
}

/// Switching a plugin and configuring it give the same settings in either
/// order.
pub proof fn lemma_enable_and_configure_commute(
    m: Map<Seq<char>, PluginSettings>,
    id: Seq<char>,
    enabled: bool,
    config: Option<serde_json::Value>,
)
    ensures
        with_config(with_enabled(m, id, enabled), id, config) == with_enabled(
            with_config(m, id, config),
            id,
            enabled,
        ),
{
    assert(with_config(with_enabled(m, id, enabled), id, config) =~= with_enabled(
        with_config(m, id, config),
        id,
        enabled,
    ));
}

/// Making the same change twice is the same as making it once.
pub proof fn lemma_changes_idempotent(
    m: Map<Seq<char>, PluginSettings>,
    id: Seq<char>,
    enabled: bool,
    config: Option<serde_json::Value>,
)
    ensures
        with_enabled(with_enabled(m, id, enabled), id, enabled) == with_enabled(m, id, enabled),
        with_config(with_config(m, id, config), id, config) == with_config(m, id, config),
{
    assert(with_enabled(with_enabled(m, id, enabled), id, enabled) =~= with_enabled(m, id, enabled));
    assert(with_config(with_config(m, id, config), id, config) =~= with_config(m, id, config));
}

/// Settings built from entries with distinct ids do not depend on the order
/// of the entries: two such lists holding the same entries describe the
/// same settings, in whatever order a map of them was walked.
pub proof fn lemma_entry_order_irrelevant(s: Seq<(String, PluginSettings)>, t: Seq<(String, PluginSettings)>)
    requires
        keys_unique(s),
        keys_unique(t),
        forall|e: (String, PluginSettings)| s.contains(e) <==> t.contains(e),
    ensures
        map_of(s) == map_of(t),
{
    assert forall|k: Seq<char>| #[trigger] map_of(s).dom().contains(k) implies (map_of(
        t,
    ).dom().contains(k) && map_of(t)[k] == map_of(s)[k]) by {
        lemma_map_of_dom(s, k);
        let i = choose|i: int| 0 <= i < s.len() && #[trigger] s[i].0@ == k;
        assert(s.contains(s[i]));
        assert(t.contains(s[i]));
        let j = choose|j: int| 0 <= j < t.len() && t[j] == s[i];
        lemma_map_of_index(s, i);
        lemma_map_of_index(t, j);
    }
    assert forall|k: Seq<char>| #[trigger] map_of(t).dom().contains(k) implies map_of(
        s,
    ).dom().contains(k) by {
        lemma_map_of_dom(t, k);
        let j = choose|j: int| 0 <= j < t.len() && #[trigger] t[j].0@ == k;
        assert(t.contains(t[j]));
        assert(s.contains(t[j]));
        let i = choose|i: int| 0 <= i < s.len() && s[i] == t[j];
        lemma_map_of_index(s, i);
    }
    assert(map_of(s).dom() =~= map_of(t).dom());
    assert(map_of(s) =~= map_of(t));
}

} // verus!
