//! Named configurations, one of which is active.
//!
//! The model of a profile set is a map from names to configurations and the
//! name of the active profile. The set is kept as a list in which no name
//! occurs twice.

use crate::config::{
    default_config, key_named, parse_key, positive_limit, string_views, unknown_key, with_setting,
    Config, ConfigKey, ConfigView,
};
use crate::error::{config_failure, ConfigError, ConfigErrorView};
use crate::text::same_str;
use vstd::prelude::*;
use vstd::string::StringExecFns;

verus! {

/// A configuration and the name it goes by.
#[derive(Debug, PartialEq, Eq)]
pub struct Profile {
    pub name: String,
    pub config: Config,
}

/// The profiles and the name of the active one.
#[derive(Debug)]
pub struct ProfileConfig {
    active_profile: String,
    profiles: Vec<Profile>,
}

/// A profile set as a value of mathematics: the name of the active profile
/// and a map from names to configurations.
pub struct ProfileConfigView {
    pub active_profile: Seq<char>,
    pub profiles: Map<Seq<char>, ConfigView>,
}

/// No two entries have the same name.
pub open spec fn distinct_names(entries: Seq<Profile>) -> bool {
    forall|i: int, j: int| 0 <= i < j < entries.len() ==> entries[i].name@ != entries[j].name@
}

/// An entry of the name `name` stands at index `i`.
pub open spec fn named_at(entries: Seq<Profile>, name: Seq<char>, i: int) -> bool {
    0 <= i < entries.len() && entries[i].name@ == name
}

/// The map that a list of entries stands for.
pub open spec fn profiles_of(entries: Seq<Profile>) -> Map<Seq<char>, ConfigView> {
    Map::new(
        |name: Seq<char>| exists|i: int| named_at(entries, name, i),
        |name: Seq<char>| entries[choose|i: int| named_at(entries, name, i)].config@,
    )
}

/// The name of the profile that always exists.
pub open spec fn default_name() -> Seq<char> {
    "default"@
}

/// The state that every operation keeps once it holds: the profile `default`
/// exists, and so does the active profile.
pub open spec fn sound(set: ProfileConfigView) -> bool {
    set.profiles.dom().contains(default_name()) && set.profiles.dom().contains(
        set.active_profile,
    )
}

/// Every profile allows at least one token.
pub open spec fn positive_limits(set: ProfileConfigView) -> bool {
    forall|name: Seq<char>|
        set.profiles.dom().contains(name) ==> positive_limit(#[trigger] set.profiles[name])
}

/// The set with which every user starts: the profile `default` alone, active,
/// with the default configuration.
pub open spec fn initial_set() -> ProfileConfigView {
    ProfileConfigView {
        active_profile: default_name(),
        profiles: Map::empty().insert(default_name(), default_config()),
    }
}

/// The set after a switch to `name`: that profile is active where it exists,
/// and nothing changes where it does not.
pub open spec fn switched(set: ProfileConfigView, name: Seq<char>) -> ProfileConfigView {
    if set.profiles.dom().contains(name) {
        ProfileConfigView { active_profile: name, ..set }
    } else {
        set
    }
}

/// The set after the creation of `name`: a new profile with the default
/// configuration, which is active; nothing changes where the name is taken.
pub open spec fn created(set: ProfileConfigView, name: Seq<char>) -> ProfileConfigView {
    if set.profiles.dom().contains(name) {
        set
    } else {
        ProfileConfigView {
            active_profile: name,
            profiles: set.profiles.insert(name, default_config()),
        }
    }
}

/// Whether `name` can be deleted: it is not `default`, and it exists.
pub open spec fn deletable(set: ProfileConfigView, name: Seq<char>) -> bool {
    name != default_name() && set.profiles.dom().contains(name)
}

/// The set after the deletion of `name`: the profile is gone, and `default`
/// is active where the deleted profile was.
pub open spec fn deleted(set: ProfileConfigView, name: Seq<char>) -> ProfileConfigView {
    if deletable(set, name) {
        ProfileConfigView {
            active_profile: if set.active_profile == name {
                default_name()
            } else {
                set.active_profile
            },
            profiles: set.profiles.remove(name),
        }
    } else {
        set
    }
}

/// The set after the setting `key` of the profile `name` was changed.
pub open spec fn with_profile_setting(
    set: ProfileConfigView,
    name: Seq<char>,
    key: ConfigKey,
    value: Seq<char>,
    temperature: Option<u32>,
) -> ProfileConfigView {
    if set.profiles.dom().contains(name) {
        ProfileConfigView {
            profiles: set.profiles.insert(
                name,
                with_setting(set.profiles[name], key, value, temperature),
            ),
            ..set
        }
    } else {
        set
    }
}

/// What is shown of a profile: its name, a mark where it is the active one,
/// and its provider and model.
pub open spec fn profile_line_of(name: Seq<char>, active: bool, config: ConfigView) -> Seq<char> {
    "   • "@ + name + (if active {
        " (active)"@
    } else {
        Seq::empty()
    }) + " - "@ + config.provider + " ("@ + config.model + ")"@
}

/// `names` holds the name of each profile of `set` once, and nothing else.
pub open spec fn lists_profiles(names: Seq<Seq<char>>, set: ProfileConfigView) -> bool {
    &&& names.no_duplicates()
    &&& forall|name: Seq<char>| names.contains(name) <==> set.profiles.dom().contains(name)
}

/// What is shown of the profiles that `names` names, one line each.
pub open spec fn profile_listing(names: Seq<Seq<char>>, set: ProfileConfigView) -> Seq<Seq<char>> {
    Seq::new(
        names.len(),
        |i: int| profile_line_of(names[i], names[i] == set.active_profile, set.profiles[names[i]]),
    )
}

spec fn entry_names(entries: Seq<Profile>) -> Seq<Seq<char>> {
    Seq::new(entries.len(), |i: int| entries[i].name@)
}

proof fn lemma_entry_names(entries: Seq<Profile>)
    requires
        distinct_names(entries),
    ensures
        entry_names(entries).no_duplicates(),
        forall|name: Seq<char>|
            entry_names(entries).contains(name) <==> profiles_of(entries).dom().contains(name),
{
    let names = entry_names(entries);
    assert forall|i: int, j: int| 0 <= i < names.len() && 0 <= j < names.len() && i != j implies names[i]
        != names[j] by {
        if i < j {
            assert(entries[i].name@ != entries[j].name@);
        } else {
            assert(entries[j].name@ != entries[i].name@);
        }
    }
    assert forall|name: Seq<char>|
        names.contains(name) <==> profiles_of(entries).dom().contains(name) by {
        if names.contains(name) {
            let i = choose|i: int| 0 <= i < names.len() && names[i] == name;
            assert(named_at(entries, name, i));
        }
        if profiles_of(entries).dom().contains(name) {
            let i = choose|i: int| named_at(entries, name, i);
            assert(names[i] == name);
        }
    }
}

/// The error for a profile that does not exist.
pub open spec fn unknown_profile(set: ProfileConfigView, name: Seq<char>) -> Option<
    ConfigErrorView,
> {
    if set.profiles.dom().contains(name) {
        None
    } else {
        Some(ConfigErrorView::UnknownProfile { name })
    }
}

/// Why `name` cannot be deleted, if it cannot: `default` never can, and any
/// other name must exist.
pub open spec fn delete_failure(set: ProfileConfigView, name: Seq<char>) -> Option<
    ConfigErrorView,
> {
    if name == default_name() {
        Some(ConfigErrorView::DefaultProfile)
    } else {
        unknown_profile(set, name)
    }
}

/// Why a setting of a profile cannot be changed, if it cannot: the profile
/// must exist, and then the key must name a setting.
pub open spec fn setting_failure(
    set: ProfileConfigView,
    name: Seq<char>,
    key: Seq<char>,
) -> Option<ConfigErrorView> {
    if set.profiles.dom().contains(name) {
        unknown_key(key)
    } else {
        unknown_profile(set, name)
    }
}

/// The configuration that commands work with: that of the active profile,
/// and the default configuration where the active profile does not exist.
pub open spec fn active_config_of(set: ProfileConfigView) -> ConfigView {
    if set.profiles.dom().contains(set.active_profile) {
        set.profiles[set.active_profile]
    } else {
        default_config()
    }
}

/// The set with which every user starts is sound, and each operation keeps
/// a sound set sound: the profile `default` exists at all times, and the
/// active profile is always one that exists.
pub proof fn lemma_sound_is_kept(
    set: ProfileConfigView,
    name: Seq<char>,
    key: ConfigKey,
    value: Seq<char>,
    temperature: Option<u32>,
)
    requires
        sound(set),
    ensures
        sound(initial_set()),
        sound(switched(set, name)),
        sound(created(set, name)),
        sound(deleted(set, name)),
        sound(with_profile_setting(set, name, key, value, temperature)),
{
}

/// The set with which every user starts allows at least one token in every
/// profile, and each operation keeps it so: no switch, creation, deletion or
/// change of a setting leaves a profile with a limit of 0. A limit that was
/// set in a profile is positive whatever the set was before.
pub proof fn lemma_limits_stay_positive(
    set: ProfileConfigView,
    name: Seq<char>,
    key: ConfigKey,
    value: Seq<char>,
    temperature: Option<u32>,
)
    ensures
        positive_limits(initial_set()),
        positive_limits(set) ==> positive_limits(switched(set, name)),
        positive_limits(set) ==> positive_limits(created(set, name)),
        positive_limits(set) ==> positive_limits(deleted(set, name)),
        positive_limits(set) ==> positive_limits(
            with_profile_setting(set, name, key, value, temperature),
        ),
        set.profiles.dom().contains(name) && key == ConfigKey::MaxTokens ==> positive_limit(
            with_profile_setting(set, name, key, value, temperature).profiles[name],
        ),
{
}

/// After the active profile was deleted, `default` is the active profile.
pub proof fn lemma_delete_active_reverts(set: ProfileConfigView, name: Seq<char>)
    requires
        deletable(set, name),
        set.active_profile == name,
    ensures
        deleted(set, name).active_profile == default_name(),
        !deleted(set, name).profiles.dom().contains(name),
{
}

/// A switch changes no configuration, and the last switch decides which
/// profile is active.
pub proof fn lemma_switch_keeps_profiles(set: ProfileConfigView, away: Seq<char>, back: Seq<char>)
    requires
        set.profiles.dom().contains(back),
    ensures
        switched(set, away).profiles == set.profiles,
        switched(switched(set, away), back) == switched(set, back),
        switched(set, back).active_profile == back,
{
}

/// What was set in a profile is still there after a switch to another
/// profile and back: create `name`, set its setting `key`, switch to `away`,
/// switch back to `name`; then `name` is active and holds what was set.
pub proof fn lemma_setting_survives_switches(
    set: ProfileConfigView,
    name: Seq<char>,
    away: Seq<char>,
    key: ConfigKey,
    value: Seq<char>,
    temperature: Option<u32>,
)
    ensures
        ({
            let made = created(set, name);
            let changed = with_profile_setting(made, name, key, value, temperature);
            let there = switched(changed, away);
            let back = switched(there, name);
            &&& back.active_profile == name
            &&& back.profiles == changed.profiles
            &&& back.profiles.dom().contains(name)
            &&& back.profiles[name] == with_setting(made.profiles[name], key, value, temperature)
            &&& key == ConfigKey::Provider ==> back.profiles[name].provider == value
        }),
{
}

proof fn lemma_lookup(entries: Seq<Profile>, i: int)
    requires
        distinct_names(entries),
        0 <= i < entries.len(),
    ensures
        profiles_of(entries).dom().contains(entries[i].name@),
        profiles_of(entries)[entries[i].name@] == entries[i].config@,
{
    let name = entries[i].name@;
    assert(named_at(entries, name, i));
    let k = choose|k: int| named_at(entries, name, k);
    assert(named_at(entries, name, k));
    if k < i {
        assert(entries[k].name@ != entries[i].name@);
    } else if i < k {
        assert(entries[i].name@ != entries[k].name@);
    }
}

proof fn lemma_push(entries: Seq<Profile>, entry: Profile)
    requires
        distinct_names(entries),
        !profiles_of(entries).dom().contains(entry.name@),
    ensures
        distinct_names(entries.push(entry)),
        profiles_of(entries.push(entry)) == profiles_of(entries).insert(
            entry.name@,
            entry.config@,
        ),
{
    let more = entries.push(entry);
    let last = entries.len() as int;
    assert forall|i: int, j: int| 0 <= i < j < more.len() implies more[i].name@
        != more[j].name@ by {
        if j == last {
            assert(named_at(entries, entries[i].name@, i));
        }
    }
    let target = profiles_of(entries).insert(entry.name@, entry.config@);
    assert forall|name: Seq<char>| #[trigger]
        profiles_of(more).dom().contains(name) == target.dom().contains(name) by {
        if profiles_of(more).dom().contains(name) {
            let i = choose|i: int| named_at(more, name, i);
            if i < last {
                assert(named_at(entries, name, i));
            }
        }
        if target.dom().contains(name) {
            if name == entry.name@ {
                assert(named_at(more, name, last));
            } else {
                let i = choose|i: int| named_at(entries, name, i);
                assert(named_at(more, name, i));
            }
        }
    }
    assert forall|name: Seq<char>| profiles_of(more).dom().contains(name) implies #[trigger]
        profiles_of(more)[name] == target[name] by {
        let i = choose|i: int| named_at(more, name, i);
        lemma_lookup(more, i);
        if i < last {
            assert(named_at(entries, name, i));
            lemma_lookup(entries, i);
        }
    }
    assert(profiles_of(more) =~= target);
}

proof fn lemma_update(entries: Seq<Profile>, i: int, entry: Profile)
    requires
        distinct_names(entries),
        0 <= i < entries.len(),
        entry.name@ == entries[i].name@,
    ensures
        distinct_names(entries.update(i, entry)),
        profiles_of(entries.update(i, entry)) == profiles_of(entries).insert(
            entry.name@,
            entry.config@,
        ),
{
    let changed = entries.update(i, entry);
    assert forall|a: int, b: int| 0 <= a < b < changed.len() implies changed[a].name@
        != changed[b].name@ by {
        assert(entries[a].name@ != entries[b].name@);
    }
    let target = profiles_of(entries).insert(entry.name@, entry.config@);
    assert forall|name: Seq<char>| #[trigger]
        profiles_of(changed).dom().contains(name) == target.dom().contains(name) by {
        if profiles_of(changed).dom().contains(name) {
            let k = choose|k: int| named_at(changed, name, k);
            assert(named_at(entries, name, k));
        }
        if target.dom().contains(name) {
            if name == entry.name@ {
                assert(named_at(changed, name, i));
            } else {
                let k = choose|k: int| named_at(entries, name, k);
                assert(named_at(changed, name, k));
            }
        }
    }
    assert forall|name: Seq<char>| profiles_of(changed).dom().contains(name) implies #[trigger]
        profiles_of(changed)[name] == target[name] by {
        let k = choose|k: int| named_at(changed, name, k);
        lemma_lookup(changed, k);
        if k != i {
            assert(named_at(entries, name, k));
            lemma_lookup(entries, k);
            if k < i {
                assert(entries[k].name@ != entries[i].name@);
            } else {
                assert(entries[i].name@ != entries[k].name@);
            }
        }
    }
    assert(profiles_of(changed) =~= target);
}

proof fn lemma_remove(entries: Seq<Profile>, i: int)
    requires
        distinct_names(entries),
        0 <= i < entries.len(),
    ensures
        distinct_names(entries.remove(i)),
        profiles_of(entries.remove(i)) == profiles_of(entries).remove(entries[i].name@),
{
    let fewer = entries.remove(i);
    let gone = entries[i].name@;
    assert forall|a: int, b: int| 0 <= a < b < fewer.len() implies fewer[a].name@
        != fewer[b].name@ by {
        let a0 = if a < i { a } else { a + 1 };
        let b0 = if b < i { b } else { b + 1 };
        assert(fewer[a] == entries[a0]);
        assert(fewer[b] == entries[b0]);
        assert(entries[a0].name@ != entries[b0].name@);
    }
    let target = profiles_of(entries).remove(gone);
    assert forall|name: Seq<char>| #[trigger]
        profiles_of(fewer).dom().contains(name) == target.dom().contains(name) by {
        if profiles_of(fewer).dom().contains(name) {
            let k = choose|k: int| named_at(fewer, name, k);
            let k0 = if k < i { k } else { k + 1 };
            assert(fewer[k] == entries[k0]);
            assert(named_at(entries, name, k0));
            if k0 < i {
                assert(entries[k0].name@ != entries[i].name@);
            } else {
                assert(entries[i].name@ != entries[k0].name@);
            }
        }
        if target.dom().contains(name) {
            let k = choose|k: int| named_at(entries, name, k);
            let k1 = if k < i { k } else { k - 1 };
            assert(fewer[k1] == entries[k]);
            assert(named_at(fewer, name, k1));
        }
    }
    assert forall|name: Seq<char>| profiles_of(fewer).dom().contains(name) implies #[trigger]
        profiles_of(fewer)[name] == target[name] by {
        let k = choose|k: int| named_at(fewer, name, k);
        let k0 = if k < i { k } else { k + 1 };
        assert(fewer[k] == entries[k0]);
        assert(named_at(entries, name, k0));
        lemma_lookup(fewer, k);
        lemma_lookup(entries, k0);
    }
    assert(profiles_of(fewer) =~= target);
}

/// The index of the entry of the name `name`.
fn find(entries: &Vec<Profile>, name: &str) -> (found: Option<usize>)
    ensures
        match found {
            Some(i) => named_at(entries@, name@, i as int),
            None => !profiles_of(entries@).dom().contains(name@),
        },
{
    let mut i: usize = 0;
    while i < entries.len()
        invariant
            i <= entries.len(),
            forall|j: int| 0 <= j < i ==> !named_at(entries@, name@, j),
        decreases entries.len() - i,
    {
        if same_str(entries[i].name.as_str(), name) {
            return Some(i);
        }
        i += 1;
    }
    None
}

impl View for ProfileConfig {
    type V = ProfileConfigView;

    closed spec fn view(&self) -> ProfileConfigView {
        ProfileConfigView {
            active_profile: self.active_profile@,
            profiles: profiles_of(self.profiles@),
        }
    }
}

impl Default for ProfileConfig {
    fn default() -> (set: ProfileConfig)
        ensures
            set@ == initial_set(),
    {
        let mut profiles: Vec<Profile> = Vec::new();
        proof {
            assert(profiles_of(profiles@) =~= Map::empty());
        }
        let entry = Profile { name: String::from_str("default"), config: Config::default() };
        proof {
            lemma_push(profiles@, entry);
        }
        profiles.push(entry);
        ProfileConfig { active_profile: String::from_str("default"), profiles }
    }
}

impl ProfileConfig {
    #[verifier::type_invariant]
    spec fn well_formed(self) -> bool {
        distinct_names(self.profiles@)
    }

    /// A set without profiles, in which `active_profile` is named as the
    /// active one: the start for a set that is read from elsewhere.
    pub fn empty(active_profile: String) -> (set: ProfileConfig)
        ensures
            set@ == (ProfileConfigView { active_profile: active_profile@, profiles: Map::empty() }),
    {
        let profiles: Vec<Profile> = Vec::new();
        proof {
            assert(profiles_of(profiles@) =~= Map::empty());
        }
        ProfileConfig { active_profile, profiles }
    }

    /// Puts `config` under `name`, in place of what the name held before.
    pub fn insert(&mut self, name: String, config: Config)
        ensures
            final(self)@ == (ProfileConfigView {
                profiles: old(self)@.profiles.insert(name@, config@),
                ..old(self)@
            }),
    {
        proof {
            use_type_invariant(&*self);
        }
        let entry = Profile { name, config };
        let mut entries: Vec<Profile> = Vec::new();
        core::mem::swap(&mut self.profiles, &mut entries);
        match find(&entries, entry.name.as_str()) {
            Some(i) => {
                proof {
                    lemma_update(entries@, i as int, entry);
                }
                entries.set(i, entry);
            },
            None => {
                proof {
                    lemma_push(entries@, entry);
                }
                entries.push(entry);
            },
        }
        self.profiles = entries;
    }

    /// The name of the active profile.
    pub fn active_profile(&self) -> (name: &String)
        ensures
            name@ == self@.active_profile,
    {
        &self.active_profile
    }

    /// Whether a profile of this name exists.
    pub fn contains(&self, name: &str) -> (r: bool)
        ensures
            r == self@.profiles.dom().contains(name@),
    {
        match find(&self.profiles, name) {
            Some(i) => {
                proof {
                    use_type_invariant(self);
                    lemma_lookup(self.profiles@, i as int);
                }
                true
            },
            None => false,
        }
    }

    /// The configuration of the profile `name`.
    pub fn get(&self, name: &str) -> (config: Option<&Config>)
        ensures
            match config {
                Some(c) => self@.profiles.dom().contains(name@) && c@ == self@.profiles[name@],
                None => !self@.profiles.dom().contains(name@),
            },
    {
        match find(&self.profiles, name) {
            Some(i) => {
                proof {
                    use_type_invariant(self);
                    lemma_lookup(self.profiles@, i as int);
                }
                Some(&self.profiles[i].config)
            },
            None => None,
        }
    }

    /// The configuration that commands work with.
    pub fn active_config(&self) -> (config: Config)
        ensures
            config@ == active_config_of(self@),
    {
        match self.get(self.active_profile.as_str()) {
            Some(c) => c.clone(),
            None => Config::default(),
        }
    }

    /// The names of the profiles.
    pub fn profile_names(&self) -> (names: Vec<String>)
        ensures
            lists_profiles(string_views(names@), self@),
    {
        let mut names: Vec<String> = Vec::new();
        let mut i: usize = 0;
        while i < self.profiles.len()
            invariant
                i <= self.profiles.len(),
                string_views(names@) == entry_names(self.profiles@).take(i as int),
            decreases self.profiles.len() - i,
        {
            let ghost before = string_views(names@);
            let name = self.profiles[i].name.clone();
            names.push(name);
            proof {
                let all = entry_names(self.profiles@);
                assert(string_views(names@) =~= before.push(name@));
                assert(all.take(i + 1) =~= all.take(i as int).push(all[i as int]));
            }
            i += 1;
        }
        proof {
            use_type_invariant(self);
            lemma_entry_names(self.profiles@);
            assert(entry_names(self.profiles@).take(i as int) =~= entry_names(self.profiles@));
        }
        names
    }

    /// What is shown of the profiles, one line each.
    pub fn list_profiles(&self) -> (lines: Vec<String>)
        ensures
            exists|names: Seq<Seq<char>>|
                lists_profiles(names, self@) && string_views(lines@) == profile_listing(
                    names,
                    self@,
                ),
    {
        let mut lines: Vec<String> = Vec::new();
        let mut i: usize = 0;
        proof {
            use_type_invariant(self);
            lemma_entry_names(self.profiles@);
        }
        let ghost names = entry_names(self.profiles@);
        while i < self.profiles.len()
            invariant
                i <= self.profiles.len(),
                distinct_names(self.profiles@),
                names == entry_names(self.profiles@),
                string_views(lines@) == profile_listing(names, self@).take(i as int),
            decreases self.profiles.len() - i,
        {
            let entry = &self.profiles[i];
            let mut line = String::from_str("   • ");
            line.append(entry.name.as_str());
            if same_str(entry.name.as_str(), self.active_profile.as_str()) {
                line.append(" (active)");
            }
            line.append(" - ");
            line.append(entry.config.provider.as_str());
            line.append(" (");
            line.append(entry.config.model.as_str());
            line.append(")");
            proof {
                lemma_lookup(self.profiles@, i as int);
                assert(names[i as int] == entry.name@);
                let want = profile_line_of(
                    entry.name@,
                    entry.name@ == self@.active_profile,
                    entry.config@,
                );
                assert(line@ =~= want);
            }
            let ghost before = string_views(lines@);
            lines.push(line);
            proof {
                let all = profile_listing(names, self@);
                assert(string_views(lines@) =~= before.push(line@));
                assert(all.take(i + 1) =~= all.take(i as int).push(all[i as int]));
            }
            i += 1;
        }
        assert(profile_listing(names, self@).take(i as int) =~= profile_listing(names, self@));
        lines
    }

    /// Makes the profile `name` the active one.
    pub fn switch_profile(&mut self, name: &str) -> (r: Result<(), ConfigError>)
        ensures
            final(self)@ == switched(old(self)@, name@),
            config_failure(r) == unknown_profile(old(self)@, name@),
            sound(old(self)@) ==> sound(final(self)@),
            positive_limits(old(self)@) ==> positive_limits(final(self)@),
    {
        if !self.contains(name) {
            return Err(ConfigError::UnknownProfile { name: String::from_str(name) });
        }
        proof {
            use_type_invariant(&*self);
        }
        self.active_profile = String::from_str(name);
        Ok(())
    }

    /// Adds the profile `name` with the default configuration and makes it
    /// the active one. Where the name is taken nothing changes, and the
    /// result is `false`.
    pub fn create_profile(&mut self, name: &str) -> (fresh: bool)
        ensures
            final(self)@ == created(old(self)@, name@),
            fresh == !old(self)@.profiles.dom().contains(name@),
            sound(old(self)@) ==> sound(final(self)@),
            positive_limits(old(self)@) ==> positive_limits(final(self)@),
    {
        if self.contains(name) {
            return false;
        }
        self.insert(String::from_str(name), Config::default());
        proof {
            use_type_invariant(&*self);
        }
        self.active_profile = String::from_str(name);
        true
    }

    /// Deletes the profile `name`. The result says whether the deleted
    /// profile was the active one, in whose place `default` is active now.
    pub fn delete_profile(&mut self, name: &str) -> (r: Result<bool, ConfigError>)
        ensures
            final(self)@ == deleted(old(self)@, name@),
            config_failure(r) == delete_failure(old(self)@, name@),
            r matches Ok(was_active) ==> was_active == (old(self)@.active_profile == name@),
            sound(old(self)@) ==> sound(final(self)@),
            positive_limits(old(self)@) ==> positive_limits(final(self)@),
    {
        if same_str(name, "default") {
            return Err(ConfigError::DefaultProfile);
        }
        proof {
            use_type_invariant(&*self);
        }
        match find(&self.profiles, name) {
            None => Err(ConfigError::UnknownProfile { name: String::from_str(name) }),
            Some(i) => {
                let mut entries: Vec<Profile> = Vec::new();
                core::mem::swap(&mut self.profiles, &mut entries);
                proof {
                    lemma_lookup(entries@, i as int);
                    lemma_remove(entries@, i as int);
                }
                let _ = entries.remove(i);
                self.profiles = entries;
                if same_str(self.active_profile.as_str(), name) {
                    self.active_profile = String::from_str("default");
                    Ok(true)
                } else {
                    Ok(false)
                }
            },
        }
    }

    /// Changes the setting that `key` names, in the profile `profile_name`,
    /// to what `value` says (see `Config::assign` for `temperature`).
    /// A profile that does not exist is reported before a key that names no
    /// setting.
    pub fn set_profile_config(
        &mut self,
        profile_name: &str,
        key: &str,
        value: &str,
        temperature: Option<u32>,
    ) -> (r: Result<(), ConfigError>)
        ensures
            config_failure(r) == setting_failure(old(self)@, profile_name@, key@),
            final(self)@ == match key_named(key@) {
                Some(k) => with_profile_setting(old(self)@, profile_name@, k, value@, temperature),
                None => old(self)@,
            },
            sound(old(self)@) ==> sound(final(self)@),
            positive_limits(old(self)@) ==> positive_limits(final(self)@),
            r is Ok && key_named(key@) == Some(ConfigKey::MaxTokens) ==> positive_limit(
                final(self)@.profiles[profile_name@],
            ),
    {
        let mut config = match self.get(profile_name) {
            Some(c) => c.clone(),
            None => {
                return Err(ConfigError::UnknownProfile { name: String::from_str(profile_name) });
            },
        };
        match parse_key(key) {
            None => Err(ConfigError::UnknownKey { key: String::from_str(key) }),
            Some(k) => {
                config.assign(k, value, temperature);
                self.insert(String::from_str(profile_name), config);
                Ok(())
            },
        }
    }
}

} // verus!
