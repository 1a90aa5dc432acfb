//! Oh My Pi skill-discovery settings: the configuration keys they live under,
//! and the mapping between the settings and the values stored at those keys.

use vstd::prelude::*;

verus! {

/// The skill-discovery settings; `None` leaves a setting as it is configured.
#[derive(Clone, Debug, Default)]
pub struct OhMyPiDiscoverySettings {
    pub skills_enabled: Option<bool>,
    pub skills_enable_claude_user: Option<bool>,
    pub skills_enable_claude_project: Option<bool>,
    pub skills_enable_codex_user: Option<bool>,
    pub skills_enable_pi_user: Option<bool>,
    pub skills_enable_pi_project: Option<bool>,
    pub skills_enable_agents_user: Option<bool>,
    pub skills_enable_agents_project: Option<bool>,
    pub append_only_context: Option<String>,
}

/// The configuration key of the `i`-th boolean setting, as path segments.
pub open spec fn spec_key_path(i: int) -> Seq<Seq<char>> {
    if i == 0 {
        seq!["skills"@, "enabled"@]
    } else if i == 1 {
        seq!["skills"@, "enableClaudeUser"@]
    } else if i == 2 {
        seq!["skills"@, "enableClaudeProject"@]
    } else if i == 3 {
        seq!["skills"@, "enableCodexUser"@]
    } else if i == 4 {
        seq!["skills"@, "enablePiUser"@]
    } else if i == 5 {
        seq!["skills"@, "enablePiProject"@]
    } else if i == 6 {
        seq!["skills"@, "enableAgentsUser"@]
    } else {
        seq!["skills"@, "enableAgentsProject"@]
    }
}

/// A key path as plain values.
pub open spec fn key_path_view(path: &[&str]) -> Seq<Seq<char>> {
    path@.map_values(|segment: &str| segment@)
}

/// The boolean settings in key order.
pub open spec fn spec_setting_values(s: OhMyPiDiscoverySettings) -> Seq<Option<bool>> {
    seq![
        s.skills_enabled,
        s.skills_enable_claude_user,
        s.skills_enable_claude_project,
        s.skills_enable_codex_user,
        s.skills_enable_pi_user,
        s.skills_enable_pi_project,
        s.skills_enable_agents_user,
        s.skills_enable_agents_project,
    ]
}

/// The settings made of boolean values in key order and the append-only context.
pub open spec fn spec_from_setting_values(values: Seq<Option<bool>>, append_only_context: Option<String>) -> OhMyPiDiscoverySettings {
    OhMyPiDiscoverySettings {
        skills_enabled: values[0],
        skills_enable_claude_user: values[1],
        skills_enable_claude_project: values[2],
        skills_enable_codex_user: values[3],
        skills_enable_pi_user: values[4],
        skills_enable_pi_project: values[5],
        skills_enable_agents_user: values[6],
        skills_enable_agents_project: values[7],
        append_only_context,
    }
}

/// The writes that storing the settings makes: for each boolean setting that
/// is set, in key order, its index and value.
pub open spec fn spec_bool_writes(values: Seq<Option<bool>>) -> Seq<(usize, bool)>
    decreases values.len(),
{
    if values.len() == 0 {
        Seq::empty()
    } else {
        let prev = spec_bool_writes(values.drop_last());
        match values.last() {
            Some(v) => prev.push(((values.len() - 1) as usize, v)),
            None => prev,
        }
    }
}

impl OhMyPiDiscoverySettings {
    /// The configuration keys of the boolean settings, in field order.
    pub fn key_paths() -> (paths: [&'static [&'static str]; 8])
        ensures
            forall|i: int| 0 <= i < 8 ==> key_path_view(#[trigger] paths@[i]) == spec_key_path(i),
    {
        let paths: [&'static [&'static str]; 8] = [
            &["skills", "enabled"],
            &["skills", "enableClaudeUser"],
            &["skills", "enableClaudeProject"],
            &["skills", "enableCodexUser"],
            &["skills", "enablePiUser"],
            &["skills", "enablePiProject"],
            &["skills", "enableAgentsUser"],
            &["skills", "enableAgentsProject"],
        ];
        assert(key_path_view(paths@[0]) =~= spec_key_path(0));
        assert(key_path_view(paths@[1]) =~= spec_key_path(1));
        assert(key_path_view(paths@[2]) =~= spec_key_path(2));
        assert(key_path_view(paths@[3]) =~= spec_key_path(3));
        assert(key_path_view(paths@[4]) =~= spec_key_path(4));
        assert(key_path_view(paths@[5]) =~= spec_key_path(5));
        assert(key_path_view(paths@[6]) =~= spec_key_path(6));
        assert(key_path_view(paths@[7]) =~= spec_key_path(7));
        paths
    }

    /// The settings read back from storage: the boolean values at the keys of
    /// `key_paths`, in order, and the append-only context.
    pub fn from_setting_values(values: [Option<bool>; 8], append_only_context: Option<String>) -> (s: Self)
        ensures
            s == spec_from_setting_values(values@, append_only_context),
    {
        OhMyPiDiscoverySettings {
            skills_enabled: values[0],
            skills_enable_claude_user: values[1],
            skills_enable_claude_project: values[2],
            skills_enable_codex_user: values[3],
            skills_enable_pi_user: values[4],
            skills_enable_pi_project: values[5],
            skills_enable_agents_user: values[6],
            skills_enable_agents_project: values[7],
            append_only_context,
        }
    }

    /// The boolean settings, in the order of `key_paths`.
    pub fn setting_values(&self) -> (values: [Option<bool>; 8])
        ensures
            values@ == spec_setting_values(*self),
    {
        let values = [
            self.skills_enabled,
            self.skills_enable_claude_user,
            self.skills_enable_claude_project,
            self.skills_enable_codex_user,
            self.skills_enable_pi_user,
            self.skills_enable_pi_project,
            self.skills_enable_agents_user,
            self.skills_enable_agents_project,
        ];
        assert(values@ =~= spec_setting_values(*self));
        values
    }

    /// The boolean writes that storing the settings makes: for each setting
    /// that is set, in key order, the index of its key in `key_paths` and its value.
    pub fn bool_writes(&self) -> (writes: Vec<(usize, bool)>)
        ensures
            writes@ == spec_bool_writes(spec_setting_values(*self)),
    {
        let values = self.setting_values();
        let mut writes: Vec<(usize, bool)> = Vec::new();
        let mut i: usize = 0;
        assert(values@.take(0) =~= Seq::<Option<bool>>::empty());
        while i < 8
            invariant
                i <= 8,
                values@ == spec_setting_values(*self),
                writes@ == spec_bool_writes(values@.take(i as int)),
            decreases 8 - i,
        {
            assert(values@.take(i + 1).drop_last() =~= values@.take(i as int));
            match values[i] {
                Some(v) => writes.push((i, v)),
                None => {},
            }
            i = i + 1;
        }
        assert(values@.take(8) =~= values@);
        writes
    }
}

/// Reading back what was stored gives the same settings.
pub proof fn law_settings_round_trip(s: OhMyPiDiscoverySettings)
    ensures
        spec_from_setting_values(spec_setting_values(s), s.append_only_context) == s,
{
}

proof fn lemma_bool_writes(values: Seq<Option<bool>>)
    requires
        values.len() <= 8,
    ensures
        forall|k: int| 0 <= k < spec_bool_writes(values).len() ==> {
            let (i, v) = #[trigger] spec_bool_writes(values)[k];
            &&& 0 <= i < values.len()
            &&& values[i as int] == Some(v)
        },
        forall|i: int| 0 <= i < values.len() && values[i] is Some ==> exists|k: int|
            0 <= k < spec_bool_writes(values).len() && #[trigger] spec_bool_writes(values)[k] == (i as usize, values[i]->Some_0),
    decreases values.len(),
{
    if values.len() > 0 {
        lemma_bool_writes(values.drop_last());
        let prev = spec_bool_writes(values.drop_last());
        assert forall|i: int| 0 <= i < values.len() && values[i] is Some implies exists|k: int|
            0 <= k < spec_bool_writes(values).len() && #[trigger] spec_bool_writes(values)[k] == (i as usize, values[i]->Some_0) by {
            if i < values.len() - 1 {
                assert(values.drop_last()[i] == values[i]);
                let k = choose|k: int| 0 <= k < prev.len() && #[trigger] prev[k] == (i as usize, values[i]->Some_0);
                assert(spec_bool_writes(values)[k] == prev[k]);
            } else {
                assert(spec_bool_writes(values)[prev.len() as int] == (i as usize, values[i]->Some_0));
            }
        }
        assert forall|k: int| 0 <= k < spec_bool_writes(values).len() implies {
            let (i, v) = #[trigger] spec_bool_writes(values)[k];
            &&& 0 <= i < values.len()
            &&& values[i as int] == Some(v)
        } by {
            if k < prev.len() {
                assert(spec_bool_writes(values)[k] == prev[k]);
                let (i, v) = prev[k];
                assert(values.drop_last()[i as int] == values[i as int]);
            } else {
                assert(spec_bool_writes(values)[k] == ((values.len() - 1) as usize, values.last()->Some_0));
            }
        }
    }
}

/// Storing the settings writes each set value at its own key, and nothing
/// for the values left unset.
pub proof fn law_writes_are_the_set_values(s: OhMyPiDiscoverySettings)
    ensures
        forall|k: int| 0 <= k < spec_bool_writes(spec_setting_values(s)).len() ==> {
            let (i, v) = #[trigger] spec_bool_writes(spec_setting_values(s))[k];
            &&& 0 <= i < 8
            &&& spec_setting_values(s)[i as int] == Some(v)
        },
        forall|i: int| 0 <= i < 8 && (#[trigger] spec_setting_values(s)[i]) is Some ==> exists|k: int|
            0 <= k < spec_bool_writes(spec_setting_values(s)).len() && #[trigger] spec_bool_writes(spec_setting_values(s))[k]
                == (i as usize, spec_setting_values(s)[i]->Some_0),
{
    lemma_bool_writes(spec_setting_values(s));
}

/// A model of the Oh My Pi configuration store: the boolean stored at each key
/// path, and the append-only context.
pub struct ConfigStoreModel {
    pub bools: Map<Seq<Seq<char>>, bool>,
    pub append_only_context: Option<Seq<char>>,
}

/// What reading the `i`-th boolean setting from the store gives.
pub open spec fn stored_bool(store: ConfigStoreModel, i: int) -> Option<bool> {
    if store.bools.contains_key(spec_key_path(i)) {
        Some(store.bools[spec_key_path(i)])
    } else {
        None
    }
}

/// The store after the boolean writes `writes`, in order.
pub open spec fn apply_bool_writes(store: ConfigStoreModel, writes: Seq<(usize, bool)>) -> ConfigStoreModel
    decreases writes.len(),
{
    if writes.len() == 0 {
        store
    } else {
        let before = apply_bool_writes(store, writes.drop_last());
        ConfigStoreModel {
            bools: before.bools.insert(spec_key_path(writes.last().0 as int), writes.last().1),
            append_only_context: before.append_only_context,
        }
    }
}

/// An optional string as plain values.
pub open spec fn opt_string_view(s: Option<String>) -> Option<Seq<char>> {
    match s {
        Some(t) => Some(t@),
        None => None,
    }
}

/// The store after storing the settings `s`: each set boolean at its key, then
/// the append-only context when it is set.
pub open spec fn store_settings(store: ConfigStoreModel, s: OhMyPiDiscoverySettings) -> ConfigStoreModel {
    let written = apply_bool_writes(store, spec_bool_writes(spec_setting_values(s)));
    ConfigStoreModel {
        bools: written.bools,
        append_only_context: match opt_string_view(s.append_only_context) {
            Some(c) => Some(c),
            None => written.append_only_context,
        },
    }
}

proof fn lemma_key_paths_distinct(i: int, j: int)
    requires
        0 <= i < j < 8,
    ensures
        spec_key_path(i) != spec_key_path(j),
{
    reveal_strlit("skills");
    reveal_strlit("enabled");
    reveal_strlit("enableClaudeUser");
    reveal_strlit("enableClaudeProject");
    reveal_strlit("enableCodexUser");
    reveal_strlit("enablePiUser");
    reveal_strlit("enablePiProject");
    reveal_strlit("enableAgentsUser");
    reveal_strlit("enableAgentsProject");
    let a = spec_key_path(i)[1];
    let b = spec_key_path(j)[1];
    if a.len() == b.len() {
        assert(a[6] != b[6]);
    }
}

proof fn lemma_apply_bool_writes(store: ConfigStoreModel, values: Seq<Option<bool>>, n: int)
    requires
        values.len() == 8,
        0 <= n <= 8,
    ensures
        forall|i: int| 0 <= i < 8 ==> #[trigger] stored_bool(
            apply_bool_writes(store, spec_bool_writes(values.take(n))),
            i,
        ) == if i < n && values[i] is Some {
            values[i]
        } else {
            stored_bool(store, i)
        },
        apply_bool_writes(store, spec_bool_writes(values.take(n))).append_only_context == store.append_only_context,
    decreases n,
{
    if n == 0 {
        assert(values.take(0) =~= Seq::<Option<bool>>::empty());
    } else {
        lemma_apply_bool_writes(store, values, n - 1);
        let prefix = values.take(n);
        assert(prefix.drop_last() =~= values.take(n - 1));
        let before = apply_bool_writes(store, spec_bool_writes(values.take(n - 1)));
        let after = apply_bool_writes(store, spec_bool_writes(prefix));
        match values[n - 1] {
            None => {
                assert(spec_bool_writes(prefix) == spec_bool_writes(values.take(n - 1)));
            },
            Some(v) => {
                let ws = spec_bool_writes(prefix);
                assert(ws == spec_bool_writes(values.take(n - 1)).push(((n - 1) as usize, v)));
                assert(ws.drop_last() =~= spec_bool_writes(values.take(n - 1)));
                assert(after.bools == before.bools.insert(spec_key_path(n - 1), v));
                assert forall|i: int| 0 <= i < 8 implies #[trigger] stored_bool(after, i) == if i < n && values[i] is Some {
                    values[i]
                } else {
                    stored_bool(store, i)
                } by {
                    if i != n - 1 {
                        if i < n - 1 {
                            lemma_key_paths_distinct(i, n - 1);
                        } else {
                            lemma_key_paths_distinct(n - 1, i);
                        }
                        assert(stored_bool(before, i) == stored_bool(after, i));
                    }
                }
            },
        }
    }
}

/// Reading the settings back after storing `s` gives, for each setting, the
/// value that `s` sets, and where `s` leaves it unset the value stored before.
pub proof fn law_get_after_set(store: ConfigStoreModel, s: OhMyPiDiscoverySettings)
    ensures
        forall|i: int| 0 <= i < 8 ==> #[trigger] stored_bool(store_settings(store, s), i) == match spec_setting_values(s)[i] {
            Some(v) => Some(v),
            None => stored_bool(store, i),
        },
        store_settings(store, s).append_only_context == match opt_string_view(s.append_only_context) {
            Some(c) => Some(c),
            None => store.append_only_context,
        },
{
    let values = spec_setting_values(s);
    assert(values.take(8) =~= values);
    lemma_apply_bool_writes(store, values, 8);
    let written = apply_bool_writes(store, spec_bool_writes(values));
    assert forall|i: int| 0 <= i < 8 implies #[trigger] stored_bool(store_settings(store, s), i) == match values[i] {
        Some(v) => Some(v),
        None => stored_bool(store, i),
    } by {
        assert(stored_bool(store_settings(store, s), i) == stored_bool(written, i));
    }
}

/// Each setting lives at its own configuration key: storing `s` puts each
/// field that `s` sets at the key that names it (`skills_enable_claude_user`
/// at `skills.enableClaudeUser`, and so on) and leaves the key of each unset
/// field as it was; reading the settings back (`read`, the values at the keys
/// in order) takes each field from the key that names it.
pub proof fn law_each_setting_at_its_key(
    store: ConfigStoreModel,
    s: OhMyPiDiscoverySettings,
    read: Seq<Option<bool>>,
    c: Option<String>,
)
    requires
        read.len() == 8,
        forall|i: int| 0 <= i < 8 ==> #[trigger] read[i] == stored_bool(store, i),
    ensures
        spec_from_setting_values(read, c).append_only_context == c,
        spec_key_path(0) == seq!["skills"@, "enabled"@],
        stored_bool(store_settings(store, s), 0) == match s.skills_enabled {
            Some(v) => Some(v),
            None => stored_bool(store, 0),
        },
        spec_from_setting_values(read, c).skills_enabled == stored_bool(store, 0),
        spec_key_path(1) == seq!["skills"@, "enableClaudeUser"@],
        stored_bool(store_settings(store, s), 1) == match s.skills_enable_claude_user {
            Some(v) => Some(v),
            None => stored_bool(store, 1),
        },
        spec_from_setting_values(read, c).skills_enable_claude_user == stored_bool(store, 1),
        spec_key_path(2) == seq!["skills"@, "enableClaudeProject"@],
        stored_bool(store_settings(store, s), 2) == match s.skills_enable_claude_project {
            Some(v) => Some(v),
            None => stored_bool(store, 2),
        },
        spec_from_setting_values(read, c).skills_enable_claude_project == stored_bool(store, 2),
        spec_key_path(3) == seq!["skills"@, "enableCodexUser"@],
        stored_bool(store_settings(store, s), 3) == match s.skills_enable_codex_user {
            Some(v) => Some(v),
            None => stored_bool(store, 3),
        },
        spec_from_setting_values(read, c).skills_enable_codex_user == stored_bool(store, 3),
        spec_key_path(4) == seq!["skills"@, "enablePiUser"@],
        stored_bool(store_settings(store, s), 4) == match s.skills_enable_pi_user {
            Some(v) => Some(v),
            None => stored_bool(store, 4),
        },
        spec_from_setting_values(read, c).skills_enable_pi_user == stored_bool(store, 4),
        spec_key_path(5) == seq!["skills"@, "enablePiProject"@],
        stored_bool(store_settings(store, s), 5) == match s.skills_enable_pi_project {
            Some(v) => Some(v),
            None => stored_bool(store, 5),
        },
        spec_from_setting_values(read, c).skills_enable_pi_project == stored_bool(store, 5),
        spec_key_path(6) == seq!["skills"@, "enableAgentsUser"@],
        stored_bool(store_settings(store, s), 6) == match s.skills_enable_agents_user {
            Some(v) => Some(v),
            None => stored_bool(store, 6),
        },
        spec_from_setting_values(read, c).skills_enable_agents_user == stored_bool(store, 6),
        spec_key_path(7) == seq!["skills"@, "enableAgentsProject"@],
        stored_bool(store_settings(store, s), 7) == match s.skills_enable_agents_project {
            Some(v) => Some(v),
            None => stored_bool(store, 7),
        },
        spec_from_setting_values(read, c).skills_enable_agents_project == stored_bool(store, 7),
{
    law_get_after_set(store, s);
    assert(read[0] == stored_bool(store, 0));
    assert(read[1] == stored_bool(store, 1));
    assert(read[2] == stored_bool(store, 2));
    assert(read[3] == stored_bool(store, 3));
    assert(read[4] == stored_bool(store, 4));
    assert(read[5] == stored_bool(store, 5));
    assert(read[6] == stored_bool(store, 6));
    assert(read[7] == stored_bool(store, 7));
}

} // verus!
