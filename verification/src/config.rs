use vstd::prelude::*;

use crate::table::{distinct_keys, lemma_table_view_dom, lemma_table_view_get,
    lemma_table_view_push, lemma_table_view_update, map_get, table_view};

verus! {

/// One row of the `settings` key-value table.
#[derive(Debug)]
pub struct ConfigEntry {
    pub key: String,
    pub value: String,
}

impl Clone for ConfigEntry {
    fn clone(&self) -> (r: Self)
        ensures
            r == *self,
    {
        ConfigEntry { key: self.key.clone(), value: self.value.clone() }
    }
}

pub open spec fn config_key() -> spec_fn(ConfigEntry) -> Seq<char> {
    |e: ConfigEntry| e.key@
}

/// Whether the batch carries an entry for `k`.
pub open spec fn has_setting(es: Seq<ConfigEntry>, k: Seq<char>) -> bool {
    exists|j: int| 0 <= j < es.len() && (#[trigger] es[j]).key@ == k
}

/// The last entry for `k` in the batch; later entries win.
pub open spec fn last_setting(es: Seq<ConfigEntry>, k: Seq<char>) -> ConfigEntry
    recommends
        has_setting(es, k),
    decreases es.len(),
{
    if es.len() == 0 {
        arbitrary()
    } else if es.last().key@ == k {
        es.last()
    } else {
        last_setting(es.drop_last(), k)
    }
}

/// The settings table after a batch of entries is loaded into it.
pub open spec fn loaded_settings(m: Map<Seq<char>, ConfigEntry>, es: Seq<ConfigEntry>) -> Map<
    Seq<char>,
    ConfigEntry,
> {
    Map::new(
        |k: Seq<char>| m.contains_key(k) || has_setting(es, k),
        |k: Seq<char>|
            if has_setting(es, k) {
                last_setting(es, k)
            } else {
                m[k]
            },
    )
}

proof fn lemma_loaded_settings_push(m: Map<Seq<char>, ConfigEntry>, es: Seq<ConfigEntry>, e: ConfigEntry)
    ensures
        loaded_settings(m, es.push(e)) == loaded_settings(m, es).insert(e.key@, e),
{
    let ep = es.push(e);
    assert(ep.drop_last() =~= es);
    assert(ep.last() == e);
    assert forall|k: Seq<char>| #[trigger] has_setting(ep, k) implies (has_setting(es, k) || k
        == e.key@) by {
        let j = choose|j: int| 0 <= j < ep.len() && ep[j].key@ == k;
        if j < es.len() {
            assert(es[j].key@ == k);
        }
    }
    assert forall|k: Seq<char>| has_setting(es, k) implies #[trigger] has_setting(ep, k) by {
        let j = choose|j: int| 0 <= j < es.len() && es[j].key@ == k;
        assert(ep[j].key@ == k);
    }
    assert(has_setting(ep, e.key@)) by {
        assert(ep[ep.len() - 1].key@ == e.key@);
    }
    assert forall|k: Seq<char>| k != e.key@ && has_setting(es, k) implies last_setting(ep, k)
        == last_setting(es, k) by {
        assert(last_setting(ep, k) == last_setting(ep.drop_last(), k));
    }
    assert(loaded_settings(m, ep) =~= loaded_settings(m, es).insert(e.key@, e));
}

/// The application's runtime settings: the key-value `settings` table and,
/// projected from it, the API token entry if one is stored.
#[derive(Debug)]
pub struct Config {
    pub api_token: Option<String>,
    pub settings: Vec<ConfigEntry>,
}

impl Config {
    /// The logical content of the settings table.
    pub open spec fn settings_map(self) -> Map<Seq<char>, ConfigEntry> {
        table_view(self.settings@, config_key())
    }

    /// Keys are unique, and `api_token` mirrors the table entry of the same
    /// name.
    pub open spec fn wf(self) -> bool {
        &&& distinct_keys(self.settings@, config_key())
        &&& match self.api_token {
            Some(t) => self.settings_map().contains_key("api_token"@)
                && self.settings_map()["api_token"@].value == t,
            None => !self.settings_map().contains_key("api_token"@),
        }
    }

    /// Store one setting, replacing any entry with the same key, and keep
    /// the token projection in step.
    fn upsert_setting(&mut self, entry: &ConfigEntry)
        requires
            old(self).wf(),
        ensures
            final(self).wf(),
            final(self).settings_map() == old(self).settings_map().insert(entry.key@, *entry),
            final(self).api_token == (if entry.key@ == "api_token"@ {
                Some(entry.value)
            } else {
                old(self).api_token
            }),
    {
        proof {
            lemma_table_view_dom(self.settings@, config_key());
            lemma_table_view_get(self.settings@, config_key());
        }
        let idx = self.find_setting_idx(&entry.key);
        match idx {
            Some(j) => {
                self.settings[j] = entry.clone();
                proof {
                    lemma_table_view_update(old(self).settings@, config_key(), j as int, *entry);
                    let ns = self.settings@;
                    let os = old(self).settings@;
                    assert forall|a: int, b: int|
                        0 <= a < ns.len() && 0 <= b < ns.len() && config_key()(#[trigger] ns[a])
                            == config_key()(#[trigger] ns[b]) implies a == b by {
                        assert(config_key()(ns[a]) == config_key()(os[a]));
                        assert(config_key()(ns[b]) == config_key()(os[b]));
                    }
                }
            },
            None => {
                self.settings.push(entry.clone());
                proof {
                    lemma_table_view_push(old(self).settings@, config_key(), *entry);
                    let ns = self.settings@;
                    let os = old(self).settings@;
                    assert forall|a: int, b: int|
                        0 <= a < ns.len() && 0 <= b < ns.len() && config_key()(#[trigger] ns[a])
                            == config_key()(#[trigger] ns[b]) implies a == b by {
                        if a < os.len() {
                            assert(ns[a] == os[a]);
                        }
                        if b < os.len() {
                            assert(ns[b] == os[b]);
                        }
                    }
                }
            },
        }
        let token_key = String::from_str("api_token");
        if entry.key == token_key {
            self.api_token = Some(entry.value.clone());
        }
    }

    /// The index of the settings row with the given key, if any.
    fn find_setting_idx(&self, key: &String) -> (r: Option<usize>)
        ensures
            match r {
                Some(i) => i < self.settings@.len() && self.settings@[i as int].key@ == key@,
                None => forall|j: int| 0 <= j < self.settings@.len() ==> self.settings@[j].key@
                    != key@,
            },
    {
        let mut i: usize = 0;
        while i < self.settings.len()
            invariant
                i <= self.settings@.len(),
                forall|j: int| 0 <= j < i ==> self.settings@[j].key@ != key@,
            decreases self.settings@.len() - i,
        {
            if self.settings[i].key == *key {
                return Some(i);
            }
            i += 1;
        }
        None
    }

    /// Load a batch of settings rows, as read from the persistent store:
    /// later rows win, and the `api_token` entry, if any, becomes the
    /// projected token.
    pub fn init(&mut self, entries: &Vec<ConfigEntry>)
        requires
            old(self).wf(),
        ensures
            final(self).wf(),
            final(self).settings_map() == loaded_settings(old(self).settings_map(), entries@),
    {
        let ghost m0 = old(self).settings_map();
        proof {
            assert(entries@.take(0) =~= Seq::<ConfigEntry>::empty());
            assert(self.settings_map() =~= loaded_settings(m0, entries@.take(0)));
        }
        let mut k: usize = 0;
        while k < entries.len()
            invariant
                k <= entries@.len(),
                self.wf(),
                m0 == old(self).settings_map(),
                self.settings_map() == loaded_settings(m0, entries@.take(k as int)),
            decreases entries@.len() - k,
        {
            self.upsert_setting(&entries[k]);
            proof {
                lemma_loaded_settings_push(m0, entries@.take(k as int), entries@[k as int]);
                assert(entries@.take(k as int).push(entries@[k as int]) =~= entries@.take(k + 1));
            }
            k += 1;
        }
        proof {
            assert(entries@.take(entries@.len() as int) =~= entries@);
        }
    }

    /// Store the API token as a setting; the projected token follows.
    pub fn set_api_token(&mut self, token: &String) -> (r: Result<(), ()>)
        requires
            old(self).wf(),
        ensures
            r is Ok,
            final(self).wf(),
            final(self).api_token matches Some(t) && t == *token,
            final(self).settings_map().contains_key("api_token"@),
            final(self).settings_map()["api_token"@].value == *token,
            forall|k: Seq<char>|
                k != "api_token"@ ==> map_get(#[trigger] final(self).settings_map(), k) == map_get(
                    old(self).settings_map(),
                    k,
                ),
    {
        let entry = ConfigEntry { key: String::from_str("api_token"), value: token.clone() };
        self.upsert_setting(&entry);
        proof {
            assert forall|k: Seq<char>|
                k != "api_token"@ implies map_get(#[trigger] self.settings_map(), k) == map_get(
                old(self).settings_map(),
                k,
            ) by {
                assert(self.settings_map() == old(self).settings_map().insert("api_token"@, entry));
            }
        }
        Ok(())
    }
}

impl Default for Config {
    /// No token and no settings.
    fn default() -> (r: Config)
        ensures
            r.wf(),
            r.settings@.len() == 0,
            r.api_token is None,
    {
        let r = Config { api_token: None, settings: Vec::new() };
        proof {
            lemma_table_view_dom(r.settings@, config_key());
        }
        r
    }
}

} // verus!
