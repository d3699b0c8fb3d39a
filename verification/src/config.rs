//! The configuration store's data model and path logic.
//!
//! The store itself (reading and writing files, generating a device
//! identity) is I/O and lives outside the library; here stand the
//! configuration values as plain data, the rule that picks the
//! configuration directory from the environment values handed in, and the
//! rule that builds a device configuration file path.

use vstd::prelude::*;

verus! {

/// A stored directory path.
#[derive(Clone, Debug, PartialEq)]
pub struct StoredPath(String);

impl StoredPath {
    /// The stored path text.
    pub closed spec fn spec_path(&self) -> Seq<char> {
        self.0@
    }

    pub fn new(path: String) -> (r: StoredPath)
        ensures
            r.spec_path() == path@,
    {
        StoredPath(path)
    }

    pub fn path(&self) -> (r: &String)
        ensures
            r@ == self.spec_path(),
    {
        &self.0
    }
}

/// The per-device configuration: the starred directories, each known under
/// an alias.
#[derive(Debug)]
struct DeviceConfig {
    /// Directories that will be indexed, keyed by alias.
    starred: Vec<(String, StoredPath)>,
}

/// This device's identity and configuration.
#[derive(Debug)]
struct Device {
    id: String,
    hub: String,
    config: DeviceConfig,
}

/// The loaded configuration of one device.
#[derive(Debug)]
pub struct Config {
    device: Device,
}

/// No two starred entries share an alias: the starred list is a map keyed
/// by alias.
pub open spec fn spec_aliases_unique(starred: Seq<(String, StoredPath)>) -> bool {
    forall|k1: int, k2: int| 0 <= k1 < k2 < starred.len()
        ==> (#[trigger] starred[k1]).0@ != (#[trigger] starred[k2]).0@
}

impl Config {
    /// The device's identity string.
    pub closed spec fn spec_id(&self) -> Seq<char> {
        self.device.id@
    }

    /// The hub this device belongs to.
    pub closed spec fn spec_hub(&self) -> Seq<char> {
        self.device.hub@
    }

    /// The starred directories, keyed by alias, in insertion order.
    pub closed spec fn spec_starred(&self) -> Seq<(String, StoredPath)> {
        self.device.config.starred@
    }

    pub fn new(id: String, hub: String, starred: Vec<(String, StoredPath)>) -> (r: Config)
        requires
            spec_aliases_unique(starred@),
        ensures
            r.spec_id() == id@,
            r.spec_hub() == hub@,
            r.spec_starred() == starred@,
    {
        Config { device: Device { id, hub, config: DeviceConfig { starred } } }
    }

    /// The configuration a freshly initialized device starts with: the
    /// default hub and no starred directories.
    pub fn fresh(id: String) -> (r: Config)
        ensures
            r.spec_id() == id@,
            r.spec_hub() == "default"@,
            r.spec_starred().len() == 0,
    {
        Config::new(id, "default".to_owned(), Vec::new())
    }

    pub fn id(&self) -> (r: &String)
        ensures
            r@ == self.spec_id(),
    {
        &self.device.id
    }

    pub fn hub(&self) -> (r: &String)
        ensures
            r@ == self.spec_hub(),
    {
        &self.device.hub
    }

    pub fn starred(&self) -> (r: &Vec<(String, StoredPath)>)
        ensures
            r@ == self.spec_starred(),
    {
        &self.device.config.starred
    }

    /// Stars a directory under the given alias (or under its own path where
    /// no alias is given): an existing entry with that alias is replaced,
    /// otherwise the entry is appended.
    pub fn star(&mut self, dir: String, alias: Option<String>)
        ensures
            final(self).spec_id() == old(self).spec_id(),
            final(self).spec_hub() == old(self).spec_hub(),
            spec_aliases_unique(old(self).spec_starred()) ==> spec_aliases_unique(
                final(self).spec_starred(),
            ),
            ({
                let key = match alias {
                    Some(a) => a@,
                    None => dir@,
                };
                let s_old = old(self).spec_starred();
                let s_new = final(self).spec_starred();
                if exists|k: int| 0 <= k < s_old.len() && (#[trigger] s_old[k]).0@ == key {
                    exists|k: int|
                        {
                            &&& 0 <= k < s_old.len()
                            &&& (#[trigger] s_old[k]).0@ == key
                            &&& s_new.len() == s_old.len()
                            &&& s_new[k].0@ == key
                            &&& s_new[k].1.spec_path() == dir@
                            &&& forall|j: int| 0 <= j < s_old.len() && j != k
                                ==> s_new[j] == s_old[j]
                        }
                } else {
                    &&& s_new.len() == s_old.len() + 1
                    &&& s_new[s_old.len() as int].0@ == key
                    &&& s_new[s_old.len() as int].1.spec_path() == dir@
                    &&& forall|j: int| 0 <= j < s_old.len() ==> s_new[j] == s_old[j]
                }
            }),
    {
        let key = match alias {
            Some(a) => a,
            None => dir.clone(),
        };
        let entry = (key, StoredPath(dir));

        let ghost s_old = self.device.config.starred@;
        let n = self.device.config.starred.len();
        let mut i: usize = 0;
        let mut found = false;
        while i < n && !found
            invariant
                self.device.config.starred@ == s_old,
                self.device.id == old(self).device.id,
                self.device.hub == old(self).device.hub,
                n == s_old.len(),
                i <= n,
                !found ==> forall|k: int| 0 <= k < i ==> (#[trigger] s_old[k]).0@ != entry.0@,
                found ==> i < n && s_old[i as int].0@ == entry.0@,
            decreases n - i + (if found {
                0int
            } else {
                1int
            }),
        {
            if self.device.config.starred[i].0 == entry.0 {
                found = true;
            } else {
                i += 1;
            }
        }

        let ghost entry_key = entry.0@;
        if found {
            self.device.config.starred.set(i, entry);
            proof {
                if spec_aliases_unique(s_old) {
                    let s_new = self.device.config.starred@;
                    assert forall|k1: int, k2: int| 0 <= k1 < k2 < s_new.len()
                        implies (#[trigger] s_new[k1]).0@ != (#[trigger] s_new[k2]).0@ by {
                        assert(s_old[i as int].0@ == entry_key);
                        assert(s_new[k1].0@ == s_old[k1].0@);
                        assert(s_new[k2].0@ == s_old[k2].0@);
                    }
                }
            }
        } else {
            self.device.config.starred.push(entry);
            proof {
                if spec_aliases_unique(s_old) {
                    let s_new = self.device.config.starred@;
                    assert forall|k1: int, k2: int| 0 <= k1 < k2 < s_new.len()
                        implies (#[trigger] s_new[k1]).0@ != (#[trigger] s_new[k2]).0@ by {
                        if k2 == s_old.len() {
                            assert(s_old[k1].0@ != entry_key);
                        }
                    }
                }
            }
        }
    }
}

/// Where the ext-separating dot of a file name stands: the name's last dot,
/// not its first character, not preceded by a separator, and with no
/// separator after it.
pub open spec fn spec_is_ext_dot(name: Seq<char>, i: int) -> bool {
    &&& 0 < i < name.len()
    &&& name[i] == '.'
    &&& name[i - 1] != '/'
    &&& forall|j: int| i < j < name.len() ==> name[j] != '.' && name[j] != '/'
}

/// A hub name turned into its configuration file name: an existing
/// extension is replaced by `json`, otherwise `json` is appended.
pub open spec fn spec_json_file_name(hub: Seq<char>) -> Seq<char> {
    if exists|i: int| spec_is_ext_dot(hub, i) {
        hub.subrange(0, choose|i: int| spec_is_ext_dot(hub, i)) + ".json"@
    } else {
        hub + ".json"@
    }
}

/// Appends the device configuration directory and the hub's configuration
/// file name (the hub name with its extension set to `json`) to the given
/// configuration path.
pub fn device_config_path(config_path: &mut String, hub: &str)
    ensures
        final(config_path)@ == old(config_path)@ + "/device/"@ + spec_json_file_name(hub@),
{
    config_path.append("/device/");

    let n = hub.unicode_len();
    let mut idx: usize = n;
    let mut split: usize = 0;
    let mut found = false;
    let mut stopped = false;
    while idx > 0 && !stopped
        invariant
            n == hub@.len(),
            idx <= n,
            !stopped ==> !found,
            !stopped ==> forall|j: int| idx <= j < n ==> hub@[j] != '.' && hub@[j] != '/',
            stopped && found ==> spec_is_ext_dot(hub@, split as int),
            stopped && !found ==> forall|i: int| !spec_is_ext_dot(hub@, i),
        decreases idx,
    {
        let c = hub.get_char(idx - 1);
        if c == '.' {
            stopped = true;
            if idx - 1 > 0 && hub.get_char(idx - 2) != '/' {
                found = true;
                split = idx - 1;
            } else {
                proof {
                    assert forall|i: int| !spec_is_ext_dot(hub@, i) by {
                        if 0 < i < idx - 1 {
                            assert(hub@[idx - 1] == '.');
                        }
                    }
                }
            }
        } else if c == '/' {
            stopped = true;
            proof {
                assert forall|i: int| !spec_is_ext_dot(hub@, i) by {
                    if 0 < i < idx - 1 {
                        assert(hub@[idx - 1] == '/');
                    }
                }
            }
        }
        idx -= 1;
    }

    if found {
        let stem = hub.substring_char(0, split);
        config_path.append(stem);
        proof {
            let i = choose|i: int| spec_is_ext_dot(hub@, i);
            if i < split {
                assert(hub@[split as int] == '.');
                assert(false);
            }
            if i > split {
                assert(hub@[i] == '.');
                assert(false);
            }
        }
    } else {
        proof {
            if !stopped {
                assert forall|i: int| !spec_is_ext_dot(hub@, i) by {
                    if 0 < i < hub@.len() {
                        assert(hub@[i] != '.');
                    }
                }
            }
        }
        config_path.append(hub);
    }
    config_path.append(".json");
    proof {
        assert(config_path@ =~= old(config_path)@ + "/device/"@ + spec_json_file_name(hub@));
    }
}

/// Picks the configuration directory from the environment values handed in:
/// the dedicated override wins; otherwise the home directory decides, with
/// the configuration kept under `.config` only where that directory already
/// exists; with neither value present there is no configuration directory.
pub fn config_path(vrh_home: Option<String>, home: Option<String>, dot_config_exists: bool) -> (r:
    Result<String, &'static str>)
    ensures
        vrh_home matches Some(p) ==> (r matches Ok(out) && out@ == p@),
        vrh_home is None ==> (home matches Some(h) ==> (r matches Ok(out) && out@ == h@
            + (if dot_config_exists {
                "/.config/virtual-repo-hub"@
            } else {
                "/.virtual-repo-hub"@
            }))),
        vrh_home is None && home is None ==> (r matches Err(e) && e@
            == "Neither HOME or VIRTUAL_REPO_HUB_HOME was defined"@),
{
    match vrh_home {
        Some(path) => Ok(path),
        None => match home {
            Some(mut path) => {
                if dot_config_exists {
                    path.append("/.config/virtual-repo-hub");
                } else {
                    path.append("/.virtual-repo-hub");
                }
                Ok(path)
            },
            None => Err("Neither HOME or VIRTUAL_REPO_HUB_HOME was defined"),
        },
    }
}

} // verus!
