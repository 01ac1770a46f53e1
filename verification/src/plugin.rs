//! Plugin runtime: the registry of installed (WASM-sandboxed) extensions.
//!
//! Plugin types: Transform, Hook, Resolver, Transport, Storage, Router.

use vstd::prelude::*;

verus! {

/// Plugin manifest.
#[derive(Clone, Debug)]
pub struct PluginManifest {
    pub name: String,
    pub version: String,
    pub plugin_type: PluginType,
    /// Permissions: a set.
    pub permissions: Vec<Permission>,
    pub triggers: Vec<String>,
}

#[derive(Clone, Copy, Debug, PartialEq, Eq, Hash)]
pub enum PluginType {
    /// Process data on write/read (encryption, compression).
    Transform,
    /// React to events (on_sync, on_change).
    Hook,
    /// Custom conflict resolution.
    Resolver,
    /// Custom sync transport.
    Transport,
    /// Custom storage backend.
    Storage,
    /// Custom task routing.
    Router,
}

#[derive(Clone, Copy, Debug, PartialEq, Eq, Hash)]
pub enum Permission {
    ReadDocument,
    WriteDocument,
    Network,
    FileSystem,
    Subprocess,
    NoPermission,
}

struct LoadedPlugin {
    manifest: PluginManifest,
}

/// Plugin runtime: the installed plugins, in installation order.
pub struct PluginRuntime {
    plugins: Vec<LoadedPlugin>,
}

/// A manifest's name differs from `name`.
pub open spec fn named_other_than(name: Seq<char>) -> spec_fn(PluginManifest) -> bool {
    |m: PluginManifest| m.name@ != name
}

impl PluginRuntime {
    /// The installed manifests, in installation order.
    pub closed spec fn manifests(&self) -> Seq<PluginManifest> {
        self.plugins@.map_values(|p: LoadedPlugin| p.manifest)
    }

    /// A runtime with no plugin installed.
    pub fn new() -> (r: Self)
        ensures
            r.manifests() == Seq::<PluginManifest>::empty(),
    {
        let r = PluginRuntime { plugins: Vec::new() };
        assert(r.manifests() =~= Seq::<PluginManifest>::empty());
        r
    }

    /// Installs a plugin from its manifest and WASM bytes. The module is not
    /// compiled yet: installing records the manifest and always succeeds.
    pub fn install(&mut self, manifest: PluginManifest, wasm_bytes: &[u8]) -> (r: Result<(), String>)
        ensures
            r is Ok,
            final(self).manifests() == old(self).manifests().push(manifest),
    {
        let ghost m = manifest;
        self.plugins.push(LoadedPlugin { manifest });
        assert(self.manifests() =~= old(self).manifests().push(m));
        Ok(())
    }

    /// The installed manifests, in installation order.
    pub fn list(&self) -> (r: Vec<&PluginManifest>)
        ensures
            r@.map_values(|m: &PluginManifest| *m) == self.manifests(),
    {
        let mut out: Vec<&PluginManifest> = Vec::new();
        let mut i: usize = 0;
        while i < self.plugins.len()
            invariant
                0 <= i <= self.plugins@.len(),
                out@.map_values(|m: &PluginManifest| *m) == self.manifests().take(i as int),
            decreases self.plugins@.len() - i,
        {
            let ghost prev = out@.map_values(|m: &PluginManifest| *m);
            out.push(&self.plugins[i].manifest);
            assert(self.manifests()[i as int] == self.plugins@[i as int].manifest);
            assert(out@.map_values(|m: &PluginManifest| *m) =~= prev.push(self.manifests()[i as int]));
            assert(self.manifests().take(i as int + 1) =~= self.manifests().take(i as int).push(self.manifests()[i as int]));
            i = i + 1;
        }
        assert(self.manifests().take(i as int) =~= self.manifests());
        out
    }

    /// Uninstalls every plugin named `name`; tells whether any was installed.
    pub fn uninstall(&mut self, name: &str) -> (removed: bool)
        ensures
            final(self).manifests() == old(self).manifests().filter(named_other_than(name@)),
            removed == (final(self).manifests().len() < old(self).manifests().len()),
    {
        let ghost orig = self.manifests();
        let target = name.to_string();
        let before = self.plugins.len();
        let mut i: usize = 0;
        let mut j: usize = 0;
        proof {
            assert(orig.len() == before);
            assert(orig.take(0) =~= Seq::<PluginManifest>::empty());
            assert(orig.skip(0) =~= orig);
        }
        while i < self.plugins.len()
            invariant
                target@ == name@,
                0 <= i <= self.plugins@.len(),
                j <= orig.len(),
                orig.len() <= usize::MAX,
                self.plugins@.len() == self.manifests().len(),
                self.manifests() == orig.take(j as int).filter(named_other_than(name@)) + orig.skip(j as int),
                i == orig.take(j as int).filter(named_other_than(name@)).len(),
            decreases self.plugins@.len() - i,
        {
            let ghost prev = self.manifests();
            let ghost kept = orig.take(j as int).filter(named_other_than(name@));
            proof {
                assert(prev[i as int] == orig[j as int]);
            }
            let ghost prev_plugins = self.plugins@;
            if self.plugins[i].manifest.name == target {
                let _ = self.plugins.remove(i);
                proof {
                    assert(prev == kept + orig.skip(j as int));
                    assert(prev.remove(i as int) =~= kept + orig.skip(j as int + 1));
                    assert(self.plugins@ == prev_plugins.remove(i as int));
                    assert(self.manifests() =~= prev.remove(i as int));
                }
            } else {
                i = i + 1;
                proof {
                    assert(self.manifests() =~= kept.push(orig[j as int]) + orig.skip(j as int + 1));
                }
            }
            proof {
                let t = orig.take(j as int + 1);
                assert(t.drop_last() =~= orig.take(j as int));
                assert(t.last() == orig[j as int]);
                reveal_with_fuel(Seq::<PluginManifest>::filter, 1);
            }
            j = j + 1;
        }
        proof {
            assert(orig.take(j as int) =~= orig);
            assert(orig.skip(j as int) =~= Seq::<PluginManifest>::empty());
            assert(self.manifests() =~= orig.filter(named_other_than(name@)));
        }
        self.plugins.len() < before
    }
}

} // verus!
