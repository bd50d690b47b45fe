//! The plugins of the server, under their names.

use crate::paths::{join_path, joined_path};
use crate::registry::{position, Registry};
use vstd::prelude::*;
use vstd::string::*;

verus! {

/// What is known of a plugin.
#[derive(Debug)]
pub struct Plugin {
    pub name: String,
    pub version: String,
    pub author: String,
    pub description: String,
    pub dependencies: Vec<String>,
    pub soft_dependencies: Vec<String>,
    pub main: String,
    pub api_version: String,
    pub load_before: Vec<String>,
    pub website: Option<String>,
    pub is_enabled: bool,
}

/// The plugins of `plugins` that are enabled, or those that are disabled, in
/// their order.
pub open spec fn with_state(plugins: Seq<Plugin>, enabled: bool) -> Seq<Plugin> {
    plugins.filter(|p: Plugin| p.is_enabled == enabled)
}

/// The plugins that a sequence of borrowed plugins refers to.
pub open spec fn referred(plugins: Seq<&Plugin>) -> Seq<Plugin> {
    plugins.map_values(|p: &Plugin| *p)
}

/// The plugin `plugin` switched on or off.
pub open spec fn switched(plugin: Plugin, enabled: bool) -> Plugin {
    Plugin { is_enabled: enabled, ..plugin }
}

/// The file name of the archive of the plugin `name`.
pub open spec fn archive_name_of(name: Seq<char>) -> Seq<char> {
    name + ".jar"@
}

/// Extending the plugins of one state of a prefix by one plugin.
proof fn lemma_with_state_step(plugins: Seq<Plugin>, enabled: bool, i: int)
    requires
        0 <= i < plugins.len(),
    ensures
        with_state(plugins.take(i + 1), enabled) == if plugins[i].is_enabled == enabled {
            with_state(plugins.take(i), enabled).push(plugins[i])
        } else {
            with_state(plugins.take(i), enabled)
        },
{
    reveal(Seq::filter);
    assert(plugins.take(i + 1).drop_last() =~= plugins.take(i));
}

impl Plugin {
    /// What is taken for a plugin of which only the name of its archive is
    /// known: enabled, version 1.0.0, for the interface version 1.20, nothing
    /// else.
    pub fn placeholder(name: String) -> (p: Plugin)
        ensures
            p.name == name,
            p.version@ == "1.0.0"@,
            p.author@ == "Unknown"@,
            p.description@ == "No description available"@,
            p.dependencies@ == Seq::<String>::empty(),
            p.soft_dependencies@ == Seq::<String>::empty(),
            p.main@ == ""@,
            p.api_version@ == "1.20"@,
            p.load_before@ == Seq::<String>::empty(),
            p.website is None,
            p.is_enabled,
    {
        Plugin {
            name,
            version: String::from_str("1.0.0"),
            author: String::from_str("Unknown"),
            description: String::from_str("No description available"),
            dependencies: Vec::new(),
            soft_dependencies: Vec::new(),
            main: String::from_str(""),
            api_version: String::from_str("1.20"),
            load_before: Vec::new(),
            website: None,
            is_enabled: true,
        }
    }

    /// The plugin switched on or off.
    fn switch(self, enabled: bool) -> (p: Plugin)
        ensures
            p == switched(self, enabled),
    {
        let mut p = self;
        p.is_enabled = enabled;
        p
    }
}

/// The plugins under their names, and the directory that holds their
/// archives.
#[derive(Debug)]
pub struct PluginManager {
    plugins: Registry<Plugin>,
    plugins_path: String,
}

impl PluginManager {
    /// The names under which the plugins are registered, in registry order.
    pub closed spec fn plugin_names(&self) -> Seq<Seq<char>> {
        self.plugins.keys()
    }

    /// The registered plugins, in registry order.
    pub closed spec fn plugins(&self) -> Seq<Plugin> {
        self.plugins.values()
    }

    /// The directory that holds the archives, as text.
    pub closed spec fn directory(&self) -> Seq<char> {
        self.plugins_path@
    }

    /// No name is registered twice, and every plugin stands under its own
    /// name.
    pub closed spec fn wf(&self) -> bool {
        &&& self.plugins.wf()
        &&& self.plugins.keys().len() == self.plugins.values().len()
        &&& forall|i: int|
            0 <= i < self.plugins.values().len() ==> #[trigger] self.plugins.keys()[i]
                == self.plugins.values()[i].name@
    }

    /// What well-formedness says in terms of the public model.
    pub proof fn lemma_wf(&self)
        requires
            self.wf(),
        ensures
            self.plugin_names().len() == self.plugins().len(),
            self.plugin_names().no_duplicates(),
            forall|i: int|
                0 <= i < self.plugins().len() ==> #[trigger] self.plugin_names()[i]
                    == self.plugins()[i].name@,
    {
        self.plugins.lemma_wf();
    }

    /// No plugins, with the archives in the directory `plugins_path`.
    pub fn in_directory(plugins_path: String) -> (m: PluginManager)
        ensures
            m.wf(),
            m.plugin_names() == Seq::<Seq<char>>::empty(),
            m.plugins() == Seq::<Plugin>::empty(),
            m.directory() == plugins_path@,
    {
        PluginManager { plugins: Registry::new(), plugins_path }
    }

    /// No plugins, with the archives in the directory `plugins` joined onto
    /// the server's directory `server_path`.
    pub fn new(server_path: &str) -> (m: PluginManager)
        ensures
            m.wf(),
            m.plugin_names() == Seq::<Seq<char>>::empty(),
            m.plugins() == Seq::<Plugin>::empty(),
            m.directory() == joined_path(server_path@, "plugins"@),
    {
        PluginManager::in_directory(join_path(server_path, "plugins"))
    }

    /// The directory that holds the archives, as text.
    pub fn plugins_path(&self) -> (p: &String)
        ensures
            p@ == self.directory(),
    {
        &self.plugins_path
    }

    /// Registers `plugin` under its name. A plugin that is registered under
    /// that name is replaced and keeps its place; a new name goes to the end.
    pub fn add_plugin(&mut self, plugin: Plugin)
        requires
            old(self).wf(),
        ensures
            final(self).wf(),
            final(self).directory() == old(self).directory(),
            match position(old(self).plugin_names(), plugin.name@) {
                Some(i) => {
                    &&& final(self).plugin_names() == old(self).plugin_names()
                    &&& final(self).plugins() == old(self).plugins().update(i, plugin)
                },
                None => {
                    &&& final(self).plugin_names() == old(self).plugin_names().push(plugin.name@)
                    &&& final(self).plugins() == old(self).plugins().push(plugin)
                },
            },
    {
        let key = plugin.name.clone();
        let _ = self.plugins.insert(key, plugin);
    }

    /// The file name of the archive of the plugin `name`, if that plugin is
    /// registered: what an uninstall looks for in the plugins directory.
    pub fn archive_name(&self, name: &str) -> (file: Option<String>)
        requires
            self.wf(),
        ensures
            match file {
                Some(f) => position(self.plugin_names(), name@) is Some && f@ == archive_name_of(
                    name@,
                ),
                None => position(self.plugin_names(), name@) is None,
            },
    {
        if self.plugins.contains_key(name) {
            Some(String::from_str(name).concat(".jar"))
        } else {
            None
        }
    }

    /// Takes the plugin under `name` out of the registry, once its archive
    /// was removed; the others keep their order. An unknown name changes
    /// nothing.
    pub fn uninstall_plugin(&mut self, name: &str)
        requires
            old(self).wf(),
        ensures
            final(self).wf(),
            final(self).directory() == old(self).directory(),
            match position(old(self).plugin_names(), name@) {
                Some(i) => {
                    &&& final(self).plugin_names() == old(self).plugin_names().remove(i)
                    &&& final(self).plugins() == old(self).plugins().remove(i)
                },
                None => {
                    &&& final(self).plugin_names() == old(self).plugin_names()
                    &&& final(self).plugins() == old(self).plugins()
                },
            },
    {
        let _ = self.plugins.remove(name);
    }

    /// Switches the plugin under `name` on or off. An unknown name changes
    /// nothing.
    fn set_enabled(&mut self, name: &str, enabled: bool)
        requires
            old(self).wf(),
        ensures
            final(self).wf(),
            final(self).directory() == old(self).directory(),
            final(self).plugin_names() == old(self).plugin_names(),
            final(self).plugins() == match position(old(self).plugin_names(), name@) {
                Some(i) => old(self).plugins().update(i, switched(old(self).plugins()[i], enabled)),
                None => old(self).plugins(),
            },
    {
        match self.plugins.find(name) {
            Some(i) => {
                let stand_in = Plugin::placeholder(String::new());
                let plugin = self.plugins.replace_at(i, stand_in);
                let _ = self.plugins.replace_at(i, plugin.switch(enabled));
                assert(self.plugins() =~= old(self).plugins().update(
                    i as int,
                    switched(old(self).plugins()[i as int], enabled),
                ));
            },
            None => {},
        }
    }

    /// Switches the plugin under `name` on. An unknown name changes nothing.
    pub fn enable_plugin(&mut self, name: &str)
        requires
            old(self).wf(),
        ensures
            final(self).wf(),
            final(self).directory() == old(self).directory(),
            final(self).plugin_names() == old(self).plugin_names(),
            final(self).plugins() == match position(old(self).plugin_names(), name@) {
                Some(i) => old(self).plugins().update(i, switched(old(self).plugins()[i], true)),
                None => old(self).plugins(),
            },
    {
        self.set_enabled(name, true);
    }

    /// Switches the plugin under `name` off. An unknown name changes nothing.
    pub fn disable_plugin(&mut self, name: &str)
        requires
            old(self).wf(),
        ensures
            final(self).wf(),
            final(self).directory() == old(self).directory(),
            final(self).plugin_names() == old(self).plugin_names(),
            final(self).plugins() == match position(old(self).plugin_names(), name@) {
                Some(i) => old(self).plugins().update(i, switched(old(self).plugins()[i], false)),
                None => old(self).plugins(),
            },
    {
        self.set_enabled(name, false);
    }

    /// The plugin under `name`, if there is one.
    pub fn get_plugin(&self, name: &str) -> (r: Option<&Plugin>)
        requires
            self.wf(),
        ensures
            match position(self.plugin_names(), name@) {
                Some(i) => r matches Some(p) && *p == self.plugins()[i],
                None => r is None,
            },
    {
        self.plugins.get(name)
    }

    /// All plugins, in registry order.
    pub fn get_all_plugins(&self) -> (out: Vec<&Plugin>)
        requires
            self.wf(),
        ensures
            referred(out@) == self.plugins(),
    {
        let out = self.plugins.all();
        assert(referred(out@) =~= self.plugins());
        out
    }

    /// The plugins of one state, in registry order.
    fn plugins_with_state(&self, enabled: bool) -> (out: Vec<&Plugin>)
        requires
            self.wf(),
        ensures
            referred(out@) == with_state(self.plugins(), enabled),
    {
        let mut out: Vec<&Plugin> = Vec::new();
        let n = self.plugins.len();
        let mut i: usize = 0;
        assert(with_state(self.plugins().take(0), enabled) =~= Seq::<Plugin>::empty()) by {
            reveal(Seq::filter);
        }
        assert(referred(out@) =~= Seq::<Plugin>::empty());
        while i < n
            invariant
                self.wf(),
                n == self.plugins().len(),
                i <= n,
                referred(out@) == with_state(self.plugins().take(i as int), enabled),
            decreases n - i,
        {
            proof {
                lemma_with_state_step(self.plugins(), enabled, i as int);
            }
            let p = self.plugins.value_at(i);
            if p.is_enabled == enabled {
                let ghost shown = out@;
                out.push(p);
                assert(referred(shown.push(p)) =~= referred(shown).push(*p));
            }
            i = i + 1;
        }
        assert(self.plugins().take(n as int) =~= self.plugins());
        out
    }

    /// The plugins that are enabled, in registry order.
    pub fn get_enabled_plugins(&self) -> (out: Vec<&Plugin>)
        requires
            self.wf(),
        ensures
            referred(out@) == with_state(self.plugins(), true),
    {
        self.plugins_with_state(true)
    }

    /// The plugins that are disabled, in registry order.
    pub fn get_disabled_plugins(&self) -> (out: Vec<&Plugin>)
        requires
            self.wf(),
        ensures
            referred(out@) == with_state(self.plugins(), false),
    {
        self.plugins_with_state(false)
    }
}

} // verus!
