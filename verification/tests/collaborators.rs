use server_supervisor::commands::server::{
    created_message, server_properties, start_script, start_script_name, RunningServers,
};
use server_supervisor::error::SupervisorError;
use server_supervisor::plugins::{Plugin, PluginManager};
use server_supervisor::text::decimal_text;
use server_supervisor::utils::{JavaInfo, SystemInfo, SystemUtils};
use server_supervisor::worlds::{
    backup_file_name, is_directory_entry, world_name_of_backup, World, WorldError, WorldManager,
};

#[test]
fn test_plugin_manager() {
    let server_path = "test_server";
    let manager = PluginManager::new(server_path);

    assert_eq!(manager.get_all_plugins().len(), 0);
}

#[test]
fn plugins_directory_is_joined_onto_the_server_directory() {
    let manager = PluginManager::new("test_server");
    let expected = std::path::Path::new("test_server").join("plugins");
    assert_eq!(manager.plugins_path().as_str(), expected.to_str().unwrap());
    assert_ne!(manager.plugins_path().as_str(), "test_server");
    let other = PluginManager::in_directory("elsewhere".to_string());
    assert_eq!(other.plugins_path().as_str(), "elsewhere");
}

#[test]
fn placeholder_plugin_has_the_defaults() {
    let p = Plugin::placeholder("Essentials".to_string());
    assert_eq!(p.name, "Essentials");
    assert_eq!(p.version, "1.0.0");
    assert_eq!(p.author, "Unknown");
    assert_eq!(p.description, "No description available");
    assert!(p.dependencies.is_empty());
    assert!(p.soft_dependencies.is_empty());
    assert_eq!(p.main, "");
    assert_eq!(p.api_version, "1.20");
    assert!(p.load_before.is_empty());
    assert!(p.website.is_none());
    assert!(p.is_enabled);
}

#[test]
fn plugins_are_switched_and_filtered() {
    let mut manager = PluginManager::in_directory("plugins".to_string());
    manager.add_plugin(Plugin::placeholder("A".to_string()));
    manager.add_plugin(Plugin::placeholder("B".to_string()));
    manager.add_plugin(Plugin::placeholder("C".to_string()));
    manager.disable_plugin("B");
    manager.disable_plugin("unknown");
    let enabled: Vec<&str> = manager.get_enabled_plugins().iter().map(|p| p.name.as_str()).collect();
    let disabled: Vec<&str> =
        manager.get_disabled_plugins().iter().map(|p| p.name.as_str()).collect();
    assert_eq!(enabled, vec!["A", "C"]);
    assert_eq!(disabled, vec!["B"]);
    assert!(!manager.get_plugin("B").unwrap().is_enabled);
    assert_eq!(manager.get_plugin("B").unwrap().version, "1.0.0");
    manager.enable_plugin("B");
    assert!(manager.get_plugin("B").unwrap().is_enabled);
    assert_eq!(manager.get_all_plugins().len(), 3);
    assert_eq!(manager.get_all_plugins()[1].name, "B");
    assert!(manager.get_disabled_plugins().is_empty());
}

#[test]
fn uninstalling_forgets_the_plugin() {
    let mut manager = PluginManager::in_directory("plugins".to_string());
    manager.add_plugin(Plugin::placeholder("A".to_string()));
    manager.add_plugin(Plugin::placeholder("B".to_string()));
    assert_eq!(manager.archive_name("A").unwrap(), "A.jar");
    assert!(manager.archive_name("Z").is_none());
    manager.uninstall_plugin("A");
    manager.uninstall_plugin("Z");
    assert!(manager.get_plugin("A").is_none());
    assert_eq!(manager.get_all_plugins().len(), 1);
    assert_eq!(manager.get_all_plugins()[0].name, "B");
}

#[test]
fn test_world_manager() {
    let server_path = "test_server";
    let mut manager = WorldManager::new(server_path);

    assert_eq!(manager.get_all_worlds().len(), 0);

    let path = manager.world_path("test_world");
    assert!(manager.create_world("test_world", Some(12345), path, false).is_ok());
    assert_eq!(manager.get_all_worlds().len(), 1);
}

#[test]
fn a_created_world_has_the_defaults() {
    let mut manager = WorldManager::new("srv");
    manager.create_world("w", Some(-7), "srv/worlds/w".to_string(), false).unwrap();
    let w = manager.get_world("w").unwrap();
    assert_eq!(w.name, "w");
    assert_eq!(w.path, "srv/worlds/w");
    assert_eq!(w.size, 0);
    assert_eq!(w.seed, Some(-7));
    assert_eq!(w.difficulty, "normal");
    assert_eq!(w.game_mode, "survival");
    assert_eq!((w.spawn_x, w.spawn_y, w.spawn_z), (0, 64, 0));
    assert_eq!(w.time, 0);
    assert_eq!(w.weather, "clear");
    assert_eq!(w.version, "1.20");
    assert!(w.last_modified.len() >= 20);
    assert!(manager.get_world("other").is_none());
    assert_eq!(manager.server_path().as_str(), "srv");
}

#[test]
fn world_paths_are_joined_onto_the_server_directory() {
    let manager = WorldManager::new("srv");
    let expected = std::path::Path::new("srv").join("worlds").join("nether");
    assert_eq!(manager.world_path("nether"), expected.to_str().unwrap());
}

#[test]
fn worlds_are_registered_and_deleted_by_name() {
    let mut manager = WorldManager::new("srv");
    manager.add_world(World::with_defaults("a".to_string(), "p/a".to_string(), 10, "t".to_string(), None));
    manager.add_world(World::with_defaults("b".to_string(), "p/b".to_string(), 20, "t".to_string(), None));
    manager.add_world(World::with_defaults("a".to_string(), "p/a2".to_string(), 30, "t".to_string(), None));
    assert_eq!(manager.get_all_worlds().len(), 2);
    assert_eq!(manager.get_world("a").unwrap().size, 30);
    let removed = manager.delete_world("a").unwrap();
    assert_eq!(removed.path, "p/a2");
    assert!(manager.delete_world("a").is_none());
    assert_eq!(manager.get_all_worlds().len(), 1);
    assert_eq!(manager.get_all_worlds()[0].name, "b");
}

#[test]
fn backup_file_names_and_world_names() {
    assert_eq!(backup_file_name("world", "20240101_000000"), "world_20240101_000000.zip");
    assert_eq!(world_name_of_backup("world_20240101_000000"), "world");
    assert_eq!(world_name_of_backup("plain"), "plain");
    assert_eq!(world_name_of_backup("_x"), "");
    assert_eq!(world_name_of_backup(""), "");
    assert_eq!(world_name_of_backup("wörld_1"), "wörld");
}

#[test]
fn system_records_start_empty() {
    let info = SystemInfo::new();
    assert_eq!(info.cpu, "");
    assert_eq!(info.total_memory, 0);
    assert_eq!(info.os, "");
    let mut utils = SystemUtils::new();
    assert!(utils.java_versions().is_empty());
    utils.remember(vec![JavaInfo {
        version: "17".to_string(),
        path: "java".to_string(),
        vendor: "OpenJDK".to_string(),
        is_64bit: true,
        heap_size: 0,
    }]);
    assert_eq!(utils.java_versions().len(), 1);
    assert_eq!(utils.java_versions()[0].vendor, "OpenJDK");
}

#[test]
fn decimal_numerals() {
    assert_eq!(decimal_text(0), "0");
    assert_eq!(decimal_text(7), "7");
    assert_eq!(decimal_text(10), "10");
    assert_eq!(decimal_text(25565), "25565");
    assert_eq!(decimal_text(u64::MAX), "18446744073709551615");
}

#[test]
fn provisioning_texts() {
    assert_eq!(
        server_properties(25565),
        "server-port=25565\nmax-players=20\nonline-mode=true\n"
    );
    assert_eq!(server_properties(0), "server-port=0\nmax-players=20\nonline-mode=true\n");
    assert_eq!(start_script("2G", false), "#!/bin/bash\njava -Xmx2G -jar server.jar nogui");
    assert_eq!(start_script("512M", true), "@echo off\njava -Xmx512M -jar server.jar nogui");
    assert_eq!(start_script_name(false), "start.sh");
    assert_eq!(start_script_name(true), "start.bat");
    assert_eq!(created_message("Lobby"), "Server Lobby created successfully!");
}

#[test]
fn table_of_running_servers() {
    let mut table = RunningServers::new();
    assert!(!table.get_server_status("/srv/a").running);
    assert_eq!(table.start_server("/srv/a", Ok(11)).unwrap(), "Server started successfully!");
    assert!(matches!(table.start_server("/srv/a", Ok(12)), Err(SupervisorError::AlreadyRunning)));
    assert_eq!(table.pid_of("/srv/a"), Some(11));
    assert!(matches!(
        table.start_server("/srv/b", Err("no script".to_string())),
        Err(SupervisorError::ProcessSpawnFailed(_))
    ));
    assert!(!table.is_running("/srv/b"));
    let status = table.get_server_status("/srv/a");
    assert!(status.running);
    assert_eq!((status.players, status.cpu_usage, status.memory_usage), (0, 0, 0));
    assert!(matches!(table.stop_server("/srv/b", Ok(())), Err(SupervisorError::NotRunning)));
    assert_eq!(table.stop_server("/srv/a", Ok(())).unwrap(), "Server stopped successfully!");
    assert!(!table.is_running("/srv/a"));
    table.start_server("/srv/a", Ok(13)).unwrap();
    assert!(matches!(
        table.stop_server("/srv/a", Err("denied".to_string())),
        Err(SupervisorError::ProcessKillFailed(_))
    ));
    assert!(!table.is_running("/srv/a"));
}

#[test]
fn archive_entries_that_end_in_a_slash_are_directories() {
    assert!(is_directory_entry("region/"));
    assert!(is_directory_entry("/"));
    assert!(!is_directory_entry("region/r.0.0.mca"));
    assert!(!is_directory_entry(""));
    assert!(!is_directory_entry("a/b"));
}

#[test]
fn the_first_available_port_is_found_in_rising_order() {
    let mut probed = std::cell::RefCell::new(Vec::new());
    let found = SystemUtils::find_available_port(25565, |p| {
        probed.borrow_mut().push(p);
        p >= 25570
    });
    assert_eq!(found, Some(25570));
    assert_eq!(probed.get_mut().clone(), vec![25565, 25566, 25567, 25568, 25569, 25570]);
    assert_eq!(SystemUtils::find_available_port(25565, |_| true), Some(25565));
    // The last port is never probed.
    assert_eq!(SystemUtils::find_available_port(65534, |p| p == 65535), None);
    assert_eq!(SystemUtils::find_available_port(65535, |_| true), None);
    assert_eq!(SystemUtils::find_available_port(65534, |_| true), Some(65534));
    assert_eq!(SystemUtils::find_available_port(0, |_| false), None);
}

#[test]
fn a_world_is_not_made_where_something_stands() {
    let mut manager = WorldManager::new("srv");
    manager.create_world("w", None, "srv/worlds/w".to_string(), false).unwrap();
    let again = manager.create_world("w", Some(5), "srv/worlds/w".to_string(), true);
    assert_eq!(again, Err(WorldError::AlreadyExists));
    assert_eq!(manager.get_all_worlds().len(), 1);
    assert_eq!(manager.get_world("w").unwrap().seed, None);
    let other = manager.create_world("x", None, "srv/worlds/x".to_string(), true);
    assert_eq!(other, Err(WorldError::AlreadyExists));
    assert!(manager.get_world("x").is_none());
    assert_eq!(WorldError::AlreadyExists.message(), "World already exists");
}
