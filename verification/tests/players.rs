use server_supervisor::players::{Player, PlayerList};

fn player(uuid: &str, name: &str, is_online: bool) -> Player {
    Player {
        uuid: uuid.to_string(),
        name: name.to_string(),
        is_online,
        is_op: false,
        last_seen: "2024-01-01T00:00:00Z".to_string(),
        playtime: 3600,
        deaths: 0,
        kills: 0,
    }
}

#[test]
fn test_player_management() {
    let mut player_list = PlayerList::new();

    let player = Player {
        uuid: "test-uuid".to_string(),
        name: "TestPlayer".to_string(),
        is_online: true,
        is_op: false,
        last_seen: "2024-01-01T00:00:00Z".to_string(),
        playtime: 3600,
        deaths: 0,
        kills: 0,
    };

    player_list.add_player(player);
    assert_eq!(player_list.get_player("test-uuid").unwrap().name, "TestPlayer");

    player_list.add_to_whitelist("test-uuid".to_string());
    assert!(player_list.is_whitelisted("test-uuid"));

    player_list.remove_from_whitelist("test-uuid");
    assert!(!player_list.is_whitelisted("test-uuid"));
}

#[test]
fn new_player_list_is_empty() {
    let list = PlayerList::new();
    assert!(list.get_all_players().is_empty());
    assert!(list.get_online_players().is_empty());
    assert!(list.get_player("nobody").is_none());
    assert!(!list.is_whitelisted("nobody"));
    assert!(!list.is_banned("nobody"));
    assert!(!list.is_op("nobody"));
}

#[test]
fn adding_a_player_twice_replaces_it_in_place() {
    let mut list = PlayerList::new();
    list.add_player(player("a", "Alice", true));
    list.add_player(player("b", "Bob", false));
    list.add_player(player("a", "Alicia", false));
    let all = list.get_all_players();
    assert_eq!(all.len(), 2);
    assert_eq!(all[0].name, "Alicia");
    assert_eq!(all[1].name, "Bob");
    assert_eq!(list.get_player("a").unwrap().name, "Alicia");
}

#[test]
fn removing_a_player_keeps_the_order_of_the_others() {
    let mut list = PlayerList::new();
    list.add_player(player("a", "Alice", true));
    list.add_player(player("b", "Bob", true));
    list.add_player(player("c", "Carol", true));
    list.remove_player("b");
    list.remove_player("unknown");
    let all = list.get_all_players();
    assert_eq!(all.len(), 2);
    assert_eq!(all[0].uuid, "a");
    assert_eq!(all[1].uuid, "c");
    assert!(list.get_player("b").is_none());
}

#[test]
fn online_players_are_filtered_in_order() {
    let mut list = PlayerList::new();
    list.add_player(player("a", "Alice", true));
    list.add_player(player("b", "Bob", false));
    list.add_player(player("c", "Carol", true));
    let online = list.get_online_players();
    assert_eq!(online.len(), 2);
    assert_eq!(online[0].name, "Alice");
    assert_eq!(online[1].name, "Carol");
}

#[test]
fn lists_hold_each_id_once() {
    let mut list = PlayerList::new();
    list.add_to_blacklist("x".to_string());
    list.add_to_blacklist("x".to_string());
    assert!(list.is_banned("x"));
    list.remove_from_blacklist("x");
    assert!(!list.is_banned("x"));

    list.add_op("y".to_string());
    list.add_op("z".to_string());
    assert!(list.is_op("y"));
    assert!(list.is_op("z"));
    list.remove_op("y");
    assert!(!list.is_op("y"));
    assert!(list.is_op("z"));
    assert!(!list.is_whitelisted("y"));
}

#[test]
fn loading_lists_replaces_only_the_lists_given() {
    let mut list = PlayerList::new();
    list.add_to_whitelist("old".to_string());
    list.add_op("op".to_string());
    list.load_lists(Some(vec!["w1".to_string(), "w2".to_string()]), None, Some(vec!["b".to_string()]));
    assert!(!list.is_whitelisted("old"));
    assert!(list.is_whitelisted("w1"));
    assert!(list.is_whitelisted("w2"));
    assert!(list.is_op("op"));
    assert!(list.is_banned("b"));
}
