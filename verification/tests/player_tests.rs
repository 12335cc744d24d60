use acl_engine::config::is_admin_account;
use acl_engine::onlineplayer::{OnlinePlayer, PlayerManager, PlayerUpdata, ServerPlayers};
use acl_engine::player::{binding_for, is_official_id, player_name_too_short, Profile};
use acl_engine::text::{copy_texts, listed};

fn player(server: &str, name: &str) -> OnlinePlayer {
    OnlinePlayer { realname: name.to_string(), server: server.to_string() }
}

fn listing(manager: &PlayerManager) -> Vec<(String, Vec<String>)> {
    manager.get_players().into_iter().map(|s: ServerPlayers| (s.server, s.players)).collect()
}

#[test]
fn new_manager_is_empty() {
    assert!(PlayerManager::new().get_players().is_empty());
}

#[test]
fn players_join_in_order() {
    let mut manager = PlayerManager::new();
    assert!(manager.add_player(player("Bds", "alice")));
    assert!(manager.add_player(player("Bds", "bob")));
    assert!(manager.add_player(player("Java", "carol")));
    assert_eq!(
        listing(&manager),
        vec![
            ("Bds".to_string(), vec!["alice".to_string(), "bob".to_string()]),
            ("Java".to_string(), vec!["carol".to_string()]),
        ]
    );
}

#[test]
fn joining_twice_is_refused() {
    let mut manager = PlayerManager::new();
    assert!(manager.add_player(player("Bds", "alice")));
    assert!(!manager.add_player(player("Bds", "alice")));
    assert_eq!(listing(&manager), vec![("Bds".to_string(), vec!["alice".to_string()])]);
    assert!(manager.add_player(player("Java", "alice")));
}

#[test]
fn leaving_takes_the_player_off_the_server() {
    let mut manager = PlayerManager::new();
    manager.add_player(player("Bds", "alice"));
    manager.add_player(player("Bds", "bob"));
    assert!(manager.remove_player(player("Bds", "alice")));
    assert_eq!(listing(&manager), vec![("Bds".to_string(), vec!["bob".to_string()])]);
    assert!(!manager.remove_player(player("Bds", "alice")));
    assert!(!manager.remove_player(player("Java", "bob")));
    assert!(manager.remove_player(player("Bds", "bob")));
    assert_eq!(listing(&manager), vec![("Bds".to_string(), Vec::<String>::new())]);
}

#[test]
fn a_server_that_goes_takes_its_players() {
    let mut manager = PlayerManager::new();
    manager.add_player(player("Bds", "alice"));
    manager.add_player(player("Java", "carol"));
    manager.add_player(player("Pe", "dave"));
    manager.remove_players_by_server("Java");
    assert_eq!(
        listing(&manager),
        vec![
            ("Bds".to_string(), vec!["alice".to_string()]),
            ("Pe".to_string(), vec!["dave".to_string()]),
        ]
    );
    manager.remove_players_by_server("Nowhere");
    assert_eq!(listing(&manager).len(), 2);
    manager._remove_player_all();
    assert!(listing(&manager).is_empty());
}

#[test]
fn reports_are_told_apart_by_their_kind() {
    let mut manager = PlayerManager::new();
    let join = PlayerUpdata { kind: "join".to_string(), player: player("Bds", "alice") };
    assert!(manager.handle(join));
    let again = PlayerUpdata { kind: "join".to_string(), player: player("Bds", "alice") };
    assert!(!manager.handle(again));
    let leave = PlayerUpdata { kind: "leave".to_string(), player: player("Bds", "alice") };
    assert!(manager.handle(leave));
    let other = PlayerUpdata { kind: "JOIN".to_string(), player: player("Bds", "alice") };
    assert!(!manager.handle(other));
}

#[test]
fn copy_texts_copies() {
    let list = vec!["a".to_string(), "b".to_string()];
    assert_eq!(copy_texts(&list), list);
    assert!(listed(&list, "b"));
    assert!(!listed(&list, "c"));
    assert!(!listed(&Vec::new(), ""));
}

#[test]
fn official_ids_are_told() {
    assert!(is_official_id("069a79f4"));
    assert!(is_official_id(""));
    assert!(!is_official_id("离线玩家"));
}

#[test]
fn short_names_are_told() {
    assert!(player_name_too_short(""));
    assert!(player_name_too_short("a"));
    assert!(!player_name_too_short("ab"));
    assert!(!player_name_too_short("玩"));
}

#[test]
fn binding_follows_the_account_service() {
    let known = Profile { id: "069a79f4".to_string(), name: "Notch".to_string() };
    let official = binding_for("notch", Some(known));
    assert!(official.official);
    assert_eq!(official.name, "Notch");
    assert_eq!(official.player_id, "069a79f4");
    let offline = binding_for("notch", None);
    assert!(!offline.official);
    assert_eq!(offline.name, "notch");
    assert_eq!(offline.player_id, "离线玩家");
}

#[test]
fn admin_account_is_told() {
    assert!(is_admin_account("admin"));
    assert!(!is_admin_account("Admin"));
    assert!(!is_admin_account("admin@example.org"));
    assert!(!is_admin_account(""));
}
