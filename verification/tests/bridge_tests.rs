use tshock_discord_monitor::bridge::{
    cycle, poll_interval, usernames, Bridge, Effect, PlayerRecord, Request, Response, WorldStatus,
    DEFAULT_POLL_INTERVAL_SECS,
};
use tshock_discord_monitor::presence::CycleReport;

fn players(list: &[&str]) -> Response {
    Response::Players(list.iter().map(|name| PlayerRecord { username: name.to_string() }).collect())
}

fn status(world: &str, max_players: i32) -> Response {
    Response::Status(WorldStatus { world: world.to_string(), max_players })
}

fn joined(name: &str) -> Effect {
    Effect::AnnounceJoin(format!("{} joined the game", name))
}

fn left(name: &str) -> Effect {
    Effect::AnnounceLeave(format!("{} left the game", name))
}

fn presence(text: &str) -> Effect {
    Effect::SetPresence(text.to_string())
}

fn topic(text: &str) -> Effect {
    Effect::SetTopic(text.to_string())
}

fn polling(world: &str, max_players: i32) -> Bridge {
    let mut bridge = Bridge::new(DEFAULT_POLL_INTERVAL_SECS);
    assert_eq!(bridge.on_response(status(world, max_players)), vec![]);
    bridge
}

#[test]
fn default_interval_is_twenty_seconds() {
    assert_eq!(DEFAULT_POLL_INTERVAL_SECS, 20);
}

#[test]
fn bridge_bootstraps_then_polls() {
    let mut bridge = Bridge::new(20);
    assert!(!bridge.is_polling());
    assert_eq!(bridge.next_request(), Request::FetchStatus);
    assert_eq!(bridge.on_response(status("Overworld", 8)), vec![]);
    assert!(bridge.is_polling());
    assert_eq!(bridge.next_request(), Request::FetchPlayers);
    bridge.on_response(players(&["alice"]));
    assert!(bridge.is_polling());
    assert_eq!(bridge.next_request(), Request::FetchPlayers);
}

#[test]
fn player_list_before_the_status_is_ignored() {
    let mut bridge = Bridge::new(20);
    assert_eq!(bridge.on_response(players(&["alice"])), vec![]);
    assert!(!bridge.is_polling());
    assert_eq!(bridge.next_request(), Request::FetchStatus);
    bridge.on_response(status("Overworld", 8));
    assert_eq!(
        bridge.on_response(players(&["alice"])),
        vec![
            joined("alice"),
            presence("Terraria: 1/8 online"),
            topic("Overworld | Players online: 1/8"),
            Effect::Sleep(20),
        ]
    );
}

#[test]
fn later_status_does_not_replace_the_first() {
    let mut bridge = polling("Overworld", 8);
    assert_eq!(bridge.on_response(status("Underworld", 99)), vec![]);
    assert!(bridge.is_polling());
    assert_eq!(
        bridge.on_response(players(&["alice"])),
        vec![
            joined("alice"),
            presence("Terraria: 1/8 online"),
            topic("Overworld | Players online: 1/8"),
            Effect::Sleep(20),
        ]
    );
}

#[test]
fn four_snapshots_give_three_announcements_and_refreshes() {
    let mut bridge = polling("w", 8);
    assert_eq!(bridge.on_response(players(&[])), vec![Effect::Sleep(20)]);
    assert_eq!(
        bridge.on_response(players(&["alice"])),
        vec![
            joined("alice"),
            presence("Terraria: 1/8 online"),
            topic("w | Players online: 1/8"),
            Effect::Sleep(20),
        ]
    );
    assert_eq!(
        bridge.on_response(players(&["alice", "bob"])),
        vec![
            joined("bob"),
            presence("Terraria: 2/8 online"),
            topic("w | Players online: 2/8"),
            Effect::Sleep(20),
        ]
    );
    assert_eq!(
        bridge.on_response(players(&["bob"])),
        vec![
            left("alice"),
            presence("Terraria: 1/8 online"),
            topic("w | Players online: 1/8"),
            Effect::Sleep(20),
        ]
    );
}

#[test]
fn first_cycle_with_nobody_online_only_pauses() {
    let mut bridge = polling("Overworld", 8);
    assert_eq!(bridge.on_response(players(&[])), vec![Effect::Sleep(20)]);
    assert_eq!(bridge.on_response(players(&[])), vec![Effect::Sleep(20)]);
}

#[test]
fn count_that_falls_back_to_zero_is_published() {
    let mut bridge = polling("Overworld", 8);
    bridge.on_response(players(&["alice"]));
    assert_eq!(
        bridge.on_response(players(&[])),
        vec![
            left("alice"),
            presence("Terraria: 0/8 online"),
            topic("Overworld | Players online: 0/8"),
            Effect::Sleep(20),
        ]
    );
}

#[test]
fn swap_of_equal_size_announces_without_refresh() {
    let mut bridge = polling("Overworld", 8);
    bridge.on_response(players(&["alice", "bob"]));
    assert_eq!(
        bridge.on_response(players(&["bob", "carol"])),
        vec![joined("carol"), left("alice"), Effect::Sleep(20)]
    );
}

#[test]
fn same_list_twice_only_pauses() {
    let mut bridge = polling("Overworld", 8);
    bridge.on_response(players(&["alice", "bob"]));
    assert_eq!(bridge.on_response(players(&["alice", "bob"])), vec![Effect::Sleep(20)]);
    assert_eq!(bridge.on_response(players(&["bob", "alice", "bob"])), vec![Effect::Sleep(20)]);
}

#[test]
fn joins_are_announced_before_leaves() {
    let mut bridge = polling("W", 4);
    bridge.on_response(players(&["a", "b"]));
    assert_eq!(
        bridge.on_response(players(&["d", "c", "e"])),
        vec![
            joined("d"),
            joined("c"),
            joined("e"),
            left("a"),
            left("b"),
            presence("Terraria: 3/4 online"),
            topic("W | Players online: 3/4"),
            Effect::Sleep(20),
        ]
    );
}

#[test]
fn pause_is_the_configured_interval() {
    let mut bridge = Bridge::new(5);
    bridge.on_response(status("W", 4));
    let effects = bridge.on_response(players(&[]));
    assert_eq!(effects.last(), Some(&Effect::Sleep(5)));
    let mut idle = Bridge::new(0);
    idle.on_response(status("W", 4));
    assert_eq!(idle.on_response(players(&[])).last(), Some(&Effect::Sleep(0)));
}

#[test]
fn usernames_keeps_order_and_duplicates() {
    let list = vec![
        PlayerRecord { username: "b".to_string() },
        PlayerRecord { username: "a".to_string() },
        PlayerRecord { username: "b".to_string() },
    ];
    assert_eq!(usernames(&list), vec!["b".to_string(), "a".to_string(), "b".to_string()]);
    assert_eq!(usernames(&Vec::new()), Vec::<String>::new());
}

#[test]
fn cycle_renders_a_report() {
    let world = WorldStatus { world: "Moon".to_string(), max_players: 2 };
    let report = CycleReport {
        joined: vec!["x".to_string()],
        left: vec!["y".to_string(), "z".to_string()],
        refresh: None,
    };
    assert_eq!(
        cycle(&world, &report, 7),
        vec![
            joined("x"),
            left("y"),
            left("z"),
            Effect::Sleep(7),
        ]
    );
    let refresh = CycleReport { joined: vec![], left: vec![], refresh: Some(10) };
    assert_eq!(
        cycle(&world, &refresh, 7),
        vec![
            presence("Terraria: 10/2 online"),
            topic("Moon | Players online: 10/2"),
            Effect::Sleep(7),
        ]
    );
}

#[test]
fn poll_interval_falls_back_to_the_default() {
    assert_eq!(poll_interval(None), 20);
    assert_eq!(poll_interval(Some(5)), 5);
    assert_eq!(poll_interval(Some(0)), 0);
}
