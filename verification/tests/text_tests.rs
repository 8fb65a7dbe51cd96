use tshock_discord_monitor::decimal::{parse_u64, push_decimal, push_signed_decimal};
use tshock_discord_monitor::endpoints::{
    broadcast, fetch_players, fetch_status, url_of, ApiCall,
};
use tshock_discord_monitor::messages::{
    broadcast_message, display_name, join_message, leave_message, presence_message, topic_message,
};
use tshock_discord_monitor::relay::{relay_call, should_relay};

fn decimal_of(n: u64) -> String {
    let mut out = String::new();
    push_decimal(&mut out, n);
    out
}

fn signed_decimal_of(i: i32) -> String {
    let mut out = String::new();
    push_signed_decimal(&mut out, i);
    out
}

fn pairs(call: &ApiCall) -> Vec<(String, String)> {
    call.query.iter().map(|p| (p.name.clone(), p.value.clone())).collect()
}

fn pair(name: &str, value: &str) -> (String, String) {
    (name.to_string(), value.to_string())
}

#[test]
fn decimal_of_small_and_large_numbers() {
    assert_eq!(decimal_of(0), "0");
    assert_eq!(decimal_of(7), "7");
    assert_eq!(decimal_of(9), "9");
    assert_eq!(decimal_of(10), "10");
    assert_eq!(decimal_of(101), "101");
    assert_eq!(decimal_of(1234567890), "1234567890");
    assert_eq!(decimal_of(u64::MAX), "18446744073709551615");
}

#[test]
fn decimal_is_appended_to_what_is_there() {
    let mut out = String::from("n=");
    push_decimal(&mut out, 42);
    assert_eq!(out, "n=42");
    push_signed_decimal(&mut out, -42);
    assert_eq!(out, "n=42-42");
}

#[test]
fn signed_decimal_of_both_signs() {
    assert_eq!(signed_decimal_of(0), "0");
    assert_eq!(signed_decimal_of(8), "8");
    assert_eq!(signed_decimal_of(-1), "-1");
    assert_eq!(signed_decimal_of(-250), "-250");
    assert_eq!(signed_decimal_of(i32::MAX), "2147483647");
    assert_eq!(signed_decimal_of(i32::MIN), "-2147483648");
}

#[test]
fn decimal_agrees_with_the_standard_formatting() {
    for n in [0u64, 1, 19, 20, 99, 100, 999, 1000, 65535, 4294967296] {
        assert_eq!(decimal_of(n), n.to_string());
    }
    for i in [-100000i32, -11, -10, -9, 9, 10, 11] {
        assert_eq!(signed_decimal_of(i), i.to_string());
    }
}

#[test]
fn parse_accepts_digits_with_an_optional_plus() {
    assert_eq!(parse_u64("0"), Some(0));
    assert_eq!(parse_u64("7"), Some(7));
    assert_eq!(parse_u64("123456789012345678"), Some(123456789012345678));
    assert_eq!(parse_u64("+5"), Some(5));
    assert_eq!(parse_u64("00012"), Some(12));
    assert_eq!(parse_u64("18446744073709551615"), Some(u64::MAX));
    assert_eq!(parse_u64("+18446744073709551615"), Some(u64::MAX));
}

#[test]
fn parse_rejects_everything_else() {
    assert_eq!(parse_u64(""), None);
    assert_eq!(parse_u64("+"), None);
    assert_eq!(parse_u64("-"), None);
    assert_eq!(parse_u64("-1"), None);
    assert_eq!(parse_u64("++1"), None);
    assert_eq!(parse_u64("1+"), None);
    assert_eq!(parse_u64(" 1"), None);
    assert_eq!(parse_u64("1 "), None);
    assert_eq!(parse_u64("1_000"), None);
    assert_eq!(parse_u64("12a"), None);
    assert_eq!(parse_u64("0x10"), None);
    assert_eq!(parse_u64("1.0"), None);
    assert_eq!(parse_u64("\u{0661}\u{0662}"), None);
    assert_eq!(parse_u64("18446744073709551616"), None);
    assert_eq!(parse_u64("99999999999999999999"), None);
    assert_eq!(parse_u64("184467440737095516150"), None);
}

#[test]
fn parse_agrees_with_the_standard_parser() {
    for text in [
        "", "+", "-", "0", "+0", "-0", "42", "+42", "-42", "4 2", "18446744073709551615",
        "18446744073709551616", "000000000000000000000000001", "١٢٣", "12\n", "٣",
    ] {
        assert_eq!(parse_u64(text), text.parse::<u64>().ok(), "for {:?}", text);
    }
}

#[test]
fn parse_reads_back_what_decimal_writes() {
    for n in [0u64, 9, 10, 12345, 305419896, u64::MAX - 1, u64::MAX] {
        assert_eq!(parse_u64(&decimal_of(n)), Some(n));
    }
}

#[test]
fn join_and_leave_messages() {
    assert_eq!(join_message("alice"), "alice joined the game");
    assert_eq!(leave_message("alice"), "alice left the game");
    assert_eq!(join_message(""), " joined the game");
    assert_eq!(leave_message("Bob the Builder"), "Bob the Builder left the game");
}

#[test]
fn presence_and_topic_messages() {
    assert_eq!(presence_message(0, 8), "Terraria: 0/8 online");
    assert_eq!(presence_message(3, 16), "Terraria: 3/16 online");
    assert_eq!(presence_message(255, 255), "Terraria: 255/255 online");
    assert_eq!(presence_message(1, -1), "Terraria: 1/-1 online");
    assert_eq!(topic_message("Overworld", 0, 8), "Overworld | Players online: 0/8");
    assert_eq!(topic_message("My World", 12, 100), "My World | Players online: 12/100");
    assert_eq!(topic_message("", 1, 0), " | Players online: 1/0");
}

#[test]
fn broadcast_message_puts_the_name_in_brackets() {
    assert_eq!(broadcast_message("alice", "hello there"), "(alice) hello there");
    assert_eq!(broadcast_message("", ""), "() ");
    assert_eq!(broadcast_message("a (b)", "(c)"), "(a (b)) (c)");
}

#[test]
fn display_name_prefers_the_nickname() {
    assert_eq!(display_name(Some("Ali".to_string()), "alice".to_string()), "Ali");
    assert_eq!(display_name(None, "alice".to_string()), "alice");
    assert_eq!(display_name(Some(String::new()), "alice".to_string()), "");
}

#[test]
fn status_and_player_calls() {
    let status = fetch_status("secret");
    assert_eq!(status.path, "v2/server/status");
    assert_eq!(pairs(&status), vec![pair("token", "secret")]);
    let players = fetch_players("secret");
    assert_eq!(players.path, "v2/players/list");
    assert_eq!(pairs(&players), vec![pair("token", "secret")]);
}

#[test]
fn broadcast_call_carries_token_and_message() {
    let call = broadcast("t0k3n", "(alice) hi & bye");
    assert_eq!(call.path, "v2/server/broadcast");
    assert_eq!(pairs(&call), vec![pair("token", "t0k3n"), pair("msg", "(alice) hi & bye")]);
}

#[test]
fn only_people_in_the_monitored_channel_are_relayed() {
    assert!(should_relay(42, 42, false));
    assert!(!should_relay(42, 42, true));
    assert!(!should_relay(42, 43, false));
    assert!(!should_relay(42, 43, true));
    assert!(should_relay(0, 0, false));
    assert!(should_relay(u64::MAX, u64::MAX, false));
}

#[test]
fn sender_without_nickname_is_shown_by_account_name() {
    let call = relay_call("tok", None, "Alice_99".to_string(), "anyone on?");
    assert_eq!(call.path, "v2/server/broadcast");
    assert_eq!(pairs(&call), vec![pair("token", "tok"), pair("msg", "(Alice_99) anyone on?")]);
}

#[test]
fn sender_with_nickname_is_shown_by_nickname() {
    let call = relay_call("tok", Some("Ali".to_string()), "Alice_99".to_string(), "hi");
    assert_eq!(pairs(&call), vec![pair("token", "tok"), pair("msg", "(Ali) hi")]);
}

#[test]
fn url_of_joins_the_path_to_a_base_with_trailing_slash() {
    assert_eq!(
        url_of("http://localhost:7878/", &fetch_status("t")),
        Some("http://localhost:7878/v2/server/status".to_string())
    );
    assert_eq!(
        url_of("https://game.example.net/api/", &fetch_players("t")),
        Some("https://game.example.net/api/v2/players/list".to_string())
    );
    assert_eq!(
        url_of("http://localhost:7878", &broadcast("t", "hi")),
        Some("http://localhost:7878/v2/server/broadcast".to_string())
    );
}

#[test]
fn url_of_replaces_the_last_segment_of_a_base_without_trailing_slash() {
    assert_eq!(
        url_of("http://localhost:7878/api", &fetch_status("t")),
        Some("http://localhost:7878/v2/server/status".to_string())
    );
}

#[test]
fn url_of_gives_nothing_for_a_base_that_is_no_url() {
    assert_eq!(url_of("", &fetch_status("t")), None);
    assert_eq!(url_of("localhost", &fetch_status("t")), None);
    assert_eq!(url_of("mailto:admin@example.net", &fetch_status("t")), None);
}
