use pumpkin_embed::players::{pumpkin_players_json, PlayerInfo};
use pumpkin_embed::stats::{averaged_samples, pumpkin_stats_json, shown_rates, RunningStats};

fn player(name: &str, uuid: &str, ping: u32) -> PlayerInfo {
    PlayerInfo { name: name.to_owned(), uuid: uuid.to_owned(), ping }
}

#[test]
fn no_server_has_no_players() {
    assert_eq!(pumpkin_players_json(None), "[]");
    assert_eq!(pumpkin_players_json(Some(Vec::new())), "[]");
}

#[test]
fn players_are_listed_in_order() {
    let players = vec![
        player("Steve", "8667ba71-b85a-4004-af54-457a9734eed7", 42),
        player("Alex", "ec561538-f3fd-461d-aff5-086b22154bce", 0),
    ];
    assert_eq!(
        pumpkin_players_json(Some(players)),
        "[{\"name\":\"Steve\",\"ping\":42,\"uuid\":\"8667ba71-b85a-4004-af54-457a9734eed7\"},\
         {\"name\":\"Alex\",\"ping\":0,\"uuid\":\"ec561538-f3fd-461d-aff5-086b22154bce\"}]"
    );
}

#[test]
fn names_are_escaped() {
    let name = "q\" b\\ \u{8}\t\n\u{c}\r \0\u{1f}\u{7f} \u{e9}\u{1f383}/";
    assert_eq!(
        pumpkin_players_json(Some(vec![player(name, "", u32::MAX)])),
        "[{\"name\":\"q\\\" b\\\\ \\b\\t\\n\\f\\r \\u0000\\u001f\u{7f} \u{e9}\u{1f383}/\",\
         \"ping\":4294967295,\"uuid\":\"\"}]"
    );
}

#[test]
fn players_read_back_as_json() {
    let text = pumpkin_players_json(Some(vec![player("a\u{1}\"", "u", 7)]));
    let value: serde_json::Value = serde_json::from_str(&text).unwrap();
    assert_eq!(value[0]["name"], "a\u{1}\"");
    assert_eq!(value[0]["uuid"], "u");
    assert_eq!(value[0]["ping"], 7);
}

#[test]
fn idle_stats_are_zero() {
    assert_eq!(
        pumpkin_stats_json(None),
        r#"{"running":false,"tps":0,"mspt":0,"online":0,"max":0}"#
    );
}

#[test]
fn running_stats_are_listed() {
    let stats = RunningStats {
        tps: "20.0".to_owned(),
        mspt: "3.14".to_owned(),
        online: 3,
        max: 1000,
    };
    assert_eq!(
        pumpkin_stats_json(Some(stats)),
        r#"{"running":true,"tps":20.0,"mspt":3.14,"online":3,"max":1000}"#
    );
}

#[test]
fn at_most_a_hundred_ticks_are_averaged() {
    assert_eq!(averaged_samples(0, 5), None);
    assert_eq!(averaged_samples(-3, 5), None);
    assert_eq!(averaged_samples(7, 0), None);
    assert_eq!(averaged_samples(7, -1), None);
    assert_eq!(averaged_samples(1, 1), Some(1));
    assert_eq!(averaged_samples(99, 5), Some(99));
    assert_eq!(averaged_samples(100, 5), Some(100));
    assert_eq!(averaged_samples(i32::MAX, i64::MAX), Some(100));
}

#[test]
fn rates_are_zero_where_nothing_was_averaged() {
    let rates = || ("19.8".to_owned(), "12.34".to_owned());
    let (tps, mspt) = rates();
    assert_eq!(shown_rates(Some(100), tps, mspt), rates());
    let (tps, mspt) = rates();
    assert_eq!(
        shown_rates(averaged_samples(0, 0), tps, mspt),
        ("0.0".to_owned(), "0.00".to_owned())
    );
}
