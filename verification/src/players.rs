//! The list of connected players, for the app to show.

use crate::{json, text};
use crate::json::{
    json_array, json_members, json_number, json_object, json_string, json_text, set_json_member,
};
use vstd::prelude::*;

verus! {

/// A player as the app shows one.
pub struct PlayerInfo {
    pub name: String,
    pub uuid: String,
    pub ping: u32,
}

/// What a player's JSON object says, in order.
pub open spec fn player_members(player: PlayerInfo) -> Seq<(Seq<char>, Seq<char>)> {
    seq![
        ("name"@, json::quoted(player.name@)),
        ("ping"@, text::decimal(player.ping as nat)),
        ("uuid"@, json::quoted(player.uuid@)),
    ]
}

/// A player, as a JSON object.
pub open spec fn player_text(player: PlayerInfo) -> Seq<char> {
    json::object_text(player_members(player))
}

/// A list of players, as a JSON array of objects.
pub open spec fn players_text(players: Seq<PlayerInfo>) -> Seq<char> {
    json::array_text(players.map_values(|player: PlayerInfo| player_text(player)))
}

/// A player, as a JSON object.
fn player_value(player: &PlayerInfo) -> (value: serde_json::Value)
    ensures
        json::value_text(value) == player_text(*player),
{
    let mut object = json_members();
    set_json_member(&mut object, "name", json_string(player.name.as_str()));
    set_json_member(&mut object, "uuid", json_string(player.uuid.as_str()));
    set_json_member(&mut object, "ping", json_number(player.ping));
    proof {
        reveal_strlit("name");
        reveal_strlit("uuid");
        reveal_strlit("ping");
        assert(json::sorts_before("name"@, "uuid"@));
        assert(!json::sorts_before("uuid"@, "ping"@));
        assert(json::sorts_before("name"@, "ping"@));
        assert("uuid"@.first() != "ping"@.first());
        let name = json::quoted(player.name@);
        let uuid = json::quoted(player.uuid@);
        let ping = text::decimal(player.ping as nat);
        let one = seq![("name"@, name)];
        let two = seq![("name"@, name), ("uuid"@, uuid)];
        assert(json::with_member(Seq::empty(), "name"@, name) =~= one);
        assert(json::with_member(one, "uuid"@, uuid) =~= two);
        assert(two.drop_last() =~= one);
        assert(json::with_member(one, "ping"@, ping) =~= one.push(("ping"@, ping)));
        assert(json::members(object) =~= player_members(*player));
    }
    json_object(object)
}

/// Connected players as a JSON array of objects with the members `name`,
/// `ping` and `uuid`; an empty array where no server runs. The text holds no
/// NUL, so it can be handed out as a NUL-terminated string.
pub fn pumpkin_players_json(players: Option<Vec<PlayerInfo>>) -> (text: String)
    ensures
        text@ == players_text(
            match players {
                Some(connected) => connected@,
                None => Seq::empty(),
            },
        ),
        !text@.contains('\0'),
{
    let players = match players {
        Some(connected) => connected,
        None => Vec::new(),
    };
    let mut items: Vec<serde_json::Value> = Vec::new();
    let mut i: usize = 0;
    while i < players.len()
        invariant
            i <= players@.len(),
            items@.len() == i,
            forall|j: int|
                0 <= j < i ==> json::value_text(#[trigger] items@[j]) == player_text(players@[j]),
        decreases players@.len() - i,
    {
        items.push(player_value(&players[i]));
        i += 1;
    }
    proof {
        assert(items@.map_values(|item: serde_json::Value| json::value_text(item))
            =~= players@.map_values(|player: PlayerInfo| player_text(player)));
        law_players_text_lacks_nul(players@);
    }
    let value = json_array(items);
    json_text(&value)
}

/// The list of no players is empty brackets, the list of one is that player's
/// object in brackets, and one more player adds a comma and that player's
/// object before the closing bracket: each player is listed once and in order.
pub proof fn law_list_grows_by_each_player(players: Seq<PlayerInfo>, player: PlayerInfo)
    ensures
        players_text(Seq::empty()) == seq!['[', ']'],
        players_text(seq![player]) == seq!['['] + player_text(player) + seq![']'],
        players.len() > 0 ==> players_text(players.push(player)) == players_text(
            players,
        ).drop_last() + seq![','] + player_text(player) + seq![']'],
{
    let shown = |p: PlayerInfo| player_text(p);
    let none = Seq::<PlayerInfo>::empty();
    assert(none.map_values(shown) =~= Seq::empty());
    assert(players_text(none) =~= seq!['[', ']']);
    assert(seq![player].map_values(shown) =~= seq![player_text(player)]);
    text::law_joined_few(player_text(player), ',');
    if players.len() > 0 {
        let items = players.map_values(shown);
        assert(players.push(player).map_values(shown) =~= items + seq![player_text(player)]);
        text::law_joined_splits(items, seq![player_text(player)], ',');
        assert(players_text(players.push(player)) =~= players_text(players).drop_last() + seq![
            ',',
        ] + player_text(player) + seq![']']);
    }
}

/// A player's object says that player's name, ping and uuid, each behind its
/// label.
pub proof fn law_player_is_shown_in_full(player: PlayerInfo)
    ensures
        player_text(player) == "{\"name\":\""@ + json::escaped(player.name@) + "\",\"ping\":"@
            + text::decimal(player.ping as nat) + ",\"uuid\":\""@ + json::escaped(player.uuid@)
            + "\"}"@,
{
    reveal_strlit("name");
    reveal_strlit("ping");
    reveal_strlit("uuid");
    reveal_strlit("{\"name\":\"");
    reveal_strlit("\",\"ping\":");
    reveal_strlit(",\"uuid\":\"");
    reveal_strlit("\"}");
    json::lemma_escaped_plain("name"@);
    json::lemma_escaped_plain("ping"@);
    json::lemma_escaped_plain("uuid"@);
    let name_label = json::quoted("name"@).push(':');
    let ping_label = json::quoted("ping"@).push(':');
    let uuid_label = json::quoted("uuid"@).push(':');
    let quote = seq!['"'];
    assert("{\"name\":\""@ =~= seq!['{'] + name_label + quote);
    assert("\",\"ping\":"@ =~= quote + seq![','] + ping_label);
    assert(",\"uuid\":\""@ =~= seq![','] + uuid_label + quote);
    assert("\"}"@ =~= quote + seq!['}']);
    lemma_player_text_parts(player);
    lemma_regroup(
        (name_label, ping_label, uuid_label),
        json::escaped(player.name@),
        text::decimal(player.ping as nat),
        json::escaped(player.uuid@),
    );
}

/// A player's object, as its three members.
proof fn lemma_player_text_parts(player: PlayerInfo)
    ensures
        player_text(player) == seq!['{'] + ((json::quoted("name"@).push(':') + json::quoted(
            player.name@,
        )).push(',') + ((json::quoted("ping"@).push(':') + text::decimal(
            player.ping as nat,
        )).push(',') + (json::quoted("uuid"@).push(':') + json::quoted(player.uuid@)))) + seq!['}'],
{
    let said = player_members(player);
    let parts = said.map_values(|member: (Seq<char>, Seq<char>)| json::member_text(member));
    let name = json::member_text(said[0]);
    let ping = json::member_text(said[1]);
    let uuid = json::member_text(said[2]);
    assert(parts =~= seq![name] + (seq![ping] + seq![uuid]));
    text::law_joined_splits(seq![name], seq![ping] + seq![uuid], ',');
    text::law_joined_splits(seq![ping], seq![uuid], ',');
    text::law_joined_few(name, ',');
    text::law_joined_few(ping, ',');
    text::law_joined_few(uuid, ',');
}

/// The same characters, grouped by member and grouped by value.
proof fn lemma_regroup(
    labels: (Seq<char>, Seq<char>, Seq<char>),
    name: Seq<char>,
    ping: Seq<char>,
    uuid: Seq<char>,
)
    ensures
        ({
            let quote = seq!['"'];
            seq!['{'] + ((labels.0 + (quote + name + quote)).push(',') + ((labels.1 + ping).push(
                ',',
            ) + (labels.2 + (quote + uuid + quote)))) + seq!['}'] == (seq!['{'] + labels.0 + quote)
                + name + (quote + seq![','] + labels.1) + ping + (seq![','] + labels.2 + quote)
                + uuid + (quote + seq!['}'])
        }),
{
}

/// Whatever the players are called, their list holds no NUL, so a
/// NUL-terminated copy of it is complete.
pub proof fn law_players_text_lacks_nul(players: Seq<PlayerInfo>)
    ensures
        !players_text(players).contains('\0'),
{
    let items = players.map_values(|player: PlayerInfo| player_text(player));
    assert forall|i: int| 0 <= i < items.len() implies text::lacks_nul(#[trigger] items[i]) by {
        let player = players[i];
        let said = player_members(player);
        let parts = said.map_values(|member: (Seq<char>, Seq<char>)| json::member_text(member));
        json::lemma_quoted_lacks_nul("name"@);
        json::lemma_quoted_lacks_nul("ping"@);
        json::lemma_quoted_lacks_nul("uuid"@);
        json::lemma_quoted_lacks_nul(player.name@);
        json::lemma_quoted_lacks_nul(player.uuid@);
        text::lemma_decimal_lacks_nul(player.ping as nat);
        assert forall|j: int| 0 <= j < parts.len() implies text::lacks_nul(#[trigger] parts[j]) by {
            assert(parts[j] == json::member_text(said[j]));
        }
        text::lemma_joined_lacks_nul(parts, ',');
        assert(items[i] == player_text(player));
    }
    text::lemma_joined_lacks_nul(items, ',');
    assert(text::lacks_nul(players_text(players)));
}

} // verus!
