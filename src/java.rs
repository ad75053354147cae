//! The status record of a TCP-protocol server, read from the reply's JSON payload.
use vstd::prelude::*;
use vstd::utf8::{decode_utf8, valid_utf8};

use crate::error::McError;
use crate::frame::{parse_status_frame, status_frame};
use crate::json::{get_int, get_items, get_member, get_text, int_of, items_of, member, text_of, JsonTree};
use crate::models::{opt_text, JavaMod, JavaPlayer, JavaPlayers, JavaPlugin, JavaStatus, JavaVersion};

verus! {

/// Relies on `String::from_utf8`: it succeeds exactly on valid UTF-8 and then
/// holds the decoded characters.
#[verifier::external_body]
fn utf8_string(bytes: Vec<u8>) -> (r: Result<String, std::string::FromUtf8Error>)
    ensures
        r is Ok <==> valid_utf8(bytes@),
        r is Ok ==> r->Ok_0@ == decode_utf8(bytes@),
{
    String::from_utf8(bytes)
}

/// Whether `serde_json` accepts `text` as a JSON document.
pub uninterp spec fn json_accepts(text: Seq<char>) -> bool;

/// Relies on `serde_json::from_str`: whether it accepts a text depends on the
/// text alone.
#[verifier::external_body]
fn json_from_text(text: &str) -> (r: Result<serde_json::Value, serde_json::Error>)
    ensures
        r is Ok <==> json_accepts(text@),
{
    serde_json::from_str(text)
}

/// Whether the JSON text framed in `response` is valid UTF-8 and a JSON document.
pub open spec fn status_payload_ok(response: Seq<u8>) -> bool {
    match status_frame(response) {
        Some((start, len)) => {
            let b = response.subrange(start, start + len);
            valid_utf8(b) && json_accepts(decode_utf8(b))
        },
        None => false,
    }
}

/// The JSON payload of a status reply: the framing is checked, then the text is
/// decoded as UTF-8 and parsed.
pub fn status_payload(response: &[u8]) -> (r: Result<serde_json::Value, McError>)
    ensures
        r is Ok <==> status_payload_ok(response@),
        status_frame(response@) is None ==> r is Err && r->Err_0 is InvalidResponse,
        match status_frame(response@) {
            Some((start, len)) => {
                let b = response@.subrange(start, start + len);
                &&& !valid_utf8(b) ==> r is Err && r->Err_0 is Utf8Error
                &&& valid_utf8(b) && !json_accepts(decode_utf8(b)) ==> r is Err
                    && r->Err_0 is JsonError
            },
            None => true,
        },
{
    let bytes = parse_status_frame(response)?;
    let text = match utf8_string(bytes) {
        Ok(t) => t,
        Err(e) => {
            return Err(McError::Utf8Error(e));
        },
    };
    match json_from_text(text.as_str()) {
        Ok(v) => Ok(v),
        Err(e) => Err(McError::JsonError(e)),
    }
}

/// The items of `s` that are present, in order.
pub open spec fn present<A>(s: Seq<Option<A>>) -> Seq<A>
    decreases s.len(),
{
    if s.len() == 0 {
        Seq::empty()
    } else {
        match s.last() {
            Some(a) => present(s.drop_last()).push(a),
            None => present(s.drop_last()),
        }
    }
}

proof fn lemma_present_push<A>(s: Seq<Option<A>>, x: Option<A>)
    ensures
        present(s.push(x)) == (match x {
            Some(a) => present(s).push(a),
            None => present(s),
        }),
{
    assert(s.push(x).drop_last() =~= s);
}

/// A sampled player: an object with a string `name` and a string `id`.
pub open spec fn player_entry(t: JsonTree) -> Option<(Seq<char>, Seq<char>)> {
    match (text_of(member(Some(t), "name"@)), text_of(member(Some(t), "id"@))) {
        (Some(n), Some(i)) => Some((n, i)),
        _ => None,
    }
}

/// A plugin or mod: an object with a string under `key` and, optionally, a
/// string `version`.
pub open spec fn named_entry(t: JsonTree, key: Seq<char>) -> Option<(Seq<char>, Option<Seq<char>>)> {
    match text_of(member(Some(t), key)) {
        Some(n) => Some((n, text_of(member(Some(t), "version"@)))),
        None => None,
    }
}

pub open spec fn player_views(v: Seq<JavaPlayer>) -> Seq<(Seq<char>, Seq<char>)> {
    v.map_values(|p: JavaPlayer| (p.name@, p.id@))
}

pub open spec fn plugin_views(v: Seq<JavaPlugin>) -> Seq<(Seq<char>, Option<Seq<char>>)> {
    v.map_values(|p: JavaPlugin| (p.name@, opt_text(p.version)))
}

pub open spec fn mod_views(v: Seq<JavaMod>) -> Seq<(Seq<char>, Option<Seq<char>>)> {
    v.map_values(|m: JavaMod| (m.modid@, opt_text(m.version)))
}

/// The sampled players of a `sample` array; entries without both strings are left out.
pub open spec fn sample_of(items: Seq<JsonTree>) -> Seq<(Seq<char>, Seq<char>)> {
    present(items.map_values(|t: JsonTree| player_entry(t)))
}

/// The named entries of an array; entries without a string under `key` are left out.
pub open spec fn named_of(items: Seq<JsonTree>, key: Seq<char>) -> Seq<(Seq<char>, Option<Seq<char>>)> {
    present(items.map_values(|t: JsonTree| named_entry(t, key)))
}

/// The description: the `description` string, else the string under
/// `description.text`, else "No description".
pub open spec fn description_of(root: JsonTree) -> Seq<char> {
    match text_of(member(Some(root), "description"@)) {
        Some(d) => d,
        None => match text_of(member(member(Some(root), "description"@), "text"@)) {
            Some(t) => t,
            None => "No description"@,
        },
    }
}

/// The text at `root.outer.inner`, or `dflt`.
pub open spec fn text_at_or(root: JsonTree, outer: Seq<char>, inner: Seq<char>, dflt: Seq<char>) -> Seq<char> {
    match text_of(member(member(Some(root), outer), inner)) {
        Some(s) => s,
        None => dflt,
    }
}

/// The count at `root.outer.inner`: the integer there when it is not negative,
/// else 0.
pub open spec fn count_at(root: JsonTree, outer: Seq<char>, inner: Seq<char>) -> i64 {
    match int_of(member(member(Some(root), outer), inner)) {
        Some(n) => if n >= 0 {
            n
        } else {
            0
        },
        None => 0,
    }
}

/// The integer at `root.outer.inner`, or 0.
pub open spec fn int_at_or_zero(root: JsonTree, outer: Seq<char>, inner: Seq<char>) -> i64 {
    match int_of(member(member(Some(root), outer), inner)) {
        Some(n) => n,
        None => 0,
    }
}

fn sample_list(items: &Vec<JsonTree>) -> (r: Vec<JavaPlayer>)
    ensures
        player_views(r@) == sample_of(items@),
{
    let mut out: Vec<JavaPlayer> = Vec::new();
    let mut i: usize = 0;
    while i < items.len()
        invariant
            i <= items@.len(),
            player_views(out@) == sample_of(items@.take(i as int)),
        decreases items.len() - i,
    {
        let t = &items[i];
        let name = get_text(get_member(Some(t), "name"));
        let id = get_text(get_member(Some(t), "id"));
        let ghost before = out@;
        proof {
            lemma_present_push(items@.take(i as int).map_values(|t: JsonTree| player_entry(t)), player_entry(items@[i as int]));
        }
        assert(items@.take(i + 1).map_values(|t: JsonTree| player_entry(t)) =~= items@.take(
            i as int,
        ).map_values(|t: JsonTree| player_entry(t)).push(player_entry(items@[i as int])));
        match (name, id) {
            (Some(n), Some(d)) => {
                out.push(JavaPlayer { name: n, id: d });
                assert(player_views(out@) =~= player_views(before).push(
                    player_entry(items@[i as int])->Some_0,
                ));
            },
            _ => {},
        }
        i = i + 1;
    }
    assert(items@.take(items@.len() as int) =~= items@);
    out
}

fn plugin_list(items: &Vec<JsonTree>) -> (r: Vec<JavaPlugin>)
    ensures
        plugin_views(r@) == named_of(items@, "name"@),
{
    let mut out: Vec<JavaPlugin> = Vec::new();
    let mut i: usize = 0;
    while i < items.len()
        invariant
            i <= items@.len(),
            plugin_views(out@) == named_of(items@.take(i as int), "name"@),
        decreases items.len() - i,
    {
        let t = &items[i];
        let name = get_text(get_member(Some(t), "name"));
        let version = get_text(get_member(Some(t), "version"));
        let ghost before = out@;
        proof {
            lemma_present_push(items@.take(i as int).map_values(|t: JsonTree| named_entry(t, "name"@)), named_entry(items@[i as int], "name"@));
        }
        assert(items@.take(i + 1).map_values(|t: JsonTree| named_entry(t, "name"@)) =~= items@.take(
            i as int,
        ).map_values(|t: JsonTree| named_entry(t, "name"@)).push(
            named_entry(items@[i as int], "name"@),
        ));
        match name {
            Some(n) => {
                out.push(JavaPlugin { name: n, version });
                assert(plugin_views(out@) =~= plugin_views(before).push(
                    named_entry(items@[i as int], "name"@)->Some_0,
                ));
            },
            None => {},
        }
        i = i + 1;
    }
    assert(items@.take(items@.len() as int) =~= items@);
    out
}

fn mod_list(items: &Vec<JsonTree>) -> (r: Vec<JavaMod>)
    ensures
        mod_views(r@) == named_of(items@, "modid"@),
{
    let mut out: Vec<JavaMod> = Vec::new();
    let mut i: usize = 0;
    while i < items.len()
        invariant
            i <= items@.len(),
            mod_views(out@) == named_of(items@.take(i as int), "modid"@),
        decreases items.len() - i,
    {
        let t = &items[i];
        let modid = get_text(get_member(Some(t), "modid"));
        let version = get_text(get_member(Some(t), "version"));
        let ghost before = out@;
        proof {
            lemma_present_push(items@.take(i as int).map_values(|t: JsonTree| named_entry(t, "modid"@)), named_entry(items@[i as int], "modid"@));
        }
        assert(items@.take(i + 1).map_values(|t: JsonTree| named_entry(t, "modid"@)) =~= items@.take(
            i as int,
        ).map_values(|t: JsonTree| named_entry(t, "modid"@)).push(
            named_entry(items@[i as int], "modid"@),
        ));
        match modid {
            Some(n) => {
                out.push(JavaMod { modid: n, version });
                assert(mod_views(out@) =~= mod_views(before).push(
                    named_entry(items@[i as int], "modid"@)->Some_0,
                ));
            },
            None => {},
        }
        i = i + 1;
    }
    assert(items@.take(items@.len() as int) =~= items@);
    out
}

/// Whether every field of `r` but the raw payload is the one read from the
/// payload `root`: defaults where a field is absent or of the wrong shape,
/// counts never negative.
pub open spec fn java_status_matches(r: JavaStatus, root: JsonTree) -> bool {
    &&& r.version.name@ == text_at_or(root, "version"@, "name"@, "Unknown"@)
    &&& r.version.protocol == int_at_or_zero(root, "version"@, "protocol"@)
    &&& r.players.online == count_at(root, "players"@, "online"@)
    &&& r.players.max == count_at(root, "players"@, "max"@)
    &&& r.players.online >= 0
    &&& r.players.max >= 0
    &&& match items_of(member(member(Some(root), "players"@), "sample"@)) {
        Some(items) => r.players.sample is Some && player_views(r.players.sample->Some_0@)
            == sample_of(items),
        None => r.players.sample is None,
    }
    &&& r.description@ == description_of(root)
    &&& opt_text(r.favicon) == text_of(member(Some(root), "favicon"@))
    &&& opt_text(r.map) == text_of(member(Some(root), "map"@))
    &&& opt_text(r.gamemode) == text_of(member(Some(root), "gamemode"@))
    &&& opt_text(r.software) == text_of(member(Some(root), "software"@))
    &&& match items_of(member(Some(root), "plugins"@)) {
        Some(items) => r.plugins is Some && plugin_views(r.plugins->Some_0@) == named_of(
            items,
            "name"@,
        ),
        None => r.plugins is None,
    }
    &&& match items_of(member(Some(root), "mods"@)) {
        Some(items) => r.mods is Some && mod_views(r.mods->Some_0@) == named_of(items, "modid"@),
        None => r.mods is None,
    }
}

/// The status record of the payload `root`, with `raw` kept as the whole payload.
pub fn java_status_from_tree(root: &JsonTree, raw: serde_json::Value) -> (r: JavaStatus)
    ensures
        java_status_matches(r, *root),
        r.raw_data == raw,
{
    let top = Some(root);
    let version_obj = get_member(top, "version");
    let name = match get_text(get_member(version_obj, "name")) {
        Some(s) => s,
        None => "Unknown".to_owned(),
    };
    let protocol = match get_int(get_member(version_obj, "protocol")) {
        Some(n) => n,
        None => 0,
    };
    let players_obj = get_member(top, "players");
    let online = match get_int(get_member(players_obj, "online")) {
        Some(n) => if n >= 0 {
            n
        } else {
            0
        },
        None => 0,
    };
    let max = match get_int(get_member(players_obj, "max")) {
        Some(n) => if n >= 0 {
            n
        } else {
            0
        },
        None => 0,
    };
    let sample = match get_items(get_member(players_obj, "sample")) {
        Some(items) => Some(sample_list(items)),
        None => None,
    };
    let description_node = get_member(top, "description");
    let description = match get_text(description_node) {
        Some(s) => s,
        None => match get_text(get_member(description_node, "text")) {
            Some(s) => s,
            None => "No description".to_owned(),
        },
    };
    let favicon = get_text(get_member(top, "favicon"));
    let map = get_text(get_member(top, "map"));
    let gamemode = get_text(get_member(top, "gamemode"));
    let software = get_text(get_member(top, "software"));
    let plugins = match get_items(get_member(top, "plugins")) {
        Some(items) => Some(plugin_list(items)),
        None => None,
    };
    let mods = match get_items(get_member(top, "mods")) {
        Some(items) => Some(mod_list(items)),
        None => None,
    };
    JavaStatus {
        version: JavaVersion { name, protocol },
        players: JavaPlayers { online, max, sample },
        description,
        favicon,
        map,
        gamemode,
        software,
        plugins,
        mods,
        raw_data: raw,
    }
}

} // verus!
