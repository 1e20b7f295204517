//! Parts of the tosu `v2` packet that hold no fractional numbers, and the names of
//! the game states.
use crate::client::{mod_acronym_list, mod_acronyms, ModEntry};
use crate::text::{append_str, hex_digit_lower, hex_lower_digit, string_of};
use md5::{Digest, Md5};
use vstd::prelude::*;

verus! {

/// Window state of the game.
#[derive(Debug, Clone, Copy, Default, PartialEq, Eq)]
pub struct GameState {
    pub focused: bool,
    pub paused: bool,
}

/// A numeric state with its name.
#[derive(Debug, Clone, Default, PartialEq)]
pub struct OsuStatusState {
    pub number: i32,
    pub name: String,
}

/// Session counters.
#[derive(Debug, Clone, Copy, Default, PartialEq, Eq)]
pub struct SessionState {
    pub play_time: i32,
    pub play_count: i32,
}

/// Hit counts of a play.
#[derive(Debug, Clone, Copy, Default, PartialEq, Eq)]
pub struct HitsState {
    pub n0: i32,
    pub n50: i32,
    pub n100: i32,
    pub n300: i32,
    pub geki: i32,
    pub katu: i32,
    pub slider_breaks: i32,
    pub slider_end_hits: i32,
    pub small_tick_hits: i32,
    pub large_tick_hits: i32,
}

/// Current and best combo of a play.
#[derive(Debug, Clone, Copy, Default, PartialEq, Eq)]
pub struct ComboState {
    pub current: i32,
    pub max: i32,
}

/// Current grade and best grade of a play.
#[derive(Debug, Clone, Default, PartialEq)]
pub struct RankState {
    pub current: String,
    pub max_this_play: String,
}

/// Team names of a tournament.
#[derive(Debug, Clone, Default, PartialEq)]
pub struct TourneyTeam {
    pub left: String,
    pub right: String,
}

/// Star points of the two teams.
#[derive(Debug, Clone, Copy, Default, PartialEq, Eq)]
pub struct TourneyPoints {
    pub left: i32,
    pub right: i32,
}

/// Summed scores of the two teams.
#[derive(Debug, Clone, Copy, Default, PartialEq, Eq)]
pub struct TourneyTotalScore {
    pub left: i64,
    pub right: i64,
}

/// Name of the game state number `state`.
pub open spec fn osu_state_spec(state: i32) -> Seq<char> {
    if state == 0 {
        "menu"@
    } else if state == 1 {
        "edit"@
    } else if state == 2 {
        "play"@
    } else if state == 3 {
        "exit"@
    } else if state == 4 {
        "selectEdit"@
    } else if state == 5 {
        "selectPlay"@
    } else if state == 6 {
        "selectDrawings"@
    } else if state == 7 {
        "resultScreen"@
    } else if state == 8 {
        "update"@
    } else if state == 9 {
        "busy"@
    } else if state == 11 {
        "lobby"@
    } else if state == 12 {
        "matchSetup"@
    } else if state == 13 {
        "selectMulti"@
    } else if state == 14 {
        "rankingTagCoop"@
    } else if state == 15 {
        "rankingTeam"@
    } else if state == 16 {
        "beatmapImport"@
    } else if state == 17 {
        "packageScroll"@
    } else if state == 18 {
        "benchmark"@
    } else if state == 19 {
        "tourney"@
    } else if state == 20 {
        "charts"@
    } else {
        "unknown"@
    }
}

/// Name of a game state number; `unknown` for 10 and any number outside the table.
pub fn osu_state_name(state_num: i32) -> (res: &'static str)
    ensures
        res@ == osu_state_spec(state_num),
{
    if state_num == 0 {
        "menu"
    } else if state_num == 1 {
        "edit"
    } else if state_num == 2 {
        "play"
    } else if state_num == 3 {
        "exit"
    } else if state_num == 4 {
        "selectEdit"
    } else if state_num == 5 {
        "selectPlay"
    } else if state_num == 6 {
        "selectDrawings"
    } else if state_num == 7 {
        "resultScreen"
    } else if state_num == 8 {
        "update"
    } else if state_num == 9 {
        "busy"
    } else if state_num == 11 {
        "lobby"
    } else if state_num == 12 {
        "matchSetup"
    } else if state_num == 13 {
        "selectMulti"
    } else if state_num == 14 {
        "rankingTagCoop"
    } else if state_num == 15 {
        "rankingTeam"
    } else if state_num == 16 {
        "beatmapImport"
    } else if state_num == 17 {
        "packageScroll"
    } else if state_num == 18 {
        "benchmark"
    } else if state_num == 19 {
        "tourney"
    } else if state_num == 20 {
        "charts"
    } else {
        "unknown"
    }
}

/// The game states with a name of their own: 0 to 9 and 11 to 20.
pub open spec fn known_state(state: i32) -> bool {
    0 <= state <= 20 && state != 10
}

/// The game state whose tosu name is `name`; -1 for any other text.
pub open spec fn state_of_name(name: Seq<char>) -> int {
    if name == "menu"@ {
        0
    } else if name == "edit"@ {
        1
    } else if name == "play"@ {
        2
    } else if name == "exit"@ {
        3
    } else if name == "selectEdit"@ {
        4
    } else if name == "selectPlay"@ {
        5
    } else if name == "selectDrawings"@ {
        6
    } else if name == "resultScreen"@ {
        7
    } else if name == "update"@ {
        8
    } else if name == "busy"@ {
        9
    } else if name == "lobby"@ {
        11
    } else if name == "matchSetup"@ {
        12
    } else if name == "selectMulti"@ {
        13
    } else if name == "rankingTagCoop"@ {
        14
    } else if name == "rankingTeam"@ {
        15
    } else if name == "beatmapImport"@ {
        16
    } else if name == "packageScroll"@ {
        17
    } else if name == "benchmark"@ {
        18
    } else if name == "tourney"@ {
        19
    } else if name == "charts"@ {
        20
    } else {
        -1
    }
}

/// The state names identify the states: each known state has a name of its own,
/// which names it back and is not `unknown`, so no two states share a name; any
/// other number is `unknown`. The states the sessions act on are `play` and
/// `resultScreen`.
#[verifier::rlimit(60)]
pub proof fn lemma_state_names_identify_states()
    ensures
        forall|s: i32| known_state(s) ==> state_of_name(#[trigger] osu_state_spec(s)) == s as int,
        forall|s: i32, t: i32|
            known_state(s) && known_state(t) && s != t ==> #[trigger] osu_state_spec(s) != #[trigger] osu_state_spec(t),
        forall|s: i32| known_state(s) ==> (#[trigger] osu_state_spec(s)) != "unknown"@,
        forall|s: i32| !known_state(s) ==> #[trigger] osu_state_spec(s) == "unknown"@,
        osu_state_spec(crate::session::STATE_PLAYING) == "play"@,
        osu_state_spec(crate::session::STATE_RESULT_SCREEN) == "resultScreen"@,
{
    reveal_strlit("beatmapImport");
    reveal_strlit("benchmark");
    reveal_strlit("busy");
    reveal_strlit("charts");
    reveal_strlit("edit");
    reveal_strlit("exit");
    reveal_strlit("lobby");
    reveal_strlit("matchSetup");
    reveal_strlit("menu");
    reveal_strlit("packageScroll");
    reveal_strlit("play");
    reveal_strlit("rankingTagCoop");
    reveal_strlit("rankingTeam");
    reveal_strlit("resultScreen");
    reveal_strlit("selectDrawings");
    reveal_strlit("selectEdit");
    reveal_strlit("selectMulti");
    reveal_strlit("selectPlay");
    reveal_strlit("tourney");
    reveal_strlit("unknown");
    reveal_strlit("update");
    assert("beatmapImport"@.len() == 13);
    assert("benchmark"@.len() == 9);
    assert("busy"@.len() == 4);
    assert("charts"@.len() == 6);
    assert("edit"@.len() == 4);
    assert("exit"@.len() == 4);
    assert("lobby"@.len() == 5);
    assert("matchSetup"@.len() == 10);
    assert("menu"@.len() == 4);
    assert("packageScroll"@.len() == 13);
    assert("play"@.len() == 4);
    assert("rankingTagCoop"@.len() == 14);
    assert("rankingTeam"@.len() == 11);
    assert("resultScreen"@.len() == 12);
    assert("selectDrawings"@.len() == 14);
    assert("selectEdit"@.len() == 10);
    assert("selectMulti"@.len() == 11);
    assert("selectPlay"@.len() == 10);
    assert("tourney"@.len() == 7);
    assert("unknown"@.len() == 7);
    assert("update"@.len() == 6);
    assert("beatmapImport"@[0] == 'b');
    assert("packageScroll"@[0] == 'p');
    assert("busy"@[0] == 'b');
    assert("busy"@[1] == 'u');
    assert("edit"@[0] == 'e');
    assert("edit"@[1] == 'd');
    assert("exit"@[0] == 'e');
    assert("exit"@[1] == 'x');
    assert("menu"@[0] == 'm');
    assert("menu"@[1] == 'e');
    assert("play"@[0] == 'p');
    assert("play"@[1] == 'l');
    assert("charts"@[0] == 'c');
    assert("update"@[0] == 'u');
    assert("matchSetup"@[0] == 'm');
    assert("matchSetup"@[6] == 'e');
    assert("selectEdit"@[0] == 's');
    assert("selectEdit"@[6] == 'E');
    assert("selectPlay"@[0] == 's');
    assert("selectPlay"@[6] == 'P');
    assert("rankingTagCoop"@[0] == 'r');
    assert("selectDrawings"@[0] == 's');
    assert("rankingTeam"@[0] == 'r');
    assert("selectMulti"@[0] == 's');
    assert("tourney"@[0] == 't');
    assert("unknown"@[0] == 'u');
    assert(state_of_name("unknown"@) == -1);
    assert forall|s: i32| known_state(s) implies state_of_name(#[trigger] osu_state_spec(s)) == s as int by {
        if s == 0 {
            assert(osu_state_spec(0) == "menu"@);
            assert(state_of_name("menu"@) == 0);
        } else if s == 1 {
            assert(osu_state_spec(1) == "edit"@);
            assert(state_of_name("edit"@) == 1);
        } else if s == 2 {
            assert(osu_state_spec(2) == "play"@);
            assert(state_of_name("play"@) == 2);
        } else if s == 3 {
            assert(osu_state_spec(3) == "exit"@);
            assert(state_of_name("exit"@) == 3);
        } else if s == 4 {
            assert(osu_state_spec(4) == "selectEdit"@);
            assert(state_of_name("selectEdit"@) == 4);
        } else if s == 5 {
            assert(osu_state_spec(5) == "selectPlay"@);
            assert(state_of_name("selectPlay"@) == 5);
        } else if s == 6 {
            assert(osu_state_spec(6) == "selectDrawings"@);
            assert(state_of_name("selectDrawings"@) == 6);
        } else if s == 7 {
            assert(osu_state_spec(7) == "resultScreen"@);
            assert(state_of_name("resultScreen"@) == 7);
        } else if s == 8 {
            assert(osu_state_spec(8) == "update"@);
            assert(state_of_name("update"@) == 8);
        } else if s == 9 {
            assert(osu_state_spec(9) == "busy"@);
            assert(state_of_name("busy"@) == 9);
        } else if s == 11 {
            assert(osu_state_spec(11) == "lobby"@);
            assert(state_of_name("lobby"@) == 11);
        } else if s == 12 {
            assert(osu_state_spec(12) == "matchSetup"@);
            assert(state_of_name("matchSetup"@) == 12);
        } else if s == 13 {
            assert(osu_state_spec(13) == "selectMulti"@);
            assert(state_of_name("selectMulti"@) == 13);
        } else if s == 14 {
            assert(osu_state_spec(14) == "rankingTagCoop"@);
            assert(state_of_name("rankingTagCoop"@) == 14);
        } else if s == 15 {
            assert(osu_state_spec(15) == "rankingTeam"@);
            assert(state_of_name("rankingTeam"@) == 15);
        } else if s == 16 {
            assert(osu_state_spec(16) == "beatmapImport"@);
            assert(state_of_name("beatmapImport"@) == 16);
        } else if s == 17 {
            assert(osu_state_spec(17) == "packageScroll"@);
            assert(state_of_name("packageScroll"@) == 17);
        } else if s == 18 {
            assert(osu_state_spec(18) == "benchmark"@);
            assert(state_of_name("benchmark"@) == 18);
        } else if s == 19 {
            assert(osu_state_spec(19) == "tourney"@);
            assert(state_of_name("tourney"@) == 19);
        } else if s == 20 {
            assert(osu_state_spec(20) == "charts"@);
            assert(state_of_name("charts"@) == 20);
        }
    }
    assert forall|s: i32| known_state(s) implies (#[trigger] osu_state_spec(s)) != "unknown"@ by {
        assert(state_of_name(osu_state_spec(s)) == s as int);
    }
    assert forall|s: i32, t: i32|
        known_state(s) && known_state(t) && s != t implies #[trigger] osu_state_spec(s) != #[trigger] osu_state_spec(t) by {
        assert(state_of_name(osu_state_spec(s)) == s as int);
        assert(state_of_name(osu_state_spec(t)) == t as int);
    }
}

/// Speed change that the mods of a packet announce.
#[derive(Debug, Clone, Copy, PartialEq, Eq)]
pub enum ModsRate {
    /// Normal speed (rate 1).
    Normal,
    /// DoubleTime (rate 1.5).
    Faster,
    /// HalfTime (rate 0.75).
    Slower,
}

/// The rate of `mods`: DoubleTime (bit 64) first, then HalfTime (bit 256).
pub open spec fn mods_rate_spec(mods: u32) -> ModsRate {
    if mods & 64 != 0 {
        ModsRate::Faster
    } else if mods & 256 != 0 {
        ModsRate::Slower
    } else {
        ModsRate::Normal
    }
}

/// One entry of the compact JSON list of acronyms: `{"acronym":"HD"}`.
pub open spec fn acronym_json(acronym: Seq<char>) -> Seq<char> {
    "{\"acronym\":\""@ + acronym + "\"}"@
}

/// The entries of an acronym list in compact JSON, separated by commas.
pub open spec fn acronym_entries_json(list: Seq<Seq<char>>) -> Seq<char>
    decreases list.len(),
{
    if list.len() == 0 {
        Seq::empty()
    } else if list.len() == 1 {
        acronym_json(list[0])
    } else {
        acronym_entries_json(list.drop_last()) + ","@ + acronym_json(list.last())
    }
}

/// The compact JSON text of an acronym list, as `serde_json::to_string` and
/// JavaScript's `JSON.stringify` write it: no acronym character needs escaping.
pub open spec fn acronyms_json(list: Seq<Seq<char>>) -> Seq<char> {
    "["@ + acronym_entries_json(list) + "]"@
}

/// The bytes of a text whose characters are all ASCII, one byte per character.
pub open spec fn ascii_bytes(s: Seq<char>) -> Seq<u8> {
    s.map_values(|c: char| (c as u32) as u8)
}

/// A byte as two lower-case hexadecimal digits.
pub open spec fn hex_byte(b: u8) -> Seq<char> {
    seq![hex_lower_digit((b / 16) as nat), hex_lower_digit((b % 16) as nat)]
}

/// Bytes as lower-case hexadecimal, two digits each.
pub open spec fn hex_bytes(bytes: Seq<u8>) -> Seq<char>
    decreases bytes.len(),
{
    if bytes.len() == 0 {
        Seq::empty()
    } else {
        hex_bytes(bytes.drop_last()) + hex_byte(bytes.last())
    }
}

/// What MD5 gives for `bytes`: their digest.
pub uninterp spec fn md5_digest(bytes: Seq<u8>) -> Seq<u8>;

/// The MD5 digest of `bytes` (`Md5::digest` of the md-5 crate), whose output size
/// is 16 bytes.
#[verifier::external_body]
fn md5_of(bytes: &[u8]) -> (res: Vec<u8>)
    ensures
        res@ == md5_digest(bytes@),
        res@.len() == 16,
{
    Md5::digest(bytes).to_vec()
}

/// tosu's checksum of a mod set: the MD5 of the compact JSON of its acronym list,
/// in lower-case hexadecimal.
pub open spec fn mods_checksum_spec(mods: u32) -> Seq<char> {
    hex_bytes(md5_digest(ascii_bytes(acronyms_json(mod_acronym_list(mods)))))
}

/// The compact JSON of the acronyms `array`, as bytes.
fn acronyms_json_bytes(array: &Vec<ModEntry>, Ghost(list): Ghost<Seq<Seq<char>>>) -> (res: Vec<u8>)
    requires
        array@.len() == list.len(),
        forall|k: int| 0 <= k < list.len() ==> #[trigger] array@[k].acronym@ == list[k],
    ensures
        res@ == ascii_bytes(acronyms_json(list)),
{
    let mut text: Vec<char> = Vec::new();
    append_str(&mut text, "[");
    let mut k: usize = 0;
    while k < array.len()
        invariant
            k <= array@.len(),
            array@.len() == list.len(),
            forall|j: int| 0 <= j < list.len() ==> #[trigger] array@[j].acronym@ == list[j],
            text@ == "["@ + acronym_entries_json(list.take(k as int)),
        decreases array@.len() - k,
    {
        let ghost before = text@;
        if k > 0 {
            append_str(&mut text, ",");
        }
        append_str(&mut text, "{\"acronym\":\"");
        append_str(&mut text, array[k].acronym.as_str());
        append_str(&mut text, "\"}");
        assert(list.take(k + 1).drop_last() =~= list.take(k as int));
        assert(list.take(k + 1).last() == list[k as int]);
        if k == 0 {
            assert(text@ =~= "["@ + acronym_entries_json(list.take(k + 1)));
        } else {
            assert(text@ =~= "["@ + acronym_entries_json(list.take(k + 1)));
        }
        k = k + 1;
    }
    assert(list.take(list.len() as int) =~= list);
    append_str(&mut text, "]");
    let mut bytes: Vec<u8> = Vec::new();
    let mut i: usize = 0;
    while i < text.len()
        invariant
            i <= text@.len(),
            bytes@ == ascii_bytes(text@.take(i as int)),
        decreases text@.len() - i,
    {
        bytes.push((text[i] as u32) as u8);
        assert(ascii_bytes(text@.take(i + 1)) =~= ascii_bytes(text@.take(i as int)).push(
            (text@[i as int] as u32) as u8,
        ));
        i = i + 1;
    }
    assert(text@.take(text@.len() as int) =~= text@);
    assert(text@ =~= acronyms_json(list));
    bytes
}

/// Bytes as lower-case hexadecimal.
fn hex_of_bytes(bytes: &Vec<u8>) -> (res: Vec<char>)
    ensures
        res@ == hex_bytes(bytes@),
{
    let mut out: Vec<char> = Vec::new();
    let mut i: usize = 0;
    while i < bytes.len()
        invariant
            i <= bytes@.len(),
            out@ == hex_bytes(bytes@.take(i as int)),
        decreases bytes@.len() - i,
    {
        let b = bytes[i];
        out.push(hex_digit_lower((b / 16) as u64));
        out.push(hex_digit_lower((b % 16) as u64));
        assert(bytes@.take(i + 1).drop_last() =~= bytes@.take(i as int));
        assert(out@ =~= hex_bytes(bytes@.take(i + 1)));
        i = i + 1;
    }
    assert(bytes@.take(bytes@.len() as int) =~= bytes@);
    out
}

/// The mods of a play or of the menus, as the packet shows them.
#[derive(Debug, Clone, PartialEq)]
pub struct ModsState {
    /// The MD5 of the acronym list's compact JSON, in lower-case hexadecimal.
    pub checksum: String,
    pub number: u32,
    pub name: String,
    pub array: Vec<ModEntry>,
    pub rate: ModsRate,
}

/// The packet's view of the mods `mods_num`, displayed as `mods_str`.
pub fn create_mods_state(mods_num: u32, mods_str: &str) -> (res: ModsState)
    ensures
        res.checksum@ == mods_checksum_spec(mods_num),
        res.number == mods_num,
        res.name@ == mods_str@,
        res.array@.len() == mod_acronym_list(mods_num).len(),
        forall|k: int|
            0 <= k < res.array@.len() ==> #[trigger] res.array@[k].acronym@ == mod_acronym_list(mods_num)[k],
        res.rate == mods_rate_spec(mods_num),
{
    let array = mod_acronyms(mods_num);
    let rate = if mods_num & 64 != 0 {
        ModsRate::Faster
    } else if mods_num & 256 != 0 {
        ModsRate::Slower
    } else {
        ModsRate::Normal
    };
    let json = acronyms_json_bytes(&array, Ghost(mod_acronym_list(mods_num)));
    let digest = md5_of(json.as_slice());
    let hex = hex_of_bytes(&digest);
    ModsState {
        checksum: string_of(hex.as_slice()),
        number: mods_num,
        name: crate::text::string_from(mods_str),
        array,
        rate,
    }
}

} // verus!
