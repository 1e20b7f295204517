//! Tournament manager state and chat: the memory layout offsets, and what the
//! provider concludes from the values read at them.
use crate::address::{checked_add, AddressError};
use crate::text::{chars_equal, chars_of, slice_chars, string_from, string_of, trim, trim_chars};
use vstd::prelude::*;

verus! {

pub const TEAM_LEFT_POINTER_OFFSET: u64 = 0x1c;
pub const TEAM_RIGHT_POINTER_OFFSET: u64 = 0x20;
pub const IPC_STATE_OFFSET: u64 = 0x54;
pub const TEAM_BEST_OF_OFFSET: u64 = 0x30;
pub const SCORE_OFFSET: u64 = 0x28;
pub const STARS_OFFSET: u64 = 0x2c;
pub const STARS_VISIBLE_OFFSET: u64 = 0x38;
pub const SCORE_VISIBLE_OFFSET: u64 = 0x39;
pub const FINALIZED_OFFSET: u64 = 0x3a;

/// Most chat channels a manager is expected to have.
pub const MAX_CHAT_CHANNELS: i32 = 1024;

/// Most messages read from the multiplayer channel.
pub const MAX_CHAT_MESSAGES: i32 = 500;

/// A message of the tournament's multiplayer chat.
#[derive(Debug, Clone, Default, PartialEq)]
pub struct TournamentChatMessage {
    pub time: String,
    pub name: String,
    pub message: String,
    pub team: String,
}

/// State of a tournament manager.
#[derive(Debug, Clone)]
pub struct TournamentState {
    pub ruleset_address: u64,
    pub left_team_address: u64,
    pub right_team_address: u64,
    pub ipc_state: i32,
    pub is_tourney: bool,
    pub best_of: i32,
    pub left_score: i32,
    pub right_score: i32,
    pub left_stars: i32,
    pub right_stars: i32,
    pub first_team_name: String,
    pub second_team_name: String,
    pub stars_visible: bool,
    pub score_visible: bool,
    pub finalized: bool,
    pub chat: Vec<TournamentChatMessage>,
}

/// The values read from one team object (all zero, empty or false when the team
/// pointer is null or a read fails).
#[derive(Debug, Clone)]
pub struct TeamReads {
    pub score: i32,
    pub stars: i32,
    pub name: String,
    pub stars_visible: bool,
    pub score_visible: bool,
    pub finalized: bool,
    pub best_of: i32,
}

/// Why no tournament state was read.
#[derive(Debug, Clone, Copy, PartialEq, Eq)]
pub enum TournamentError {
    /// The ruleset address is null.
    NullRuleset,
    /// The IPC state and both team pointers are zero: not a tournament manager.
    NotTournamentManager,
}

/// Address of a field at `offset` of the object at `address`.
pub fn field(address: u64, offset: u64) -> (res: Result<u64, AddressError>)
    ensures
        address + offset <= u64::MAX ==> res == Ok::<u64, AddressError>((address + offset) as u64),
        address + offset > u64::MAX ==> res == Err::<u64, AddressError>(AddressError::AddressOverflow),
{
    checked_add(address, offset)
}

/// Whether the manager's values show a tournament manager at all.
pub open spec fn is_manager_spec(ipc_state: i32, left_team_address: u64, right_team_address: u64) -> bool {
    !(ipc_state == 0 && left_team_address == 0 && right_team_address == 0)
}

/// The tournament state from the values read at the manager's ruleset: the left
/// team gives its score, stars and name, the right team its score, stars, name, the
/// visibility flags and the best-of; either team's flag finalizes the match.
pub fn tournament_state_from_reads(
    ruleset_address: u64,
    ipc_state: i32,
    left_team_address: u64,
    right_team_address: u64,
    left: TeamReads,
    right: TeamReads,
) -> (res: Result<TournamentState, TournamentError>)
    ensures
        ruleset_address == 0 ==> res == Err::<TournamentState, TournamentError>(
            TournamentError::NullRuleset,
        ),
        ruleset_address != 0 && !is_manager_spec(ipc_state, left_team_address, right_team_address)
            ==> res == Err::<TournamentState, TournamentError>(
            TournamentError::NotTournamentManager,
        ),
        ruleset_address != 0 && is_manager_spec(ipc_state, left_team_address, right_team_address)
            ==> (res matches Ok(s) && {
            &&& s.ruleset_address == ruleset_address
            &&& s.left_team_address == left_team_address
            &&& s.right_team_address == right_team_address
            &&& s.ipc_state == ipc_state
            &&& s.is_tourney == (ipc_state & 2 != 0)
            &&& s.best_of == right.best_of
            &&& s.left_score == left.score
            &&& s.right_score == right.score
            &&& s.left_stars == left.stars
            &&& s.right_stars == right.stars
            &&& s.first_team_name@ == left.name@
            &&& s.second_team_name@ == right.name@
            &&& s.stars_visible == right.stars_visible
            &&& s.score_visible == right.score_visible
            &&& s.finalized == (left.finalized || right.finalized)
            &&& s.chat@.len() == 0
        }),
{
    if ruleset_address == 0 {
        return Err(TournamentError::NullRuleset);
    }
    if ipc_state == 0 && left_team_address == 0 && right_team_address == 0 {
        return Err(TournamentError::NotTournamentManager);
    }
    Ok(TournamentState {
        ruleset_address,
        left_team_address,
        right_team_address,
        ipc_state,
        is_tourney: ipc_state & 2 != 0,
        best_of: right.best_of,
        left_score: left.score,
        right_score: right.score,
        left_stars: left.stars,
        right_stars: right.stars,
        first_team_name: left.name,
        second_team_name: right.name,
        stars_visible: right.stars_visible,
        score_visible: right.score_visible,
        finalized: left.finalized || right.finalized,
        chat: Vec::new(),
    })
}

/// Number of chat channels to walk, if `len` is a plausible channel count.
pub fn chat_channel_count(len: i32) -> (res: Option<usize>)
    ensures
        0 < len <= MAX_CHAT_CHANNELS ==> res == Some(len as usize),
        !(0 < len <= MAX_CHAT_CHANNELS) ==> res is None,
{
    if len <= 0 || len > MAX_CHAT_CHANNELS {
        None
    } else {
        Some(len as usize)
    }
}

/// Number of messages to read from a channel holding `size`, capped at
/// `MAX_CHAT_MESSAGES`; `None` for a negative size.
pub fn chat_message_count(size: i32) -> (res: Option<usize>)
    ensures
        size < 0 ==> res is None,
        0 <= size <= MAX_CHAT_MESSAGES ==> res == Some(size as usize),
        size > MAX_CHAT_MESSAGES ==> res == Some(MAX_CHAT_MESSAGES as usize),
{
    if size < 0 {
        None
    } else if size > MAX_CHAT_MESSAGES {
        Some(MAX_CHAT_MESSAGES as usize)
    } else {
        Some(size as usize)
    }
}


/// Whether a channel tag names the multiplayer channel.
pub fn is_multiplayer_channel(tag: &str) -> (res: bool)
    ensures
        res == (tag@ == "#multiplayer"@),
{
    chars_equal(chars_of(tag).as_slice(), chars_of("#multiplayer").as_slice())
}

/// `s` without its trailing `:` characters.
pub open spec fn strip_trailing_colons(s: Seq<char>) -> Seq<char>
    decreases s.len(),
{
    if s.len() > 0 && s.last() == ':' {
        strip_trailing_colons(s.drop_last())
    } else {
        s
    }
}

/// Index of the first space of `s`, if it has one.
pub open spec fn first_space(s: Seq<char>) -> Option<int> {
    if exists|i: int| 0 <= i < s.len() && s[i] == ' ' {
        Some(choose|i: int| 0 <= i < s.len() && s[i] == ' ' && forall|j: int| 0 <= j < i ==> s[j] != ' ')
    } else {
        None
    }
}

/// Time and author of a chat line header `"<time> <author>:"`: the text before the
/// first space, trimmed, and the rest, trimmed, without trailing colons, trimmed again.
pub open spec fn chat_header_spec(header: Seq<char>) -> (Seq<char>, Seq<char>) {
    match first_space(header) {
        Some(i) => (
            trim(header.take(i)),
            trim(strip_trailing_colons(trim(header.skip(i + 1)))),
        ),
        None => (trim(header), Seq::empty()),
    }
}

/// Splits a chat line header into its time and author.
pub fn parse_chat_header(header: &str) -> (res: (String, String))
    ensures
        res.0@ == chat_header_spec(header@).0,
        res.1@ == chat_header_spec(header@).1,
{
    let cs = chars_of(header);
    let mut i: usize = 0;
    while i < cs.len() && cs[i] != ' '
        invariant
            i <= cs@.len(),
            forall|j: int| 0 <= j < i ==> cs@[j] != ' ',
        decreases cs@.len() - i,
    {
        i = i + 1;
    }
    if i == cs.len() {
        assert(first_space(header@) is None);
        let t = trim_chars(cs.as_slice());
        return (string_of(t.as_slice()), String::new());
    }
    assert(first_space(header@) == Some(i as int)) by {
        let k = choose|k: int| 0 <= k < cs@.len() && cs@[k] == ' ' && forall|j: int| 0 <= j < k ==> cs@[j] != ' ';
        assert(0 <= i < cs@.len() && cs@[i as int] == ' ');
        if k < i {
        } else if k > i {
        }
    }
    let time_part = slice_chars(cs.as_slice(), 0, i);
    assert(time_part@ =~= header@.take(i as int));
    let time = trim_chars(time_part.as_slice());
    let rest = slice_chars(cs.as_slice(), i + 1, cs.len());
    assert(rest@ =~= header@.skip(i + 1));
    let raw = trim_chars(rest.as_slice());
    let mut end = raw.len();
    assert(raw@.take(raw@.len() as int) =~= raw@);
    while end > 0 && raw[end - 1] == ':'
        invariant
            end <= raw@.len(),
            strip_trailing_colons(raw@.take(end as int)) == strip_trailing_colons(raw@),
        decreases end,
    {
        assert(raw@.take(end as int).drop_last() =~= raw@.take(end - 1));
        end = end - 1;
    }
    assert(raw@.take(raw@.len() as int) =~= raw@);
    let stripped = slice_chars(raw.as_slice(), 0, end);
    assert(stripped@ =~= raw@.take(end as int));
    assert(strip_trailing_colons(stripped@) == stripped@);
    let author = trim_chars(stripped.as_slice());
    (string_of(time.as_slice()), string_of(author.as_slice()))
}

/// Index of the last entry of `teams` whose name is `author` (later entries replace
/// earlier ones, as insertions into a map do).
pub open spec fn last_team_index(teams: Seq<(String, String)>, author: Seq<char>) -> Option<int> {
    if exists|i: int| 0 <= i < teams.len() && (#[trigger] teams[i]).0@ == author {
        Some(choose|i: int|
            0 <= i < teams.len() && teams[i].0@ == author && forall|j: int| i < j < teams.len() ==> (#[trigger] teams[j]).0@ != author)
    } else {
        None
    }
}

/// Team of a chat author: `bot` for BanchoBot, the spectator's team for a player,
/// `unknown` for anyone else.
pub open spec fn chat_team_spec(author: Seq<char>, teams: Seq<(String, String)>) -> Seq<char> {
    if author == "BanchoBot"@ {
        "bot"@
    } else {
        match last_team_index(teams, author) {
            Some(i) => teams[i].1@,
            None => "unknown"@,
        }
    }
}

/// The team a chat author belongs to.
pub fn chat_team(author: &str, teams: &Vec<(String, String)>) -> (res: String)
    ensures
        res@ == chat_team_spec(author@, teams@),
{
    let a = chars_of(author);
    if chars_equal(a.as_slice(), chars_of("BanchoBot").as_slice()) {
        return string_from("bot");
    }
    let mut i = teams.len();
    while i > 0
        invariant
            i <= teams@.len(),
            a@ == author@,
            author@ != "BanchoBot"@,
            forall|j: int| i <= j < teams@.len() ==> (#[trigger] teams@[j]).0@ != author@,
        decreases i,
    {
        let entry = &teams[i - 1];
        assert(*entry == teams@[i - 1]);
        let k = chars_of(entry.0.as_str());
        assert(k@ == teams@[i - 1].0@);
        if chars_equal(k.as_slice(), a.as_slice()) {
            proof {
                let w = choose|w: int|
                    0 <= w < teams@.len() && teams@[w].0@ == author@ && forall|j: int|
                        w < j < teams@.len() ==> (#[trigger] teams@[j]).0@ != author@;
                assert(0 <= i - 1 < teams@.len() && teams@[i - 1].0@ == author@);
                if w < i - 1 {
                } else if w > i - 1 {
                }
                assert(w == i - 1);
            }
            return string_from(teams[i - 1].1.as_str());
        }
        i = i - 1;
    }
    string_from("unknown")
}

/// A chat message from its content, its header and the spectators' teams.
pub fn chat_message(header: &str, content: &str, teams: &Vec<(String, String)>) -> (res:
    TournamentChatMessage)
    ensures
        res.time@ == chat_header_spec(header@).0,
        res.name@ == chat_header_spec(header@).1,
        res.message@ == content@,
        res.team@ == chat_team_spec(chat_header_spec(header@).1, teams@),
{
    let (time, name) = parse_chat_header(header);
    let team = chat_team(name.as_str(), teams);
    TournamentChatMessage { time, name, message: string_from(content), team }
}


/// A message slot whose header and content were read, with content.
pub open spec fn chat_entry_kept(e: Option<(String, String)>) -> bool {
    e matches Some((_, c)) && c@.len() > 0
}

/// The message slots of a channel that make messages.
pub open spec fn kept_entries(raw: Seq<Option<(String, String)>>) -> Seq<Option<(String, String)>> {
    raw.filter(|e: Option<(String, String)>| chat_entry_kept(e))
}

/// `m` is the chat message that the header and content of `e` make.
pub open spec fn message_of(m: TournamentChatMessage, e: Option<(String, String)>, teams: Seq<(String, String)>) -> bool {
    e matches Some((h, c)) && {
        &&& m.time@ == chat_header_spec(h@).0
        &&& m.name@ == chat_header_spec(h@).1
        &&& m.message@ == c@
        &&& m.team@ == chat_team_spec(chat_header_spec(h@).1, teams)
    }
}

/// The messages of a channel from its slots, in order, as (header, content) where
/// both could be read: a slot that could not be read, or whose content is empty,
/// makes no message; so there are never more messages than slots, and none is
/// empty.
pub fn channel_messages(raw: &Vec<Option<(String, String)>>, teams: &Vec<(String, String)>) -> (res: Vec<
    TournamentChatMessage,
>)
    ensures
        res@.len() == kept_entries(raw@).len(),
        res@.len() <= raw@.len(),
        forall|i: int| 0 <= i < res@.len() ==> message_of(#[trigger] res@[i], kept_entries(raw@)[i], teams@),
        forall|i: int| 0 <= i < res@.len() ==> (#[trigger] res@[i]).message@.len() > 0,
{
    let ghost pred = |e: Option<(String, String)>| chat_entry_kept(e);
    let mut res: Vec<TournamentChatMessage> = Vec::new();
    let mut i: usize = 0;
    while i < raw.len()
        invariant
            i <= raw@.len(),
            pred == (|e: Option<(String, String)>| chat_entry_kept(e)),
            res@.len() == raw@.take(i as int).filter(pred).len(),
            forall|k: int|
                0 <= k < res@.len() ==> message_of(#[trigger] res@[k], raw@.take(i as int).filter(pred)[k], teams@),
        decreases raw@.len() - i,
    {
        proof {
            assert(raw@.take(i + 1) =~= raw@.take(i as int).push(raw@[i as int]));
            raw@.take(i as int).lemma_filter_push(raw@[i as int], pred);
        }
        match &raw[i] {
            Some((header, content)) => {
                if chars_of(content.as_str()).len() > 0 {
                    let m = chat_message(header.as_str(), content.as_str(), teams);
                    res.push(m);
                }
            },
            None => {},
        }
        i = i + 1;
    }
    proof {
        assert(raw@.take(raw@.len() as int) =~= raw@);
        raw@.lemma_filter_len(pred);
        assert forall|k: int| 0 <= k < res@.len() implies (#[trigger] res@[k]).message@.len() > 0 by {
            let e = kept_entries(raw@)[k];
            assert(message_of(res@[k], e, teams@));
            raw@.lemma_filter_pred(pred, k);
            assert(chat_entry_kept(e));
        }
    }
    res
}


/// Channel `i` of `tags` could be read and is the multiplayer channel.
pub open spec fn multiplayer_at(tags: Seq<Option<String>>, i: int) -> bool {
    tags[i] matches Some(t) && t@ == "#multiplayer"@
}

/// The channels to take the chat from, in the order they are tried: every channel
/// whose tag reads `#multiplayer`, the highest-numbered first. (The chat comes from
/// the first of them whose message list can be read.)
pub fn multiplayer_channels(tags: &Vec<Option<String>>) -> (res: Vec<usize>)
    ensures
        forall|k: int| 0 <= k < res@.len() ==> (#[trigger] res@[k]) < tags@.len() && multiplayer_at(tags@, res@[k] as int),
        forall|k: int, l: int| 0 <= k < l < res@.len() ==> #[trigger] res@[k] > #[trigger] res@[l],
        forall|i: int| 0 <= i < tags@.len() && multiplayer_at(tags@, i) ==> res@.contains(i as usize),
{
    let mut res: Vec<usize> = Vec::new();
    let mut i: usize = tags.len();
    while i > 0
        invariant
            i <= tags@.len(),
            forall|k: int| 0 <= k < res@.len() ==> (#[trigger] res@[k]) < tags@.len() && res@[k] >= i && multiplayer_at(tags@, res@[k] as int),
            forall|k: int, l: int| 0 <= k < l < res@.len() ==> #[trigger] res@[k] > #[trigger] res@[l],
            forall|j: int| i <= j < tags@.len() && multiplayer_at(tags@, j) ==> res@.contains(j as usize),
        decreases i,
    {
        i = i - 1;
        let found = match &tags[i] {
            Some(t) => is_multiplayer_channel(t.as_str()),
            None => false,
        };
        if found {
            let ghost before = res@;
            res.push(i);
            proof {
                assert forall|j: int| i <= j < tags@.len() && multiplayer_at(tags@, j) implies res@.contains(j as usize) by {
                    if j == i {
                        assert(res@[res@.len() - 1] == i);
                    } else {
                        let w = choose|w: int| 0 <= w < before.len() && before[w] == j as usize;
                        assert(res@[w] == before[w]);
                    }
                }
            }
        } else {
            proof {
                assert forall|j: int| i <= j < tags@.len() && multiplayer_at(tags@, j) implies res@.contains(j as usize) by {
                    if j == i {
                        assert(multiplayer_at(tags@, i as int));
                    }
                }
            }
        }
    }
    res
}

} // verus!
