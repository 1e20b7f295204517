//! The active beatmap: its memory layout, what the provider makes of the values
//! read there, and the facts it takes from the `.osu` file on disk.
use crate::address::{checked_add_signed, parse_signed, parse_unsigned, signed_result, unsigned_result};
use crate::text::{
    chars_equal, chars_of, find_chars, first_occurrence, slice_chars, split_chars, split_on,
    starts_with, starts_with_chars, string_of, trim, trim_chars, views,
};
use vstd::prelude::*;

verus! {

/// Offset from the base pattern to the pointer to the beatmap pointer.
pub const BEATMAP_POINTER_OFFSET: i64 = -0xc;
/// Offset from the base pattern to the pointer to the selected ruleset.
pub const MODE_POINTER_OFFSET: i64 = -0x33;
/// Offset from the play-time pattern to the pointer to the audio time.
pub const PLAY_TIME_POINTER_OFFSET: i64 = 0x5;
pub const BEATMAP_ID_OFFSET: i64 = 0xC8;
pub const BEATMAP_SET_ID_OFFSET: i64 = 0xCC;
pub const BEATMAP_STATUS_OFFSET: i64 = 0x12C;
pub const BEATMAP_OBJECT_COUNT_OFFSET: i64 = 0xF8;
pub const BEATMAP_AR_OFFSET: i64 = 0x2C;
pub const BEATMAP_CS_OFFSET: i64 = 0x30;
pub const BEATMAP_HP_OFFSET: i64 = 0x34;
pub const BEATMAP_OD_OFFSET: i64 = 0x38;
pub const BEATMAP_ARTIST_OFFSET: i64 = 0x18;
pub const BEATMAP_ARTIST_UNICODE_OFFSET: i64 = 0x1C;
pub const BEATMAP_TITLE_OFFSET: i64 = 0x24;
pub const BEATMAP_TITLE_UNICODE_OFFSET: i64 = 0x28;
pub const BEATMAP_AUDIO_FILE_OFFSET: i64 = 0x64;
pub const BEATMAP_BACKGROUND_FILE_OFFSET: i64 = 0x68;
pub const BEATMAP_CHECKSUM_OFFSET: i64 = 0x6C;
pub const BEATMAP_FOLDER_OFFSET: i64 = 0x78;
pub const BEATMAP_MAPPER_OFFSET: i64 = 0x7C;
pub const BEATMAP_FILE_OFFSET: i64 = 0x90;
pub const BEATMAP_VERSION_OFFSET: i64 = 0xAC;

/// Timing of the active beatmap, in milliseconds.
#[derive(Debug, Clone, Copy, Default, PartialEq, Eq)]
pub struct BeatmapTime {
    pub live: i32,
    pub first_object: i32,
    pub last_object: i32,
    pub mp3_length: i32,
}

/// Ranked status of a beatmap, by number and name.
#[derive(Debug, Clone, Default, PartialEq, Eq)]
pub struct BeatmapStatus {
    pub number: i32,
    pub name: String,
}

/// Ruleset of a beatmap, by number and name.
#[derive(Debug, Clone, Default, PartialEq, Eq)]
pub struct BeatmapMode {
    pub number: i32,
    pub name: String,
}

/// Hit objects of a beatmap, by kind.
#[derive(Debug, Clone, Copy, Default, PartialEq, Eq)]
pub struct ObjectCounts {
    pub circles: i32,
    pub sliders: i32,
    pub spinners: i32,
    pub holds: i32,
    pub total: i32,
}

/// Name of a ranked-status number.
pub open spec fn status_name_spec(status: i32) -> Seq<char> {
    if status == 1 {
        "notSubmitted"@
    } else if status == 2 {
        "pending"@
    } else if status == 3 {
        "unused"@
    } else if status == 4 {
        "ranked"@
    } else if status == 5 {
        "approved"@
    } else if status == 6 {
        "qualified"@
    } else if status == 7 {
        "loved"@
    } else {
        "unknown"@
    }
}

/// The ranked status whose name is `name`; -1 for any other text.
pub open spec fn status_of_name(name: Seq<char>) -> int {
    if name == "notSubmitted"@ {
        1
    } else if name == "pending"@ {
        2
    } else if name == "unused"@ {
        3
    } else if name == "ranked"@ {
        4
    } else if name == "approved"@ {
        5
    } else if name == "qualified"@ {
        6
    } else if name == "loved"@ {
        7
    } else {
        -1
    }
}

/// The ranked-status names identify the statuses: each of 1 to 7 has a name of its
/// own, which names it back and is not `unknown`, so no two statuses are shown
/// under one name; any other number is `unknown`.
pub proof fn lemma_status_names_identify_statuses()
    ensures
        forall|s: i32| 1 <= s <= 7 ==> status_of_name(#[trigger] status_name_spec(s)) == s as int,
        forall|s: i32, t: i32|
            1 <= s <= 7 && 1 <= t <= 7 && s != t ==> #[trigger] status_name_spec(s) != #[trigger] status_name_spec(t),
        forall|s: i32| 1 <= s <= 7 ==> (#[trigger] status_name_spec(s)) != "unknown"@,
        forall|s: i32| !(1 <= s <= 7) ==> #[trigger] status_name_spec(s) == "unknown"@,
{
    reveal_strlit("approved");
    reveal_strlit("loved");
    reveal_strlit("notSubmitted");
    reveal_strlit("pending");
    reveal_strlit("qualified");
    reveal_strlit("ranked");
    reveal_strlit("unknown");
    reveal_strlit("unused");
    assert("approved"@.len() == 8);
    assert("loved"@.len() == 5);
    assert("notSubmitted"@.len() == 12);
    assert("pending"@.len() == 7);
    assert("qualified"@.len() == 9);
    assert("ranked"@.len() == 6);
    assert("unknown"@.len() == 7);
    assert("unused"@.len() == 6);
    assert("pending"@[0] == 'p');
    assert("unknown"@[0] == 'u');
    assert("ranked"@[0] == 'r');
    assert("unused"@[0] == 'u');
    assert(status_of_name("unknown"@) == -1);
    assert forall|s: i32| 1 <= s <= 7 implies status_of_name(#[trigger] status_name_spec(s)) == s as int by {
        if s == 1 {
            assert(status_name_spec(1) == "notSubmitted"@);
            assert(status_of_name("notSubmitted"@) == 1);
        } else if s == 2 {
            assert(status_name_spec(2) == "pending"@);
            assert(status_of_name("pending"@) == 2);
        } else if s == 3 {
            assert(status_name_spec(3) == "unused"@);
            assert(status_of_name("unused"@) == 3);
        } else if s == 4 {
            assert(status_name_spec(4) == "ranked"@);
            assert(status_of_name("ranked"@) == 4);
        } else if s == 5 {
            assert(status_name_spec(5) == "approved"@);
            assert(status_of_name("approved"@) == 5);
        } else if s == 6 {
            assert(status_name_spec(6) == "qualified"@);
            assert(status_of_name("qualified"@) == 6);
        } else if s == 7 {
            assert(status_name_spec(7) == "loved"@);
            assert(status_of_name("loved"@) == 7);
        }
    }
    assert forall|s: i32| 1 <= s <= 7 implies (#[trigger] status_name_spec(s)) != "unknown"@ by {
        assert(status_of_name(status_name_spec(s)) == s as int);
    }
    assert forall|s: i32, t: i32|
        1 <= s <= 7 && 1 <= t <= 7 && s != t implies #[trigger] status_name_spec(s) != #[trigger] status_name_spec(t) by {
        assert(status_of_name(status_name_spec(s)) == s as int);
        assert(status_of_name(status_name_spec(t)) == t as int);
    }
}

/// Name of a ranked-status number; `unknown` for 0 and any number outside the table.
pub fn beatmap_status_name(status: i32) -> (res: &'static str)
    ensures
        res@ == status_name_spec(status),
{
    if status == 1 {
        "notSubmitted"
    } else if status == 2 {
        "pending"
    } else if status == 3 {
        "unused"
    } else if status == 4 {
        "ranked"
    } else if status == 5 {
        "approved"
    } else if status == 6 {
        "qualified"
    } else if status == 7 {
        "loved"
    } else {
        "unknown"
    }
}

/// Name of a ruleset number.
pub open spec fn mode_name_spec(mode: i32) -> Seq<char> {
    if mode == 1 {
        "taiko"@
    } else if mode == 2 {
        "fruits"@
    } else if mode == 3 {
        "mania"@
    } else {
        "osu"@
    }
}

/// Name of a ruleset number; `osu` for 0 and any number outside the table.
pub fn beatmap_mode_name(mode: i32) -> (res: &'static str)
    ensures
        res@ == mode_name_spec(mode),
{
    if mode == 1 {
        "taiko"
    } else if mode == 2 {
        "fruits"
    } else if mode == 3 {
        "mania"
    } else {
        "osu"
    }
}

/// Address of the pointer to the audio time, from the play-time pattern; the
/// pattern address itself where the offset would overflow.
pub fn live_time_pointer_address(play_time_addr: u64) -> (res: u64)
    ensures
        play_time_addr + PLAY_TIME_POINTER_OFFSET <= u64::MAX ==> res == play_time_addr
            + PLAY_TIME_POINTER_OFFSET,
        play_time_addr + PLAY_TIME_POINTER_OFFSET > u64::MAX ==> res == play_time_addr,
{
    match checked_add_signed(play_time_addr, PLAY_TIME_POINTER_OFFSET) {
        Ok(a) => a,
        Err(_) => play_time_addr,
    }
}

/// The integer values and strings read from the beatmap object (zero or empty
/// where a read failed).
#[derive(Debug, Clone, Default)]
pub struct BeatmapReads {
    pub live_time: i32,
    pub id: i32,
    pub set_id: i32,
    pub status: i32,
    pub mode: i32,
    pub object_count: i32,
    pub artist: String,
    pub artist_unicode: String,
    pub title: String,
    pub title_unicode: String,
    pub audio_filename: String,
    pub background_filename: String,
    pub checksum: String,
    pub folder: String,
    pub mapper: String,
    pub filename: String,
    pub version: String,
}

/// What the provider knows of the active beatmap, apart from its floating-point
/// difficulty statistics.
#[derive(Debug, Clone, Default)]
pub struct BeatmapInfo {
    pub is_kiai: bool,
    pub is_break: bool,
    pub is_convert: bool,
    pub time: BeatmapTime,
    pub status: BeatmapStatus,
    pub checksum: String,
    pub id: i32,
    pub set: i32,
    pub mode: BeatmapMode,
    pub artist: String,
    pub artist_unicode: String,
    pub title: String,
    pub title_unicode: String,
    pub mapper: String,
    pub version: String,
    pub folder: String,
    pub filename: String,
    pub audio_filename: String,
    pub background_filename: String,
    pub source: String,
    pub tags: String,
    pub objects: ObjectCounts,
}

/// The beatmap described by the values read from memory: the read values stand in
/// their fields, status and mode get their names, the object count is the total,
/// and everything the file or the difficulty calculation fills in later is zero or empty.
pub fn beatmap_from_reads(r: BeatmapReads) -> (res: BeatmapInfo)
    ensures
        !res.is_kiai && !res.is_break && !res.is_convert,
        res.time == (BeatmapTime { live: r.live_time, first_object: 0, last_object: 0, mp3_length: 0 }),
        res.status.number == r.status,
        res.status.name@ == status_name_spec(r.status),
        res.mode.number == r.mode,
        res.mode.name@ == mode_name_spec(r.mode),
        res.id == r.id,
        res.set == r.set_id,
        res.checksum@ == r.checksum@,
        res.artist@ == r.artist@,
        res.artist_unicode@ == r.artist_unicode@,
        res.title@ == r.title@,
        res.title_unicode@ == r.title_unicode@,
        res.mapper@ == r.mapper@,
        res.version@ == r.version@,
        res.folder@ == r.folder@,
        res.filename@ == r.filename@,
        res.audio_filename@ == r.audio_filename@,
        res.background_filename@ == r.background_filename@,
        res.source@.len() == 0,
        res.tags@.len() == 0,
        res.objects == (ObjectCounts { circles: 0, sliders: 0, spinners: 0, holds: 0, total: r.object_count }),
{
    let status_name = crate::text::string_from(beatmap_status_name(r.status));
    let mode_name = crate::text::string_from(beatmap_mode_name(r.mode));
    BeatmapInfo {
        is_kiai: false,
        is_break: false,
        is_convert: false,
        time: BeatmapTime { live: r.live_time, first_object: 0, last_object: 0, mp3_length: 0 },
        status: BeatmapStatus { number: r.status, name: status_name },
        checksum: r.checksum,
        id: r.id,
        set: r.set_id,
        mode: BeatmapMode { number: r.mode, name: mode_name },
        artist: r.artist,
        artist_unicode: r.artist_unicode,
        title: r.title,
        title_unicode: r.title_unicode,
        mapper: r.mapper,
        version: r.version,
        folder: r.folder,
        filename: r.filename,
        audio_filename: r.audio_filename,
        background_filename: r.background_filename,
        source: String::new(),
        tags: String::new(),
        objects: ObjectCounts { circles: 0, sliders: 0, spinners: 0, holds: 0, total: r.object_count },
    }
}

/// `s` read as an `i32` the way `str::parse` reads it (an optional sign, then
/// decimal digits), or 0 where that fails.
pub open spec fn dec_i32_or_zero(s: Seq<char>) -> i32 {
    match signed_result(s, 10) {
        Ok(v) => if i32::MIN <= v <= i32::MAX {
            v as i32
        } else {
            0
        },
        Err(_) => 0,
    }
}

/// `s` read as a `u32` the way `str::parse` reads it (an optional `+`, then
/// decimal digits), or 0 where that fails.
pub open spec fn dec_u32_or_zero(s: Seq<char>) -> u32 {
    match unsigned_result(s, 10, u32::MAX as nat) {
        Ok(v) => v as u32,
        Err(_) => 0,
    }
}

fn parse_i32_or_zero(s: &[char]) -> (res: i32)
    ensures
        res == dec_i32_or_zero(s@),
{
    match parse_signed(s, 10) {
        Ok(v) => if i32::MIN as i128 <= v && v <= i32::MAX as i128 {
            v as i32
        } else {
            0
        },
        Err(_) => 0,
    }
}

fn parse_u32_or_zero(s: &[char]) -> (res: u32)
    ensures
        res == dec_u32_or_zero(s@),
{
    match parse_unsigned(s, 10, u32::MAX as u128) {
        Ok(v) => v as u32,
        Err(_) => 0,
    }
}

/// Key and value of a `key:value` line, split at its first colon.
pub open spec fn key_value(line: Seq<char>) -> Option<(Seq<char>, Seq<char>)> {
    match first_occurrence(line, seq![':']) {
        Some(i) => Some((line.take(i), line.skip(i + 1))),
        None => None,
    }
}

/// A trimmed line that opens a section: `[`, the section's name, `]`.
pub open spec fn is_section_header(line: Seq<char>) -> bool {
    line.len() > 0 && line[0] == '[' && line.last() == ']'
}

/// What the provider has taken from the lines of an `.osu` file read so far: the
/// current section, the last `Source` and `Tags` of `[Metadata]`, the last
/// `AudioLength` of `[General]`, the first two fields of each timing point and the
/// time field and type of each hit object (fields trimmed).
#[verifier::ext_equal]
pub struct OsuFileModel {
    pub section: Seq<char>,
    pub source: Option<Seq<char>>,
    pub tags: Option<Seq<char>>,
    pub audio_length: Option<i32>,
    pub timing_points: Seq<(Seq<char>, Seq<char>)>,
    pub hit_objects: Seq<(Seq<char>, u32)>,
}

/// Nothing read yet.
pub open spec fn osu_model_init() -> OsuFileModel {
    OsuFileModel {
        section: Seq::empty(),
        source: None,
        tags: None,
        audio_length: None,
        timing_points: Seq::empty(),
        hit_objects: Seq::empty(),
    }
}

/// The model after one more raw line: a section header switches the section,
/// blank lines and `//` comments change nothing, and otherwise the current
/// section decides what the line contributes.
pub open spec fn scan_osu_line(m: OsuFileModel, raw: Seq<char>) -> OsuFileModel {
    let line = trim(raw);
    if is_section_header(line) {
        OsuFileModel { section: line.subrange(1, line.len() - 1), ..m }
    } else if line.len() == 0 || starts_with(line, seq!['/', '/']) {
        m
    } else if m.section == "Metadata"@ {
        match key_value(line) {
            Some(kv) => if trim(kv.0) == "Source"@ {
                OsuFileModel { source: Some(trim(kv.1)), ..m }
            } else if trim(kv.0) == "Tags"@ {
                OsuFileModel { tags: Some(trim(kv.1)), ..m }
            } else {
                m
            },
            None => m,
        }
    } else if m.section == "General"@ {
        match key_value(line) {
            Some(kv) => if trim(kv.0) == "AudioLength"@ {
                OsuFileModel { audio_length: Some(dec_i32_or_zero(trim(kv.1))), ..m }
            } else {
                m
            },
            None => m,
        }
    } else if m.section == "TimingPoints"@ {
        let f = split_on(line, ',');
        if f.len() >= 2 {
            OsuFileModel { timing_points: m.timing_points.push((trim(f[0]), trim(f[1]))), ..m }
        } else {
            m
        }
    } else if m.section == "HitObjects"@ {
        let f = split_on(line, ',');
        if f.len() >= 4 {
            OsuFileModel {
                hit_objects: m.hit_objects.push((trim(f[2]), dec_u32_or_zero(trim(f[3])))),
                ..m
            }
        } else {
            m
        }
    } else {
        m
    }
}

/// The model after the lines `lines`, in order.
pub open spec fn scan_osu_lines(lines: Seq<Seq<char>>) -> OsuFileModel
    decreases lines.len(),
{
    if lines.len() == 0 {
        osu_model_init()
    } else {
        scan_osu_line(scan_osu_lines(lines.drop_last()), lines.last())
    }
}

/// The model of a whole `.osu` file. Its lines are the pieces between `\n`
/// characters; a `\r` before a `\n` and a final empty piece change nothing, since
/// every line is trimmed and blank lines are skipped, so this is what `str::lines`
/// gives.
pub open spec fn osu_file_model(content: Seq<char>) -> OsuFileModel {
    scan_osu_lines(split_on(content, '\n'))
}

/// What the provider takes from an `.osu` file.
#[derive(Debug, Clone)]
pub struct OsuFileFacts {
    /// `Source` of `[Metadata]`, if the file has one.
    pub source: Option<String>,
    /// `Tags` of `[Metadata]`, if the file has them.
    pub tags: Option<String>,
    /// `AudioLength` of `[General]` (0 where it is not an integer), if present.
    pub audio_length: Option<i32>,
    /// Time and beat-length fields of each timing point, unparsed.
    pub timing_points: Vec<(String, String)>,
    /// Time field, unparsed, and object type of each hit object.
    pub hit_objects: Vec<(String, u32)>,
}

pub open spec fn opt_view(o: Option<String>) -> Option<Seq<char>> {
    match o {
        Some(s) => Some(s@),
        None => None,
    }
}

pub open spec fn timing_views(v: Seq<(String, String)>) -> Seq<(Seq<char>, Seq<char>)> {
    v.map_values(|p: (String, String)| (p.0@, p.1@))
}

pub open spec fn object_views(v: Seq<(String, u32)>) -> Seq<(Seq<char>, u32)> {
    v.map_values(|p: (String, u32)| (p.0@, p.1))
}

/// The model that a current section and the facts gathered so far stand for.
pub open spec fn model_of(section: Seq<char>, f: OsuFileFacts) -> OsuFileModel {
    OsuFileModel {
        section: section,
        source: opt_view(f.source),
        tags: opt_view(f.tags),
        audio_length: f.audio_length,
        timing_points: timing_views(f.timing_points@),
        hit_objects: object_views(f.hit_objects@),
    }
}

fn literal_equals(s: &[char], lit: &str) -> (res: bool)
    ensures
        res == (s@ == lit@),
{
    let l = chars_of(lit);
    chars_equal(s, l.as_slice())
}

/// Splits a `key:value` line at its first colon.
fn split_key_value(line: &[char]) -> (res: Option<(Vec<char>, Vec<char>)>)
    ensures
        match key_value(line@) {
            Some(kv) => res matches Some(p) && p.0@ == kv.0 && p.1@ == kv.1,
            None => res is None,
        },
{
    let colon = [':'];
    assert(colon@ =~= seq![':']);
    match find_chars(line, &colon) {
        Some(i) => {
            proof {
                crate::text::lemma_first_occurrence(line@, seq![':']);
                assert(crate::text::occurs_at(line@, seq![':'], i as int));
            }
            let n = line.len();
            let key = slice_chars(line, 0, i);
            let value = slice_chars(line, i + 1, n);
            assert(key@ =~= line@.take(i as int));
            assert(value@ =~= line@.skip(i + 1));
            Some((key, value))
        },
        None => None,
    }
}

/// Takes one raw line into the section and the facts gathered so far.
fn scan_line(section: &mut Vec<char>, facts: &mut OsuFileFacts, raw: &[char])
    ensures
        model_of(final(section)@, *final(facts)) =~= scan_osu_line(model_of(old(section)@, *old(facts)), raw@),
{
    let ghost m = model_of(section@, *facts);
    let line = trim_chars(raw);
    let n = line.len();
    if n > 0 && line[0] == '[' && line[n - 1] == ']' {
        *section = slice_chars(line.as_slice(), 1, n - 1);
        return;
    }
    let comment = ['/', '/'];
    assert(comment@ =~= seq!['/', '/']);
    if n == 0 || starts_with_chars(line.as_slice(), &comment) {
        return;
    }
    if literal_equals(section.as_slice(), "Metadata") {
        if let Some((key, value)) = split_key_value(line.as_slice()) {
            let k = trim_chars(key.as_slice());
            if literal_equals(k.as_slice(), "Source") {
                let v = trim_chars(value.as_slice());
                facts.source = Some(string_of(v.as_slice()));
            } else if literal_equals(k.as_slice(), "Tags") {
                let v = trim_chars(value.as_slice());
                facts.tags = Some(string_of(v.as_slice()));
            }
        }
    } else if literal_equals(section.as_slice(), "General") {
        if let Some((key, value)) = split_key_value(line.as_slice()) {
            let k = trim_chars(key.as_slice());
            if literal_equals(k.as_slice(), "AudioLength") {
                let v = trim_chars(value.as_slice());
                facts.audio_length = Some(parse_i32_or_zero(v.as_slice()));
            }
        }
    } else if literal_equals(section.as_slice(), "TimingPoints") {
        let fields = split_chars(line.as_slice(), ',');
        if fields.len() >= 2 {
            proof {
                assert(views(fields@)[0] == fields@[0]@);
                assert(views(fields@)[1] == fields@[1]@);
            }
            let time = string_of(trim_chars(fields[0].as_slice()).as_slice());
            let beat = string_of(trim_chars(fields[1].as_slice()).as_slice());
            let ghost before = facts.timing_points@;
            facts.timing_points.push((time, beat));
            assert(timing_views(facts.timing_points@) =~= timing_views(before).push(
                (trim(views(fields@)[0]), trim(views(fields@)[1])),
            ));
        }
    } else if literal_equals(section.as_slice(), "HitObjects") {
        let fields = split_chars(line.as_slice(), ',');
        if fields.len() >= 4 {
            proof {
                assert(views(fields@)[2] == fields@[2]@);
                assert(views(fields@)[3] == fields@[3]@);
            }
            let time = string_of(trim_chars(fields[2].as_slice()).as_slice());
            let kind = parse_u32_or_zero(trim_chars(fields[3].as_slice()).as_slice());
            let ghost before = facts.hit_objects@;
            facts.hit_objects.push((time, kind));
            assert(object_views(facts.hit_objects@) =~= object_views(before).push(
                (trim(views(fields@)[2]), dec_u32_or_zero(trim(views(fields@)[3]))),
            ));
        }
    }
}

/// The facts of an `.osu` file, as [`osu_file_model`] describes them.
pub fn scan_osu_file(content: &str) -> (res: OsuFileFacts)
    ensures
        model_of(osu_file_model(content@).section, res) == osu_file_model(content@),
{
    let chars = chars_of(content);
    let lines = split_chars(chars.as_slice(), '\n');
    let mut section: Vec<char> = Vec::new();
    let mut facts = OsuFileFacts {
        source: None,
        tags: None,
        audio_length: None,
        timing_points: Vec::new(),
        hit_objects: Vec::new(),
    };
    let ghost all = views(lines@);
    assert(all.take(0) =~= Seq::<Seq<char>>::empty());
    assert(model_of(section@, facts) =~= osu_model_init());
    let mut i: usize = 0;
    while i < lines.len()
        invariant
            i <= lines@.len(),
            all == views(lines@),
            all == split_on(content@, '\n'),
            model_of(section@, facts) == scan_osu_lines(all.take(i as int)),
        decreases lines@.len() - i,
    {
        scan_line(&mut section, &mut facts, lines[i].as_slice());
        assert(all.take(i + 1).drop_last() =~= all.take(i as int));
        assert(all.take(i + 1).last() == lines@[i as int]@);
        i = i + 1;
    }
    assert(all.take(all.len() as int) =~= all);
    facts
}

/// Kind of a hit object, by its type bits.
#[derive(Debug, Clone, Copy, PartialEq, Eq)]
pub enum ObjectKind {
    Circle,
    Slider,
    Spinner,
    Hold,
    Other,
}

/// The kind that the type bits `bits` give: a hold note (bit 128) before a
/// spinner (bit 8) before a slider (bit 2) before a circle (bit 1).
pub open spec fn object_kind(bits: u32) -> ObjectKind {
    if bits & 128 != 0 {
        ObjectKind::Hold
    } else if bits & 8 != 0 {
        ObjectKind::Spinner
    } else if bits & 2 != 0 {
        ObjectKind::Slider
    } else if bits & 1 != 0 {
        ObjectKind::Circle
    } else {
        ObjectKind::Other
    }
}

/// The kind of a hit object with type bits `bits`.
pub fn classify_object(bits: u32) -> (res: ObjectKind)
    ensures
        res == object_kind(bits),
{
    if bits & 128 != 0 {
        ObjectKind::Hold
    } else if bits & 8 != 0 {
        ObjectKind::Spinner
    } else if bits & 2 != 0 {
        ObjectKind::Slider
    } else if bits & 1 != 0 {
        ObjectKind::Circle
    } else {
        ObjectKind::Other
    }
}

/// Earliest time of the objects `objs`, `i32::MAX` when there is none.
pub open spec fn first_time(objs: Seq<(i32, u32)>) -> i32
    decreases objs.len(),
{
    if objs.len() == 0 {
        i32::MAX
    } else {
        let p = first_time(objs.drop_last());
        if objs.last().0 < p {
            objs.last().0
        } else {
            p
        }
    }
}

/// Latest time of the objects `objs`, and 0 when all are earlier.
pub open spec fn last_time(objs: Seq<(i32, u32)>) -> i32
    decreases objs.len(),
{
    if objs.len() == 0 {
        0
    } else {
        let p = last_time(objs.drop_last());
        if objs.last().0 > p {
            objs.last().0
        } else {
            p
        }
    }
}

/// How many of the objects `objs` are of kind `k`.
pub open spec fn kind_count(objs: Seq<(i32, u32)>, k: ObjectKind) -> nat
    decreases objs.len(),
{
    if objs.len() == 0 {
        0
    } else {
        kind_count(objs.drop_last(), k) + if object_kind(objs.last().1) == k {
            1nat
        } else {
            0nat
        }
    }
}

/// The summary of hit objects stated directly: the first time is the least of the
/// times (`i32::MAX` when there is none), the last time the greatest of them and 0
/// (so never negative), and each kind counts the objects whose type bits give it.
pub proof fn lemma_object_summary_law(objs: Seq<(i32, u32)>)
    ensures
        forall|i: int|
            0 <= i < objs.len() ==> first_time(objs) <= (#[trigger] objs[i]).0 && objs[i].0 <= last_time(
                objs,
            ),
        first_time(objs) == i32::MAX || exists|i: int|
            0 <= i < objs.len() && first_time(objs) == (#[trigger] objs[i]).0,
        last_time(objs) >= 0,
        last_time(objs) == 0 || exists|i: int| 0 <= i < objs.len() && last_time(objs) == (#[trigger] objs[i]).0,
        forall|k: ObjectKind|
            #[trigger] kind_count(objs, k) == objs.filter(|o: (i32, u32)| object_kind(o.1) == k).len(),
    decreases objs.len(),
{
    if objs.len() > 0 {
        let prev = objs.drop_last();
        lemma_object_summary_law(prev);
        let n = objs.len() - 1;
        assert(objs =~= prev.push(objs.last()));
        assert forall|i: int| 0 <= i < objs.len() implies first_time(objs) <= (#[trigger] objs[i]).0
            && objs[i].0 <= last_time(objs) by {
            if i < n {
                assert(objs[i] == prev[i]);
            }
        }
        if first_time(objs) != i32::MAX {
            if objs.last().0 < first_time(prev) {
                assert(first_time(objs) == objs[n].0);
            } else {
                let w = choose|i: int| 0 <= i < prev.len() && first_time(prev) == (#[trigger] prev[i]).0;
                assert(objs[w] == prev[w]);
            }
        }
        if last_time(objs) != 0 {
            if objs.last().0 > last_time(prev) {
                assert(last_time(objs) == objs[n].0);
            } else {
                let w = choose|i: int| 0 <= i < prev.len() && last_time(prev) == (#[trigger] prev[i]).0;
                assert(objs[w] == prev[w]);
            }
        }
        assert forall|k: ObjectKind|
            #[trigger] kind_count(objs, k) == objs.filter(|o: (i32, u32)| object_kind(o.1) == k).len() by {
            let pred = |o: (i32, u32)| object_kind(o.1) == k;
            prev.lemma_filter_push(objs.last(), pred);
            assert(kind_count(prev, k) == prev.filter(pred).len());
        }
    } else {
        assert forall|k: ObjectKind|
            #[trigger] kind_count(objs, k) == objs.filter(|o: (i32, u32)| object_kind(o.1) == k).len() by {
            let pred = |o: (i32, u32)| object_kind(o.1) == k;
            assert(objs.filter(pred) =~= Seq::<(i32, u32)>::empty());
        }
    }
}

/// First and last object time and the counts by kind of a beatmap's hit objects.
#[derive(Debug, Clone, Copy, PartialEq, Eq)]
pub struct HitObjectSummary {
    pub first_object: i32,
    pub last_object: i32,
    pub objects: ObjectCounts,
}

/// Summary of the hit objects `objs`, given as (time, type bits); none when no
/// object is earlier than `i32::MAX`.
pub fn tally_hit_objects(objs: &Vec<(i32, u32)>) -> (res: Option<HitObjectSummary>)
    requires
        objs@.len() <= i32::MAX,
    ensures
        first_time(objs@) == i32::MAX ==> res is None,
        first_time(objs@) != i32::MAX ==> (res matches Some(s) && {
            &&& s.first_object == first_time(objs@)
            &&& s.last_object == last_time(objs@)
            &&& s.objects.circles == kind_count(objs@, ObjectKind::Circle)
            &&& s.objects.sliders == kind_count(objs@, ObjectKind::Slider)
            &&& s.objects.spinners == kind_count(objs@, ObjectKind::Spinner)
            &&& s.objects.holds == kind_count(objs@, ObjectKind::Hold)
            &&& s.objects.total == s.objects.circles + s.objects.sliders + s.objects.spinners
                + s.objects.holds
        }),
{
    let mut first: i32 = i32::MAX;
    let mut last: i32 = 0;
    let mut circles: i32 = 0;
    let mut sliders: i32 = 0;
    let mut spinners: i32 = 0;
    let mut holds: i32 = 0;
    let mut i: usize = 0;
    assert(objs@.take(0) =~= Seq::<(i32, u32)>::empty());
    while i < objs.len()
        invariant
            i <= objs@.len() <= i32::MAX,
            first == first_time(objs@.take(i as int)),
            last == last_time(objs@.take(i as int)),
            circles == kind_count(objs@.take(i as int), ObjectKind::Circle),
            sliders == kind_count(objs@.take(i as int), ObjectKind::Slider),
            spinners == kind_count(objs@.take(i as int), ObjectKind::Spinner),
            holds == kind_count(objs@.take(i as int), ObjectKind::Hold),
            circles + sliders + spinners + holds <= i,
            0 <= circles && 0 <= sliders && 0 <= spinners && 0 <= holds,
        decreases objs@.len() - i,
    {
        let (time, bits) = objs[i];
        assert(objs@.take(i + 1).drop_last() =~= objs@.take(i as int));
        assert(objs@.take(i + 1).last() == objs@[i as int]);
        if time < first {
            first = time;
        }
        if time > last {
            last = time;
        }
        match classify_object(bits) {
            ObjectKind::Hold => holds = holds + 1,
            ObjectKind::Spinner => spinners = spinners + 1,
            ObjectKind::Slider => sliders = sliders + 1,
            ObjectKind::Circle => circles = circles + 1,
            ObjectKind::Other => {},
        }
        i = i + 1;
    }
    assert(objs@.take(objs@.len() as int) =~= objs@);
    if first == i32::MAX {
        None
    } else {
        Some(
            HitObjectSummary {
                first_object: first,
                last_object: last,
                objects: ObjectCounts {
                    circles,
                    sliders,
                    spinners,
                    holds,
                    total: circles + sliders + spinners + holds,
                },
            },
        )
    }
}

/// `b` describes the same beatmap as `a`: every field read from memory agrees.
pub open spec fn same_identity(a: BeatmapInfo, b: BeatmapInfo) -> bool {
    &&& a.is_kiai == b.is_kiai
    &&& a.is_break == b.is_break
    &&& a.is_convert == b.is_convert
    &&& a.time.live == b.time.live
    &&& a.status == b.status
    &&& a.checksum == b.checksum
    &&& a.id == b.id
    &&& a.set == b.set
    &&& a.mode == b.mode
    &&& a.artist == b.artist
    &&& a.artist_unicode == b.artist_unicode
    &&& a.title == b.title
    &&& a.title_unicode == b.title_unicode
    &&& a.mapper == b.mapper
    &&& a.version == b.version
    &&& a.folder == b.folder
    &&& a.filename == b.filename
    &&& a.audio_filename == b.audio_filename
    &&& a.background_filename == b.background_filename
}

/// Takes into `info` what the `.osu` file gave: its source, tags and audio
/// length where the file has them, and the object times and counts where it
/// has objects.
pub fn apply_file_facts(info: &mut BeatmapInfo, facts: &OsuFileFacts, objects: Option<HitObjectSummary>)
    ensures
        same_identity(*old(info), *final(info)),
        final(info).source@ == (match facts.source {
            Some(s) => s@,
            None => old(info).source@,
        }),
        final(info).tags@ == (match facts.tags {
            Some(s) => s@,
            None => old(info).tags@,
        }),
        final(info).time.mp3_length == (match facts.audio_length {
            Some(v) => v,
            None => old(info).time.mp3_length,
        }),
        match objects {
            Some(s) => {
                &&& final(info).time.first_object == s.first_object
                &&& final(info).time.last_object == s.last_object
                &&& final(info).objects == s.objects
            },
            None => {
                &&& final(info).time.first_object == old(info).time.first_object
                &&& final(info).time.last_object == old(info).time.last_object
                &&& final(info).objects == old(info).objects
            },
        },
{
    match &facts.source {
        Some(s) => info.source = s.clone(),
        None => {},
    }
    match &facts.tags {
        Some(s) => info.tags = s.clone(),
        None => {},
    }
    match facts.audio_length {
        Some(v) => info.time.mp3_length = v,
        None => {},
    }
    match objects {
        Some(s) => {
            info.time.first_object = s.first_object;
            info.time.last_object = s.last_object;
            info.objects = s.objects;
        },
        None => {},
    }
}

/// Restores into `info`, read again from memory, the file facts that `cached`
/// holds from an earlier read of the same beatmap: source, tags, object times and
/// counts, and the audio length unless memory gave one.
pub fn restore_file_metadata(info: &mut BeatmapInfo, cached: &BeatmapInfo)
    ensures
        same_identity(*old(info), *final(info)),
        final(info).source@ == cached.source@,
        final(info).tags@ == cached.tags@,
        final(info).objects == cached.objects,
        final(info).time.first_object == cached.time.first_object,
        final(info).time.last_object == cached.time.last_object,
        final(info).time.mp3_length == if old(info).time.mp3_length == 0 {
            cached.time.mp3_length
        } else {
            old(info).time.mp3_length
        },
{
    info.source = cached.source.clone();
    info.tags = cached.tags.clone();
    info.objects = cached.objects;
    info.time.first_object = cached.time.first_object;
    info.time.last_object = cached.time.last_object;
    if info.time.mp3_length == 0 {
        info.time.mp3_length = cached.time.mp3_length;
    }
}

} // verus!
