//! Configuration of the high-level reader, and the lookup tables that turn the
//! numbers kept in game memory into the names of the tosu packet.
use crate::text::{append_str, chars_of, hex_lower, hex_lower_chars, string_from, string_of, upper_chars, upper_seq};
use crate::v2::OsuStatusState;
use crate::client::{is_tournament_manager_cmd, is_tournament_manager_spec};
use crate::text::{contains_chars, contains_seq};
use vstd::prelude::*;
use std::time::Duration;

verus! {

/// Which sessions the reader polls.
#[derive(Debug, Clone, Copy, PartialEq, Eq)]
pub enum OsuReaderMode {
    /// Tournament when several clients or a tournament command line is seen, solo otherwise.
    Auto,
    /// A single osu! client.
    Solo,
    /// A tournament manager and its spectator clients.
    Tournament,
}

impl Default for OsuReaderMode {
    fn default() -> (res: Self)
        ensures
            res == OsuReaderMode::Auto,
    {
        OsuReaderMode::Auto
    }
}

/// `Duration` is `Copy`: its `clone` returns the same duration.
pub assume_specification[ <Duration as Clone>::clone ](d: &Duration) -> (res: Duration)
    ensures
        res == *d,
;

/// `Duration::from_millis`: the duration of `ms` milliseconds.
pub uninterp spec fn duration_of_millis(ms: u64) -> Duration;

/// A duration of `ms` milliseconds (`Duration::from_millis`).
#[verifier::external_body]
fn millis(ms: u64) -> (res: Duration)
    ensures
        res == duration_of_millis(ms),
{
    Duration::from_millis(ms)
}

/// Settings of a reader, set one by one before it is built.
#[derive(Debug, Clone)]
pub struct OsuReaderBuilder {
    pub tournament_profile: String,
    pub solo_profile: String,
    pub pointer_width: usize,
    pub scan_limit_bytes: usize,
    pub poll_interval: Duration,
    pub proc_check_interval: Duration,
    pub mode: OsuReaderMode,
    pub enable_pp: bool,
    pub gradual_pp_chunks: usize,
    pub enable_hit_errors: bool,
    pub enable_chat: bool,
}

/// The builder holds the default settings.
pub open spec fn is_default_builder(b: OsuReaderBuilder) -> bool {
    &&& b.tournament_profile@ == "tournament"@
    &&& b.solo_profile@ == "stable"@
    &&& b.pointer_width == 4
    &&& b.scan_limit_bytes == 128 * 1024 * 1024
    &&& b.poll_interval == duration_of_millis(16)
    &&& b.proc_check_interval == duration_of_millis(1500)
    &&& b.mode == OsuReaderMode::Auto
    &&& b.enable_pp
    &&& b.gradual_pp_chunks == 100
    &&& b.enable_hit_errors
    &&& b.enable_chat
}

/// `old` and `new` agree on every setting but the ones `changed` lists by position
/// (0 tournament profile, 1 solo profile, 2 pointer width, 3 scan limit, 4 poll
/// interval, 5 process check interval, 6 mode, 7 pp, 8 pp chunks, 9 hit errors, 10 chat).
pub open spec fn same_except(old: OsuReaderBuilder, new: OsuReaderBuilder, changed: Set<int>) -> bool {
    &&& (!changed.contains(0) ==> new.tournament_profile@ == old.tournament_profile@)
    &&& (!changed.contains(1) ==> new.solo_profile@ == old.solo_profile@)
    &&& (!changed.contains(2) ==> new.pointer_width == old.pointer_width)
    &&& (!changed.contains(3) ==> new.scan_limit_bytes == old.scan_limit_bytes)
    &&& (!changed.contains(4) ==> new.poll_interval == old.poll_interval)
    &&& (!changed.contains(5) ==> new.proc_check_interval == old.proc_check_interval)
    &&& (!changed.contains(6) ==> new.mode == old.mode)
    &&& (!changed.contains(7) ==> new.enable_pp == old.enable_pp)
    &&& (!changed.contains(8) ==> new.gradual_pp_chunks == old.gradual_pp_chunks)
    &&& (!changed.contains(9) ==> new.enable_hit_errors == old.enable_hit_errors)
    &&& (!changed.contains(10) ==> new.enable_chat == old.enable_chat)
}

impl Default for OsuReaderBuilder {
    fn default() -> (res: Self)
        ensures
            is_default_builder(res),
    {
        OsuReaderBuilder {
            tournament_profile: string_from("tournament"),
            solo_profile: string_from("stable"),
            pointer_width: 4,
            scan_limit_bytes: 128 * 1024 * 1024,
            poll_interval: millis(16),
            proc_check_interval: millis(1500),
            mode: OsuReaderMode::Auto,
            enable_pp: true,
            gradual_pp_chunks: 100,
            enable_hit_errors: true,
            enable_chat: true,
        }
    }
}

impl OsuReaderBuilder {
    /// A builder with the default settings.
    pub fn new() -> (res: Self)
        ensures
            is_default_builder(res),
    {
        Self::default()
    }

    /// Sets the profile used for tournament clients.
    pub fn tournament_profile(self, profile: &str) -> (res: Self)
        ensures
            res.tournament_profile@ == profile@,
            same_except(self, res, set![0]),
    {
        let mut b = self;
        b.tournament_profile = string_from(profile);
        b
    }

    /// Sets the profile used for a single client.
    pub fn solo_profile(self, profile: &str) -> (res: Self)
        ensures
            res.solo_profile@ == profile@,
            same_except(self, res, set![1]),
    {
        let mut b = self;
        b.solo_profile = string_from(profile);
        b
    }

    /// Sets the pointer width of the target process.
    pub fn pointer_width(self, width: usize) -> (res: Self)
        ensures
            res.pointer_width == width,
            same_except(self, res, set![2]),
    {
        let mut b = self;
        b.pointer_width = width;
        b
    }

    /// Sets the pointer width when one is given, and keeps it otherwise.
    pub fn opt_pointer_width(self, width: Option<usize>) -> (res: Self)
        ensures
            width matches Some(w) ==> res.pointer_width == w,
            width is None ==> res.pointer_width == self.pointer_width,
            same_except(self, res, set![2]),
    {
        let mut b = self;
        if let Some(w) = width {
            b.pointer_width = w;
        }
        b
    }

    /// Sets the signature scanning budget in bytes.
    pub fn scan_limit_bytes(self, limit: usize) -> (res: Self)
        ensures
            res.scan_limit_bytes == limit,
            same_except(self, res, set![3]),
    {
        let mut b = self;
        b.scan_limit_bytes = limit;
        b
    }

    /// Sets the interval between two polls.
    pub fn poll_interval(self, interval: Duration) -> (res: Self)
        ensures
            res.poll_interval == interval,
            same_except(self, res, set![4]),
    {
        let mut b = self;
        b.poll_interval = interval;
        b
    }

    /// Sets the interval between two process checks.
    pub fn proc_check_interval(self, interval: Duration) -> (res: Self)
        ensures
            res.proc_check_interval == interval,
            same_except(self, res, set![5]),
    {
        let mut b = self;
        b.proc_check_interval = interval;
        b
    }

    /// Sets the mode.
    pub fn mode(self, mode: OsuReaderMode) -> (res: Self)
        ensures
            res.mode == mode,
            same_except(self, res, set![6]),
    {
        let mut b = self;
        b.mode = mode;
        b
    }

    /// Forces tournament mode, or solo mode when `enable` is false.
    pub fn enable_tournament(self, enable: bool) -> (res: Self)
        ensures
            res.mode == (if enable {
                OsuReaderMode::Tournament
            } else {
                OsuReaderMode::Solo
            }),
            same_except(self, res, set![6]),
    {
        let mut b = self;
        b.mode = if enable {
            OsuReaderMode::Tournament
        } else {
            OsuReaderMode::Solo
        };
        b
    }

    /// Turns performance point calculation on or off.
    pub fn enable_pp(self, enable: bool) -> (res: Self)
        ensures
            res.enable_pp == enable,
            same_except(self, res, set![7]),
    {
        let mut b = self;
        b.enable_pp = enable;
        b
    }

    /// Sets the number of gradual performance checkpoints, clamped to 1..=250.
    pub fn gradual_pp_chunks(self, chunks: usize) -> (res: Self)
        ensures
            res.gradual_pp_chunks == (if chunks < 1 {
                1
            } else if chunks > 250 {
                250
            } else {
                chunks
            }),
            same_except(self, res, set![8]),
    {
        let mut b = self;
        b.gradual_pp_chunks = if chunks < 1 {
            1
        } else if chunks > 250 {
            250
        } else {
            chunks
        };
        b
    }

    /// Turns the hit error list on or off.
    pub fn enable_hit_errors(self, enable: bool) -> (res: Self)
        ensures
            res.enable_hit_errors == enable,
            same_except(self, res, set![9]),
    {
        let mut b = self;
        b.enable_hit_errors = enable;
        b
    }

    /// Turns tournament chat reading on or off.
    pub fn enable_chat(self, enable: bool) -> (res: Self)
        ensures
            res.enable_chat == enable,
            same_except(self, res, set![10]),
    {
        let mut b = self;
        b.enable_chat = enable;
        b
    }
}

/// `folder` and `file` joined by a backslash; an empty part is left out.
pub open spec fn join_path_spec(folder: Seq<char>, file: Seq<char>) -> Seq<char> {
    if folder.len() == 0 {
        file
    } else if file.len() == 0 {
        folder
    } else {
        folder + seq!['\\'] + file
    }
}

/// Joins a folder and a file name with a backslash, leaving out an empty part.
pub fn join_path(folder: &str, file: &str) -> (res: String)
    ensures
        res@ == join_path_spec(folder@, file@),
{
    let f = chars_of(folder);
    let g = chars_of(file);
    if f.len() == 0 {
        string_from(file)
    } else if g.len() == 0 {
        string_from(folder)
    } else {
        let mut out = f;
        out.push('\\');
        append_str(&mut out, file);
        string_of(out.as_slice())
    }
}

/// Name of a login status.
pub open spec fn login_status_spec(value: i32) -> Seq<char> {
    if value == 0 {
        "reconnecting"@
    } else if value == 256 {
        "guest"@
    } else if value == 257 {
        "recieving_data"@
    } else if value == 65537 {
        "disconnected"@
    } else if value == 65793 {
        "connected"@
    } else {
        ""@
    }
}

/// Name of a login status; empty for an unknown one.
pub fn login_status_name(value: i32) -> (res: &'static str)
    ensures
        res@ == login_status_spec(value),
{
    if value == 0 {
        "reconnecting"
    } else if value == 256 {
        "guest"
    } else if value == 257 {
        "recieving_data"
    } else if value == 65537 {
        "disconnected"
    } else if value == 65793 {
        "connected"
    } else {
        ""
    }
}

/// Name of a Bancho status.
pub open spec fn bancho_status_spec(value: i32) -> Seq<char> {
    if value == 0 {
        "idle"@
    } else if value == 1 {
        "afk"@
    } else if value == 2 {
        "playing"@
    } else if value == 3 {
        "editing"@
    } else if value == 4 {
        "modding"@
    } else if value == 5 {
        "multiplayer"@
    } else if value == 6 {
        "watching"@
    } else if value == 7 {
        "unknown"@
    } else if value == 8 {
        "testing"@
    } else if value == 9 {
        "submitting"@
    } else if value == 10 {
        "paused"@
    } else if value == 11 {
        "lobby"@
    } else if value == 12 {
        "multiplaying"@
    } else if value == 13 {
        "osuDirect"@
    } else {
        ""@
    }
}

/// Name of a Bancho status; empty for an unknown one.
pub fn bancho_status_name(value: i32) -> (res: &'static str)
    ensures
        res@ == bancho_status_spec(value),
{
    if value == 0 {
        "idle"
    } else if value == 1 {
        "afk"
    } else if value == 2 {
        "playing"
    } else if value == 3 {
        "editing"
    } else if value == 4 {
        "modding"
    } else if value == 5 {
        "multiplayer"
    } else if value == 6 {
        "watching"
    } else if value == 7 {
        "unknown"
    } else if value == 8 {
        "testing"
    } else if value == 9 {
        "submitting"
    } else if value == 10 {
        "paused"
    } else if value == 11 {
        "lobby"
    } else if value == 12 {
        "multiplaying"
    } else if value == 13 {
        "osuDirect"
    } else {
        ""
    }
}

/// Name of a ruleset.
pub open spec fn ruleset_spec(value: i32) -> Seq<char> {
    if value == 0 {
        "osu"@
    } else if value == 1 {
        "taiko"@
    } else if value == 2 {
        "fruits"@
    } else if value == 3 {
        "mania"@
    } else {
        ""@
    }
}

/// Name of a ruleset; empty for an unknown one.
pub fn ruleset_name(value: i32) -> (res: &'static str)
    ensures
        res@ == ruleset_spec(value),
{
    if value == 0 {
        "osu"
    } else if value == 1 {
        "taiko"
    } else if value == 2 {
        "fruits"
    } else if value == 3 {
        "mania"
    } else {
        ""
    }
}

/// Lower-case code of osu!'s country number `value` (1-based); empty outside the table.
pub open spec fn country_spec(value: i32) -> Seq<char> {
    match value {
        1 => "oc"@,
        2 => "eu"@,
        3 => "ad"@,
        4 => "ae"@,
        5 => "af"@,
        6 => "ag"@,
        7 => "ai"@,
        8 => "al"@,
        9 => "am"@,
        10 => "an"@,
        11 => "ao"@,
        12 => "aq"@,
        13 => "ar"@,
        14 => "as"@,
        15 => "at"@,
        16 => "au"@,
        17 => "aw"@,
        18 => "az"@,
        19 => "ba"@,
        20 => "bb"@,
        21 => "bd"@,
        22 => "be"@,
        23 => "bf"@,
        24 => "bg"@,
        25 => "bh"@,
        26 => "bi"@,
        27 => "bj"@,
        28 => "bm"@,
        29 => "bn"@,
        30 => "bo"@,
        31 => "br"@,
        32 => "bs"@,
        33 => "bt"@,
        34 => "bv"@,
        35 => "bw"@,
        36 => "by"@,
        37 => "bz"@,
        38 => "ca"@,
        39 => "cc"@,
        40 => "cd"@,
        41 => "cf"@,
        42 => "cg"@,
        43 => "ch"@,
        44 => "ci"@,
        45 => "ck"@,
        46 => "cl"@,
        47 => "cm"@,
        48 => "cn"@,
        49 => "co"@,
        50 => "cr"@,
        51 => "cu"@,
        52 => "cv"@,
        53 => "cw"@,
        54 => "cx"@,
        55 => "cy"@,
        56 => "cz"@,
        57 => "de"@,
        58 => "dj"@,
        59 => "dk"@,
        60 => "dm"@,
        61 => "do"@,
        62 => "dz"@,
        63 => "ec"@,
        64 => "ee"@,
        65 => "eg"@,
        66 => "eh"@,
        67 => "er"@,
        68 => "es"@,
        69 => "et"@,
        70 => "fi"@,
        71 => "fj"@,
        72 => "fk"@,
        73 => "fm"@,
        74 => "fo"@,
        75 => "fr"@,
        76 => "fx"@,
        77 => "ga"@,
        78 => "gb"@,
        79 => "gd"@,
        80 => "ge"@,
        81 => "gf"@,
        82 => "gh"@,
        83 => "gi"@,
        84 => "gl"@,
        85 => "gm"@,
        86 => "gn"@,
        87 => "gq"@,
        88 => "gr"@,
        89 => "gs"@,
        90 => "gt"@,
        91 => "gu"@,
        92 => "gw"@,
        93 => "gy"@,
        94 => "hk"@,
        95 => "hm"@,
        96 => "hn"@,
        97 => "hr"@,
        98 => "ht"@,
        99 => "hu"@,
        100 => "id"@,
        101 => "ie"@,
        102 => "il"@,
        103 => "in"@,
        104 => "io"@,
        105 => "iq"@,
        106 => "ir"@,
        107 => "is"@,
        108 => "it"@,
        109 => "jm"@,
        110 => "jo"@,
        111 => "jp"@,
        112 => "ke"@,
        113 => "kg"@,
        114 => "kh"@,
        115 => "ki"@,
        116 => "km"@,
        117 => "kn"@,
        118 => "kp"@,
        119 => "kr"@,
        120 => "kw"@,
        121 => "ky"@,
        122 => "kz"@,
        123 => "la"@,
        124 => "lb"@,
        125 => "lc"@,
        126 => "li"@,
        127 => "lk"@,
        128 => "lr"@,
        129 => "ls"@,
        130 => "lt"@,
        131 => "lu"@,
        132 => "lv"@,
        133 => "ly"@,
        134 => "ma"@,
        135 => "mc"@,
        136 => "md"@,
        137 => "mg"@,
        138 => "mh"@,
        139 => "mk"@,
        140 => "ml"@,
        141 => "mm"@,
        142 => "mn"@,
        143 => "mo"@,
        144 => "mq"@,
        145 => "mr"@,
        146 => "ms"@,
        147 => "mt"@,
        148 => "mu"@,
        149 => "mv"@,
        150 => "mw"@,
        151 => "mx"@,
        152 => "my"@,
        153 => "mz"@,
        154 => "na"@,
        155 => "nc"@,
        156 => "ne"@,
        157 => "nf"@,
        158 => "ng"@,
        159 => "ni"@,
        160 => "nl"@,
        161 => "no"@,
        162 => "np"@,
        163 => "nr"@,
        164 => "nu"@,
        165 => "nz"@,
        166 => "om"@,
        167 => "pa"@,
        168 => "pe"@,
        169 => "pf"@,
        170 => "pg"@,
        171 => "ph"@,
        172 => "pk"@,
        173 => "pl"@,
        174 => "pm"@,
        175 => "pn"@,
        176 => "pr"@,
        177 => "ps"@,
        178 => "pt"@,
        179 => "pw"@,
        180 => "py"@,
        181 => "qa"@,
        182 => "re"@,
        183 => "ro"@,
        184 => "ru"@,
        185 => "rw"@,
        186 => "sa"@,
        187 => "sb"@,
        188 => "sc"@,
        189 => "sd"@,
        190 => "se"@,
        191 => "sg"@,
        192 => "sh"@,
        193 => "si"@,
        194 => "sj"@,
        195 => "sk"@,
        196 => "sl"@,
        197 => "sm"@,
        198 => "sn"@,
        199 => "so"@,
        200 => "sr"@,
        201 => "st"@,
        202 => "sv"@,
        203 => "sy"@,
        204 => "sz"@,
        205 => "tc"@,
        206 => "td"@,
        207 => "tf"@,
        208 => "tg"@,
        209 => "th"@,
        210 => "tj"@,
        211 => "tk"@,
        212 => "tm"@,
        213 => "tn"@,
        214 => "to"@,
        215 => "tl"@,
        216 => "tr"@,
        217 => "tt"@,
        218 => "tv"@,
        219 => "tw"@,
        220 => "tz"@,
        221 => "ua"@,
        222 => "ug"@,
        223 => "um"@,
        224 => "us"@,
        225 => "uy"@,
        226 => "uz"@,
        227 => "va"@,
        228 => "vc"@,
        229 => "ve"@,
        230 => "vg"@,
        231 => "vi"@,
        232 => "vn"@,
        233 => "vu"@,
        234 => "wf"@,
        235 => "ws"@,
        236 => "ye"@,
        237 => "yt"@,
        238 => "rs"@,
        239 => "za"@,
        240 => "zm"@,
        241 => "me"@,
        242 => "zw"@,
        243 => "xx"@,
        244 => "a2"@,
        245 => "o1"@,
        246 => "ax"@,
        247 => "gg"@,
        248 => "im"@,
        249 => "je"@,
        250 => "bl"@,
        251 => "mf"@,
        _ => ""@,
    }
}

/// Lower-case country code of osu!'s country number; empty outside the table.
pub fn country_name(value: i32) -> (res: &'static str)
    ensures
        res@ == country_spec(value),
{
    match value {
        1 => "oc",
        2 => "eu",
        3 => "ad",
        4 => "ae",
        5 => "af",
        6 => "ag",
        7 => "ai",
        8 => "al",
        9 => "am",
        10 => "an",
        11 => "ao",
        12 => "aq",
        13 => "ar",
        14 => "as",
        15 => "at",
        16 => "au",
        17 => "aw",
        18 => "az",
        19 => "ba",
        20 => "bb",
        21 => "bd",
        22 => "be",
        23 => "bf",
        24 => "bg",
        25 => "bh",
        26 => "bi",
        27 => "bj",
        28 => "bm",
        29 => "bn",
        30 => "bo",
        31 => "br",
        32 => "bs",
        33 => "bt",
        34 => "bv",
        35 => "bw",
        36 => "by",
        37 => "bz",
        38 => "ca",
        39 => "cc",
        40 => "cd",
        41 => "cf",
        42 => "cg",
        43 => "ch",
        44 => "ci",
        45 => "ck",
        46 => "cl",
        47 => "cm",
        48 => "cn",
        49 => "co",
        50 => "cr",
        51 => "cu",
        52 => "cv",
        53 => "cw",
        54 => "cx",
        55 => "cy",
        56 => "cz",
        57 => "de",
        58 => "dj",
        59 => "dk",
        60 => "dm",
        61 => "do",
        62 => "dz",
        63 => "ec",
        64 => "ee",
        65 => "eg",
        66 => "eh",
        67 => "er",
        68 => "es",
        69 => "et",
        70 => "fi",
        71 => "fj",
        72 => "fk",
        73 => "fm",
        74 => "fo",
        75 => "fr",
        76 => "fx",
        77 => "ga",
        78 => "gb",
        79 => "gd",
        80 => "ge",
        81 => "gf",
        82 => "gh",
        83 => "gi",
        84 => "gl",
        85 => "gm",
        86 => "gn",
        87 => "gq",
        88 => "gr",
        89 => "gs",
        90 => "gt",
        91 => "gu",
        92 => "gw",
        93 => "gy",
        94 => "hk",
        95 => "hm",
        96 => "hn",
        97 => "hr",
        98 => "ht",
        99 => "hu",
        100 => "id",
        101 => "ie",
        102 => "il",
        103 => "in",
        104 => "io",
        105 => "iq",
        106 => "ir",
        107 => "is",
        108 => "it",
        109 => "jm",
        110 => "jo",
        111 => "jp",
        112 => "ke",
        113 => "kg",
        114 => "kh",
        115 => "ki",
        116 => "km",
        117 => "kn",
        118 => "kp",
        119 => "kr",
        120 => "kw",
        121 => "ky",
        122 => "kz",
        123 => "la",
        124 => "lb",
        125 => "lc",
        126 => "li",
        127 => "lk",
        128 => "lr",
        129 => "ls",
        130 => "lt",
        131 => "lu",
        132 => "lv",
        133 => "ly",
        134 => "ma",
        135 => "mc",
        136 => "md",
        137 => "mg",
        138 => "mh",
        139 => "mk",
        140 => "ml",
        141 => "mm",
        142 => "mn",
        143 => "mo",
        144 => "mq",
        145 => "mr",
        146 => "ms",
        147 => "mt",
        148 => "mu",
        149 => "mv",
        150 => "mw",
        151 => "mx",
        152 => "my",
        153 => "mz",
        154 => "na",
        155 => "nc",
        156 => "ne",
        157 => "nf",
        158 => "ng",
        159 => "ni",
        160 => "nl",
        161 => "no",
        162 => "np",
        163 => "nr",
        164 => "nu",
        165 => "nz",
        166 => "om",
        167 => "pa",
        168 => "pe",
        169 => "pf",
        170 => "pg",
        171 => "ph",
        172 => "pk",
        173 => "pl",
        174 => "pm",
        175 => "pn",
        176 => "pr",
        177 => "ps",
        178 => "pt",
        179 => "pw",
        180 => "py",
        181 => "qa",
        182 => "re",
        183 => "ro",
        184 => "ru",
        185 => "rw",
        186 => "sa",
        187 => "sb",
        188 => "sc",
        189 => "sd",
        190 => "se",
        191 => "sg",
        192 => "sh",
        193 => "si",
        194 => "sj",
        195 => "sk",
        196 => "sl",
        197 => "sm",
        198 => "sn",
        199 => "so",
        200 => "sr",
        201 => "st",
        202 => "sv",
        203 => "sy",
        204 => "sz",
        205 => "tc",
        206 => "td",
        207 => "tf",
        208 => "tg",
        209 => "th",
        210 => "tj",
        211 => "tk",
        212 => "tm",
        213 => "tn",
        214 => "to",
        215 => "tl",
        216 => "tr",
        217 => "tt",
        218 => "tv",
        219 => "tw",
        220 => "tz",
        221 => "ua",
        222 => "ug",
        223 => "um",
        224 => "us",
        225 => "uy",
        226 => "uz",
        227 => "va",
        228 => "vc",
        229 => "ve",
        230 => "vg",
        231 => "vi",
        232 => "vn",
        233 => "vu",
        234 => "wf",
        235 => "ws",
        236 => "ye",
        237 => "yt",
        238 => "rs",
        239 => "za",
        240 => "zm",
        241 => "me",
        242 => "zw",
        243 => "xx",
        244 => "a2",
        245 => "o1",
        246 => "ax",
        247 => "gg",
        248 => "im",
        249 => "je",
        250 => "bl",
        251 => "mf",
        _ => "",
    }
}

/// The profile part of the packet, apart from its fractional numbers (level,
/// accuracy), which the caller adds.
#[derive(Debug, Clone, Default, PartialEq)]
pub struct ProfileState {
    pub user_status: OsuStatusState,
    pub bancho_status: OsuStatusState,
    pub id: i32,
    pub name: String,
    pub mode: OsuStatusState,
    pub ranked_score: i64,
    pub pp: i32,
    pub play_count: i32,
    pub global_rank: i32,
    pub country_code: OsuStatusState,
    pub background_colour: String,
}

/// The profile shown while nobody is logged in.
pub fn guest_profile() -> (res: ProfileState)
    ensures
        res.user_status.number == 256 && res.user_status.name@ == "guest"@,
        res.bancho_status.number == 0 && res.bancho_status.name@ == "idle"@,
        res.id == -1,
        res.name@ == "Guest"@,
        res.mode.number == 0 && res.mode.name@ == "osu"@,
        res.ranked_score == 0 && res.pp == 0 && res.play_count == 0 && res.global_rank == 0,
        res.country_code.number == 0 && res.country_code.name@.len() == 0,
        res.background_colour@ == "ff010101"@,
{
    ProfileState {
        user_status: OsuStatusState { number: 256, name: string_from("guest") },
        bancho_status: OsuStatusState { number: 0, name: string_from("idle") },
        id: -1,
        name: string_from("Guest"),
        mode: OsuStatusState { number: 0, name: string_from("osu") },
        ranked_score: 0,
        pp: 0,
        play_count: 0,
        global_rank: 0,
        country_code: OsuStatusState { number: 0, name: String::new() },
        background_colour: string_from("ff010101"),
    }
}

/// The integer and text values read from the local user's profile.
#[derive(Debug, Clone, Default)]
pub struct LocalProfileFields {
    pub id: i32,
    pub name: String,
    pub ranked_score: i64,
    pub play_count: i32,
    pub play_mode: i32,
    pub rank: i32,
    pub country_code: i32,
    pub performance_points: i32,
    pub raw_bancho_status: i32,
    pub raw_login_status: i32,
    pub background_colour: u32,
}

/// The packet's profile for the local user: each number with its name (the
/// country code in upper case), and the background colour in lower-case hexadecimal.
pub fn profile_state_from_local(p: &LocalProfileFields) -> (res: ProfileState)
    ensures
        res.user_status.number == p.raw_login_status,
        res.user_status.name@ == login_status_spec(p.raw_login_status),
        res.bancho_status.number == p.raw_bancho_status,
        res.bancho_status.name@ == bancho_status_spec(p.raw_bancho_status),
        res.id == p.id,
        res.name@ == p.name@,
        res.mode.number == p.play_mode,
        res.mode.name@ == ruleset_spec(p.play_mode),
        res.ranked_score == p.ranked_score,
        res.pp == p.performance_points,
        res.play_count == p.play_count,
        res.global_rank == p.rank,
        res.country_code.number == p.country_code,
        res.country_code.name@ == upper_seq(country_spec(p.country_code)),
        res.background_colour@ == hex_lower(p.background_colour as nat),
{
    let country = chars_of(country_name(p.country_code));
    let colour = hex_lower_chars(p.background_colour as u64);
    ProfileState {
        user_status: OsuStatusState {
            number: p.raw_login_status,
            name: string_from(login_status_name(p.raw_login_status)),
        },
        bancho_status: OsuStatusState {
            number: p.raw_bancho_status,
            name: string_from(bancho_status_name(p.raw_bancho_status)),
        },
        id: p.id,
        name: p.name.clone(),
        mode: OsuStatusState { number: p.play_mode, name: string_from(ruleset_name(p.play_mode)) },
        ranked_score: p.ranked_score,
        pp: p.performance_points,
        play_count: p.play_count,
        global_rank: p.rank,
        country_code: OsuStatusState {
            number: p.country_code,
            name: string_of(upper_chars(country.as_slice()).as_slice()),
        },
        background_colour: string_of(colour.as_slice()),
    }
}

/// Whether the reader polls the tournament session: always in tournament mode,
/// never in solo mode, and in automatic mode when a tournament was detected.
pub fn uses_tournament_session(mode: OsuReaderMode, detected: bool) -> (res: bool)
    ensures
        mode == OsuReaderMode::Solo ==> !res,
        mode == OsuReaderMode::Tournament ==> res,
        mode == OsuReaderMode::Auto ==> res == detected,
{
    match mode {
        OsuReaderMode::Solo => false,
        OsuReaderMode::Tournament => true,
        OsuReaderMode::Auto => detected,
    }
}

/// Whether the reader looks at the running osu! processes again: when it knows
/// of none, or, outside solo mode, once the check interval has passed.
pub fn process_check_due(no_known_pids: bool, mode: OsuReaderMode, since_last_ms: u128, interval_ms: u128) -> (res: bool)
    ensures
        res == (no_known_pids || (mode != OsuReaderMode::Solo && since_last_ms >= interval_ms)),
{
    let solo = match mode {
        OsuReaderMode::Solo => true,
        _ => false,
    };
    no_known_pids || (!solo && since_last_ms >= interval_ms)
}

/// Whether a command line belongs to a tournament client: a spectator or a manager.
pub open spec fn is_tournament_command_spec(cmd: Seq<char>) -> bool {
    contains_seq(cmd, "-spectateclient"@) || is_tournament_manager_spec(cmd)
}

/// Whether the command line `cmd` belongs to a tournament client.
pub fn is_tournament_command(cmd: &str) -> (res: bool)
    ensures
        res == is_tournament_command_spec(cmd@),
{
    let c = chars_of(cmd);
    let marker = chars_of("-spectateclient");
    contains_chars(c.as_slice(), marker.as_slice()) || is_tournament_manager_cmd(cmd)
}

/// Whether the running clients make a tournament: several osu! processes, or one
/// with a tournament command line.
pub fn detect_tournament(process_count: usize, commands: &Vec<String>) -> (res: bool)
    ensures
        res == (process_count > 1 || exists|i: int|
            0 <= i < commands@.len() && is_tournament_command_spec(#[trigger] commands@[i]@)),
{
    if process_count > 1 {
        return true;
    }
    let mut i: usize = 0;
    while i < commands.len()
        invariant
            i <= commands@.len(),
            forall|j: int| 0 <= j < i ==> !is_tournament_command_spec(#[trigger] commands@[j]@),
        decreases commands@.len() - i,
    {
        if is_tournament_command(commands[i].as_str()) {
            return true;
        }
        i = i + 1;
    }
    false
}

} // verus!
