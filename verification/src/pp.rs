//! Mods for the performance calculator, and which precomputed difficulty chunk
//! stands for a play in progress. The calculation itself, in floating point, is
//! the calculator's.
use crate::text::{chars_equal, chars_of, replace_all, replace_chars, string_of, trim, trim_chars, upper_seq};
use rosu_mods::GameModsLegacy;
use vstd::prelude::*;

verus! {

/// The bits that legacy mods use (all but the two highest).
pub const LEGACY_MODS_MASK: u32 = 0x3fff_ffff;
/// Fewest and most difficulty chunks of a gradual calculation.
pub const MIN_CHUNKS: usize = 1;
pub const MAX_CHUNKS: usize = 250;
/// Hits per chunk of the coarse live calculation.
pub const HITS_PER_COARSE_CHUNK: u32 = 10;

/// `GameModsLegacy::from_bits` followed by `bits`: the known mod bits of `bits`,
/// which the crate computes as `bits & (u32::MAX >> 2)`.
#[verifier::external_body]
fn legacy_mods_from_bits(bits: u32) -> (res: u32)
    ensures
        res == bits & LEGACY_MODS_MASK,
{
    GameModsLegacy::from_bits(bits).bits()
}

/// The mods of a bit mask, for the calculator: the bits of known legacy mods.
pub fn parse_mods_bits(mods_bits: u32) -> (res: u32)
    ensures
        res == mods_bits & LEGACY_MODS_MASK,
{
    legacy_mods_from_bits(mods_bits)
}

/// What `str::to_uppercase` gives for `s` (full Unicode upper case).
pub uninterp spec fn unicode_upper(s: Seq<char>) -> Seq<char>;

/// `str::to_uppercase`: the Unicode upper case of `s`, as the standard library's
/// tables give it; the contract only names it.
#[verifier::external_body]
fn to_uppercase(s: &str) -> (res: String)
    ensures
        res@ == unicode_upper(s@),
{
    s.to_uppercase()
}

/// The legacy mod bits of one acronym chunk, as `GameModsLegacy::from_str` reads
/// it (`NC` and `PF` carry the bits of `DT` and `SD` too); none for any other text.
pub open spec fn acronym_bits(c: Seq<char>) -> Option<u32> {
    if c == "NM"@ {
        Some(0u32)
    } else if c == "NF"@ {
        Some(1u32)
    } else if c == "EZ"@ {
        Some(2u32)
    } else if c == "TD"@ {
        Some(4u32)
    } else if c == "HD"@ {
        Some(8u32)
    } else if c == "HR"@ {
        Some(16u32)
    } else if c == "SD"@ {
        Some(32u32)
    } else if c == "DT"@ {
        Some(64u32)
    } else if c == "RX"@ || c == "RL"@ {
        Some(128u32)
    } else if c == "HT"@ {
        Some(256u32)
    } else if c == "NC"@ {
        Some(576u32)
    } else if c == "FL"@ {
        Some(1024u32)
    } else if c == "SO"@ {
        Some(4096u32)
    } else if c == "AP"@ {
        Some(8192u32)
    } else if c == "PF"@ {
        Some(16416u32)
    } else if c == "FI"@ {
        Some(0x10_0000u32)
    } else if c == "RD"@ {
        Some(0x20_0000u32)
    } else if c == "TP"@ {
        Some(0x80_0000u32)
    } else if c == "V2"@ {
        Some(0x2000_0000u32)
    } else if c == "MR"@ {
        Some(0x4000_0000u32)
    } else if c == "1K"@ || c == "K1"@ {
        Some(0x400_0000u32)
    } else if c == "2K"@ || c == "K2"@ {
        Some(0x1000_0000u32)
    } else if c == "3K"@ || c == "K3"@ {
        Some(0x800_0000u32)
    } else if c == "4K"@ || c == "K4"@ {
        Some(0x8000u32)
    } else if c == "5K"@ || c == "K5"@ {
        Some(0x1_0000u32)
    } else if c == "6K"@ || c == "K6"@ {
        Some(0x2_0000u32)
    } else if c == "7K"@ || c == "K7"@ {
        Some(0x4_0000u32)
    } else if c == "8K"@ || c == "K8"@ {
        Some(0x8_0000u32)
    } else if c == "9K"@ || c == "K9"@ {
        Some(0x100_0000u32)
    } else {
        None
    }
}

/// The bits of the mods whose acronyms make up `s`, read two characters at a time
/// (a trailing single character is a chunk of its own); none where a chunk is no
/// acronym.
pub open spec fn acronym_chunks_bits(s: Seq<char>) -> Option<u32>
    decreases s.len(),
{
    if s.len() == 0 {
        Some(0u32)
    } else {
        let n = if s.len() < 2 {
            s.len() as int
        } else {
            2
        };
        match acronym_bits(s.take(n)) {
            None => None,
            Some(b) => match acronym_chunks_bits(s.skip(n)) {
                None => None,
                Some(r) => Some(b | r),
            },
        }
    }
}

/// `GameModsLegacy::from_str`, as the bits of the parsed mods: the string is put in
/// ASCII upper case, cut into chunks of two characters, and each chunk is looked
/// up in the crate's acronym table; the flags found are united, and a chunk that
/// is no acronym makes the whole parse fail.
#[verifier::external_body]
fn parse_acronyms(s: &str) -> (res: Option<u32>)
    ensures
        res == acronym_chunks_bits(upper_seq(s@)),
{
    match s.parse::<GameModsLegacy>() {
        Ok(m) => Some(m.bits()),
        Err(_) => None,
    }
}

/// The text left to parse of the upper-cased mod string `upper`: none for an
/// empty string, `NM` or `NONE` (no mods); otherwise the string without its
/// ScoreV2 spellings (`SCOREV2`, then `SV2`, then `V2`), trimmed.
pub open spec fn mods_candidate_spec(upper: Seq<char>) -> Option<Seq<char>> {
    if upper.len() == 0 || upper == "NM"@ || upper == "NONE"@ {
        None
    } else {
        Some(
            trim(
                replace_all(
                    replace_all(replace_all(upper, "SCOREV2"@, ""@), "SV2"@, ""@),
                    "V2"@,
                    ""@,
                ),
            ),
        )
    }
}

/// The acronym text that an upper-cased mod string leaves to parse.
pub fn mods_candidate(upper: &str) -> (res: Option<String>)
    ensures
        match mods_candidate_spec(upper@) {
            Some(c) => res matches Some(s) && s@ == c,
            None => res is None,
        },
{
    let u = chars_of(upper);
    let nm = chars_of("NM");
    let none = chars_of("NONE");
    if u.len() == 0 || chars_equal(u.as_slice(), nm.as_slice()) || chars_equal(
        u.as_slice(),
        none.as_slice(),
    ) {
        return None;
    }
    proof {
        reveal_strlit("SCOREV2");
        reveal_strlit("SV2");
        reveal_strlit("V2");
    }
    let empty = chars_of("");
    let a = replace_chars(u.as_slice(), chars_of("SCOREV2").as_slice(), empty.as_slice());
    let b = replace_chars(a.as_slice(), chars_of("SV2").as_slice(), empty.as_slice());
    let c = replace_chars(b.as_slice(), chars_of("V2").as_slice(), empty.as_slice());
    let t = trim_chars(c.as_slice());
    Some(string_of(t.as_slice()))
}

/// The mod bits of a mod string: the empty string, `NM` and `NONE` (in any case)
/// are no mods; ScoreV2 spellings are ignored; the rest is read as acronyms, and
/// text that is no acronym gives no mods.
pub open spec fn legacy_mods_spec(mod_str: Seq<char>) -> u32 {
    match mods_candidate_spec(unicode_upper(trim(mod_str))) {
        None => 0,
        Some(c) => match acronym_chunks_bits(upper_seq(c)) {
            Some(bits) => bits,
            None => 0,
        },
    }
}

/// Parses a legacy mod string such as `HDHR` or `DT` into mod bits.
pub fn parse_legacy_mods(mod_str: &str) -> (res: u32)
    ensures
        res == legacy_mods_spec(mod_str@),
{
    let trimmed = string_of(trim_chars(chars_of(mod_str).as_slice()).as_slice());
    let upper = to_uppercase(trimmed.as_str());
    match mods_candidate(upper.as_str()) {
        None => 0,
        Some(c) => match parse_acronyms(c.as_str()) {
            Some(bits) => bits,
            None => 0,
        },
    }
}

/// A gradual chunk count brought into 1 to [`MAX_CHUNKS`].
pub fn clamp_chunk_count(chunk_count: usize) -> (res: usize)
    ensures
        res == if chunk_count < MIN_CHUNKS {
            MIN_CHUNKS
        } else if chunk_count > MAX_CHUNKS {
            MAX_CHUNKS
        } else {
            chunk_count
        },
{
    if chunk_count < MIN_CHUNKS {
        MIN_CHUNKS
    } else if chunk_count > MAX_CHUNKS {
        MAX_CHUNKS
    } else {
        chunk_count
    }
}

/// Objects between two kept chunks of a gradual calculation: the objects shared
/// out over the (clamped) chunk count, at least one.
pub fn gradual_step(total_objects: usize, chunk_count: usize) -> (res: usize)
    ensures
        res >= 1,
        ({
            let c = if chunk_count < MIN_CHUNKS {
                MIN_CHUNKS as int
            } else if chunk_count > MAX_CHUNKS {
                MAX_CHUNKS as int
            } else {
                chunk_count as int
            };
            res == if (total_objects as int) / c >= 1 {
                (total_objects as int) / c
            } else {
                1
            }
        }),
{
    let c = clamp_chunk_count(chunk_count);
    let s = total_objects / c;
    if s >= 1 {
        s
    } else {
        1
    }
}

/// Whether a gradual calculation keeps the chunk after `object_count` objects:
/// every `step`-th one.
pub fn keeps_chunk(object_count: usize, step: usize) -> (res: bool)
    requires
        step >= 1,
    ensures
        res == (object_count % step == 0),
{
    object_count % step == 0
}

/// Whether a gradual calculation also keeps its last chunk: when it kept none, or
/// when the object count is no multiple of the step.
pub fn keeps_last_chunk(object_count: usize, step: usize, kept_any: bool) -> (res: bool)
    requires
        step >= 1,
    ensures
        res == (!kept_any || object_count % step != 0),
{
    !kept_any || object_count % step != 0
}

/// Index of the chunk for a play that passed `passed` of `total_objects` objects,
/// out of `chunk_count` chunks: in proportion to the objects passed, at most the last.
pub open spec fn live_chunk_spec(passed: int, chunk_count: int, total_objects: int) -> int {
    if chunk_count <= 1 || total_objects == 0 {
        0
    } else {
        let i = (passed * (chunk_count - 1)) / total_objects;
        if i < chunk_count - 1 {
            i
        } else {
            chunk_count - 1
        }
    }
}

/// The chunk that stands for a play in progress.
pub fn live_chunk_index(passed: usize, chunk_count: usize, total_objects: usize) -> (res: usize)
    requires
        chunk_count > 1 && total_objects > 0 ==> passed * (chunk_count - 1) <= usize::MAX,
    ensures
        res == live_chunk_spec(passed as int, chunk_count as int, total_objects as int),
        chunk_count > 0 ==> res < chunk_count,
{
    if chunk_count <= 1 || total_objects == 0 {
        0
    } else {
        let i = (passed * (chunk_count - 1)) / total_objects;
        if i < chunk_count - 1 {
            i
        } else {
            chunk_count - 1
        }
    }
}

/// The chunk whose star rating is the live one: none before the first object or
/// without chunks or objects, else the proportional chunk.
pub fn live_stars_chunk(chunk_count: usize, total_objects: usize, passed: u32) -> (res: Option<usize>)
    requires
        chunk_count > 0 && total_objects > 0 && passed > 0 ==> passed * (chunk_count - 1) <= usize::MAX,
    ensures
        (chunk_count == 0 || total_objects == 0 || passed == 0) ==> res is None,
        !(chunk_count == 0 || total_objects == 0 || passed == 0) ==> res == Some(
            ({
                let i = (passed * (chunk_count - 1)) / (total_objects as int);
                if i < chunk_count - 1 {
                    i as usize
                } else {
                    (chunk_count - 1) as usize
                }
            }),
        ),
{
    if chunk_count == 0 || total_objects == 0 || passed == 0 {
        return None;
    }
    let p = passed as usize;
    let i = (p * (chunk_count - 1)) / total_objects;
    if i < chunk_count - 1 {
        Some(i)
    } else {
        Some(chunk_count - 1)
    }
}

/// The chunk of the coarse live calculation: one per [`HITS_PER_COARSE_CHUNK`]
/// hits, at most the last; none before the first hit or without chunks.
pub fn coarse_chunk(chunk_count: usize, passed: u32) -> (res: Option<usize>)
    ensures
        (passed == 0 || chunk_count == 0) ==> res is None,
        !(passed == 0 || chunk_count == 0) ==> res == Some(
            (if ((passed - 1) / 10) < chunk_count - 1 {
                ((passed - 1) / 10) as usize
            } else {
                (chunk_count - 1) as usize
            }),
        ),
{
    if passed == 0 || chunk_count == 0 {
        return None;
    }
    let i = ((passed - 1) / HITS_PER_COARSE_CHUNK) as usize;
    if i < chunk_count - 1 {
        Some(i)
    } else {
        Some(chunk_count - 1)
    }
}

/// Cache key of a beatmap's chunks: its id when it has one, else the hash of its
/// contents with the top bit set, so that the two kinds never meet.
pub fn beatmap_cache_key(map_id: u32, content_hash: u64) -> (res: u64)
    ensures
        map_id > 0 ==> res == map_id as u64,
        map_id == 0 ==> res == content_hash | 0x8000_0000_0000_0000,
{
    if map_id > 0 {
        map_id as u64
    } else {
        content_hash | 0x8000_0000_0000_0000
    }
}

/// Clock rate of the difficulty calculation: DoubleTime or Nightcore (bits 64,
/// 512) speed up, HalfTime (256) slows down.
#[derive(Debug, Clone, Copy, PartialEq, Eq)]
pub enum ClockRate {
    /// Rate 1.
    Normal,
    /// Rate 1.5.
    Faster,
    /// Rate 0.75.
    Slower,
}

/// The clock rate of `mods`.
pub fn clock_rate(mods: u32) -> (res: ClockRate)
    ensures
        (mods & 64 != 0 || mods & 512 != 0) ==> res == ClockRate::Faster,
        !(mods & 64 != 0 || mods & 512 != 0) && mods & 256 != 0 ==> res == ClockRate::Slower,
        !(mods & 64 != 0 || mods & 512 != 0) && mods & 256 == 0 ==> res == ClockRate::Normal,
{
    if mods & 64 != 0 || mods & 512 != 0 {
        ClockRate::Faster
    } else if mods & 256 != 0 {
        ClockRate::Slower
    } else {
        ClockRate::Normal
    }
}

} // verus!
