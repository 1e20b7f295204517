//! Phase instrumentation: named counters that the hot paths of the reader add
//! their time, bytes and failures to. A scope measures one pass through a phase;
//! the registry accumulates closed scopes, and its snapshot lists the phases that
//! saw any activity, the most expensive first.
//!
//! A scope records inclusive time: nested scopes (a poll containing byte reads)
//! are expected. Bytes are attributed to `ReadBytes`, the one place where bytes
//! are taken out of the target process.
use std::time::Instant;
use vstd::prelude::*;

verus! {

/// Number of phases.
pub const PHASE_COUNT: usize = 29;

/// A phase of the reader's work.
#[derive(Clone, Copy, PartialEq, Eq, Debug)]
pub enum Phase {
    ReadBytes,
    ScanPattern,
    ScanRegions,
    ProcessDiscovery,
    ProcessOpen,
    SoloPoll,
    ReaderPoll,
    TourneyPoll,
    BeatmapMemory,
    BeatmapFileMeta,
    BeatmapDifficulty,
    GameplayState,
    HitErrors,
    ResultScreen,
    LocalProfile,
    TournamentChat,
    ModsState,
    PpChunksCompute,
    PpChunksCached,
    PpLive,
    JsonEncode,
    PacketSend,
    SoloSkin,
    BeatmapFileRead,
    BeatmapParse,
    PpDifficulty,
    GraphBuild,
    GraphClone,
    PacketClone,
}

/// Name of phase number `i`; empty beyond the last phase.
pub open spec fn phase_name_spec(i: int) -> Seq<char> {
    if i == 0 {
        "ReadBytes"@
    } else if i == 1 {
        "ScanPattern"@
    } else if i == 2 {
        "ScanRegions"@
    } else if i == 3 {
        "ProcessDiscovery"@
    } else if i == 4 {
        "ProcessOpen"@
    } else if i == 5 {
        "SoloPoll"@
    } else if i == 6 {
        "ReaderPoll"@
    } else if i == 7 {
        "TourneyPoll"@
    } else if i == 8 {
        "BeatmapMemory"@
    } else if i == 9 {
        "BeatmapFileMeta"@
    } else if i == 10 {
        "BeatmapDifficulty"@
    } else if i == 11 {
        "GameplayState"@
    } else if i == 12 {
        "HitErrors"@
    } else if i == 13 {
        "ResultScreen"@
    } else if i == 14 {
        "LocalProfile"@
    } else if i == 15 {
        "TournamentChat"@
    } else if i == 16 {
        "ModsState"@
    } else if i == 17 {
        "PpChunksCompute"@
    } else if i == 18 {
        "PpChunksCached"@
    } else if i == 19 {
        "PpLive"@
    } else if i == 20 {
        "JsonEncode"@
    } else if i == 21 {
        "PacketSend"@
    } else if i == 22 {
        "SoloSkin"@
    } else if i == 23 {
        "BeatmapFileRead"@
    } else if i == 24 {
        "BeatmapParse"@
    } else if i == 25 {
        "PpDifficulty"@
    } else if i == 26 {
        "GraphBuild"@
    } else if i == 27 {
        "GraphClone"@
    } else if i == 28 {
        "PacketClone"@
    } else {
        ""@
    }
}

/// The phase number whose name is `name`; -1 for a name no phase has.
pub open spec fn phase_index_of(name: Seq<char>) -> int {
    if name == "ReadBytes"@ {
        0
    } else if name == "ScanPattern"@ {
        1
    } else if name == "ScanRegions"@ {
        2
    } else if name == "ProcessDiscovery"@ {
        3
    } else if name == "ProcessOpen"@ {
        4
    } else if name == "SoloPoll"@ {
        5
    } else if name == "ReaderPoll"@ {
        6
    } else if name == "TourneyPoll"@ {
        7
    } else if name == "BeatmapMemory"@ {
        8
    } else if name == "BeatmapFileMeta"@ {
        9
    } else if name == "BeatmapDifficulty"@ {
        10
    } else if name == "GameplayState"@ {
        11
    } else if name == "HitErrors"@ {
        12
    } else if name == "ResultScreen"@ {
        13
    } else if name == "LocalProfile"@ {
        14
    } else if name == "TournamentChat"@ {
        15
    } else if name == "ModsState"@ {
        16
    } else if name == "PpChunksCompute"@ {
        17
    } else if name == "PpChunksCached"@ {
        18
    } else if name == "PpLive"@ {
        19
    } else if name == "JsonEncode"@ {
        20
    } else if name == "PacketSend"@ {
        21
    } else if name == "SoloSkin"@ {
        22
    } else if name == "BeatmapFileRead"@ {
        23
    } else if name == "BeatmapParse"@ {
        24
    } else if name == "PpDifficulty"@ {
        25
    } else if name == "GraphBuild"@ {
        26
    } else if name == "GraphClone"@ {
        27
    } else if name == "PacketClone"@ {
        28
    } else {
        -1
    }
}

/// Every phase has a name, and the name gives the phase back, so no two phases
/// share one.
#[verifier::rlimit(60)]
pub proof fn lemma_phase_names_distinct()
    ensures
        forall|i: int| 0 <= i < PHASE_COUNT ==> (#[trigger] phase_name_spec(i)).len() > 0,
        forall|i: int| 0 <= i < PHASE_COUNT ==> phase_index_of(#[trigger] phase_name_spec(i)) == i,
        forall|i: int, j: int|
            0 <= i < j < PHASE_COUNT ==> #[trigger] phase_name_spec(i) != #[trigger] phase_name_spec(j),
{
    reveal_strlit("ReadBytes");
    reveal_strlit("ScanPattern");
    reveal_strlit("ScanRegions");
    reveal_strlit("ProcessDiscovery");
    reveal_strlit("ProcessOpen");
    reveal_strlit("SoloPoll");
    reveal_strlit("ReaderPoll");
    reveal_strlit("TourneyPoll");
    reveal_strlit("BeatmapMemory");
    reveal_strlit("BeatmapFileMeta");
    reveal_strlit("BeatmapDifficulty");
    reveal_strlit("GameplayState");
    reveal_strlit("HitErrors");
    reveal_strlit("ResultScreen");
    reveal_strlit("LocalProfile");
    reveal_strlit("TournamentChat");
    reveal_strlit("ModsState");
    reveal_strlit("PpChunksCompute");
    reveal_strlit("PpChunksCached");
    reveal_strlit("PpLive");
    reveal_strlit("JsonEncode");
    reveal_strlit("PacketSend");
    reveal_strlit("SoloSkin");
    reveal_strlit("BeatmapFileRead");
    reveal_strlit("BeatmapParse");
    reveal_strlit("PpDifficulty");
    reveal_strlit("GraphBuild");
    reveal_strlit("GraphClone");
    reveal_strlit("PacketClone");
    assert("ReadBytes"@.len() == 9);
    assert("ScanPattern"@.len() == 11);
    assert("ScanRegions"@.len() == 11);
    assert("ProcessDiscovery"@.len() == 16);
    assert("ProcessOpen"@.len() == 11);
    assert("SoloPoll"@.len() == 8);
    assert("ReaderPoll"@.len() == 10);
    assert("TourneyPoll"@.len() == 11);
    assert("BeatmapMemory"@.len() == 13);
    assert("BeatmapFileMeta"@.len() == 15);
    assert("BeatmapDifficulty"@.len() == 17);
    assert("GameplayState"@.len() == 13);
    assert("HitErrors"@.len() == 9);
    assert("ResultScreen"@.len() == 12);
    assert("LocalProfile"@.len() == 12);
    assert("TournamentChat"@.len() == 14);
    assert("ModsState"@.len() == 9);
    assert("PpChunksCompute"@.len() == 15);
    assert("PpChunksCached"@.len() == 14);
    assert("PpLive"@.len() == 6);
    assert("JsonEncode"@.len() == 10);
    assert("PacketSend"@.len() == 10);
    assert("SoloSkin"@.len() == 8);
    assert("BeatmapFileRead"@.len() == 15);
    assert("BeatmapParse"@.len() == 12);
    assert("PpDifficulty"@.len() == 12);
    assert("GraphBuild"@.len() == 10);
    assert("GraphClone"@.len() == 10);
    assert("PacketClone"@.len() == 11);
    assert("ReadBytes"@[0] == 'R');
    assert("HitErrors"@[0] == 'H');
    assert("ModsState"@[0] == 'M');
    assert("ScanPattern"@[0] == 'S');
    assert("ScanPattern"@[1] == 'c');
    assert("ScanPattern"@[4] == 'P');
    assert("ScanRegions"@[0] == 'S');
    assert("ScanRegions"@[1] == 'c');
    assert("ScanRegions"@[4] == 'R');
    assert("ProcessOpen"@[0] == 'P');
    assert("ProcessOpen"@[1] == 'r');
    assert("ProcessOpen"@[4] == 'e');
    assert("TourneyPoll"@[0] == 'T');
    assert("TourneyPoll"@[1] == 'o');
    assert("TourneyPoll"@[4] == 'n');
    assert("PacketClone"@[0] == 'P');
    assert("PacketClone"@[1] == 'a');
    assert("PacketClone"@[4] == 'e');
    assert("SoloPoll"@[4] == 'P');
    assert("SoloSkin"@[4] == 'S');
    assert("ReaderPoll"@[0] == 'R');
    assert("ReaderPoll"@[5] == 'r');
    assert("JsonEncode"@[0] == 'J');
    assert("JsonEncode"@[5] == 'n');
    assert("PacketSend"@[0] == 'P');
    assert("PacketSend"@[5] == 't');
    assert("GraphBuild"@[0] == 'G');
    assert("GraphBuild"@[5] == 'B');
    assert("GraphClone"@[0] == 'G');
    assert("GraphClone"@[5] == 'C');
    assert("BeatmapMemory"@[0] == 'B');
    assert("GameplayState"@[0] == 'G');
    assert("BeatmapFileMeta"@[0] == 'B');
    assert("BeatmapFileMeta"@[11] == 'M');
    assert("PpChunksCompute"@[0] == 'P');
    assert("PpChunksCompute"@[11] == 'p');
    assert("BeatmapFileRead"@[0] == 'B');
    assert("BeatmapFileRead"@[11] == 'R');
    assert("ResultScreen"@[0] == 'R');
    assert("LocalProfile"@[0] == 'L');
    assert("BeatmapParse"@[0] == 'B');
    assert("PpDifficulty"@[0] == 'P');
    assert("TournamentChat"@[0] == 'T');
    assert("PpChunksCached"@[0] == 'P');
    assert forall|i: int| 0 <= i < PHASE_COUNT implies phase_index_of(#[trigger] phase_name_spec(i)) == i by {
        if i == 0 {
            assert(phase_index_of(phase_name_spec(0)) == 0);
        } else if i == 1 {
            assert(phase_index_of(phase_name_spec(1)) == 1);
        } else if i == 2 {
            assert(phase_index_of(phase_name_spec(2)) == 2);
        } else if i == 3 {
            assert(phase_index_of(phase_name_spec(3)) == 3);
        } else if i == 4 {
            assert(phase_index_of(phase_name_spec(4)) == 4);
        } else if i == 5 {
            assert(phase_index_of(phase_name_spec(5)) == 5);
        } else if i == 6 {
            assert(phase_index_of(phase_name_spec(6)) == 6);
        } else if i == 7 {
            assert(phase_index_of(phase_name_spec(7)) == 7);
        } else if i == 8 {
            assert(phase_index_of(phase_name_spec(8)) == 8);
        } else if i == 9 {
            assert(phase_index_of(phase_name_spec(9)) == 9);
        } else if i == 10 {
            assert(phase_index_of(phase_name_spec(10)) == 10);
        } else if i == 11 {
            assert(phase_index_of(phase_name_spec(11)) == 11);
        } else if i == 12 {
            assert(phase_index_of(phase_name_spec(12)) == 12);
        } else if i == 13 {
            assert(phase_index_of(phase_name_spec(13)) == 13);
        } else if i == 14 {
            assert(phase_index_of(phase_name_spec(14)) == 14);
        } else if i == 15 {
            assert(phase_index_of(phase_name_spec(15)) == 15);
        } else if i == 16 {
            assert(phase_index_of(phase_name_spec(16)) == 16);
        } else if i == 17 {
            assert(phase_index_of(phase_name_spec(17)) == 17);
        } else if i == 18 {
            assert(phase_index_of(phase_name_spec(18)) == 18);
        } else if i == 19 {
            assert(phase_index_of(phase_name_spec(19)) == 19);
        } else if i == 20 {
            assert(phase_index_of(phase_name_spec(20)) == 20);
        } else if i == 21 {
            assert(phase_index_of(phase_name_spec(21)) == 21);
        } else if i == 22 {
            assert(phase_index_of(phase_name_spec(22)) == 22);
        } else if i == 23 {
            assert(phase_index_of(phase_name_spec(23)) == 23);
        } else if i == 24 {
            assert(phase_index_of(phase_name_spec(24)) == 24);
        } else if i == 25 {
            assert(phase_index_of(phase_name_spec(25)) == 25);
        } else if i == 26 {
            assert(phase_index_of(phase_name_spec(26)) == 26);
        } else if i == 27 {
            assert(phase_index_of(phase_name_spec(27)) == 27);
        } else if i == 28 {
            assert(phase_index_of(phase_name_spec(28)) == 28);
        }
    }
}

/// Name of phase number `i`; empty beyond the last phase.
pub fn phase_name(i: usize) -> (res: &'static str)
    ensures
        res@ == phase_name_spec(i as int),
{
    match i {
        0 => "ReadBytes",
        1 => "ScanPattern",
        2 => "ScanRegions",
        3 => "ProcessDiscovery",
        4 => "ProcessOpen",
        5 => "SoloPoll",
        6 => "ReaderPoll",
        7 => "TourneyPoll",
        8 => "BeatmapMemory",
        9 => "BeatmapFileMeta",
        10 => "BeatmapDifficulty",
        11 => "GameplayState",
        12 => "HitErrors",
        13 => "ResultScreen",
        14 => "LocalProfile",
        15 => "TournamentChat",
        16 => "ModsState",
        17 => "PpChunksCompute",
        18 => "PpChunksCached",
        19 => "PpLive",
        20 => "JsonEncode",
        21 => "PacketSend",
        22 => "SoloSkin",
        23 => "BeatmapFileRead",
        24 => "BeatmapParse",
        25 => "PpDifficulty",
        26 => "GraphBuild",
        27 => "GraphClone",
        28 => "PacketClone",
        _ => "",
    }
}

/// The phase numbered `i`, if there is one.
pub fn phase_from_index(i: usize) -> (res: Option<Phase>)
    ensures
        i < PHASE_COUNT ==> (res matches Some(p) && p.index_spec() == i),
        i >= PHASE_COUNT ==> res is None,
{
    match i {
        0 => Some(Phase::ReadBytes),
        1 => Some(Phase::ScanPattern),
        2 => Some(Phase::ScanRegions),
        3 => Some(Phase::ProcessDiscovery),
        4 => Some(Phase::ProcessOpen),
        5 => Some(Phase::SoloPoll),
        6 => Some(Phase::ReaderPoll),
        7 => Some(Phase::TourneyPoll),
        8 => Some(Phase::BeatmapMemory),
        9 => Some(Phase::BeatmapFileMeta),
        10 => Some(Phase::BeatmapDifficulty),
        11 => Some(Phase::GameplayState),
        12 => Some(Phase::HitErrors),
        13 => Some(Phase::ResultScreen),
        14 => Some(Phase::LocalProfile),
        15 => Some(Phase::TournamentChat),
        16 => Some(Phase::ModsState),
        17 => Some(Phase::PpChunksCompute),
        18 => Some(Phase::PpChunksCached),
        19 => Some(Phase::PpLive),
        20 => Some(Phase::JsonEncode),
        21 => Some(Phase::PacketSend),
        22 => Some(Phase::SoloSkin),
        23 => Some(Phase::BeatmapFileRead),
        24 => Some(Phase::BeatmapParse),
        25 => Some(Phase::PpDifficulty),
        26 => Some(Phase::GraphBuild),
        27 => Some(Phase::GraphClone),
        28 => Some(Phase::PacketClone),
        _ => None,
    }
}

impl Phase {
    /// Number of the phase, from 0.
    pub open spec fn index_spec(self) -> nat {
        match self {
            Phase::ReadBytes => 0,
            Phase::ScanPattern => 1,
            Phase::ScanRegions => 2,
            Phase::ProcessDiscovery => 3,
            Phase::ProcessOpen => 4,
            Phase::SoloPoll => 5,
            Phase::ReaderPoll => 6,
            Phase::TourneyPoll => 7,
            Phase::BeatmapMemory => 8,
            Phase::BeatmapFileMeta => 9,
            Phase::BeatmapDifficulty => 10,
            Phase::GameplayState => 11,
            Phase::HitErrors => 12,
            Phase::ResultScreen => 13,
            Phase::LocalProfile => 14,
            Phase::TournamentChat => 15,
            Phase::ModsState => 16,
            Phase::PpChunksCompute => 17,
            Phase::PpChunksCached => 18,
            Phase::PpLive => 19,
            Phase::JsonEncode => 20,
            Phase::PacketSend => 21,
            Phase::SoloSkin => 22,
            Phase::BeatmapFileRead => 23,
            Phase::BeatmapParse => 24,
            Phase::PpDifficulty => 25,
            Phase::GraphBuild => 26,
            Phase::GraphClone => 27,
            Phase::PacketClone => 28,
        }
    }

    /// Number of the phase, from 0.
    pub fn index(self) -> (res: usize)
        ensures
            res == self.index_spec(),
            res < PHASE_COUNT,
    {
        match self {
            Phase::ReadBytes => 0,
            Phase::ScanPattern => 1,
            Phase::ScanRegions => 2,
            Phase::ProcessDiscovery => 3,
            Phase::ProcessOpen => 4,
            Phase::SoloPoll => 5,
            Phase::ReaderPoll => 6,
            Phase::TourneyPoll => 7,
            Phase::BeatmapMemory => 8,
            Phase::BeatmapFileMeta => 9,
            Phase::BeatmapDifficulty => 10,
            Phase::GameplayState => 11,
            Phase::HitErrors => 12,
            Phase::ResultScreen => 13,
            Phase::LocalProfile => 14,
            Phase::TournamentChat => 15,
            Phase::ModsState => 16,
            Phase::PpChunksCompute => 17,
            Phase::PpChunksCached => 18,
            Phase::PpLive => 19,
            Phase::JsonEncode => 20,
            Phase::PacketSend => 21,
            Phase::SoloSkin => 22,
            Phase::BeatmapFileRead => 23,
            Phase::BeatmapParse => 24,
            Phase::PpDifficulty => 25,
            Phase::GraphBuild => 26,
            Phase::GraphClone => 27,
            Phase::PacketClone => 28,
        }
    }

    /// Name of the phase.
    pub fn name(self) -> (res: &'static str)
        ensures
            res@ == phase_name_spec(self.index_spec() as int),
    {
        phase_name(self.index())
    }
}

#[verifier::external_type_specification]
#[verifier::external_body]
pub struct ExInstant(Instant);

/// The current instant (`Instant::now`); nothing is known of its value.
#[verifier::external_body]
fn instant_now() -> Instant {
    Instant::now()
}

/// Nanoseconds since `start` (`Instant::elapsed`, as nanoseconds cut to 64 bits);
/// nothing is known of the value, which depends on the clock.
#[verifier::external_body]
fn nanos_since(start: &Instant) -> u64 {
    start.elapsed().as_nanos() as u64
}

/// One measured pass through a phase, started when it was made.
pub struct Scope {
    phase: Phase,
    start: Instant,
    failed: bool,
}

impl Scope {
    pub closed spec fn phase_spec(&self) -> Phase {
        self.phase
    }

    pub closed spec fn failed_spec(&self) -> bool {
        self.failed
    }

    /// Starts measuring `phase` now.
    pub fn new(phase: Phase) -> (res: Self)
        ensures
            res.phase_spec() == phase,
            !res.failed_spec(),
    {
        Scope { phase, start: instant_now(), failed: false }
    }

    /// Marks the pass as failed.
    pub fn fail(&mut self)
        ensures
            final(self).phase_spec() == old(self).phase_spec(),
            final(self).failed_spec(),
    {
        self.failed = true;
    }

    /// Nanoseconds since the scope started.
    pub fn elapsed_ns(&self) -> u64 {
        nanos_since(&self.start)
    }

    /// The phase measured.
    pub fn phase(&self) -> (res: Phase)
        ensures
            res == self.phase_spec(),
    {
        self.phase
    }

    /// Whether the pass was marked as failed.
    pub fn failed(&self) -> (res: bool)
        ensures
            res == self.failed_spec(),
    {
        self.failed
    }
}

/// What the registry holds for one phase.
#[derive(Clone, Copy, PartialEq, Eq, Debug, Default)]
pub struct PhaseCell {
    pub total_ns: u64,
    pub max_ns: u64,
    pub count: u64,
    pub bytes: u64,
    pub failures: u64,
}

/// `a + b` as 64-bit counters add, wrapping around.
pub open spec fn wrap_add(a: u64, b: u64) -> u64 {
    vstd::wrapping::u64_specs::wrapping_add(a, b)
}

/// A cell with nothing recorded.
pub open spec fn empty_cell() -> PhaseCell {
    PhaseCell { total_ns: 0, max_ns: 0, count: 0, bytes: 0, failures: 0 }
}

/// The cell after a pass of `ns` nanoseconds, failed or not.
pub open spec fn record_cell(c: PhaseCell, ns: u64, failed: bool) -> PhaseCell {
    PhaseCell {
        total_ns: wrap_add(c.total_ns, ns),
        max_ns: if ns > c.max_ns {
            ns
        } else {
            c.max_ns
        },
        count: wrap_add(c.count, 1),
        bytes: c.bytes,
        failures: if failed {
            wrap_add(c.failures, 1)
        } else {
            c.failures
        },
    }
}

/// A phase saw activity: a closed scope, or bytes.
pub open spec fn is_active(c: PhaseCell) -> bool {
    c.count > 0 || c.bytes > 0
}

/// Phase `a` is listed before phase `b`: more total time, or as much and a lower number.
pub open spec fn stat_before(cells: Seq<PhaseCell>, a: int, b: int) -> bool {
    cells[a].total_ns > cells[b].total_ns || (cells[a].total_ns == cells[b].total_ns && a < b)
}

/// Some entry of `order` is `j`.
pub open spec fn listed(order: Seq<usize>, j: int) -> bool {
    exists|k: int| 0 <= k < order.len() && order[k] == j
}

/// The statistics of one phase, as a snapshot lists them.
#[derive(Clone, Debug)]
pub struct PhaseStat {
    pub phase: &'static str,
    pub count: u64,
    pub total_ns: u64,
    pub max_ns: u64,
    pub bytes: u64,
    pub failures: u64,
}

/// `stat` shows phase `i` with cell `c`.
pub open spec fn stat_of(stat: PhaseStat, i: int, c: PhaseCell) -> bool {
    &&& stat.phase@ == phase_name_spec(i)
    &&& stat.count == c.count
    &&& stat.total_ns == c.total_ns
    &&& stat.max_ns == c.max_ns
    &&& stat.bytes == c.bytes
    &&& stat.failures == c.failures
}

/// `stats` is the snapshot of `cells`, listing the phases `order`: every active
/// phase once, the most total time first, ties by phase number.
pub open spec fn is_snapshot(cells: Seq<PhaseCell>, order: Seq<usize>, stats: Seq<PhaseStat>) -> bool {
    &&& stats.len() == order.len()
    &&& forall|k: int| 0 <= k < order.len() ==> order[k] < cells.len() && is_active(cells[order[k] as int])
    &&& forall|k: int| 0 <= k < order.len() ==> stat_of(#[trigger] stats[k], order[k] as int, cells[order[k] as int])
    &&& forall|k: int, l: int| 0 <= k < l < order.len() ==> stat_before(cells, order[k] as int, order[l] as int)
    &&& forall|j: int| 0 <= j < cells.len() && is_active(cells[j]) ==> #[trigger] listed(order, j)
}

/// A snapshot of cleared counters lists no phase.
pub proof fn lemma_cleared_snapshot_is_empty(cells: Seq<PhaseCell>, order: Seq<usize>, stats: Seq<PhaseStat>)
    requires
        forall|i: int| 0 <= i < cells.len() ==> cells[i] == empty_cell(),
        is_snapshot(cells, order, stats),
    ensures
        stats.len() == 0,
{
    if order.len() > 0 {
        assert(is_active(cells[order[0] as int]));
    }
}

/// A phase with a recorded pass, or with bytes, appears in every snapshot, once.
pub proof fn lemma_active_phase_listed_once(cells: Seq<PhaseCell>, order: Seq<usize>, stats: Seq<PhaseStat>, i: int)
    requires
        is_snapshot(cells, order, stats),
        0 <= i < cells.len(),
        is_active(cells[i]),
    ensures
        exists|k: int| 0 <= k < stats.len() && order[k] == i && stat_of(stats[k], i, cells[i]),
        forall|k: int, l: int| 0 <= k < l < order.len() ==> order[k] != order[l],
{
    assert(listed(order, i));
    let k = choose|k: int| 0 <= k < order.len() && order[k] == i;
    assert(stat_of(stats[k], order[k] as int, cells[order[k] as int]));
    assert forall|k: int, l: int| 0 <= k < l < order.len() implies order[k] != order[l] by {
        assert(stat_before(cells, order[k] as int, order[l] as int));
    }
}

/// Counters of every phase.
pub struct PhaseRegistry {
    cells: Vec<PhaseCell>,
}

impl View for PhaseRegistry {
    type V = Seq<PhaseCell>;

    closed spec fn view(&self) -> Seq<PhaseCell> {
        self.cells@
    }
}

impl PhaseRegistry {
    /// The registry has one cell per phase.
    pub open spec fn wf(&self) -> bool {
        self@.len() == PHASE_COUNT
    }

    /// A registry with nothing recorded.
    pub fn new() -> (res: Self)
        ensures
            res.wf(),
            forall|i: int| 0 <= i < PHASE_COUNT ==> res@[i] == empty_cell(),
    {
        let mut cells: Vec<PhaseCell> = Vec::new();
        let mut i: usize = 0;
        while i < PHASE_COUNT
            invariant
                i <= PHASE_COUNT,
                cells@.len() == i,
                forall|k: int| 0 <= k < i ==> cells@[k] == empty_cell(),
            decreases PHASE_COUNT - i,
        {
            cells.push(PhaseCell { total_ns: 0, max_ns: 0, count: 0, bytes: 0, failures: 0 });
            i = i + 1;
        }
        PhaseRegistry { cells }
    }

    /// Adds a pass of `ns` nanoseconds through `phase`, failed or not.
    pub fn record(&mut self, phase: Phase, ns: u64, failed: bool)
        requires
            old(self).wf(),
        ensures
            final(self).wf(),
            final(self)@ == old(self)@.update(
                phase.index_spec() as int,
                record_cell(old(self)@[phase.index_spec() as int], ns, failed),
            ),
    {
        let i = phase.index();
        let c = self.cells[i];
        let updated = PhaseCell {
            total_ns: c.total_ns.wrapping_add(ns),
            max_ns: if ns > c.max_ns {
                ns
            } else {
                c.max_ns
            },
            count: c.count.wrapping_add(1),
            bytes: c.bytes,
            failures: if failed {
                c.failures.wrapping_add(1)
            } else {
                c.failures
            },
        };
        self.cells.set(i, updated);
    }

    /// Closes `scope`: its phase gets one more pass, of the time the scope took.
    pub fn close(&mut self, scope: Scope)
        requires
            old(self).wf(),
        ensures
            final(self).wf(),
            exists|ns: u64|
                final(self)@ == old(self)@.update(
                    scope.phase_spec().index_spec() as int,
                    record_cell(old(self)@[scope.phase_spec().index_spec() as int], ns, scope.failed_spec()),
                ),
    {
        let ns = scope.elapsed_ns();
        self.record(scope.phase(), ns, scope.failed());
    }

    /// Attributes `bytes` read out of the target process to `ReadBytes`.
    pub fn add_bytes(&mut self, bytes: u64)
        requires
            old(self).wf(),
        ensures
            final(self).wf(),
            final(self)@ == old(self)@.update(
                0,
                PhaseCell { bytes: wrap_add(old(self)@[0].bytes, bytes), ..old(self)@[0] },
            ),
    {
        let c = self.cells[0];
        self.cells.set(0, PhaseCell { bytes: c.bytes.wrapping_add(bytes), ..c });
    }

    /// Clears every counter.
    pub fn reset(&mut self)
        requires
            old(self).wf(),
        ensures
            final(self).wf(),
            forall|i: int| 0 <= i < PHASE_COUNT ==> final(self)@[i] == empty_cell(),
    {
        let mut i: usize = 0;
        while i < self.cells.len()
            invariant
                self.cells@.len() == PHASE_COUNT,
                i <= PHASE_COUNT,
                forall|k: int| 0 <= k < i ==> self.cells@[k] == empty_cell(),
            decreases PHASE_COUNT - i,
        {
            self.cells.set(i, PhaseCell { total_ns: 0, max_ns: 0, count: 0, bytes: 0, failures: 0 });
            i = i + 1;
        }
    }

    /// The active phases in snapshot order.
    fn snapshot_order(&self) -> (order: Vec<usize>)
        requires
            self.wf(),
        ensures
            forall|k: int| 0 <= k < order@.len() ==> order@[k] < self@.len() && is_active(self@[order@[k] as int]),
            forall|k: int, l: int| 0 <= k < l < order@.len() ==> stat_before(self@, order@[k] as int, order@[l] as int),
            forall|j: int| 0 <= j < self@.len() && is_active(self@[j]) ==> #[trigger] listed(order@, j),
    {
        let ghost cells = self@;
        let mut order: Vec<usize> = Vec::new();
        let mut j: usize = 0;
        while j < self.cells.len()
            invariant
                cells == self@,
                cells.len() == PHASE_COUNT,
                j <= cells.len(),
                forall|k: int| 0 <= k < order@.len() ==> order@[k] < j && is_active(cells[order@[k] as int]),
                forall|k: int, l: int| 0 <= k < l < order@.len() ==> stat_before(cells, order@[k] as int, order@[l] as int),
                forall|m: int| 0 <= m < j && is_active(cells[m]) ==> #[trigger] listed(order@, m),
            decreases cells.len() - j,
        {
            let c = self.cells[j];
            if c.count > 0 || c.bytes > 0 {
                let key = c.total_ns;
                let mut p: usize = 0;
                while p < order.len() && self.cells[order[p]].total_ns >= key
                    invariant
                        cells == self@,
                        cells.len() == PHASE_COUNT,
                        j < cells.len(),
                        key == cells[j as int].total_ns,
                        p <= order@.len(),
                        forall|k: int| 0 <= k < order@.len() ==> order@[k] < j,
                        forall|k: int| 0 <= k < p ==> cells[order@[k] as int].total_ns >= key,
                    decreases order@.len() - p,
                {
                    p = p + 1;
                }
                let ghost before = order@;
                order.insert(p, j);
                assert forall|k: int, l: int| 0 <= k < l < order@.len() implies stat_before(
                    cells,
                    order@[k] as int,
                    order@[l] as int,
                ) by {
                    if l < p {
                        assert(order@[k] == before[k] && order@[l] == before[l]);
                    } else if l == p {
                        assert(order@[k] == before[k]);
                        assert(cells[before[k] as int].total_ns >= key);
                    } else if k < p {
                        assert(order@[k] == before[k] && order@[l] == before[l - 1]);
                    } else if k == p {
                        assert(order@[l] == before[l - 1]);
                        assert(cells[before[p as int] as int].total_ns < key);
                        if l - 1 > p {
                            assert(stat_before(cells, before[p as int] as int, before[l - 1] as int));
                        }
                    } else {
                        assert(order@[k] == before[k - 1] && order@[l] == before[l - 1]);
                    }
                }
                assert forall|k: int| 0 <= k < order@.len() implies order@[k] < j + 1 && is_active(
                    cells[order@[k] as int],
                ) by {
                    if k < p {
                        assert(order@[k] == before[k]);
                    } else if k > p {
                        assert(order@[k] == before[k - 1]);
                    }
                }
                assert forall|m: int| 0 <= m < j + 1 && is_active(cells[m]) implies #[trigger] listed(order@, m) by {
                    if m == j {
                        assert(order@[p as int] == j);
                    } else {
                        assert(listed(before, m));
                        let q = choose|q: int| 0 <= q < before.len() && before[q] == m;
                        if q < p {
                            assert(order@[q] == m);
                        } else {
                            assert(order@[q + 1] == m);
                        }
                    }
                }
            }
            j = j + 1;
        }
        order
    }

    /// The statistics of every active phase, the most total time first (ties by
    /// phase number).
    pub fn snapshot(&self) -> (res: Vec<PhaseStat>)
        requires
            self.wf(),
        ensures
            exists|order: Seq<usize>| is_snapshot(self@, order, res@),
    {
        let order = self.snapshot_order();
        let mut res: Vec<PhaseStat> = Vec::new();
        let mut k: usize = 0;
        while k < order.len()
            invariant
                self.wf(),
                k <= order@.len(),
                res@.len() == k,
                forall|m: int| 0 <= m < order@.len() ==> order@[m] < self@.len(),
                forall|m: int| 0 <= m < k ==> stat_of(#[trigger] res@[m], order@[m] as int, self@[order@[m] as int]),
            decreases order@.len() - k,
        {
            let i = order[k];
            let c = self.cells[i];
            let ghost before = res@;
            res.push(PhaseStat {
                phase: phase_name(i),
                count: c.count,
                total_ns: c.total_ns,
                max_ns: c.max_ns,
                bytes: c.bytes,
                failures: c.failures,
            });
            assert forall|m: int| 0 <= m < k + 1 implies stat_of(#[trigger] res@[m], order@[m] as int, self@[order@[m] as int]) by {
                if m < k {
                    assert(res@[m] == before[m]);
                }
            }
            k = k + 1;
        }
        assert(is_snapshot(self@, order@, res@));
        res
    }
}

} // verus!
