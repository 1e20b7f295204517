//! Decisions of the polling sessions: what a client's command line makes of it,
//! how tournament spectators split into teams, which ranked status a match
//! shows, and when a session scans, retries or refreshes.
use crate::client::{
    is_tournament_manager_cmd, is_tournament_manager_spec, parse_spectate_client_arg,
    spectate_arg_spec,
};
use crate::text::{chars_of, contains_chars, contains_seq};
use vstd::prelude::*;

verus! {

/// Milliseconds between two scans for new or closed tournament clients.
pub const PROCESS_RESCAN_MS: u64 = 1500;
/// Milliseconds between two attempts at a pattern a tournament client lacks.
pub const PATTERN_RETRY_MS: u64 = 2000;
/// Milliseconds between two pattern scans of the single-player session.
pub const SOLO_SCAN_RETRY_MS: u64 = 1000;
/// Milliseconds after which the skin folder is read again.
pub const SKIN_REFRESH_MS: u64 = 3000;
/// Milliseconds after which the local profile is read again.
pub const PROFILE_REFRESH_MS: u64 = 5000;
/// Most threads that open new tournament clients at once.
pub const MAX_INIT_WORKERS: usize = 8;
/// Game state of a play in progress.
pub const STATE_PLAYING: i32 = 2;
/// Game state of the result screen.
pub const STATE_RESULT_SCREEN: i32 = 7;
/// Mod bit of ScoreV2, which does not change difficulty.
pub const SCORE_V2_BIT: u32 = 0x2000_0000;

/// What a tournament client is, from its command line.
#[derive(Debug, Clone, Copy, PartialEq, Eq)]
pub struct ClientRole {
    /// The spectator id of `-spectateclient <id>`, for a spectator client.
    pub ipc_id: Option<usize>,
    pub is_spectator: bool,
    pub is_manager: bool,
    /// The client is scanned for the spectated user's pointer.
    pub scans_spectated_user: bool,
    /// The client is scanned for the tournament chat engine.
    pub scans_chat: bool,
}

/// The role of a client with command line `cmd`: a spectator when it names a
/// spectator id; a manager when the line says so, or when it is no spectator and
/// carries `-go` or `/go`.
pub open spec fn client_role_spec(cmd: Seq<char>) -> ClientRole {
    let ipc_id = match spectate_arg_spec(cmd) {
        Some(p) => Some(p.0),
        None => None,
    };
    let is_spectator = ipc_id is Some;
    let is_manager = is_tournament_manager_spec(cmd) || (!is_spectator && (contains_seq(cmd, "-go"@)
        || contains_seq(cmd, "/go"@)));
    ClientRole {
        ipc_id,
        is_spectator,
        is_manager,
        scans_spectated_user: is_spectator || !is_manager,
        scans_chat: is_manager || !is_spectator,
    }
}

/// The role of the tournament client whose command line is `cmd`.
pub fn client_role(cmd: &str) -> (res: ClientRole)
    ensures
        res == client_role_spec(cmd@),
{
    let ipc_id = match parse_spectate_client_arg(cmd) {
        Some(p) => Some(p.0),
        None => None,
    };
    let is_spectator = ipc_id.is_some();
    let chars = chars_of(cmd);
    let go_dash = chars_of("-go");
    let go_slash = chars_of("/go");
    let is_manager = is_tournament_manager_cmd(cmd) || (!is_spectator && (contains_chars(
        chars.as_slice(),
        go_dash.as_slice(),
    ) || contains_chars(chars.as_slice(), go_slash.as_slice())));
    ClientRole {
        ipc_id,
        is_spectator,
        is_manager,
        scans_spectated_user: is_spectator || !is_manager,
        scans_chat: is_manager || !is_spectator,
    }
}

/// Where a spectator sits: its position in the input, its process id and
/// spectator id, and whether it plays for the left team.
#[derive(Debug, Clone, Copy, PartialEq, Eq)]
pub struct TeamSeat {
    pub index: usize,
    pub pid: u32,
    pub ipc_id: usize,
    pub left: bool,
}

/// Spectator `a` of `s` comes before spectator `b`: a lower spectator id, or the
/// same id and an earlier place in `s`.
pub open spec fn seat_before(s: Seq<(u32, usize)>, a: int, b: int) -> bool {
    s[a].1 < s[b].1 || (s[a].1 == s[b].1 && a < b)
}

/// Number of left seats in `seats`.
pub open spec fn left_seats(seats: Seq<TeamSeat>) -> nat
    decreases seats.len(),
{
    if seats.len() == 0 {
        0
    } else {
        left_seats(seats.drop_last()) + if seats.last().left {
            1nat
        } else {
            0nat
        }
    }
}

proof fn lemma_left_seats_prefix(seats: Seq<TeamSeat>, cutoff: int)
    requires
        0 <= cutoff,
        forall|k: int| 0 <= k < seats.len() ==> seats[k].left == (k < cutoff),
    ensures
        left_seats(seats) == if cutoff <= seats.len() {
            cutoff
        } else {
            seats.len() as int
        },
    decreases seats.len(),
{
    if seats.len() > 0 {
        let p = seats.drop_last();
        assert forall|k: int| 0 <= k < p.len() implies p[k].left == (k < cutoff) by {
            assert(p[k] == seats[k]);
        }
        lemma_left_seats_prefix(p, cutoff);
    }
}

/// Spectators of `s` sorted by [`seat_before`], as the positions in `s`.
fn seat_order(s: &Vec<(u32, usize)>) -> (order: Vec<usize>)
    ensures
        order@.len() == s@.len(),
        forall|k: int| 0 <= k < order@.len() ==> order@[k] < s@.len(),
        forall|k: int, l: int|
            0 <= k < l < order@.len() ==> seat_before(s@, order@[k] as int, order@[l] as int),
{
    let mut order: Vec<usize> = Vec::new();
    let mut j: usize = 0;
    while j < s.len()
        invariant
            j <= s@.len(),
            order@.len() == j,
            forall|k: int| 0 <= k < order@.len() ==> order@[k] < j,
            forall|k: int, l: int|
                0 <= k < l < order@.len() ==> seat_before(s@, order@[k] as int, order@[l] as int),
        decreases s@.len() - j,
    {
        let key = s[j].1;
        let mut p: usize = 0;
        while p < order.len() && s[order[p]].1 <= key
            invariant
                j < s@.len(),
                key == s@[j as int].1,
                order@.len() == j,
                p <= order@.len(),
                forall|k: int| 0 <= k < order@.len() ==> order@[k] < j,
                forall|k: int| 0 <= k < p ==> s@[order@[k] as int].1 <= key,
            decreases order@.len() - p,
        {
            p = p + 1;
        }
        let ghost before = order@;
        order.insert(p, j);
        assert forall|k: int, l: int| 0 <= k < l < order@.len() implies seat_before(
            s@,
            order@[k] as int,
            order@[l] as int,
        ) by {
            if l < p {
                assert(order@[k] == before[k] && order@[l] == before[l]);
            } else if l == p {
                assert(order@[k] == before[k]);
                assert(s@[before[k] as int].1 <= key);
            } else if k < p {
                assert(order@[k] == before[k] && order@[l] == before[l - 1]);
            } else if k == p {
                assert(order@[l] == before[l - 1]);
                assert(p < before.len());
                assert(s@[before[p as int] as int].1 > key);
                if l - 1 > p {
                    assert(seat_before(s@, before[p as int] as int, before[l - 1] as int));
                }
            } else {
                assert(order@[k] == before[k - 1] && order@[l] == before[l - 1]);
            }
        }
        j = j + 1;
    }
    order
}

/// Some entry of `order` is `j`.
pub open spec fn listed(order: Seq<usize>, j: int) -> bool {
    exists|k: int| 0 <= k < order.len() && order[k] == j
}

/// Some seat of `seats` belongs to the spectator at place `j`.
pub open spec fn seated(seats: Seq<TeamSeat>, j: int) -> bool {
    exists|k: int| 0 <= k < seats.len() && seats[k].index == j
}

proof fn lemma_order_covers(s: Seq<(u32, usize)>, order: Seq<usize>)
    requires
        order.len() == s.len(),
        forall|k: int| 0 <= k < order.len() ==> order[k] < s.len(),
        forall|k: int, l: int| 0 <= k < l < order.len() ==> seat_before(s, order[k] as int, order[l] as int),
    ensures
        forall|j: int| 0 <= j < s.len() ==> #[trigger] listed(order, j),
{
    let n = s.len();
    let idx = order.map_values(|x: usize| x as int);
    assert forall|k: int, l: int| 0 <= k < l < idx.len() implies idx[k] != idx[l] by {
        assert(seat_before(s, order[k] as int, order[l] as int));
    }
    assert(idx.no_duplicates());
    idx.unique_seq_to_set();
    let range = Set::new(|j: int| 0 <= j < n);
    vstd::set_lib::lemma_int_range(0, n as int);
    assert(range =~= vstd::set_lib::set_int_range(0, n as int));
    assert forall|j: int| 0 <= j < n implies #[trigger] listed(order, j) by {
        if !listed(order, j) {
            let smaller = range.remove(j);
            assert(idx.to_set().subset_of(smaller)) by {
                assert forall|x: int| idx.to_set().contains(x) implies smaller.contains(x) by {
                    let k = choose|k: int| 0 <= k < idx.len() && idx[k] == x;
                    assert(order[k] == x);
                }
            }
            vstd::set_lib::lemma_len_subset(idx.to_set(), smaller);
        }
    }
}

/// The team seats of the spectators `spectators`, given as (process id, spectator
/// id): seats in order of spectator id (ties by place in the input), the first
/// half, rounded up, on the left team. Every spectator gets exactly one seat.
pub fn assign_teams(spectators: &Vec<(u32, usize)>) -> (res: Vec<TeamSeat>)
    ensures
        res@.len() == spectators@.len(),
        forall|k: int|
            0 <= k < res@.len() ==> {
                &&& #[trigger] res@[k].index < spectators@.len()
                &&& res@[k].pid == spectators@[res@[k].index as int].0
                &&& res@[k].ipc_id == spectators@[res@[k].index as int].1
                &&& res@[k].left == (k < (spectators@.len() + 1) / 2)
            },
        forall|k: int, l: int|
            0 <= k < l < res@.len() ==> seat_before(
                spectators@,
                res@[k].index as int,
                res@[l].index as int,
            ),
        forall|j: int| 0 <= j < spectators@.len() ==> #[trigger] seated(res@, j),
        left_seats(res@) == (spectators@.len() + 1) / 2,
        res@.len() - left_seats(res@) == spectators@.len() / 2,
{
    let order = seat_order(spectators);
    proof {
        lemma_order_covers(spectators@, order@);
    }
    let n = spectators.len();
    let cutoff = n / 2 + n % 2;
    let mut seats: Vec<TeamSeat> = Vec::new();
    let mut k: usize = 0;
    while k < order.len()
        invariant
            n == spectators@.len(),
            cutoff == (n + 1) / 2,
            order@.len() == n,
            forall|m: int| 0 <= m < order@.len() ==> order@[m] < n,
            k <= n,
            seats@.len() == k,
            forall|m: int|
                0 <= m < k ==> {
                    &&& seats@[m].index == order@[m]
                    &&& seats@[m].pid == spectators@[order@[m] as int].0
                    &&& seats@[m].ipc_id == spectators@[order@[m] as int].1
                    &&& seats@[m].left == (m < cutoff)
                },
        decreases n - k,
    {
        let i = order[k];
        let ghost before = seats@;
        seats.push(TeamSeat { index: i, pid: spectators[i].0, ipc_id: spectators[i].1, left: k < cutoff });
        assert forall|m: int| 0 <= m < k + 1 implies {
            &&& seats@[m].index == order@[m]
            &&& seats@[m].pid == spectators@[order@[m] as int].0
            &&& seats@[m].ipc_id == spectators@[order@[m] as int].1
            &&& seats@[m].left == (m < cutoff)
        } by {
            if m < k {
                assert(seats@[m] == before[m]);
            }
        }
        k = k + 1;
    }
    assert forall|m: int| 0 <= m < seats@.len() implies {
        &&& #[trigger] seats@[m].index < spectators@.len()
        &&& seats@[m].pid == spectators@[seats@[m].index as int].0
        &&& seats@[m].ipc_id == spectators@[seats@[m].index as int].1
        &&& seats@[m].left == (m < (spectators@.len() + 1) / 2)
    } by {
        assert(order@[m] < n);
    }
    assert forall|k: int, l: int| 0 <= k < l < seats@.len() implies seat_before(
        spectators@,
        seats@[k].index as int,
        seats@[l].index as int,
    ) by {
        assert(seats@[k].index == order@[k] && seats@[l].index == order@[l]);
    }
    assert forall|m: int| 0 <= m < seats@.len() implies seats@[m].left == (m < cutoff) by {
        assert(seats@[m].index == order@[m]);
    }
    proof {
        lemma_left_seats_prefix(seats@, cutoff as int);
        assert forall|j: int| 0 <= j < n implies #[trigger] seated(seats@, j) by {
            assert(listed(order@, j));
            let m = choose|m: int| 0 <= m < order@.len() && order@[m] == j;
            assert(seats@[m].index == j);
        }
    }
    seats
}

/// Whether a spectator id is a valid ranked status (1 to 7).
pub open spec fn is_ranked_status(status: i32) -> bool {
    1 <= status <= 7
}

/// The first valid ranked status of `s`.
pub open spec fn first_ranked(s: Seq<i32>) -> Option<i32>
    decreases s.len(),
{
    if s.len() == 0 {
        None
    } else if is_ranked_status(s[0]) {
        Some(s[0])
    } else {
        first_ranked(s.drop_first())
    }
}

/// The ranked status a tournament shows: the manager's when it is valid, else the
/// root beatmap's when valid, else the first valid one among the clients' cached
/// beatmaps.
pub open spec fn resolve_status_spec(manager: Option<i32>, root: Option<i32>, cached: Seq<i32>) -> Option<i32> {
    if manager matches Some(m) && is_ranked_status(m) {
        manager
    } else if root matches Some(r) && is_ranked_status(r) {
        root
    } else {
        first_ranked(cached)
    }
}

/// Resolves the ranked status that a tournament shows.
pub fn resolve_ranked_status(manager: Option<i32>, root: Option<i32>, cached: &Vec<i32>) -> (res: Option<i32>)
    ensures
        res == resolve_status_spec(manager, root, cached@),
        res matches Some(v) ==> is_ranked_status(v),
{
    if let Some(m) = manager {
        if 1 <= m && m <= 7 {
            return manager;
        }
    }
    if let Some(r) = root {
        if 1 <= r && r <= 7 {
            return root;
        }
    }
    let mut i: usize = 0;
    assert(cached@.skip(0) =~= cached@);
    while i < cached.len()
        invariant
            i <= cached@.len(),
            resolve_status_spec(manager, root, cached@) == first_ranked(cached@.skip(i as int)),
        decreases cached@.len() - i,
    {
        assert(cached@.skip(i as int).drop_first() =~= cached@.skip(i + 1));
        assert(cached@.skip(i as int)[0] == cached@[i as int]);
        if 1 <= cached[i] && cached[i] <= 7 {
            assert(first_ranked(cached@.skip(i as int)) == Some(cached@[i as int]));
            return Some(cached[i]);
        }
        i = i + 1;
    }
    assert(cached@.skip(i as int) =~= Seq::<i32>::empty());
    None
}

/// The status number a beatmap shows: an unknown status (0) takes the resolved one.
pub fn displayed_status(current: i32, resolved: Option<i32>) -> (res: i32)
    ensures
        current == 0 && resolved is Some ==> res == resolved->Some_0,
        !(current == 0 && resolved is Some) ==> res == current,
{
    match resolved {
        Some(s) => if current == 0 {
            s
        } else {
            current
        },
        None => current,
    }
}

/// Whether the tournament session scans for new and closed clients: when it has
/// none, or when the last scan is at least [`PROCESS_RESCAN_MS`] old.
pub fn process_rescan_due(no_clients: bool, since_last_scan_ms: u64) -> (res: bool)
    ensures
        res == (no_clients || since_last_scan_ms >= PROCESS_RESCAN_MS),
{
    no_clients || since_last_scan_ms >= PROCESS_RESCAN_MS
}

/// Number of threads that open `pending` new clients: one per client, between 1
/// and [`MAX_INIT_WORKERS`].
pub fn init_worker_count(pending: usize) -> (res: usize)
    ensures
        res == if pending < 1 {
            1
        } else if pending > MAX_INIT_WORKERS {
            MAX_INIT_WORKERS
        } else {
            pending
        },
{
    if pending < 1 {
        1
    } else if pending > MAX_INIT_WORKERS {
        MAX_INIT_WORKERS
    } else {
        pending
    }
}

/// The process ids of `running` that are not among `known`, in order.
pub fn pending_pids(running: &Vec<u32>, known: &Vec<u32>) -> (res: Vec<u32>)
    ensures
        res@ == running@.filter(|p: u32| !known@.contains(p)),
{
    let mut res: Vec<u32> = Vec::new();
    let mut i: usize = 0;
    assert(running@.take(0).filter(|p: u32| !known@.contains(p)) =~= Seq::<u32>::empty());
    while i < running.len()
        invariant
            i <= running@.len(),
            res@ == running@.take(i as int).filter(|p: u32| !known@.contains(p)),
        decreases running@.len() - i,
    {
        let pid = running[i];
        let mut found = false;
        let mut j: usize = 0;
        while j < known.len()
            invariant
                j <= known@.len(),
                found == exists|m: int| 0 <= m < j && known@[m] == pid,
            decreases known@.len() - j,
        {
            if known[j] == pid {
                found = true;
            }
            j = j + 1;
        }
        assert(found == known@.contains(pid));
        let ghost pre = running@.take(i as int);
        assert(running@.take(i + 1) =~= pre.push(pid));
        proof {
            pre.lemma_filter_push(pid, |p: u32| !known@.contains(p));
        }
        if !found {
            res.push(pid);
        }
        i = i + 1;
    }
    assert(running@.take(running@.len() as int) =~= running@);
    res
}

/// Whether a tournament client looks again for the patterns it lacks: it lacks
/// the ruleset container or (as a spectator) the spectated user, and the last
/// attempt is at least [`PATTERN_RETRY_MS`] old.
pub fn pattern_retry_due(needs_ruleset: bool, needs_user: bool, since_last_retry_ms: u64) -> (res: bool)
    ensures
        res == ((needs_ruleset || needs_user) && since_last_retry_ms >= PATTERN_RETRY_MS),
{
    (needs_ruleset || needs_user) && since_last_retry_ms >= PATTERN_RETRY_MS
}

/// Whether the single-player session may scan for the patterns it lacks.
pub fn solo_scan_allowed(since_last_scan_ms: u64) -> (res: bool)
    ensures
        res == (since_last_scan_ms >= SOLO_SCAN_RETRY_MS),
{
    since_last_scan_ms >= SOLO_SCAN_RETRY_MS
}

/// Whether a throttled read is due: on a state change, or once `period_ms` passed.
pub fn refresh_due(state_changed: bool, since_last_read_ms: u64, period_ms: u64) -> (res: bool)
    ensures
        res == (state_changed || since_last_read_ms >= period_ms),
{
    state_changed || since_last_read_ms >= period_ms
}

/// The game state after a read: whether it changed, and whether the game shows
/// the result screen, where it counts as paused.
pub fn game_state_update(cached: i32, read: i32) -> (res: (bool, bool))
    ensures
        res.0 == (cached != read),
        res.1 == (read == STATE_RESULT_SCREEN),
{
    (cached != read, read == STATE_RESULT_SCREEN)
}

/// Whether the session reads the mods selected in the menus: in every state but
/// a play and the result screen.
pub fn reads_menu_mods(state: i32) -> (res: bool)
    ensures
        res == (state != STATE_PLAYING && state != STATE_RESULT_SCREEN),
{
    state != STATE_PLAYING && state != STATE_RESULT_SCREEN
}

/// The mods that change difficulty: all but ScoreV2.
pub fn difficulty_mods(mods: u32) -> (res: u32)
    ensures
        res == mods & !SCORE_V2_BIT,
{
    mods & !SCORE_V2_BIT
}

/// The judged hits add up without leaving `i16` on the way, as the client's
/// counters are added.
pub open spec fn hits_fit(hit_300: i16, hit_100: i16, hit_50: i16, hit_miss: i16) -> bool {
    &&& i16::MIN <= hit_300 + hit_100 <= i16::MAX
    &&& i16::MIN <= hit_300 + hit_100 + hit_50 <= i16::MAX
    &&& i16::MIN <= hit_300 + hit_100 + hit_50 + hit_miss <= i16::MAX
}

/// Whether a client is playing: it has combo, or it has judged any hit.
pub fn is_playing(combo: i16, hit_300: i16, hit_100: i16, hit_50: i16, hit_miss: i16) -> (res: bool)
    requires
        hits_fit(hit_300, hit_100, hit_50, hit_miss),
    ensures
        res == (combo > 0 || hit_300 + hit_100 + hit_50 + hit_miss > 0),
{
    combo > 0 || (hit_300 + hit_100 + hit_50 + hit_miss) > 0
}

/// Whether a beatmap read from memory describes a beatmap: it has an id or a title.
pub fn has_identity(id: i32, title: &str) -> (res: bool)
    ensures
        res == (id > 0 || title@.len() > 0),
{
    id > 0 || chars_of(title).len() > 0
}

/// Whether a new beatmap file is to be read: the checksum read is not empty and
/// differs from the current one.
pub fn checksum_changed(read: &str, current: &str) -> (res: bool)
    ensures
        res == (read@ != current@ && read@.len() > 0),
{
    let a = chars_of(read);
    let b = chars_of(current);
    !crate::text::chars_equal(a.as_slice(), b.as_slice()) && a.len() > 0
}

/// Length of the hit-error list that the result screen shows when memory gave
/// none: one zero per judged hit, minus the spinners.
pub open spec fn results_error_count(hits: int, spinners: int) -> nat {
    let h = if hits > 0 {
        hits
    } else {
        0
    };
    let s = if spinners > 0 {
        spinners
    } else {
        0
    };
    if h > s {
        (h - s) as nat
    } else {
        0
    }
}

/// The hit-error list of the result screen: empty when hit errors are off, the
/// list read when it has entries, and otherwise zeros, one per judged hit that
/// is not a spinner.
pub fn results_hit_errors(
    enabled: bool,
    existing: Vec<i16>,
    hit_300: i16,
    hit_100: i16,
    hit_50: i16,
    hit_miss: i16,
    spinners: i32,
) -> (res: Vec<i16>)
    requires
        hits_fit(hit_300, hit_100, hit_50, hit_miss),
    ensures
        !enabled ==> res@.len() == 0,
        enabled && existing@.len() > 0 ==> res@ == existing@,
        enabled && existing@.len() == 0 ==> res@ == Seq::new(
            results_error_count(hit_300 + hit_100 + hit_50 + hit_miss, spinners as int),
            |i: int| 0i16,
        ),
{
    if !enabled {
        return Vec::new();
    }
    if existing.len() > 0 {
        return existing;
    }
    let hits: i16 = hit_300 + hit_100 + hit_50 + hit_miss;
    let h: usize = if hits > 0 {
        hits as usize
    } else {
        0
    };
    let s: usize = if spinners > 0 {
        spinners as usize
    } else {
        0
    };
    let count: usize = if h > s {
        h - s
    } else {
        0
    };
    let mut res: Vec<i16> = Vec::new();
    let mut i: usize = 0;
    while i < count
        invariant
            i <= count,
            res@ == Seq::new(i as nat, |k: int| 0i16),
        decreases count - i,
    {
        res.push(0);
        i = i + 1;
        assert(res@ =~= Seq::new(i as nat, |k: int| 0i16));
    }
    res
}

/// Whether a spectator of a one-off snapshot plays for the left team: its
/// spectator id is below half the client count its command line gives, or below
/// 3 when the count is missing.
pub fn snapshot_team_is_left(ipc_id: usize, total: usize) -> (res: bool)
    ensures
        res == (ipc_id < if total > 0 {
            total / 2
        } else {
            3
        }),
{
    let cutoff = if total > 0 {
        total / 2
    } else {
        3
    };
    ipc_id < cutoff
}

/// The hit counts and mods that a live performance value was computed from; the
/// value is computed again only when they change.
#[derive(Debug, Clone, Copy, PartialEq, Eq, Structural)]
pub struct PlayKey {
    pub combo: u32,
    pub n300: u32,
    pub n100: u32,
    pub n50: u32,
    pub misses: u32,
    pub mods: u32,
}

/// What the single-player session keeps between polls to decide the next one.
#[derive(Debug, Clone, Copy, PartialEq, Eq, Structural)]
pub struct SoloState {
    /// The game state shown in the packet.
    pub game_state: i32,
    /// The beatmap object the packet shows (0 for none).
    pub beatmap_ptr: u64,
    /// The active mods shown in the packet.
    pub mods: u32,
    /// The mods of the difficulty statistics last computed, if any.
    pub difficulty_mods: Option<u32>,
    /// The play whose live performance was last computed.
    pub play_key: Option<PlayKey>,
    /// The result-screen play whose performance was last computed.
    pub results_key: Option<PlayKey>,
}

/// What one poll of the single-player session read before it decides.
#[derive(Debug, Clone, Copy, PartialEq, Eq, Structural)]
pub struct SoloReads {
    /// The game state, where it could be read.
    pub game_state: Option<i32>,
    /// The beatmap pointer, where it could be read.
    pub beatmap_ptr: Option<u64>,
    /// The mods selected in the menus, where they were read.
    pub menu_mods: Option<u32>,
    /// Milliseconds since the skin and the profile were last read.
    pub since_skin_ms: u64,
    pub since_profile_ms: u64,
    /// A parsed beatmap file is at hand.
    pub map_loaded: bool,
    /// The active ruleset object was found.
    pub ruleset_found: bool,
}

/// What the session does about the beatmap.
#[derive(Debug, Clone, Copy, PartialEq, Eq, Structural)]
pub enum BeatmapAction {
    /// Nothing changed.
    Keep,
    /// No beatmap is loaded any more: show an empty one.
    Clear,
    /// Another beatmap is loaded: read it (and its file when its checksum changed),
    /// then compute its difficulty under the active mods.
    Load,
}

/// Which play screen the session reads.
#[derive(Debug, Clone, Copy, PartialEq, Eq, Structural)]
pub enum PlayRead {
    Nothing,
    Gameplay,
    Results,
}

/// What one poll of the single-player session does.
#[derive(Debug, Clone, Copy, PartialEq, Eq, Structural)]
pub struct SoloActions {
    /// The game state changed.
    pub state_changed: bool,
    /// Whether the game is paused (the result screen), where the state was read.
    pub paused: Option<bool>,
    pub refresh_skin: bool,
    pub refresh_profile: bool,
    /// The game is in the menus: live stars and the hit-error cache are reset.
    pub in_menus: bool,
    pub beatmap: BeatmapAction,
    /// Compute the difficulty statistics again under these mods (for a kept beatmap).
    pub recompute_difficulty: Option<u32>,
    pub play_read: PlayRead,
    /// The result screen shows the total stars as the live ones.
    pub stars_live_to_total: bool,
}

/// The game state a poll acts on: the one read, or 0 (the menu) when none was.
pub open spec fn polled_state(reads: SoloReads) -> i32 {
    match reads.game_state {
        Some(s) => s,
        None => 0,
    }
}

/// The decisions of one single-player poll, and the state after it.
pub open spec fn solo_step_spec(state: SoloState, reads: SoloReads) -> (SoloState, SoloActions) {
    let current = polled_state(reads);
    let state_changed = reads.game_state is Some && current != state.game_state;
    let in_menus = current != STATE_PLAYING && current != STATE_RESULT_SCREEN;
    let mods = match reads.menu_mods {
        Some(m) => if in_menus {
            m
        } else {
            state.mods
        },
        None => state.mods,
    };
    let beatmap = match reads.beatmap_ptr {
        None => BeatmapAction::Keep,
        Some(p) => if p == 0 {
            if state.beatmap_ptr != 0 {
                BeatmapAction::Clear
            } else {
                BeatmapAction::Keep
            }
        } else if p != state.beatmap_ptr {
            BeatmapAction::Load
        } else {
            BeatmapAction::Keep
        },
    };
    let recompute = match reads.beatmap_ptr {
        Some(p) => p != 0 && p == state.beatmap_ptr && reads.map_loaded && state.difficulty_mods
            != Some(mods),
        None => false,
    };
    let play_read = if !reads.ruleset_found {
        PlayRead::Nothing
    } else if current == STATE_PLAYING {
        PlayRead::Gameplay
    } else if current == STATE_RESULT_SCREEN {
        PlayRead::Results
    } else {
        PlayRead::Nothing
    };
    let next = SoloState {
        game_state: if state_changed {
            current
        } else {
            state.game_state
        },
        beatmap_ptr: match reads.beatmap_ptr {
            Some(p) => p,
            None => state.beatmap_ptr,
        },
        mods,
        difficulty_mods: if recompute {
            Some(mods)
        } else if beatmap == BeatmapAction::Load {
            None
        } else {
            state.difficulty_mods
        },
        play_key: state.play_key,
        results_key: state.results_key,
    };
    let actions = SoloActions {
        state_changed,
        paused: match reads.game_state {
            Some(s) => Some(s == STATE_RESULT_SCREEN),
            None => None,
        },
        refresh_skin: state_changed || reads.since_skin_ms >= SKIN_REFRESH_MS,
        refresh_profile: state_changed || reads.since_profile_ms >= PROFILE_REFRESH_MS,
        in_menus,
        beatmap,
        recompute_difficulty: if recompute {
            Some(mods)
        } else {
            None
        },
        play_read,
        stars_live_to_total: current == STATE_RESULT_SCREEN,
    };
    (next, actions)
}

/// Decides one single-player poll from what it read: the game state and pause,
/// the throttled skin and profile reads, the menu mods, whether the beatmap is
/// kept, cleared or loaded, whether its difficulty is computed again, and which
/// play screen is read.
pub fn solo_step(state: &SoloState, reads: &SoloReads) -> (res: (SoloState, SoloActions))
    ensures
        res == solo_step_spec(*state, *reads),
{
    let current = match reads.game_state {
        Some(s) => s,
        None => 0,
    };
    let state_changed = reads.game_state.is_some() && current != state.game_state;
    let in_menus = current != STATE_PLAYING && current != STATE_RESULT_SCREEN;
    let mods = match reads.menu_mods {
        Some(m) => if in_menus {
            m
        } else {
            state.mods
        },
        None => state.mods,
    };
    let beatmap = match reads.beatmap_ptr {
        None => BeatmapAction::Keep,
        Some(p) => if p == 0 {
            if state.beatmap_ptr != 0 {
                BeatmapAction::Clear
            } else {
                BeatmapAction::Keep
            }
        } else if p != state.beatmap_ptr {
            BeatmapAction::Load
        } else {
            BeatmapAction::Keep
        },
    };
    let recompute = match reads.beatmap_ptr {
        Some(p) => p != 0 && p == state.beatmap_ptr && reads.map_loaded && match state.difficulty_mods {
            Some(d) => d != mods,
            None => true,
        },
        None => false,
    };
    let play_read = if !reads.ruleset_found {
        PlayRead::Nothing
    } else if current == STATE_PLAYING {
        PlayRead::Gameplay
    } else if current == STATE_RESULT_SCREEN {
        PlayRead::Results
    } else {
        PlayRead::Nothing
    };
    let loading = match beatmap {
        BeatmapAction::Load => true,
        _ => false,
    };
    let next = SoloState {
        game_state: if state_changed {
            current
        } else {
            state.game_state
        },
        beatmap_ptr: match reads.beatmap_ptr {
            Some(p) => p,
            None => state.beatmap_ptr,
        },
        mods,
        difficulty_mods: if recompute {
            Some(mods)
        } else if loading {
            None
        } else {
            state.difficulty_mods
        },
        play_key: state.play_key,
        results_key: state.results_key,
    };
    let actions = SoloActions {
        state_changed,
        paused: match reads.game_state {
            Some(s) => Some(s == STATE_RESULT_SCREEN),
            None => None,
        },
        refresh_skin: state_changed || reads.since_skin_ms >= SKIN_REFRESH_MS,
        refresh_profile: state_changed || reads.since_profile_ms >= PROFILE_REFRESH_MS,
        in_menus,
        beatmap,
        recompute_difficulty: if recompute {
            Some(mods)
        } else {
            None
        },
        play_read,
        stars_live_to_total: current == STATE_RESULT_SCREEN,
    };
    (next, actions)
}

/// The state after a beatmap was loaded: its difficulty statistics were computed
/// under the active mods where its file could be parsed, and none are at hand
/// otherwise.
pub fn solo_loaded(state: &SoloState, map_parsed: bool) -> (res: SoloState)
    ensures
        res == (SoloState {
            difficulty_mods: if map_parsed {
                Some(state.mods)
            } else {
                None
            },
            ..*state
        }),
{
    SoloState {
        game_state: state.game_state,
        beatmap_ptr: state.beatmap_ptr,
        mods: state.mods,
        difficulty_mods: if map_parsed {
            Some(state.mods)
        } else {
            None
        },
        play_key: state.play_key,
        results_key: state.results_key,
    }
}

/// What was read of a play screen, for the decisions that follow the read.
#[derive(Debug, Clone, Copy, PartialEq, Eq, Structural)]
pub struct PlayReads {
    /// The screen read: gameplay or the result screen.
    pub results: bool,
    /// The counts and mods of the play (on the result screen, the maximum combo).
    pub key: PlayKey,
    /// The health bar is at or below zero.
    pub health_empty: bool,
    pub pp_enabled: bool,
    pub map_loaded: bool,
}

/// What the session does after reading a play screen.
#[derive(Debug, Clone, Copy, PartialEq, Eq, Structural)]
pub struct PlayActions {
    /// Compute the live (or result) performance again.
    pub recompute_pp: bool,
    /// Show a full health bar (a result screen whose bar reads empty).
    pub full_health: bool,
    /// Compute the difficulty statistics again under the result's mods.
    pub recompute_difficulty: Option<u32>,
}

/// The decisions after a play screen was read, and the state after them.
pub open spec fn solo_play_step_spec(state: SoloState, play: PlayReads) -> (SoloState, PlayActions) {
    let cached = if play.results {
        state.results_key
    } else {
        state.play_key
    };
    let recompute_pp = play.pp_enabled && play.map_loaded && cached != Some(play.key);
    let recompute_difficulty = play.results && play.map_loaded && state.difficulty_mods != Some(
        play.key.mods,
    );
    let next = SoloState {
        play_key: if recompute_pp && !play.results {
            Some(play.key)
        } else {
            state.play_key
        },
        results_key: if recompute_pp && play.results {
            Some(play.key)
        } else {
            state.results_key
        },
        difficulty_mods: if recompute_difficulty {
            Some(play.key.mods)
        } else {
            state.difficulty_mods
        },
        mods: play.key.mods,
        ..state
    };
    let actions = PlayActions {
        recompute_pp,
        full_health: play.results && play.health_empty,
        recompute_difficulty: if recompute_difficulty {
            Some(play.key.mods)
        } else {
            None
        },
    };
    (next, actions)
}

fn same_key(a: Option<PlayKey>, b: PlayKey) -> (res: bool)
    ensures
        res == (a == Some(b)),
{
    match a {
        Some(k) => k == b,
        None => false,
    }
}

/// Decides what follows the read of a play screen: the play's mods become the
/// active ones; the performance is computed again only when the counts or mods
/// changed; the health bar shows full on a result screen that reads it empty; and
/// the result's mods get new difficulty statistics when they differ.
pub fn solo_play_step(state: &SoloState, play: &PlayReads) -> (res: (SoloState, PlayActions))
    ensures
        res == solo_play_step_spec(*state, *play),
{
    let cached = if play.results {
        state.results_key
    } else {
        state.play_key
    };
    let recompute_pp = play.pp_enabled && play.map_loaded && !same_key(cached, play.key);
    let recompute_difficulty = play.results && play.map_loaded && match state.difficulty_mods {
        Some(d) => d != play.key.mods,
        None => true,
    };
    let next = SoloState {
        game_state: state.game_state,
        beatmap_ptr: state.beatmap_ptr,
        mods: play.key.mods,
        difficulty_mods: if recompute_difficulty {
            Some(play.key.mods)
        } else {
            state.difficulty_mods
        },
        play_key: if recompute_pp && !play.results {
            Some(play.key)
        } else {
            state.play_key
        },
        results_key: if recompute_pp && play.results {
            Some(play.key)
        } else {
            state.results_key
        },
    };
    let actions = PlayActions {
        recompute_pp,
        full_health: play.results && play.health_empty,
        recompute_difficulty: if recompute_difficulty {
            Some(play.key.mods)
        } else {
            None
        },
    };
    (next, actions)
}

/// A single-player poll that reads what the previous one read, after a poll that
/// loaded no beatmap, changes nothing: the state is kept, no state change is
/// reported, the beatmap is kept and its difficulty is not computed again.
pub proof fn lemma_solo_step_settles(state: SoloState, reads: SoloReads)
    requires
        solo_step_spec(state, reads).1.beatmap != BeatmapAction::Load,
    ensures
        solo_step_spec(solo_step_spec(state, reads).0, reads).0 == solo_step_spec(state, reads).0,
        !solo_step_spec(solo_step_spec(state, reads).0, reads).1.state_changed,
        solo_step_spec(solo_step_spec(state, reads).0, reads).1.beatmap == BeatmapAction::Keep,
        solo_step_spec(solo_step_spec(state, reads).0, reads).1.recompute_difficulty is None,
{
}

/// Reading the same play again computes nothing again: the performance and the
/// difficulty statistics computed for it are kept, and the state stays.
pub proof fn lemma_play_step_settles(state: SoloState, play: PlayReads)
    ensures
        solo_play_step_spec(solo_play_step_spec(state, play).0, play).0 == solo_play_step_spec(state, play).0,
        !solo_play_step_spec(solo_play_step_spec(state, play).0, play).1.recompute_pp,
        solo_play_step_spec(solo_play_step_spec(state, play).0, play).1.recompute_difficulty is None,
{
}

/// What the tournament session learned of one client in a poll.
#[derive(Debug, Clone, Copy, PartialEq, Eq, Structural)]
pub struct ClientFacts {
    pub pid: u32,
    pub ipc_id: Option<usize>,
    pub is_manager: bool,
    /// The tournament manager state could be read from the client.
    pub manager_read: bool,
    /// The client shows a beatmap, at this live time.
    pub has_beatmap: bool,
    pub live_time: i32,
    pub has_game_folder: bool,
    /// A skin folder name, and the local profile, could be read from the client.
    pub has_skin: bool,
    pub has_profile: bool,
    /// The session time the client reports: `None` when it has no time address,
    /// and 0 when it has one but the read failed.
    pub game_time: Option<i32>,
}

/// The client is treated as a manager candidate: it says it is one, or it is no
/// spectator.
pub open spec fn manager_branch(f: ClientFacts) -> bool {
    f.is_manager || f.ipc_id is None
}

/// The client is a spectator view of the packet.
pub open spec fn is_view(f: ClientFacts) -> bool {
    !manager_branch(f)
}

/// The client is a manager whose tournament state was read.
pub open spec fn active_manager(f: ClientFacts) -> bool {
    manager_branch(f) && f.manager_read
}

/// The choices a tournament poll makes among its clients.
#[derive(Debug, Clone, Copy, PartialEq, Eq, Structural)]
pub enum Pick {
    /// A manager with a game folder.
    FolderManager,
    /// Any client with a game folder.
    AnyFolder,
    /// A manager with a skin folder.
    SkinManager,
    /// A manager with a local profile.
    ProfileManager,
    /// A manager reporting a nonzero session time.
    TimeManager,
    /// Any client with a session-time address.
    AnyTime,
    /// A manager or a spectator that shows a beatmap.
    RootBeatmap,
}

/// Client `f` qualifies for the choice `pick`.
pub open spec fn picks(pick: Pick, f: ClientFacts) -> bool {
    match pick {
        Pick::FolderManager => active_manager(f) && f.has_game_folder,
        Pick::AnyFolder => f.has_game_folder,
        Pick::SkinManager => active_manager(f) && f.has_skin,
        Pick::ProfileManager => active_manager(f) && f.has_profile,
        Pick::TimeManager => active_manager(f) && (f.game_time matches Some(t) && t != 0),
        Pick::AnyTime => f.game_time is Some,
        Pick::RootBeatmap => (active_manager(f) || is_view(f)) && f.has_beatmap,
    }
}

fn picks_exec(pick: Pick, f: &ClientFacts) -> (res: bool)
    ensures
        res == picks(pick, *f),
{
    let branch = f.is_manager || f.ipc_id.is_none();
    let active = branch && f.manager_read;
    match pick {
        Pick::FolderManager => active && f.has_game_folder,
        Pick::AnyFolder => f.has_game_folder,
        Pick::SkinManager => active && f.has_skin,
        Pick::ProfileManager => active && f.has_profile,
        Pick::TimeManager => active && match f.game_time {
            Some(t) => t != 0,
            None => false,
        },
        Pick::AnyTime => f.game_time.is_some(),
        Pick::RootBeatmap => (active || !branch) && f.has_beatmap,
    }
}

/// The first client of `s` that qualifies for `pick`.
pub open spec fn first_pick(s: Seq<ClientFacts>, pick: Pick) -> Option<int>
    decreases s.len(),
{
    if s.len() == 0 {
        None
    } else {
        match first_pick(s.drop_last(), pick) {
            Some(i) => Some(i),
            None => if picks(pick, s.last()) {
                Some(s.len() - 1)
            } else {
                None
            },
        }
    }
}

/// The last client of `s` that is an active manager.
pub open spec fn last_manager(s: Seq<ClientFacts>) -> Option<int>
    decreases s.len(),
{
    if s.len() == 0 {
        None
    } else if active_manager(s.last()) {
        Some(s.len() - 1)
    } else {
        last_manager(s.drop_last())
    }
}

proof fn lemma_first_pick_bound(s: Seq<ClientFacts>, pick: Pick)
    ensures
        first_pick(s, pick) matches Some(i) ==> 0 <= i < s.len() && picks(pick, s[i]),
    decreases s.len(),
{
    if s.len() > 0 {
        lemma_first_pick_bound(s.drop_last(), pick);
    }
}

fn find_pick(facts: &Vec<ClientFacts>, pick: Pick) -> (res: Option<usize>)
    ensures
        picked(res, first_pick(facts@, pick)),
        res matches Some(i) ==> i < facts@.len() && picks(pick, facts@[i as int]),
        first_pick(facts@, pick) matches Some(i) ==> 0 <= i < facts@.len(),
{
    proof {
        lemma_first_pick_bound(facts@, pick);
    }
    let mut res: Option<usize> = None;
    let mut i: usize = 0;
    while i < facts.len()
        invariant
            i <= facts@.len(),
            picked(res, first_pick(facts@.take(i as int), pick)),
            res matches Some(k) ==> k < i && picks(pick, facts@[k as int]),
        decreases facts@.len() - i,
    {
        assert(facts@.take(i + 1).drop_last() =~= facts@.take(i as int));
        assert(facts@.take(i + 1).last() == facts@[i as int]);
        if res.is_none() && picks_exec(pick, &facts[i]) {
            res = Some(i);
        }
        i = i + 1;
    }
    assert(facts@.take(facts@.len() as int) =~= facts@);
    res
}

fn find_last_manager(facts: &Vec<ClientFacts>) -> (res: Option<usize>)
    ensures
        picked(res, last_manager(facts@)),
{
    let mut res: Option<usize> = None;
    let mut i: usize = 0;
    while i < facts.len()
        invariant
            i <= facts@.len(),
            picked(res, last_manager(facts@.take(i as int))),
        decreases facts@.len() - i,
    {
        assert(facts@.take(i + 1).drop_last() =~= facts@.take(i as int));
        assert(facts@.take(i + 1).last() == facts@[i as int]);
        let f = &facts[i];
        if (f.is_manager || f.ipc_id.is_none()) && f.manager_read {
            res = Some(i);
        }
        i = i + 1;
    }
    assert(facts@.take(facts@.len() as int) =~= facts@);
    res
}

/// The spectator views among the clients, in client order.
pub open spec fn view_facts(s: Seq<ClientFacts>) -> Seq<ClientFacts> {
    s.filter(|f: ClientFacts| is_view(f))
}

/// The views as (process id, spectator id) pairs.
pub open spec fn view_seats(s: Seq<ClientFacts>) -> Seq<(u32, usize)> {
    view_facts(s).map_values(|f: ClientFacts| (f.pid, f.ipc_id->Some_0))
}

/// The first view, in the order `order`, that shows a beatmap with a live time
/// past zero; as its position among the views.
pub open spec fn first_live_view(views: Seq<ClientFacts>, order: Seq<usize>) -> Option<int>
    decreases order.len(),
{
    if order.len() == 0 {
        None
    } else if views[order[0] as int].has_beatmap && views[order[0] as int].live_time > 0 {
        Some(order[0] as int)
    } else {
        first_live_view(views, order.drop_first())
    }
}

/// The session time a tournament poll shows: the first manager's nonzero time,
/// else the time of the first client with a time address (0 where its read
/// failed), else 0.
pub open spec fn game_time_spec(s: Seq<ClientFacts>) -> i32 {
    match first_pick(s, Pick::TimeManager) {
        Some(i) => s[i].game_time->Some_0,
        None => match first_pick(s, Pick::AnyTime) {
            Some(i) => s[i].game_time->Some_0,
            None => 0,
        },
    }
}

/// What a tournament poll takes from which client.
#[derive(Debug, Clone)]
pub struct TourneyPlan {
    /// The manager whose tournament state the packet shows: the last one read.
    pub manager: Option<usize>,
    /// The client whose beatmap is the packet's beatmap.
    pub root_beatmap: Option<usize>,
    /// The clients whose game folder, skin folder and profile the packet shows.
    pub game_folder: Option<usize>,
    pub skin: Option<usize>,
    pub profile: Option<usize>,
    pub game_time: i32,
    /// The views in packet order, as positions among the views in client order:
    /// by spectator id, ties by client order.
    pub view_order: Vec<usize>,
    /// The view (a position among the views) whose live time the packet's beatmap
    /// takes when its own is zero.
    pub live_from: Option<usize>,
}

/// The exec index `o` is the spec index `p`.
pub open spec fn picked(o: Option<usize>, p: Option<int>) -> bool {
    match o {
        Some(i) => p == Some(i as int),
        None => p is None,
    }
}

/// The views among `clients`, and their (process id, spectator id) pairs.
fn collect_views(clients: &Vec<ClientFacts>) -> (res: (Vec<ClientFacts>, Vec<(u32, usize)>))
    ensures
        res.0@ == view_facts(clients@),
        res.1@ == view_seats(clients@),
{
    let mut views: Vec<ClientFacts> = Vec::new();
    let mut seats: Vec<(u32, usize)> = Vec::new();
    let mut i: usize = 0;
    while i < clients.len()
        invariant
            i <= clients@.len(),
            views@ == view_facts(clients@.take(i as int)),
            seats@ == view_seats(clients@.take(i as int)),
        decreases clients@.len() - i,
    {
        let f = clients[i];
        proof {
            let pred = |g: ClientFacts| is_view(g);
            assert(clients@.take(i + 1) =~= clients@.take(i as int).push(f));
            clients@.take(i as int).lemma_filter_push(f, pred);
        }
        if !(f.is_manager || f.ipc_id.is_none()) {
            let ipc = match f.ipc_id {
                Some(x) => x,
                None => 0,
            };
            views.push(f);
            seats.push((f.pid, ipc));
            assert(seats@ =~= view_seats(clients@.take(i + 1)));
        } else {
            assert(seats@ =~= view_seats(clients@.take(i + 1)));
        }
        i = i + 1;
    }
    assert(clients@.take(clients@.len() as int) =~= clients@);
    (views, seats)
}

/// The first view in `order` with a live time past zero.
fn find_live_view(views: &Vec<ClientFacts>, order: &Vec<usize>) -> (res: Option<usize>)
    requires
        forall|j: int| 0 <= j < order@.len() ==> order@[j] < views@.len(),
    ensures
        picked(res, first_live_view(views@, order@)),
{
    let mut live_from: Option<usize> = None;
    let mut k: usize = order.len();
    while k > 0
        invariant
            k <= order@.len(),
            forall|j: int| 0 <= j < order@.len() ==> order@[j] < views@.len(),
            picked(live_from, first_live_view(views@, order@.skip(k as int))),
        decreases k,
    {
        k = k - 1;
        let v = views[order[k]];
        assert(order@.skip(k as int).drop_first() =~= order@.skip(k + 1));
        if v.has_beatmap && v.live_time > 0 {
            live_from = Some(order[k]);
        }
    }
    assert(order@.skip(0) =~= order@);
    live_from
}

/// The session time the packet shows.
fn pick_game_time(clients: &Vec<ClientFacts>) -> (res: i32)
    ensures
        res == game_time_spec(clients@),
{
    let time_manager = find_pick(clients, Pick::TimeManager);
    let any_time = find_pick(clients, Pick::AnyTime);
    match time_manager {
        Some(i) => {
            assert(first_pick(clients@, Pick::TimeManager) == Some(i as int));
            match clients[i].game_time {
                Some(t) => t,
                None => 0,
            }
        },
        None => match any_time {
            Some(i) => match clients[i].game_time {
                Some(t) => t,
                None => 0,
            },
            None => 0,
        },
    }
}

/// Plans one tournament poll from what it learned of its clients: the manager
/// shown (the last one read), the clients that give the beatmap, game folder,
/// skin, profile and session time (the first that qualifies, managers first),
/// the views sorted by spectator id, and the view that lends its live time.
pub fn tournament_plan(clients: &Vec<ClientFacts>) -> (res: TourneyPlan)
    ensures
        picked(res.manager, last_manager(clients@)),
        picked(res.root_beatmap, first_pick(clients@, Pick::RootBeatmap)),
        picked(res.game_folder, match first_pick(clients@, Pick::FolderManager) {
            Some(i) => Some(i),
            None => first_pick(clients@, Pick::AnyFolder),
        }),
        picked(res.skin, first_pick(clients@, Pick::SkinManager)),
        picked(res.profile, first_pick(clients@, Pick::ProfileManager)),
        res.game_time == game_time_spec(clients@),
        res.view_order@.len() == view_seats(clients@).len(),
        forall|k: int| 0 <= k < res.view_order@.len() ==> res.view_order@[k] < view_seats(clients@).len(),
        forall|k: int, l: int|
            0 <= k < l < res.view_order@.len() ==> seat_before(
                view_seats(clients@),
                res.view_order@[k] as int,
                res.view_order@[l] as int,
            ),
        forall|j: int| 0 <= j < view_seats(clients@).len() ==> #[trigger] listed(res.view_order@, j),
        picked(res.live_from, first_live_view(view_facts(clients@), res.view_order@)),
{
    let manager = find_last_manager(clients);
    let root_beatmap = find_pick(clients, Pick::RootBeatmap);
    let game_folder = match find_pick(clients, Pick::FolderManager) {
        Some(i) => Some(i),
        None => find_pick(clients, Pick::AnyFolder),
    };
    let skin = find_pick(clients, Pick::SkinManager);
    let profile = find_pick(clients, Pick::ProfileManager);
    let game_time = pick_game_time(clients);
    let (views, seats) = collect_views(clients);
    let view_order = seat_order(&seats);
    proof {
        lemma_order_covers(seats@, view_order@);
    }
    assert(views@.len() == seats@.len());
    let live_from = find_live_view(&views, &view_order);
    TourneyPlan { manager, root_beatmap, game_folder, skin, profile, game_time, view_order, live_from }
}

/// Where a spectator's difficulty statistics come from.
#[derive(Debug, Clone, Copy, PartialEq, Eq, Structural)]
pub enum StatsSource {
    /// The beatmap's nomod statistics.
    Base,
    /// The statistics cached for these mods.
    Cached,
    /// Compute them, and cache them under these mods.
    Compute,
}

/// Where the statistics for difficulty mods `diff_mods` come from: the nomod ones
/// for no mods, the cache when it holds them, a computation otherwise.
pub fn stats_source(diff_mods: u32, cached: bool) -> (res: StatsSource)
    ensures
        diff_mods == 0 ==> res == StatsSource::Base,
        diff_mods != 0 && cached ==> res == StatsSource::Cached,
        diff_mods != 0 && !cached ==> res == StatsSource::Compute,
{
    if diff_mods == 0 {
        StatsSource::Base
    } else if cached {
        StatsSource::Cached
    } else {
        StatsSource::Compute
    }
}

/// Whether a client's per-beatmap caches (gameplay, hit errors) are dropped: the
/// beatmap it shows has another checksum than the one it cached for.
pub fn client_cache_stale(read: &str, cached: &str) -> (res: bool)
    ensures
        res == (read@ != cached@),
{
    !crate::text::chars_equal(chars_of(read).as_slice(), chars_of(cached).as_slice())
}

} // verus!
