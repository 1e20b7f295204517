//! What the provider decides about one osu! client: its command line, its mods,
//! its hit-error list and the time stamps it keeps.
use crate::address::{checked_add, unsigned_result, parse_unsigned, AddressError};
use crate::text::{
    append_chars, append_str, chars_of, padded_decimal, padded_decimal_chars, contains_chars, contains_seq, find_chars, first_occurrence, lower_chars, lower_seq,
    replace_all, replace_chars, slice_chars, split_words, string_of, upper_chars, upper_seq, views, words_of,
};
use vstd::prelude::*;

verus! {

/// Index of the spectator marker in the lower-cased command line: the first
/// `-spectateclient`, or else the first `/spectateclient`.
pub open spec fn spectate_marker(lower: Seq<char>) -> Option<int> {
    match first_occurrence(lower, "-spectateclient"@) {
        Some(i) => Some(i),
        None => first_occurrence(lower, "/spectateclient"@),
    }
}

/// A decimal `usize` as `str::parse` reads it.
pub open spec fn usize_value(t: Seq<char>) -> Option<usize> {
    match unsigned_result(t, 10, usize::MAX as nat) {
        Ok(v) => Some(v as usize),
        Err(_) => None,
    }
}

/// What `parse_spectate_client_arg` returns: after the spectator marker, the word
/// that follows it is the client's id and the next one, if it is a number, the
/// number of clients (0 otherwise).
pub open spec fn spectate_arg_spec(cmd: Seq<char>) -> Option<(usize, usize)> {
    match spectate_marker(lower_seq(cmd)) {
        None => None,
        Some(idx) => {
            let words = split_words(cmd.skip(idx), false);
            if words.len() >= 2 && usize_value(words[1]) is Some {
                let total = if words.len() >= 3 && usize_value(words[2]) is Some {
                    usize_value(words[2])->Some_0
                } else {
                    0
                };
                Some((usize_value(words[1])->Some_0, total))
            } else {
                None
            }
        },
    }
}

/// A tournament spectator client's id and the number of clients, from the command
/// line's `-spectateclient <id> <total>` (or `/spectateclient`, in any case).
pub fn parse_spectate_client_arg(cmd: &str) -> (res: Option<(usize, usize)>)
    ensures
        res == spectate_arg_spec(cmd@),
{
    let chars = chars_of(cmd);
    let lower = lower_chars(chars.as_slice());
    let dash = chars_of("-spectateclient");
    let slash = chars_of("/spectateclient");
    let idx = match find_chars(lower.as_slice(), dash.as_slice()) {
        Some(i) => Some(i),
        None => find_chars(lower.as_slice(), slash.as_slice()),
    };
    proof {
        crate::text::lemma_first_occurrence(lower@, dash@);
        crate::text::lemma_first_occurrence(lower@, slash@);
    }
    assert(idx matches Some(i) ==> spectate_marker(lower_seq(cmd@)) == Some(i as int));
    assert(idx is None ==> spectate_marker(lower_seq(cmd@)) is None);
    match idx {
        None => None,
        Some(i) => {
            let after = slice_chars(chars.as_slice(), i, chars.len());
            assert(after@ =~= cmd@.skip(i as int));
            let words = words_of(after.as_slice(), false);
            assert(views(words@) == split_words(cmd@.skip(i as int), false));
            if words.len() < 2 {
                return None;
            }
            assert(words@[1]@ == views(words@)[1]);
            match parse_unsigned(words[1].as_slice(), 10, usize::MAX as u128) {
                Ok(id) => {
                    let total: usize = if words.len() >= 3 {
                        assert(words@[2]@ == views(words@)[2]);
                        match parse_unsigned(words[2].as_slice(), 10, usize::MAX as u128) {
                            Ok(t) => t as usize,
                            Err(_) => 0,
                        }
                    } else {
                        0
                    };
                    Some((id as usize, total))
                },
                Err(_) => None,
            }
        },
    }
}

/// The command line names a tournament manager: it holds `-tourney`, `/tourney` or
/// `tournament`, in any ASCII case. The autoplay flag `-go` does not count.
pub open spec fn is_tournament_manager_spec(cmd: Seq<char>) -> bool {
    let lower = lower_seq(cmd);
    contains_seq(lower, "-tourney"@) || contains_seq(lower, "/tourney"@) || contains_seq(
        lower,
        "tournament"@,
    )
}

/// Whether the command line marks osu! as a tournament manager.
pub fn is_tournament_manager_cmd(cmd: &str) -> (res: bool)
    ensures
        res == is_tournament_manager_spec(cmd@),
{
    let lower = lower_chars(chars_of(cmd).as_slice());
    let a = chars_of("-tourney");
    let b = chars_of("/tourney");
    let c = chars_of("tournament");
    contains_chars(lower.as_slice(), a.as_slice()) || contains_chars(lower.as_slice(), b.as_slice())
        || contains_chars(lower.as_slice(), c.as_slice())
}

/// Number of legacy mods that have a name.
pub const MOD_COUNT: usize = 31;

/// Acronym of legacy mod `i` (bit `1 << i`).
pub open spec fn mod_name(i: nat) -> Seq<char> {
    if i == 0 {
        "NF"@
    } else if i == 1 {
        "EZ"@
    } else if i == 2 {
        "TD"@
    } else if i == 3 {
        "HD"@
    } else if i == 4 {
        "HR"@
    } else if i == 5 {
        "SD"@
    } else if i == 6 {
        "DT"@
    } else if i == 7 {
        "RX"@
    } else if i == 8 {
        "HT"@
    } else if i == 9 {
        "NC"@
    } else if i == 10 {
        "FL"@
    } else if i == 11 {
        "AT"@
    } else if i == 12 {
        "SO"@
    } else if i == 13 {
        "AP"@
    } else if i == 14 {
        "PF"@
    } else if i == 15 {
        "4K"@
    } else if i == 16 {
        "5K"@
    } else if i == 17 {
        "6K"@
    } else if i == 18 {
        "7K"@
    } else if i == 19 {
        "8K"@
    } else if i == 20 {
        "FI"@
    } else if i == 21 {
        "RD"@
    } else if i == 22 {
        "CN"@
    } else if i == 23 {
        "TG"@
    } else if i == 24 {
        "9K"@
    } else if i == 25 {
        "10K"@
    } else if i == 26 {
        "1K"@
    } else if i == 27 {
        "3K"@
    } else if i == 28 {
        "2K"@
    } else if i == 29 {
        "v2"@
    } else {
        "MR"@
    }
}

/// Display rank of legacy mod `i`: mods are listed by rank, then by bit. NoFail
/// ranks 99 with the mods that have no rank of their own, as in tosu, whose table
/// gives it 0 and then reads that 0 as "no rank".
pub open spec fn mod_rank(i: nat) -> nat {
    if i == 1 {
        1
    } else if i == 2 {
        7
    } else if i == 3 {
        2
    } else if i == 4 {
        4
    } else if i == 5 {
        5
    } else if i == 6 || i == 8 || i == 9 {
        3
    } else if i == 10 {
        6
    } else if i == 12 || i == 14 {
        5
    } else {
        99
    }
}

/// The ranks that occur in the mod table, ascending.
pub open spec fn rank_list() -> Seq<nat> {
    seq![1nat, 2, 3, 4, 5, 6, 7, 99]
}

/// Legacy mod `i` is set in `mods`.
pub open spec fn mod_set(mods: u32, i: nat) -> bool {
    mods & (1u32 << (i as u32)) != 0
}

/// Names of the set mods among the first `n` whose rank is `rank`, by bit.
pub open spec fn names_of_rank(mods: u32, rank: nat, n: nat) -> Seq<char>
    decreases n,
{
    if n == 0 {
        Seq::empty()
    } else {
        let prev = names_of_rank(mods, rank, (n - 1) as nat);
        if mod_rank((n - 1) as nat) == rank && mod_set(mods, (n - 1) as nat) {
            prev + mod_name((n - 1) as nat)
        } else {
            prev
        }
    }
}

/// Names of the set mods of the first `k` ranks of [`rank_list`], by rank then bit.
pub open spec fn names_by_rank(mods: u32, k: nat) -> Seq<char>
    decreases k,
{
    if k == 0 {
        Seq::empty()
    } else {
        names_by_rank(mods, (k - 1) as nat) + names_of_rank(
            mods,
            rank_list()[k - 1],
            MOD_COUNT as nat,
        )
    }
}

/// The display text of a legacy mod mask: the acronyms of its set mods by rank,
/// where Nightcore hides Double Time, Perfect hides Sudden Death and Cinema hides
/// Autoplay.
pub open spec fn format_mods_spec(mods: u32) -> Seq<char> {
    let joined = names_by_rank(mods, 8);
    replace_all(replace_all(replace_all(joined, "DTNC"@, "NC"@), "SDPF"@, "PF"@), "ATCN"@, "CN"@)
}

/// The legacy mod whose acronym is `name`; -1 for any other text.
pub open spec fn mod_of_name(name: Seq<char>) -> int {
    if name == "NF"@ {
        0
    } else if name == "EZ"@ {
        1
    } else if name == "TD"@ {
        2
    } else if name == "HD"@ {
        3
    } else if name == "HR"@ {
        4
    } else if name == "SD"@ {
        5
    } else if name == "DT"@ {
        6
    } else if name == "RX"@ {
        7
    } else if name == "HT"@ {
        8
    } else if name == "NC"@ {
        9
    } else if name == "FL"@ {
        10
    } else if name == "AT"@ {
        11
    } else if name == "SO"@ {
        12
    } else if name == "AP"@ {
        13
    } else if name == "PF"@ {
        14
    } else if name == "4K"@ {
        15
    } else if name == "5K"@ {
        16
    } else if name == "6K"@ {
        17
    } else if name == "7K"@ {
        18
    } else if name == "8K"@ {
        19
    } else if name == "FI"@ {
        20
    } else if name == "RD"@ {
        21
    } else if name == "CN"@ {
        22
    } else if name == "TG"@ {
        23
    } else if name == "9K"@ {
        24
    } else if name == "10K"@ {
        25
    } else if name == "1K"@ {
        26
    } else if name == "3K"@ {
        27
    } else if name == "2K"@ {
        28
    } else if name == "v2"@ {
        29
    } else if name == "MR"@ {
        30
    } else {
        -1
    }
}

/// The acronyms identify the mods: each named mod has a non-empty acronym of at
/// most three characters that names it back, so no two mods share one.
#[verifier::rlimit(60)]
pub proof fn lemma_mod_names_identify_mods()
    ensures
        forall|i: nat| i < MOD_COUNT ==> mod_of_name(#[trigger] mod_name(i)) == i as int,
        forall|i: nat| i < MOD_COUNT ==> 0 < (#[trigger] mod_name(i)).len() <= 3,
        forall|i: nat, j: nat| i < MOD_COUNT && j < MOD_COUNT && i != j ==> #[trigger] mod_name(i) != #[trigger] mod_name(j),
{
    reveal_strlit("10K");
    reveal_strlit("1K");
    reveal_strlit("2K");
    reveal_strlit("3K");
    reveal_strlit("4K");
    reveal_strlit("5K");
    reveal_strlit("6K");
    reveal_strlit("7K");
    reveal_strlit("8K");
    reveal_strlit("9K");
    reveal_strlit("AP");
    reveal_strlit("AT");
    reveal_strlit("CN");
    reveal_strlit("DT");
    reveal_strlit("EZ");
    reveal_strlit("FI");
    reveal_strlit("FL");
    reveal_strlit("HD");
    reveal_strlit("HR");
    reveal_strlit("HT");
    reveal_strlit("MR");
    reveal_strlit("NC");
    reveal_strlit("NF");
    reveal_strlit("PF");
    reveal_strlit("RD");
    reveal_strlit("RX");
    reveal_strlit("SD");
    reveal_strlit("SO");
    reveal_strlit("TD");
    reveal_strlit("TG");
    reveal_strlit("v2");
    assert("10K"@.len() == 3);
    assert("1K"@.len() == 2);
    assert("2K"@.len() == 2);
    assert("3K"@.len() == 2);
    assert("4K"@.len() == 2);
    assert("5K"@.len() == 2);
    assert("6K"@.len() == 2);
    assert("7K"@.len() == 2);
    assert("8K"@.len() == 2);
    assert("9K"@.len() == 2);
    assert("AP"@.len() == 2);
    assert("AT"@.len() == 2);
    assert("CN"@.len() == 2);
    assert("DT"@.len() == 2);
    assert("EZ"@.len() == 2);
    assert("FI"@.len() == 2);
    assert("FL"@.len() == 2);
    assert("HD"@.len() == 2);
    assert("HR"@.len() == 2);
    assert("HT"@.len() == 2);
    assert("MR"@.len() == 2);
    assert("NC"@.len() == 2);
    assert("NF"@.len() == 2);
    assert("PF"@.len() == 2);
    assert("RD"@.len() == 2);
    assert("RX"@.len() == 2);
    assert("SD"@.len() == 2);
    assert("SO"@.len() == 2);
    assert("TD"@.len() == 2);
    assert("TG"@.len() == 2);
    assert("v2"@.len() == 2);
    assert("1K"@[0] == '1');
    assert("1K"@[1] == 'K');
    assert("2K"@[0] == '2');
    assert("2K"@[1] == 'K');
    assert("3K"@[0] == '3');
    assert("3K"@[1] == 'K');
    assert("4K"@[0] == '4');
    assert("4K"@[1] == 'K');
    assert("5K"@[0] == '5');
    assert("5K"@[1] == 'K');
    assert("6K"@[0] == '6');
    assert("6K"@[1] == 'K');
    assert("7K"@[0] == '7');
    assert("7K"@[1] == 'K');
    assert("8K"@[0] == '8');
    assert("8K"@[1] == 'K');
    assert("9K"@[0] == '9');
    assert("9K"@[1] == 'K');
    assert("AP"@[0] == 'A');
    assert("AP"@[1] == 'P');
    assert("AT"@[0] == 'A');
    assert("AT"@[1] == 'T');
    assert("CN"@[0] == 'C');
    assert("CN"@[1] == 'N');
    assert("DT"@[0] == 'D');
    assert("DT"@[1] == 'T');
    assert("EZ"@[0] == 'E');
    assert("EZ"@[1] == 'Z');
    assert("FI"@[0] == 'F');
    assert("FI"@[1] == 'I');
    assert("FL"@[0] == 'F');
    assert("FL"@[1] == 'L');
    assert("HD"@[0] == 'H');
    assert("HD"@[1] == 'D');
    assert("HR"@[0] == 'H');
    assert("HR"@[1] == 'R');
    assert("HT"@[0] == 'H');
    assert("HT"@[1] == 'T');
    assert("MR"@[0] == 'M');
    assert("MR"@[1] == 'R');
    assert("NC"@[0] == 'N');
    assert("NC"@[1] == 'C');
    assert("NF"@[0] == 'N');
    assert("NF"@[1] == 'F');
    assert("PF"@[0] == 'P');
    assert("PF"@[1] == 'F');
    assert("RD"@[0] == 'R');
    assert("RD"@[1] == 'D');
    assert("RX"@[0] == 'R');
    assert("RX"@[1] == 'X');
    assert("SD"@[0] == 'S');
    assert("SD"@[1] == 'D');
    assert("SO"@[0] == 'S');
    assert("SO"@[1] == 'O');
    assert("TD"@[0] == 'T');
    assert("TD"@[1] == 'D');
    assert("TG"@[0] == 'T');
    assert("TG"@[1] == 'G');
    assert("v2"@[0] == 'v');
    assert("v2"@[1] == '2');
    assert forall|i: nat| i < MOD_COUNT implies mod_of_name(#[trigger] mod_name(i)) == i as int && 0 < mod_name(i).len() <= 3 by {
        if i == 0 {
            assert(mod_name(0) == "NF"@);
            assert(mod_of_name("NF"@) == 0);
        } else if i == 1 {
            assert(mod_name(1) == "EZ"@);
            assert(mod_of_name("EZ"@) == 1);
        } else if i == 2 {
            assert(mod_name(2) == "TD"@);
            assert(mod_of_name("TD"@) == 2);
        } else if i == 3 {
            assert(mod_name(3) == "HD"@);
            assert(mod_of_name("HD"@) == 3);
        } else if i == 4 {
            assert(mod_name(4) == "HR"@);
            assert(mod_of_name("HR"@) == 4);
        } else if i == 5 {
            assert(mod_name(5) == "SD"@);
            assert(mod_of_name("SD"@) == 5);
        } else if i == 6 {
            assert(mod_name(6) == "DT"@);
            assert(mod_of_name("DT"@) == 6);
        } else if i == 7 {
            assert(mod_name(7) == "RX"@);
            assert(mod_of_name("RX"@) == 7);
        } else if i == 8 {
            assert(mod_name(8) == "HT"@);
            assert(mod_of_name("HT"@) == 8);
        } else if i == 9 {
            assert(mod_name(9) == "NC"@);
            assert(mod_of_name("NC"@) == 9);
        } else if i == 10 {
            assert(mod_name(10) == "FL"@);
            assert(mod_of_name("FL"@) == 10);
        } else if i == 11 {
            assert(mod_name(11) == "AT"@);
            assert(mod_of_name("AT"@) == 11);
        } else if i == 12 {
            assert(mod_name(12) == "SO"@);
            assert(mod_of_name("SO"@) == 12);
        } else if i == 13 {
            assert(mod_name(13) == "AP"@);
            assert(mod_of_name("AP"@) == 13);
        } else if i == 14 {
            assert(mod_name(14) == "PF"@);
            assert(mod_of_name("PF"@) == 14);
        } else if i == 15 {
            assert(mod_name(15) == "4K"@);
            assert(mod_of_name("4K"@) == 15);
        } else if i == 16 {
            assert(mod_name(16) == "5K"@);
            assert(mod_of_name("5K"@) == 16);
        } else if i == 17 {
            assert(mod_name(17) == "6K"@);
            assert(mod_of_name("6K"@) == 17);
        } else if i == 18 {
            assert(mod_name(18) == "7K"@);
            assert(mod_of_name("7K"@) == 18);
        } else if i == 19 {
            assert(mod_name(19) == "8K"@);
            assert(mod_of_name("8K"@) == 19);
        } else if i == 20 {
            assert(mod_name(20) == "FI"@);
            assert(mod_of_name("FI"@) == 20);
        } else if i == 21 {
            assert(mod_name(21) == "RD"@);
            assert(mod_of_name("RD"@) == 21);
        } else if i == 22 {
            assert(mod_name(22) == "CN"@);
            assert(mod_of_name("CN"@) == 22);
        } else if i == 23 {
            assert(mod_name(23) == "TG"@);
            assert(mod_of_name("TG"@) == 23);
        } else if i == 24 {
            assert(mod_name(24) == "9K"@);
            assert(mod_of_name("9K"@) == 24);
        } else if i == 25 {
            assert(mod_name(25) == "10K"@);
            assert(mod_of_name("10K"@) == 25);
        } else if i == 26 {
            assert(mod_name(26) == "1K"@);
            assert(mod_of_name("1K"@) == 26);
        } else if i == 27 {
            assert(mod_name(27) == "3K"@);
            assert(mod_of_name("3K"@) == 27);
        } else if i == 28 {
            assert(mod_name(28) == "2K"@);
            assert(mod_of_name("2K"@) == 28);
        } else if i == 29 {
            assert(mod_name(29) == "v2"@);
            assert(mod_of_name("v2"@) == 29);
        } else if i == 30 {
            assert(mod_name(30) == "MR"@);
            assert(mod_of_name("MR"@) == 30);
        }
    }
    assert forall|i: nat, j: nat| i < MOD_COUNT && j < MOD_COUNT && i != j implies #[trigger] mod_name(i) != #[trigger] mod_name(j) by {
        assert(mod_of_name(mod_name(i)) == i as int);
        assert(mod_of_name(mod_name(j)) == j as int);
    }
}

proof fn lemma_single_bit(i: nat, j: nat)
    requires
        i < 32,
        j < 32,
    ensures
        mod_set(1u32 << (i as u32), j) == (i == j),
{
    let a = i as u32;
    let b = j as u32;
    assert(((1u32 << a) & (1u32 << b) != 0) == (a == b)) by (bit_vector)
        requires
            a < 32,
            b < 32,
    ;
}

proof fn lemma_names_of_rank_single(i: nat, r: nat, n: nat)
    requires
        i < 32,
        n < 32,
    ensures
        names_of_rank(1u32 << (i as u32), r, n) == (if i < n && mod_rank(i) == r {
            mod_name(i)
        } else {
            Seq::<char>::empty()
        }),
    decreases n,
{
    if n > 0 {
        lemma_names_of_rank_single(i, r, (n - 1) as nat);
        lemma_single_bit(i, (n - 1) as nat);
        assert(Seq::<char>::empty() + mod_name(i) =~= mod_name(i));
    }
}

/// Rank `r` is among the first `k` ranks of [`rank_list`].
pub open spec fn rank_among(r: nat, k: nat) -> bool {
    exists|j: int| 0 <= j < k && rank_list()[j] == r
}

proof fn lemma_names_by_rank_single(i: nat, k: nat)
    requires
        i < MOD_COUNT,
        k <= 8,
    ensures
        names_by_rank(1u32 << (i as u32), k) == (if rank_among(mod_rank(i), k) {
            mod_name(i)
        } else {
            Seq::<char>::empty()
        }),
    decreases k,
{
    if k > 0 {
        lemma_names_by_rank_single(i, (k - 1) as nat);
        lemma_names_of_rank_single(i, rank_list()[k - 1], MOD_COUNT as nat);
        let r = mod_rank(i);
        assert(rank_list() =~= seq![1nat, 2, 3, 4, 5, 6, 7, 99]);
        if rank_list()[k - 1] == r {
            assert(rank_among(r, k));
            if rank_among(r, (k - 1) as nat) {
                let j = choose|j: int| 0 <= j < k - 1 && rank_list()[j] == r;
                assert(rank_list()[j] != rank_list()[k - 1]);
            }
            assert(Seq::<char>::empty() + mod_name(i) =~= mod_name(i));
        } else {
            if rank_among(r, k) {
                let j = choose|j: int| 0 <= j < k && rank_list()[j] == r;
                assert(rank_among(r, (k - 1) as nat));
            }
            assert(names_by_rank(1u32 << (i as u32), (k - 1) as nat) + Seq::<char>::empty()
                =~= names_by_rank(1u32 << (i as u32), (k - 1) as nat));
        }
    }
}

/// A mask with a single mod shows that mod's acronym: no named mod is dropped from
/// the display text, whatever its display rank.
pub proof fn lemma_single_mod_shown(i: nat)
    requires
        i < MOD_COUNT,
    ensures
        format_mods_spec(1u32 << (i as u32)) == mod_name(i),
{
    lemma_mod_names_identify_mods();
    lemma_names_by_rank_single(i, 8);
    let r = mod_rank(i);
    assert(rank_list() =~= seq![1nat, 2, 3, 4, 5, 6, 7, 99]);
    if r == 99 {
        assert(rank_list()[7] == r);
    } else {
        assert(rank_list()[r - 1] == r);
    }
    assert(rank_among(r, 8));
    reveal_strlit("DTNC");
    reveal_strlit("SDPF");
    reveal_strlit("ATCN");
    assert("DTNC"@.len() == 4);
    assert("SDPF"@.len() == 4);
    assert("ATCN"@.len() == 4);
}

proof fn lemma_pair_bits(a: nat, b: nat, k: nat)
    requires
        a < 32,
        b < 32,
        k < 32,
    ensures
        mod_set((1u32 << (a as u32)) | (1u32 << (b as u32)), k) == (k == a || k == b),
{
    let x = a as u32;
    let y = b as u32;
    let z = k as u32;
    assert((((1u32 << x) | (1u32 << y)) & (1u32 << z) != 0) == (z == x || z == y)) by (bit_vector)
        requires
            x < 32,
            y < 32,
            z < 32,
    ;
}

spec fn entry(x: nat, r: nat, n: nat) -> Seq<char> {
    if x < n && mod_rank(x) == r {
        mod_name(x)
    } else {
        Seq::<char>::empty()
    }
}

proof fn lemma_names_of_rank_pair(a: nat, b: nat, r: nat, n: nat)
    requires
        a < b < 32,
        n < 32,
    ensures
        names_of_rank((1u32 << (a as u32)) | (1u32 << (b as u32)), r, n) == entry(a, r, n) + entry(b, r, n),
    decreases n,
{
    let m = (1u32 << (a as u32)) | (1u32 << (b as u32));
    if n == 0 {
        assert(Seq::<char>::empty() + Seq::<char>::empty() =~= Seq::<char>::empty());
    } else {
        let k = (n - 1) as nat;
        lemma_names_of_rank_pair(a, b, r, k);
        lemma_pair_bits(a, b, k);
        let prev = names_of_rank(m, r, k);
        if k == a {
            assert(entry(a, r, k) =~= Seq::<char>::empty());
            assert(entry(b, r, k) =~= Seq::<char>::empty());
            assert(entry(b, r, n) =~= Seq::<char>::empty());
            assert(prev =~= Seq::<char>::empty());
            if mod_rank(a) == r {
                assert(names_of_rank(m, r, n) =~= entry(a, r, n) + entry(b, r, n));
            } else {
                assert(names_of_rank(m, r, n) =~= entry(a, r, n) + entry(b, r, n));
            }
        } else if k == b {
            assert(entry(b, r, k) =~= Seq::<char>::empty());
            assert(entry(a, r, n) == entry(a, r, k));
            assert(prev =~= entry(a, r, k));
            assert(names_of_rank(m, r, n) =~= entry(a, r, n) + entry(b, r, n));
        } else {
            assert(entry(a, r, n) == entry(a, r, k));
            assert(entry(b, r, n) == entry(b, r, k));
        }
    }
}

spec fn shown(x: nat, k: nat) -> Seq<char> {
    if rank_among(mod_rank(x), k) {
        mod_name(x)
    } else {
        Seq::<char>::empty()
    }
}

proof fn lemma_rank_list_ascending()
    ensures
        forall|x: int, y: int| 0 <= x < y < 8 ==> rank_list()[x] < rank_list()[y],
{
    assert(rank_list() =~= seq![1nat, 2, 3, 4, 5, 6, 7, 99]);
}

proof fn lemma_names_by_rank_pair(a: nat, b: nat, k: nat)
    requires
        a < b < MOD_COUNT,
        k <= 8,
    ensures
        names_by_rank((1u32 << (a as u32)) | (1u32 << (b as u32)), k) == (if mod_rank(a) <= mod_rank(b) {
            shown(a, k) + shown(b, k)
        } else {
            shown(b, k) + shown(a, k)
        }),
    decreases k,
{
    let m = (1u32 << (a as u32)) | (1u32 << (b as u32));
    if k == 0 {
        assert(shown(a, 0) =~= Seq::<char>::empty());
        assert(shown(b, 0) =~= Seq::<char>::empty());
        assert(Seq::<char>::empty() + Seq::<char>::empty() =~= Seq::<char>::empty());
    } else {
        let j = (k - 1) as nat;
        lemma_names_by_rank_pair(a, b, j);
        lemma_rank_list_ascending();
        let rk = rank_list()[k - 1];
        lemma_names_of_rank_pair(a, b, rk, MOD_COUNT as nat);
        let prev = names_by_rank(m, j);
        let ra = mod_rank(a);
        let rb = mod_rank(b);
        // A rank met among the first j ranks lies below the k-th one.
        if rank_among(ra, j) {
            let w = choose|w: int| 0 <= w < j && rank_list()[w] == ra;
            assert(ra < rk);
        }
        if rank_among(rb, j) {
            let w = choose|w: int| 0 <= w < j && rank_list()[w] == rb;
            assert(rb < rk);
        }
        if ra == rk {
            assert(rank_among(ra, k));
            assert(!rank_among(ra, j));
        } else {
            if rank_among(ra, k) {
                let w = choose|w: int| 0 <= w < k && rank_list()[w] == ra;
                assert(rank_among(ra, j));
            }
        }
        if rb == rk {
            assert(rank_among(rb, k));
            assert(!rank_among(rb, j));
        } else {
            if rank_among(rb, k) {
                let w = choose|w: int| 0 <= w < k && rank_list()[w] == rb;
                assert(rank_among(rb, j));
            }
        }
        let ea = entry(a, rk, MOD_COUNT as nat);
        let eb = entry(b, rk, MOD_COUNT as nat);
        assert(names_by_rank(m, k) == prev + (ea + eb));
        if ra <= rb {
            assert(names_by_rank(m, k) =~= shown(a, k) + shown(b, k));
        } else {
            assert(names_by_rank(m, k) =~= shown(b, k) + shown(a, k));
        }
    }
}

/// tosu's display order of the named mods: `EZ`, `HD`, `DT`, `HT`, `NC`, `HR`,
/// `SD`, `SO`, `PF`, `FL`, `TD`, then the others by bit.
pub open spec fn display_order() -> Seq<nat> {
    seq![1nat, 3, 6, 8, 9, 4, 5, 12, 14, 10, 2, 0, 7, 11, 13, 15, 16, 17, 18, 19, 20, 21, 22, 23, 24, 25, 26, 27, 28, 29, 30]
}

proof fn lemma_display_order_keys(p: int, q: int)
    requires
        0 <= p < q < 31,
    ensures
        mod_rank(display_order()[p]) * 32 + display_order()[p] < mod_rank(display_order()[q]) * 32
            + display_order()[q],
    decreases q - p,
{
    if q == p + 1 {
        assert(mod_rank(1) * 32 + 1 < mod_rank(3) * 32 + 3);
        assert(mod_rank(3) * 32 + 3 < mod_rank(6) * 32 + 6);
        assert(mod_rank(6) * 32 + 6 < mod_rank(8) * 32 + 8);
        assert(mod_rank(8) * 32 + 8 < mod_rank(9) * 32 + 9);
        assert(mod_rank(9) * 32 + 9 < mod_rank(4) * 32 + 4);
        assert(mod_rank(4) * 32 + 4 < mod_rank(5) * 32 + 5);
        assert(mod_rank(5) * 32 + 5 < mod_rank(12) * 32 + 12);
        assert(mod_rank(12) * 32 + 12 < mod_rank(14) * 32 + 14);
        assert(mod_rank(14) * 32 + 14 < mod_rank(10) * 32 + 10);
        assert(mod_rank(10) * 32 + 10 < mod_rank(2) * 32 + 2);
        assert(mod_rank(2) * 32 + 2 < mod_rank(0) * 32 + 0);
        assert(mod_rank(0) * 32 + 0 < mod_rank(7) * 32 + 7);
        assert(mod_rank(7) * 32 + 7 < mod_rank(11) * 32 + 11);
        assert(mod_rank(11) * 32 + 11 < mod_rank(13) * 32 + 13);
        assert(mod_rank(13) * 32 + 13 < mod_rank(15) * 32 + 15);
        assert(mod_rank(15) * 32 + 15 < mod_rank(16) * 32 + 16);
        assert(mod_rank(16) * 32 + 16 < mod_rank(17) * 32 + 17);
        assert(mod_rank(17) * 32 + 17 < mod_rank(18) * 32 + 18);
        assert(mod_rank(18) * 32 + 18 < mod_rank(19) * 32 + 19);
        assert(mod_rank(19) * 32 + 19 < mod_rank(20) * 32 + 20);
        assert(mod_rank(20) * 32 + 20 < mod_rank(21) * 32 + 21);
        assert(mod_rank(21) * 32 + 21 < mod_rank(22) * 32 + 22);
        assert(mod_rank(22) * 32 + 22 < mod_rank(23) * 32 + 23);
        assert(mod_rank(23) * 32 + 23 < mod_rank(24) * 32 + 24);
        assert(mod_rank(24) * 32 + 24 < mod_rank(25) * 32 + 25);
        assert(mod_rank(25) * 32 + 25 < mod_rank(26) * 32 + 26);
        assert(mod_rank(26) * 32 + 26 < mod_rank(27) * 32 + 27);
        assert(mod_rank(27) * 32 + 27 < mod_rank(28) * 32 + 28);
        assert(mod_rank(28) * 32 + 28 < mod_rank(29) * 32 + 29);
        assert(mod_rank(29) * 32 + 29 < mod_rank(30) * 32 + 30);
    } else {
        lemma_display_order_keys(p, q - 1);
        lemma_display_order_keys(q - 1, q);
    }
}

/// Two mods shown together both appear, once each and in tosu's display order (the
/// text before `NC`, `PF` and `CN` hide `DT`, `SD` and `AT`).
pub proof fn lemma_two_mods_in_display_order(p: int, q: int)
    requires
        0 <= p < q < 31,
    ensures
        names_by_rank(
            (1u32 << (display_order()[p] as u32)) | (1u32 << (display_order()[q] as u32)),
            8,
        ) == mod_name(display_order()[p]) + mod_name(display_order()[q]),
{
    let x = display_order()[p];
    let y = display_order()[q];
    lemma_display_order_keys(p, q);
    assert(display_order().len() == 31);
    assert(x < 31 && y < 31);
    let r8 = seq![1nat, 2, 3, 4, 5, 6, 7, 99];
    assert(rank_list() =~= r8);
    assert(rank_among(mod_rank(x), 8)) by {
        let r = mod_rank(x);
        if r == 99 {
            assert(rank_list()[7] == r);
        } else {
            assert(rank_list()[r - 1] == r);
        }
    }
    assert(rank_among(mod_rank(y), 8)) by {
        let r = mod_rank(y);
        if r == 99 {
            assert(rank_list()[7] == r);
        } else {
            assert(rank_list()[r - 1] == r);
        }
    }
    if x < y {
        lemma_names_by_rank_pair(x, y, 8);
    } else {
        lemma_names_by_rank_pair(y, x, 8);
        let a = x as u32;
        let b = y as u32;
        assert((1u32 << a) | (1u32 << b) == (1u32 << b) | (1u32 << a)) by (bit_vector);
    }
}

fn mod_name_str(i: usize) -> (res: &'static str)
    requires
        i < MOD_COUNT,
    ensures
        res@ == mod_name(i as nat),
{
    if i == 0 {
        "NF"
    } else if i == 1 {
        "EZ"
    } else if i == 2 {
        "TD"
    } else if i == 3 {
        "HD"
    } else if i == 4 {
        "HR"
    } else if i == 5 {
        "SD"
    } else if i == 6 {
        "DT"
    } else if i == 7 {
        "RX"
    } else if i == 8 {
        "HT"
    } else if i == 9 {
        "NC"
    } else if i == 10 {
        "FL"
    } else if i == 11 {
        "AT"
    } else if i == 12 {
        "SO"
    } else if i == 13 {
        "AP"
    } else if i == 14 {
        "PF"
    } else if i == 15 {
        "4K"
    } else if i == 16 {
        "5K"
    } else if i == 17 {
        "6K"
    } else if i == 18 {
        "7K"
    } else if i == 19 {
        "8K"
    } else if i == 20 {
        "FI"
    } else if i == 21 {
        "RD"
    } else if i == 22 {
        "CN"
    } else if i == 23 {
        "TG"
    } else if i == 24 {
        "9K"
    } else if i == 25 {
        "10K"
    } else if i == 26 {
        "1K"
    } else if i == 27 {
        "3K"
    } else if i == 28 {
        "2K"
    } else if i == 29 {
        "v2"
    } else {
        "MR"
    }
}

fn mod_rank_of(i: usize) -> (res: u32)
    requires
        i < MOD_COUNT,
    ensures
        res == mod_rank(i as nat),
{
    if i == 1 {
        1
    } else if i == 2 {
        7
    } else if i == 3 {
        2
    } else if i == 4 {
        4
    } else if i == 5 {
        5
    } else if i == 6 || i == 8 || i == 9 {
        3
    } else if i == 10 {
        6
    } else if i == 12 || i == 14 {
        5
    } else {
        99
    }
}

/// The acronyms of the mods in `mods` by display rank, with the implied mod hidden
/// (`NC` rather than `DTNC`, `PF` rather than `SDPF`, `CN` rather than `ATCN`).
pub fn format_mods(mods: u32) -> (res: String)
    ensures
        res@ == format_mods_spec(mods),
{
    let ranks: [u32; 8] = [1, 2, 3, 4, 5, 6, 7, 99];
    let mut joined: Vec<char> = Vec::new();
    let mut k: usize = 0;
    while k < 8
        invariant
            k <= 8,
            ranks@ == seq![1u32, 2, 3, 4, 5, 6, 7, 99],
            joined@ == names_by_rank(mods, k as nat),
        decreases 8 - k,
    {
        let rank = ranks[k];
        assert(rank == rank_list()[k as int]);
        let ghost before = joined@;
        let mut i: usize = 0;
        while i < MOD_COUNT
            invariant
                i <= MOD_COUNT,
                joined@ == before + names_of_rank(mods, rank as nat, i as nat),
            decreases MOD_COUNT - i,
        {
            if mod_rank_of(i) == rank && mods & (1u32 << (i as u32)) != 0 {
                append_str(&mut joined, mod_name_str(i));
                assert(joined@ =~= before + names_of_rank(mods, rank as nat, (i + 1) as nat));
            }
            i = i + 1;
        }
        k = k + 1;
    }
    proof {
        reveal_strlit("DTNC");
        reveal_strlit("SDPF");
        reveal_strlit("ATCN");
    }
    let r1 = replace_chars(joined.as_slice(), chars_of("DTNC").as_slice(), chars_of("NC").as_slice());
    let r2 = replace_chars(r1.as_slice(), chars_of("SDPF").as_slice(), chars_of("PF").as_slice());
    let r3 = replace_chars(r2.as_slice(), chars_of("ATCN").as_slice(), chars_of("CN").as_slice());
    string_of(r3.as_slice())
}

/// One entry of the `play.mods.array` list of the tosu packet.
#[derive(Debug, Clone, Default, PartialEq)]
pub struct ModEntry {
    pub acronym: String,
}

/// The two-character chunks of `s`, in order; a trailing odd character is dropped.
pub open spec fn char_pairs(s: Seq<char>) -> Seq<Seq<char>> {
    Seq::new(s.len() / 2, |k: int| seq![s[2 * k], s[2 * k + 1]])
}

proof fn lemma_pairs_flatten(s: Seq<char>)
    ensures
        char_pairs(s).flatten() == s.take(2 * (s.len() / 2) as int),
    decreases s.len(),
{
    if s.len() < 2 {
        assert(char_pairs(s) =~= Seq::<Seq<char>>::empty());
        assert(s.take(0) =~= Seq::<char>::empty());
    } else {
        let rest = s.skip(2);
        lemma_pairs_flatten(rest);
        assert(char_pairs(s).drop_first() =~= char_pairs(rest));
        assert(char_pairs(s).first() == seq![s[0], s[1]]);
        assert(seq![s[0], s[1]] + rest.take(2 * (rest.len() / 2) as int) =~= s.take(
            2 * (s.len() / 2) as int,
        ));
    }
}

/// The acronyms of the packet's mod list: the display text in ASCII upper case,
/// cut into two-character chunks (`HRv2` gives `HR`, `V2`).
pub open spec fn mod_acronym_list(mods: u32) -> Seq<Seq<char>> {
    char_pairs(upper_seq(format_mods_spec(mods)))
}

/// Joining the acronyms of the packet's mod list gives back the mods' display
/// text in upper case, short of its last character when the text has an odd length.
pub proof fn lemma_acronyms_spell_the_mods(mods: u32)
    ensures
        mod_acronym_list(mods).flatten() == upper_seq(format_mods_spec(mods)).take(
            2 * (format_mods_spec(mods).len() / 2) as int,
        ),
{
    lemma_pairs_flatten(upper_seq(format_mods_spec(mods)));
}

/// The display text of `mods` cut into two-character acronyms, each upper-cased.
pub fn mod_acronyms(mods: u32) -> (res: Vec<ModEntry>)
    ensures
        res@.len() == mod_acronym_list(mods).len(),
        forall|k: int| 0 <= k < res@.len() ==> #[trigger] res@[k].acronym@ == mod_acronym_list(mods)[k],
{
    let s = format_mods(mods);
    let lower = chars_of(s.as_str());
    let cs = upper_chars(lower.as_slice());
    let ghost pairs = char_pairs(cs@);
    let mut entries: Vec<ModEntry> = Vec::new();
    let mut k: usize = 0;
    while k < cs.len() / 2
        invariant
            cs@ == upper_seq(format_mods_spec(mods)),
            pairs == char_pairs(cs@),
            k <= cs@.len() / 2,
            entries@.len() == k,
            forall|j: int| 0 <= j < k ==> #[trigger] entries@[j].acronym@ == pairs[j],
        decreases cs@.len() / 2 - k,
    {
        let mut pair: Vec<char> = Vec::new();
        pair.push(cs[2 * k]);
        pair.push(cs[2 * k + 1]);
        let acronym = string_of(pair.as_slice());
        assert(acronym@ =~= pairs[k as int]);
        entries.push(ModEntry { acronym });
        k = k + 1;
    }
    entries
}

/// Newest hit errors kept from the game's append-only list.
pub const MAX_HIT_ERRORS: usize = 20_000;

/// Sanity bound for a single hit error in milliseconds.
pub const HIT_ERROR_BOUND: i32 = 10_000;

/// Bytes of .NET object header before element 0 of a list's storage.
pub const LIST_ITEMS_HEADER: u64 = 8;

/// Index of the first hit error to read from a list of `size` entries, and how many
/// to read: a longer list keeps its newest `MAX_HIT_ERRORS` entries.
pub fn hit_error_window(size: usize) -> (res: (usize, usize))
    ensures
        res.0 == (if size > MAX_HIT_ERRORS {
            size - MAX_HIT_ERRORS
        } else {
            0
        }),
        res.0 + res.1 == size,
        res.1 <= MAX_HIT_ERRORS,
{
    let start = size.saturating_sub(MAX_HIT_ERRORS);
    (start, size - start)
}

/// Address of element `start` of the hit-error storage at `items`: past the object
/// header, four bytes per element.
pub fn hit_error_items_address(items: u64, start: usize) -> (res: Result<u64, AddressError>)
    requires
        start * 4 > u64::MAX || start * 4 + LIST_ITEMS_HEADER <= u64::MAX,
    ensures
        start * 4 > u64::MAX ==> res == Err::<u64, AddressError>(AddressError::Overflow),
        start * 4 <= u64::MAX && items + LIST_ITEMS_HEADER + start * 4 <= u64::MAX ==> res == Ok::<
            u64,
            AddressError,
        >((items + LIST_ITEMS_HEADER + start * 4) as u64),
        start * 4 <= u64::MAX && items + LIST_ITEMS_HEADER + start * 4 > u64::MAX ==> res == Err::<
            u64,
            AddressError,
        >(AddressError::AddressOverflow),
{
    let offset = match (start as u64).checked_mul(4) {
        Some(o) => o,
        None => {
            return Err(AddressError::Overflow);
        },
    };
    checked_add(items, LIST_ITEMS_HEADER + offset)
}

/// The little-endian `i32` stored in `bytes[at..at + 4]`.
pub open spec fn le_i32(bytes: Seq<u8>, at: int) -> int {
    let u = bytes[at] + 256 * bytes[at + 1] + 65536 * bytes[at + 2] + 16777216 * bytes[at + 3];
    if u >= 0x8000_0000 {
        u - 0x1_0000_0000
    } else {
        u
    }
}

/// The hit errors decoded from the first `k` whole elements of `bytes`: decoding
/// stops at the first value outside `±HIT_ERROR_BOUND`.
pub open spec fn hit_errors_prefix(bytes: Seq<u8>, k: nat) -> Seq<i16>
    decreases k,
{
    if k == 0 {
        Seq::empty()
    } else {
        let prev = hit_errors_prefix(bytes, (k - 1) as nat);
        let v = le_i32(bytes, 4 * (k - 1));
        if prev.len() == k - 1 && -10_000 <= v <= 10_000 {
            prev.push(v as i16)
        } else {
            prev
        }
    }
}

/// What `parse_hit_errors` returns for `bytes`.
pub open spec fn parse_hit_errors_spec(bytes: Seq<u8>) -> Seq<i16> {
    hit_errors_prefix(bytes, bytes.len() / 4)
}

fn read_le_i32(bytes: &[u8], at: usize) -> (res: i64)
    requires
        at + 4 <= bytes@.len(),
    ensures
        res == le_i32(bytes@, at as int),
{
    let u: i64 = (bytes[at] as i64) + 256 * (bytes[at + 1] as i64) + 65536 * (bytes[at + 2] as i64)
        + 16777216 * (bytes[at + 3] as i64);
    if u >= 0x8000_0000 {
        u - 0x1_0000_0000
    } else {
        u
    }
}

proof fn lemma_prefix_len(bytes: Seq<u8>, k: nat)
    ensures
        hit_errors_prefix(bytes, k).len() <= k,
    decreases k,
{
    if k > 0 {
        lemma_prefix_len(bytes, (k - 1) as nat);
    }
}

proof fn lemma_prefix_stops(bytes: Seq<u8>, k: nat, m: nat)
    requires
        k <= m,
        hit_errors_prefix(bytes, k).len() < k,
    ensures
        hit_errors_prefix(bytes, m) == hit_errors_prefix(bytes, k),
    decreases m - k,
{
    if k < m {
        lemma_prefix_stops(bytes, k, (m - 1) as nat);
    }
}

proof fn lemma_prefix_exact(bytes: Seq<u8>, k: nat)
    ensures
        hit_errors_prefix(bytes, k).len() <= k,
        forall|a: int|
            0 <= a < hit_errors_prefix(bytes, k).len() ==> #[trigger] hit_errors_prefix(bytes, k)[a] as int
                == le_i32(bytes, 4 * a) && -10_000 <= le_i32(bytes, 4 * a) && le_i32(bytes, 4 * a) <= 10_000,
        hit_errors_prefix(bytes, k).len() < k ==> !(-10_000 <= le_i32(
            bytes,
            4 * (hit_errors_prefix(bytes, k).len() as int),
        ) <= 10_000),
    decreases k,
{
    if k > 0 {
        lemma_prefix_exact(bytes, (k - 1) as nat);
        let prev = hit_errors_prefix(bytes, (k - 1) as nat);
        let cur = hit_errors_prefix(bytes, k);
        let v = le_i32(bytes, 4 * (k - 1));
        if prev.len() == k - 1 && -10_000 <= v <= 10_000 {
            assert(cur == prev.push(v as i16));
            assert forall|a: int| 0 <= a < cur.len() implies #[trigger] cur[a] as int == le_i32(bytes, 4 * a)
                && -10_000 <= le_i32(bytes, 4 * a) && le_i32(bytes, 4 * a) <= 10_000 by {
                if a < k - 1 {
                    assert(cur[a] == prev[a]);
                } else {
                    assert(a == k - 1);
                    assert(cur[a] == v as i16);
                    assert(le_i32(bytes, 4 * a) == v);
                }
            }
        } else {
            assert(cur == prev);
        }
    }
}

/// What `parse_hit_errors` decodes, stated directly: with `v[k]` the little-endian
/// `i32` at byte `4 * k`, the result is `v[0..j]` as `i16`, where `j` is the first
/// `k` below `bytes.len() / 4` with `v[k]` outside `±10000`, or `bytes.len() / 4`
/// when there is none.
pub proof fn lemma_hit_errors_decoded(bytes: Seq<u8>)
    ensures
        parse_hit_errors_spec(bytes).len() <= bytes.len() / 4,
        forall|a: int|
            0 <= a < parse_hit_errors_spec(bytes).len() ==> #[trigger] parse_hit_errors_spec(bytes)[a] as int
                == le_i32(bytes, 4 * a) && -10_000 <= le_i32(bytes, 4 * a) && le_i32(bytes, 4 * a) <= 10_000,
        parse_hit_errors_spec(bytes).len() < bytes.len() / 4 ==> !(-10_000 <= le_i32(
            bytes,
            4 * (parse_hit_errors_spec(bytes).len() as int),
        ) <= 10_000),
{
    lemma_prefix_exact(bytes, bytes.len() / 4);
}

/// Decodes one bulk read of hit errors: little-endian `i32` elements, stopping at the
/// first one outside `±HIT_ERROR_BOUND`; a trailing partial element is ignored.
pub fn parse_hit_errors(bytes: &[u8]) -> (res: Vec<i16>)
    ensures
        res@ == parse_hit_errors_spec(bytes@),
{
    let n = bytes.len() / 4;
    let mut result: Vec<i16> = Vec::new();
    let mut k: usize = 0;
    while k < n
        invariant
            n == bytes@.len() / 4,
            bytes@.len() == bytes.len(),
            k <= n,
            result@ == hit_errors_prefix(bytes@, k as nat),
            result@.len() == k,
        decreases n - k,
    {
        let value = read_le_i32(bytes, 4 * k);
        if value < -(HIT_ERROR_BOUND as i64) || value > (HIT_ERROR_BOUND as i64) {
            proof {
                assert(hit_errors_prefix(bytes@, (k + 1) as nat) == hit_errors_prefix(bytes@, k as nat));
                lemma_prefix_stops(bytes@, (k + 1) as nat, n as nat);
            }
            return result;
        }
        result.push(value as i16);
        k = k + 1;
    }
    result
}

/// Legacy mods from the two XOR halves the game stores, with Score V2 (`1 << 29`)
/// added when the play uses the Score V2 processor.
pub fn decode_mods(xor_a: i32, xor_b: i32, score_v2: bool) -> (res: u32)
    ensures
        res == (if score_v2 {
            ((xor_a ^ xor_b) as u32) | (1u32 << 29u32)
        } else {
            (xor_a ^ xor_b) as u32
        }),
{
    let mods = (xor_a ^ xor_b) as u32;
    if score_v2 {
        mods | (1u32 << 29u32)
    } else {
        mods
    }
}

/// Division rounding toward zero, as Rust's `/` on signed integers.
pub open spec fn trunc_div(a: int, b: int) -> int {
    if a >= 0 {
        a / b
    } else {
        -((-a) / b)
    }
}

fn tdiv(a: i64, b: i64) -> (res: i64)
    requires
        b > 0,
        a > i64::MIN,
    ensures
        res == trunc_div(a as int, b as int),
{
    if a >= 0 {
        a / b
    } else {
        -((-a) / b)
    }
}

/// Calendar date `(year, month, day)` of a day count since 1970-01-01 in the proleptic
/// Gregorian calendar, computed as `civil_from_days` does (H. Hinnant's algorithm,
/// with Rust's truncating division).
pub open spec fn civil_spec(days: int) -> (int, int, int) {
    let z = days + 719_468;
    let era = trunc_div(if z >= 0 {
        z
    } else {
        z - 146_096
    }, 146_097);
    let doe = z - era * 146_097;
    let yoe = trunc_div(
        doe - trunc_div(doe, 1460) + trunc_div(doe, 36_524) - trunc_div(doe, 146_096),
        365,
    );
    let year = yoe + era * 400;
    let doy = doe - (365 * yoe + trunc_div(yoe, 4) - trunc_div(yoe, 100));
    let mp = trunc_div(5 * doy + 2, 153);
    let day = doy - trunc_div(153 * mp + 2, 5) + 1;
    let month = if mp < 10 {
        mp + 3
    } else {
        mp - 9
    };
    (if month <= 2 {
        year + 1
    } else {
        year
    }, month, day)
}

proof fn lemma_era_bounds(z: int)
    ensures
        0 <= z - trunc_div(if z >= 0 {
            z
        } else {
            z - 146_096
        }, 146_097) * 146_097 < 146_097,
{
    let d = 146_097int;
    if z >= 0 {
        vstd::arithmetic::div_mod::lemma_fundamental_div_mod(z, d);
        vstd::arithmetic::div_mod::lemma_mod_bound(z, d);
    } else {
        let a = d - 1 - z;
        vstd::arithmetic::div_mod::lemma_fundamental_div_mod(a, d);
        vstd::arithmetic::div_mod::lemma_mod_bound(a, d);
        assert(trunc_div(z - 146_096, 146_097) == -(a / d));
    }
}

/// The day of the year that the algorithm derives from day `doe` of a 400-year
/// era lies in `0..=365`.
spec fn day_of_year_fits(doe: int) -> bool {
    let yoe = (doe - doe / 1460 + doe / 36_524 - doe / 146_096) / 365;
    let doy = doe - (365 * yoe + yoe / 4 - yoe / 100);
    0 <= doy <= 365
}

/// Every day of a 400-year era has a day of the year in `0..=365`. Write the day
/// as `36524 c + 1461 q + 365 r + d` (centuries, four-year cycles, years, days):
/// the algorithm's year is `100 c + 4 q + r`, and its day of the year is `d`.
proof fn lemma_day_of_year(doe: int)
    requires
        0 <= doe <= 146_096,
    ensures
        day_of_year_fits(doe),
        ({
            let yoe = (doe - doe / 1460 + doe / 36_524 - doe / 146_096) / 365;
            doe - (365 * yoe + yoe / 4 - yoe / 100) == 365 ==> is_leap_year(yoe + 1)
        }),
{
    if doe == 146_096 {
        assert(doe / 1460 == 100 && doe / 36_524 == 4 && doe / 146_096 == 1);
        assert(145_999int / 365 == 399);
        assert(399int / 4 == 99 && 399int / 100 == 3);
        assert(400int % 4 == 0 && 400int % 400 == 0);
    } else {
        let c = doe / 36_524;
        let rem1 = doe % 36_524;
        vstd::arithmetic::div_mod::lemma_fundamental_div_mod(doe, 36_524);
        let q = rem1 / 1461;
        let rem2 = rem1 % 1461;
        vstd::arithmetic::div_mod::lemma_fundamental_div_mod(rem1, 1461);
        assert(0 <= c <= 3);
        assert(0 <= q <= 24);
        let r: int = if rem2 / 365 > 3 {
            3
        } else {
            rem2 / 365
        };
        vstd::arithmetic::div_mod::lemma_fundamental_div_mod(rem2, 365);
        let d = rem2 - 365 * r;
        assert(0 <= d <= 365);
        assert(doe == 36_524 * c + 1461 * q + 365 * r + d);
        let s = 24 * c + q + rem2;
        let e: int = if s >= 1460 {
            1
        } else {
            0
        };
        vstd::arithmetic::div_mod::lemma_fundamental_div_mod_converse(doe, 1460, 25 * c + q + e, s - 1460 * e);
        vstd::arithmetic::div_mod::lemma_fundamental_div_mod_converse(doe, 36_524, c, rem1);
        vstd::arithmetic::div_mod::lemma_fundamental_div_mod_converse(doe, 146_096, 0, doe);
        let y = 100 * c + 4 * q + r;
        let t = doe - doe / 1460 + doe / 36_524 - doe / 146_096;
        assert(t == 365 * y + (d - e));
        vstd::arithmetic::div_mod::lemma_fundamental_div_mod_converse(t, 365, y, d - e);
        vstd::arithmetic::div_mod::lemma_fundamental_div_mod_converse(y, 4, 25 * c + q, r);
        vstd::arithmetic::div_mod::lemma_fundamental_div_mod_converse(y, 100, c, 4 * q + r);
        assert(doe - (365 * y + y / 4 - y / 100) == d);
        if d == 365 {
            assert(rem2 == 1460 && r == 3 && q <= 23);
            vstd::arithmetic::div_mod::lemma_fundamental_div_mod_converse(y + 1, 4, 25 * c + q + 1, 0);
            vstd::arithmetic::div_mod::lemma_fundamental_div_mod_converse(y + 1, 100, c, 4 * q + 4);
        }
    }
}

/// A leap year of the Gregorian calendar.
pub open spec fn is_leap_year(year: int) -> bool {
    year % 4 == 0 && (year % 100 != 0 || year % 400 == 0)
}

/// Number of days of `month` (1 to 12) in `year`.
pub open spec fn days_in_month(year: int, month: int) -> int {
    if month == 2 {
        if is_leap_year(year) {
            29
        } else {
            28
        }
    } else if month == 4 || month == 6 || month == 9 || month == 11 {
        30
    } else {
        31
    }
}

/// Every day count names a real calendar date: a month from 1 to 12, and a day
/// from 1 to the length of that month in that year (29 February only in leap years).
pub proof fn lemma_civil_date_is_valid(days: int)
    ensures
        1 <= civil_spec(days).1 <= 12,
        1 <= civil_spec(days).2 <= days_in_month(civil_spec(days).0, civil_spec(days).1),
{
    let z = days + 719_468;
    lemma_era_bounds(z);
    let era = trunc_div(if z >= 0 {
        z
    } else {
        z - 146_096
    }, 146_097);
    let doe = z - era * 146_097;
    lemma_day_of_year(doe);
    let yoe = trunc_div(
        doe - trunc_div(doe, 1460) + trunc_div(doe, 36_524) - trunc_div(doe, 146_096),
        365,
    );
    assert(yoe == (doe - doe / 1460 + doe / 36_524 - doe / 146_096) / 365) by {
        vstd::arithmetic::div_mod::lemma_fundamental_div_mod(doe, 1460);
        vstd::arithmetic::div_mod::lemma_fundamental_div_mod(doe, 36_524);
        vstd::arithmetic::div_mod::lemma_fundamental_div_mod(doe, 146_096);
    }
    let doy = doe - (365 * yoe + yoe / 4 - yoe / 100);
    assert(0 <= doy <= 365);
    let mp = (5 * doy + 2) / 153;
    vstd::arithmetic::div_mod::lemma_fundamental_div_mod(5 * doy + 2, 153);
    assert(0 <= mp <= 11);
    vstd::arithmetic::div_mod::lemma_fundamental_div_mod(153 * mp + 2, 5);
    let day = doy - (153 * mp + 2) / 5 + 1;
    assert(1 <= day);
    assert(5 * doy + 2 < 153 * mp + 153);
    if mp == 11 {
        let year = yoe + era * 400 + 1;
        if doy == 365 {
            vstd::arithmetic::div_mod::lemma_mod_multiples_vanish(era * 100, yoe + 1, 4);
            vstd::arithmetic::div_mod::lemma_mod_multiples_vanish(era * 4, yoe + 1, 100);
            vstd::arithmetic::div_mod::lemma_mod_multiples_vanish(era, yoe + 1, 400);
            assert(is_leap_year(year));
        }
    }
}

/// Calendar date of a day count since 1970-01-01.
pub fn civil_from_days(days: i64) -> (res: (i64, u32, u32))
    requires
        i64::MIN + 719_468 <= days <= i64::MAX - 719_468,
    ensures
        res.0 == civil_spec(days as int).0,
        res.1 == civil_spec(days as int).1,
        res.2 == civil_spec(days as int).2,
        1 <= res.1 <= 12,
        1 <= res.2 <= days_in_month(res.0 as int, res.1 as int),
{
    let z = days + 719_468;
    proof {
        lemma_era_bounds(z as int);
        lemma_civil_date_is_valid(days as int);
    }
    let era = if z >= 0 {
        tdiv(z, 146_097)
    } else {
        tdiv(z - 146_096, 146_097)
    };
    assert(-0x1_0000_0000_0000 * 146_097 <= era * 146_097 <= 0x1_0000_0000_0000 * 146_097) by {
        assert(era * 146_097 <= z + 146_096);
        assert(era * 146_097 >= z - 146_097);
    }
    let day_of_era = z - era * 146_097;
    let year_of_era = tdiv(
        day_of_era - tdiv(day_of_era, 1460) + tdiv(day_of_era, 36_524) - tdiv(day_of_era, 146_096),
        365,
    );
    let year = year_of_era + era * 400;
    let day_of_year = day_of_era - (365 * year_of_era + tdiv(year_of_era, 4) - tdiv(year_of_era, 100));
    let month_prime = tdiv(5 * day_of_year + 2, 153);
    let day = (day_of_year - tdiv(153 * month_prime + 2, 5) + 1) as u32;
    let month = (if month_prime < 10 {
        month_prime + 3
    } else {
        month_prime - 9
    }) as u32;
    let year = if month <= 2 {
        year + 1
    } else {
        year
    };
    (year, month, day)
}

/// The ISO-8601 text of an instant `seconds` after the Unix epoch with
/// `fraction_millis` milliseconds: `YYYY-MM-DDThh:mm:ss.fffZ`.
pub open spec fn iso_datetime_spec(seconds: int, fraction_millis: nat) -> Seq<char> {
    let days = seconds / 86_400;
    let second_of_day = seconds % 86_400;
    let (year, month, day) = civil_spec(days);
    padded_decimal(year, 4) + "-"@ + padded_decimal(month, 2) + "-"@ + padded_decimal(day, 2) + "T"@ + padded_decimal(second_of_day / 3600, 2) + ":"@ + padded_decimal(
        (second_of_day % 3600) / 60,
        2,
    ) + ":"@ + padded_decimal(second_of_day % 60, 2) + "."@ + padded_decimal(fraction_millis as int, 3)
        + "Z"@
}

/// The ISO-8601 text `YYYY-MM-DDThh:mm:ss.fffZ` of `seconds` after the Unix epoch
/// and `fraction_millis` milliseconds.
pub fn chrono_like_datetime(seconds: i64, fraction_millis: u32) -> (res: String)
    ensures
        res@ == iso_datetime_spec(seconds as int, fraction_millis as nat),
{
    let s = seconds as i128;
    let days: i128;
    let second_of_day: i128;
    if s >= 0 {
        days = s / 86_400;
        second_of_day = s % 86_400;
    } else {
        let a = -s;
        let q = (a + 86_399) / 86_400;
        days = -q;
        second_of_day = s + q * 86_400;
        proof {
            vstd::arithmetic::div_mod::lemma_fundamental_div_mod(a + 86_399, 86_400);
            vstd::arithmetic::div_mod::lemma_mod_bound(a + 86_399, 86_400);
            vstd::arithmetic::div_mod::lemma_fundamental_div_mod(s as int, 86_400);
            vstd::arithmetic::div_mod::lemma_mod_bound(s as int, 86_400);
            assert(0 <= second_of_day < 86_400);
            assert(s == days * 86_400 + second_of_day);
            vstd::arithmetic::div_mod::lemma_fundamental_div_mod_converse(
                s as int,
                86_400,
                days as int,
                second_of_day as int,
            );
        }
    }
    assert(days == (s as int) / 86_400 && second_of_day == (s as int) % 86_400);
    assert(-0x1_0000_0000_0000 <= days <= 0x1_0000_0000_0000) by {
        vstd::arithmetic::div_mod::lemma_fundamental_div_mod(s as int, 86_400);
        vstd::arithmetic::div_mod::lemma_mod_bound(s as int, 86_400);
    }
    let (year, month, day) = civil_from_days(days as i64);
    let sod = second_of_day as i64;
    let mut out: Vec<char> = Vec::new();
    append_chars(&mut out, padded_decimal_chars(year, 4).as_slice());
    append_str(&mut out, "-");
    append_chars(&mut out, padded_decimal_chars(month as i64, 2).as_slice());
    append_str(&mut out, "-");
    append_chars(&mut out, padded_decimal_chars(day as i64, 2).as_slice());
    append_str(&mut out, "T");
    append_chars(&mut out, padded_decimal_chars(sod / 3600, 2).as_slice());
    append_str(&mut out, ":");
    append_chars(&mut out, padded_decimal_chars((sod % 3600) / 60, 2).as_slice());
    append_str(&mut out, ":");
    append_chars(&mut out, padded_decimal_chars(sod % 60, 2).as_slice());
    append_str(&mut out, ".");
    append_chars(&mut out, padded_decimal_chars(fraction_millis as i64, 3).as_slice());
    append_str(&mut out, "Z");
    string_of(out.as_slice())
}

/// .NET ticks (100 ns) between 0001-01-01 and the Unix epoch.
pub const NET_EPOCH_TICKS: u64 = 621_355_968_000_000_000;

/// Tick count of a .NET `DateTime` from its two stored 32-bit halves; the top two
/// bits of the high half hold the date kind and are dropped.
pub open spec fn net_ticks(low: i32, high: i32) -> nat {
    (((high as u32) & 0x3fff_ffffu32) as nat) * 0x1_0000_0000 + (low as u32) as nat
}

/// The ISO-8601 text of a .NET `DateTime` given by its two stored halves, to the
/// millisecond; instants before the Unix epoch read as the epoch.
pub open spec fn net_date_text(low: i32, high: i32) -> Seq<char> {
    let ticks = net_ticks(low, high);
    let millis: nat = if ticks > NET_EPOCH_TICKS {
        ((ticks - NET_EPOCH_TICKS) as nat) / 10_000
    } else {
        0
    };
    iso_datetime_spec((millis / 1000) as int, millis % 1000)
}

/// A .NET date at or before the Unix epoch reads as the epoch itself.
pub proof fn lemma_pre_epoch_dates_read_as_epoch(low: i32, high: i32)
    requires
        net_ticks(low, high) <= NET_EPOCH_TICKS,
    ensures
        net_date_text(low, high) == iso_datetime_spec(0, 0),
{
}

/// ISO-8601 text of a .NET `DateTime` read as two 32-bit halves.
pub fn net_ticks_to_iso(low: i32, high: i32) -> (res: String)
    ensures
        res@ == net_date_text(low, high),
{
    let high_bits = (high as u32) & 0x3fff_ffffu32;
    let ticks: u64 = (high_bits as u64) * 0x1_0000_0000 + (low as u32) as u64;
    let millis = ticks.saturating_sub(NET_EPOCH_TICKS) / 10_000;
    let seconds = (millis / 1000) as i64;
    let fraction = (millis % 1000) as u32;
    chrono_like_datetime(seconds, fraction)
}

/// What a gameplay read does with the hit-error list.
#[derive(Debug, Clone, Copy, PartialEq, Eq)]
pub enum HitErrorRefresh {
    /// No hit yet: the list is empty and the unstable rate 0.
    Clear,
    /// The hit count is the cached one: the cached list and rate stand.
    Reuse,
    /// The list is read again and the rate recomputed.
    Read,
}

/// Whether the hit-error list is cleared, reused or read again, from the number of
/// judged hits and the hit count the cached list belongs to.
pub fn hit_error_refresh(total_hits: u32, cached_total: Option<u32>) -> (res: HitErrorRefresh)
    ensures
        total_hits == 0 ==> res == HitErrorRefresh::Clear,
        total_hits != 0 && cached_total == Some(total_hits) ==> res == HitErrorRefresh::Reuse,
        total_hits != 0 && cached_total != Some(total_hits) ==> res == HitErrorRefresh::Read,
{
    if total_hits == 0 {
        HitErrorRefresh::Clear
    } else {
        match cached_total {
            Some(last) => if last == total_hits {
                HitErrorRefresh::Reuse
            } else {
                HitErrorRefresh::Read
            },
            None => HitErrorRefresh::Read,
        }
    }
}

/// The judged hits as the gameplay read counts them: each counter taken as a
/// `u32` (a negative one wraps) and added.
pub fn total_judged_hits(hit_300: i16, hit_100: i16, hit_50: i16, hit_miss: i16) -> (res: u32)
    requires
        (hit_300 as u32) + (hit_100 as u32) + (hit_50 as u32) + (hit_miss as u32) <= u32::MAX,
    ensures
        res == (hit_300 as u32) + (hit_100 as u32) + (hit_50 as u32) + (hit_miss as u32),
{
    (hit_300 as u32) + (hit_100 as u32) + (hit_50 as u32) + (hit_miss as u32)
}

/// The geki count that a gameplay state shows: taiko (1) and mania (3) have gekis.
pub fn shown_geki(mode: i32, geki: i16) -> (res: i16)
    ensures
        res == if mode == 1 || mode == 3 {
            geki
        } else {
            0
        },
{
    if mode == 1 || mode == 3 {
        geki
    } else {
        0
    }
}

/// The katu count that a gameplay state shows: taiko, catch and mania (1 to 3) have katus.
pub fn shown_katu(mode: i32, katu: i16) -> (res: i16)
    ensures
        res == if mode == 1 || mode == 2 || mode == 3 {
            katu
        } else {
            0
        },
{
    if mode == 1 || mode == 2 || mode == 3 {
        katu
    } else {
        0
    }
}

} // verus!
