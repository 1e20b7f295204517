//! Which daily log files the rolling log writer removes: the files named
//! `rtosu-<date>.log`, oldest name first, beyond the number it keeps.
use crate::text::{chars_of, starts_with, starts_with_chars};
use vstd::prelude::*;

verus! {

/// The file name of a daily log: `rtosu-`, anything, `.log`.
pub open spec fn is_log_name(name: Seq<char>) -> bool {
    starts_with(name, "rtosu-"@) && name.len() >= 4 && name.subrange(name.len() - 4, name.len() as int)
        == ".log"@
}

/// `a` comes before `b` in the order of `str`: character by character, a proper
/// prefix first. (UTF-8 keeps the order of code points, so this is also the
/// order of the bytes.)
pub open spec fn lex_less(a: Seq<char>, b: Seq<char>) -> bool
    decreases a.len(),
{
    if a.len() == 0 {
        b.len() > 0
    } else if b.len() == 0 {
        false
    } else if a[0] != b[0] {
        a[0] < b[0]
    } else {
        lex_less(a.drop_first(), b.drop_first())
    }
}

proof fn lemma_lex_trichotomy(a: Seq<char>, b: Seq<char>)
    ensures
        lex_less(a, b) || lex_less(b, a) || a == b,
        !(lex_less(a, b) && lex_less(b, a)),
        lex_less(a, b) ==> a != b,
    decreases a.len(),
{
    if a.len() > 0 && b.len() > 0 {
        if a[0] == b[0] {
            lemma_lex_trichotomy(a.drop_first(), b.drop_first());
            if a.drop_first() == b.drop_first() {
                assert(a =~= seq![a[0]] + a.drop_first());
                assert(b =~= seq![b[0]] + b.drop_first());
            }
        }
    } else if a.len() == 0 && b.len() == 0 {
        assert(a =~= b);
    }
}

proof fn lemma_lex_transitive(a: Seq<char>, b: Seq<char>, c: Seq<char>)
    requires
        lex_less(a, b),
        lex_less(b, c),
    ensures
        lex_less(a, c),
    decreases a.len(),
{
    if a.len() > 0 && b.len() > 0 && c.len() > 0 {
        if a[0] == b[0] && b[0] == c[0] {
            lemma_lex_transitive(a.drop_first(), b.drop_first(), c.drop_first());
        }
    }
}

/// Log file `a` of `names` is older than log file `b`: its name comes first, or
/// the names agree and it comes first in the listing.
pub open spec fn log_before(names: Seq<Seq<char>>, a: int, b: int) -> bool {
    lex_less(names[a], names[b]) || (names[a] == names[b] && a < b)
}

/// Some entry of `order` is `j`.
pub open spec fn listed(order: Seq<usize>, j: int) -> bool {
    exists|k: int| 0 <= k < order.len() && order[k] == j
}

/// The names of `v`.
pub open spec fn names_of(v: Seq<String>) -> Seq<Seq<char>> {
    v.map_values(|s: String| s@)
}

/// The log files of a directory and how many of them go.
#[derive(Debug, Clone)]
pub struct PrunePlan {
    /// Positions of the log files among the listed names, oldest first.
    pub oldest_first: Vec<usize>,
    /// How many of them, from the oldest on, are removed.
    pub remove: usize,
}

fn lex_less_chars(a: &[char], b: &[char]) -> (res: bool)
    ensures
        res == lex_less(a@, b@),
{
    let mut i: usize = 0;
    assert(a@.skip(0) =~= a@);
    assert(b@.skip(0) =~= b@);
    while i < a.len() && i < b.len() && a[i] == b[i]
        invariant
            i <= a@.len(),
            i <= b@.len(),
            lex_less(a@, b@) == lex_less(a@.skip(i as int), b@.skip(i as int)),
        decreases a@.len() - i,
    {
        assert(a@.skip(i as int).drop_first() =~= a@.skip(i + 1));
        assert(b@.skip(i as int).drop_first() =~= b@.skip(i + 1));
        i = i + 1;
    }
    if i == a.len() {
        assert(a@.skip(i as int).len() == 0);
        i < b.len()
    } else if i == b.len() {
        false
    } else {
        assert(a@.skip(i as int)[0] == a@[i as int]);
        assert(b@.skip(i as int)[0] == b@[i as int]);
        a[i] < b[i]
    }
}

fn is_log_file_name(name: &[char]) -> (res: bool)
    ensures
        res == is_log_name(name@),
{
    let prefix = chars_of("rtosu-");
    let suffix = chars_of(".log");
    proof {
        reveal_strlit(".log");
    }
    if !starts_with_chars(name, prefix.as_slice()) || name.len() < 4 {
        return false;
    }
    let n = name.len();
    let tail = crate::text::slice_chars(name, n - 4, n);
    crate::text::chars_equal(tail.as_slice(), suffix.as_slice())
}

/// The removal plan for the files `names` of a log directory when at most
/// `max_files` are kept: every daily log once, oldest first, and as many of the
/// oldest as exceed `max_files`.
pub fn plan_log_pruning(names: &Vec<String>, max_files: usize) -> (res: PrunePlan)
    ensures
        forall|k: int|
            0 <= k < res.oldest_first@.len() ==> res.oldest_first@[k] < names@.len() && is_log_name(
                names@[res.oldest_first@[k] as int]@,
            ),
        forall|k: int, l: int|
            0 <= k < l < res.oldest_first@.len() ==> log_before(
                names_of(names@),
                res.oldest_first@[k] as int,
                res.oldest_first@[l] as int,
            ),
        forall|j: int|
            0 <= j < names@.len() && is_log_name(names@[j]@) ==> #[trigger] listed(res.oldest_first@, j),
        res.remove == if res.oldest_first@.len() > max_files {
            res.oldest_first@.len() - max_files
        } else {
            0
        },
{
    let ghost ns = names_of(names@);
    let mut order: Vec<usize> = Vec::new();
    let mut j: usize = 0;
    while j < names.len()
        invariant
            ns == names_of(names@),
            ns.len() == names@.len(),
            j <= names@.len(),
            forall|k: int| 0 <= k < order@.len() ==> order@[k] < j && is_log_name(names@[order@[k] as int]@),
            forall|k: int, l: int| 0 <= k < l < order@.len() ==> log_before(ns, order@[k] as int, order@[l] as int),
            forall|m: int| 0 <= m < j && is_log_name(names@[m]@) ==> #[trigger] listed(order@, m),
        decreases names@.len() - j,
    {
        let key = chars_of(names[j].as_str());
        if is_log_file_name(key.as_slice()) {
            let mut p: usize = 0;
            while p < order.len() && !lex_less_chars(key.as_slice(), chars_of(names[order[p]].as_str()).as_slice())
                invariant
                    ns == names_of(names@),
                    ns.len() == names@.len(),
                    j < names@.len(),
                    key@ == ns[j as int],
                    p <= order@.len(),
                    forall|k: int| 0 <= k < order@.len() ==> order@[k] < j,
                    forall|k: int| 0 <= k < p ==> !lex_less(key@, ns[order@[k] as int]),
                decreases order@.len() - p,
            {
                p = p + 1;
            }
            let ghost before = order@;
            order.insert(p, j);
            assert forall|k: int, l: int| 0 <= k < l < order@.len() implies log_before(
                ns,
                order@[k] as int,
                order@[l] as int,
            ) by {
                if l < p {
                    assert(order@[k] == before[k] && order@[l] == before[l]);
                } else if l == p {
                    assert(order@[k] == before[k]);
                    lemma_lex_trichotomy(key@, ns[before[k] as int]);
                } else if k < p {
                    assert(order@[k] == before[k] && order@[l] == before[l - 1]);
                } else if k == p {
                    assert(order@[l] == before[l - 1]);
                    assert(lex_less(key@, ns[before[p as int] as int]));
                    if l - 1 > p {
                        let x = ns[before[p as int] as int];
                        let y = ns[before[l - 1] as int];
                        assert(log_before(ns, before[p as int] as int, before[l - 1] as int));
                        if lex_less(x, y) {
                            lemma_lex_transitive(key@, x, y);
                        }
                    }
                } else {
                    assert(order@[k] == before[k - 1] && order@[l] == before[l - 1]);
                }
            }
            assert forall|k: int| 0 <= k < order@.len() implies order@[k] < j + 1 && is_log_name(
                names@[order@[k] as int]@,
            ) by {
                if k < p {
                    assert(order@[k] == before[k]);
                } else if k > p {
                    assert(order@[k] == before[k - 1]);
                }
            }
            assert forall|m: int| 0 <= m < j + 1 && is_log_name(names@[m]@) implies #[trigger] listed(order@, m) by {
                if m == j {
                    assert(order@[p as int] == j);
                } else {
                    assert(listed(before, m));
                    let q = choose|q: int| 0 <= q < before.len() && before[q] == m;
                    if q < p {
                        assert(order@[q] == m);
                    } else {
                        assert(order@[q + 1] == m);
                    }
                }
            }
        }
        j = j + 1;
    }
    let remove = if order.len() > max_files {
        order.len() - max_files
    } else {
        0
    };
    PrunePlan { oldest_first: order, remove }
}

/// Every removed log is no newer than every kept one, and exactly `max_files`
/// logs are kept when there were more.
pub proof fn lemma_pruning_keeps_newest(names: Seq<Seq<char>>, plan_order: Seq<usize>, remove: int, max_files: int, i: int, j: int)
    requires
        0 <= max_files,
        remove == if plan_order.len() > max_files {
            plan_order.len() - max_files
        } else {
            0
        },
        forall|k: int| 0 <= k < plan_order.len() ==> plan_order[k] < names.len(),
        forall|k: int, l: int| 0 <= k < l < plan_order.len() ==> log_before(names, plan_order[k] as int, plan_order[l] as int),
        0 <= i < remove <= j < plan_order.len(),
    ensures
        !lex_less(names[plan_order[j] as int], names[plan_order[i] as int]),
        plan_order.len() - remove == if plan_order.len() > max_files {
            max_files
        } else {
            plan_order.len() as int
        },
{
    let a = names[plan_order[i] as int];
    let b = names[plan_order[j] as int];
    assert(log_before(names, plan_order[i] as int, plan_order[j] as int));
    lemma_lex_trichotomy(a, b);
}

} // verus!
