//! Byte signatures with wildcards, as written in the client profiles
//! (`"48 8B ?? 05"`), and their search in a block of memory.
use crate::address::{unsigned_result, parse_unsigned};
use crate::text::{chars_of, split_words, views, words_of, string_from};
use vstd::prelude::*;

verus! {

/// Why a signature text was refused.
#[derive(Debug, Clone, Copy, PartialEq, Eq)]
pub enum PatternError {
    /// A token is neither `?`, `??` nor two hexadecimal digits.
    InvalidToken,
    /// The text holds no token at all.
    Empty,
}

/// One token of a signature: `?`/`??` is a wildcard, two hexadecimal digits a byte.
pub open spec fn token_value(t: Seq<char>) -> Result<Option<u8>, PatternError> {
    if t == seq!['?'] || t == seq!['?', '?'] {
        Ok(None)
    } else if t.len() != 2 {
        Err(PatternError::InvalidToken)
    } else {
        match unsigned_result(t, 16, 255) {
            Ok(v) => Ok(Some(v as u8)),
            Err(_) => Err(PatternError::InvalidToken),
        }
    }
}

/// The tokens of a signature text: its words, split at whitespace and commas.
pub open spec fn pattern_words(input: Seq<char>) -> Seq<Seq<char>> {
    split_words(input, true)
}

/// Every word of the signature is a valid token.
pub open spec fn all_tokens_valid(words: Seq<Seq<char>>) -> bool {
    forall|i: int| 0 <= i < words.len() ==> (#[trigger] token_value(words[i])) is Ok
}

/// What `BytePattern::parse` yields for `input`: the tokens, in order, or the reason
/// for refusing the text.
pub open spec fn parse_pattern_spec(input: Seq<char>) -> Result<Seq<Option<u8>>, PatternError> {
    let words = pattern_words(input);
    if !all_tokens_valid(words) {
        Err(PatternError::InvalidToken)
    } else if words.len() == 0 {
        Err(PatternError::Empty)
    } else {
        Ok(words.map_values(|w: Seq<char>| token_value(w)->Ok_0))
    }
}

/// The signature `tokens` matches `bytes` at `offset`: it fits, and every byte token
/// equals the byte under it.
pub open spec fn tokens_match(tokens: Seq<Option<u8>>, bytes: Seq<u8>, offset: int) -> bool {
    &&& 0 <= offset
    &&& offset + tokens.len() <= bytes.len()
    &&& forall|i: int|
        0 <= i < tokens.len() ==> (#[trigger] tokens[i] matches Some(b) ==> b == bytes[offset + i])
}

/// The offsets below `k` at which `tokens` matches `bytes`, ascending.
pub open spec fn match_offsets(tokens: Seq<Option<u8>>, bytes: Seq<u8>, k: int) -> Seq<int>
    decreases k,
{
    if k <= 0 {
        Seq::empty()
    } else if tokens_match(tokens, bytes, k - 1) {
        match_offsets(tokens, bytes, k - 1).push(k - 1)
    } else {
        match_offsets(tokens, bytes, k - 1)
    }
}

/// `base + offset`, saturating at `u64::MAX`.
pub open spec fn saturating_address(base: u64, offset: int) -> u64 {
    if base + offset > u64::MAX {
        u64::MAX
    } else {
        (base + offset) as u64
    }
}

/// What `BytePattern::find_all` returns: the addresses of the first `limit` matches.
pub open spec fn find_all_spec(tokens: Seq<Option<u8>>, bytes: Seq<u8>, base: u64, limit: nat) -> Seq<u64> {
    if tokens.len() == 0 || limit == 0 || bytes.len() < tokens.len() {
        Seq::empty()
    } else {
        let all = match_offsets(tokens, bytes, bytes.len() - tokens.len() + 1);
        let kept = if all.len() <= limit {
            all
        } else {
            all.take(limit as int)
        };
        kept.map_values(|o: int| saturating_address(base, o))
    }
}

/// A byte signature: a sequence of bytes and wildcards, with the text it was read from.
#[derive(Debug, Clone)]
pub struct BytePattern {
    tokens: Vec<Option<u8>>,
    source: String,
}

impl BytePattern {
    /// The tokens of the signature, in order.
    pub closed spec fn token_seq(&self) -> Seq<Option<u8>> {
        self.tokens@
    }

    /// The text the signature was read from.
    pub closed spec fn source_text(&self) -> Seq<char> {
        self.source@
    }

    /// Reads a signature: tokens separated by whitespace or commas, each `?`, `??`
    /// or two hexadecimal digits. The text is kept as the signature's source.
    pub fn parse(input: &str) -> (res: Result<Self, PatternError>)
        ensures
            match parse_pattern_spec(input@) {
                Ok(tokens) => res matches Ok(p) && p.token_seq() == tokens && p.source_text() == input@,
                Err(e) => res == Err::<Self, PatternError>(e),
            },
    {
        let chars = chars_of(input);
        let words = words_of(chars.as_slice(), true);
        let ghost ws = pattern_words(input@);
        assert(views(words@) == ws);
        let mut tokens: Vec<Option<u8>> = Vec::new();
        let mut i: usize = 0;
        while i < words.len()
            invariant
                i <= words@.len(),
                views(words@) == ws,
                ws == pattern_words(input@),
                tokens@.len() == i,
                forall|j: int| 0 <= j < i ==> (#[trigger] token_value(ws[j])) is Ok,
                forall|j: int| 0 <= j < i ==> tokens@[j] == (#[trigger] token_value(ws[j]))->Ok_0,
            decreases words@.len() - i,
        {
            let w = &words[i];
            assert(w@ == ws[i as int]);
            let tok = Self::parse_token(w.as_slice());
            match tok {
                Ok(t) => {
                    tokens.push(t);
                },
                Err(_) => {
                    assert(!all_tokens_valid(ws)) by {
                        assert(token_value(ws[i as int]) is Err);
                    }
                    assert(ws == pattern_words(input@));
                    assert(parse_pattern_spec(input@) == Err::<Seq<Option<u8>>, PatternError>(
                        PatternError::InvalidToken,
                    ));
                    return Err(PatternError::InvalidToken);
                },
            }
            i = i + 1;
        }
        if tokens.len() == 0 {
            return Err(PatternError::Empty);
        }
        assert(tokens@ =~= ws.map_values(|w: Seq<char>| token_value(w)->Ok_0));
        Ok(BytePattern { tokens, source: string_from(input) })
    }

    fn parse_token(t: &[char]) -> (res: Result<Option<u8>, PatternError>)
        ensures
            res == token_value(t@),
    {
        if (t.len() == 1 && t[0] == '?') || (t.len() == 2 && t[0] == '?' && t[1] == '?') {
            assert(t@ == seq!['?'] || t@ == seq!['?', '?']);
            return Ok(None);
        }
        assert(t@ != seq!['?']) by {
            if t@ == seq!['?'] {
                assert(t@[0] == '?');
            }
        }
        assert(t@ != seq!['?', '?']) by {
            if t@ == seq!['?', '?'] {
                assert(t@[0] == '?' && t@[1] == '?');
            }
        }
        if t.len() != 2 {
            return Err(PatternError::InvalidToken);
        }
        match parse_unsigned(t, 16, 255) {
            Ok(v) => Ok(Some(v as u8)),
            Err(_) => Err(PatternError::InvalidToken),
        }
    }

    /// Number of tokens.
    pub fn len(&self) -> (res: usize)
        ensures
            res == self.token_seq().len(),
    {
        self.tokens.len()
    }

    /// Whether the signature has no token.
    pub fn is_empty(&self) -> (res: bool)
        ensures
            res == (self.token_seq().len() == 0),
    {
        self.tokens.len() == 0
    }

    /// The text the signature was read from.
    pub fn source(&self) -> (res: &str)
        ensures
            res@ == self.source_text(),
    {
        self.source.as_str()
    }

    /// Whether the signature matches `bytes` at `offset`.
    pub fn matches_at(&self, bytes: &[u8], offset: usize) -> (res: bool)
        requires
            offset + self.token_seq().len() <= usize::MAX,
        ensures
            res == tokens_match(self.token_seq(), bytes@, offset as int),
    {
        if offset + self.tokens.len() > bytes.len() {
            return false;
        }
        let mut i: usize = 0;
        while i < self.tokens.len()
            invariant
                i <= self.tokens@.len(),
                offset + self.tokens@.len() <= bytes@.len(),
                offset + self.tokens@.len() <= usize::MAX,
                forall|j: int|
                    0 <= j < i ==> (#[trigger] self.tokens@[j] matches Some(b) ==> b == bytes@[offset + j]),
            decreases self.tokens@.len() - i,
        {
            match self.tokens[i] {
                Some(expected) => {
                    if bytes[offset + i] != expected {
                        assert(!tokens_match(self.token_seq(), bytes@, offset as int)) by {
                            assert(self.tokens@[i as int] matches Some(b) && b != bytes@[offset + i]);
                        }
                        return false;
                    }
                },
                None => {},
            }
            i = i + 1;
        }
        true
    }

    /// Addresses `base_address + offset` of the first `limit` offsets at which the
    /// signature matches `bytes`, ascending (saturating at `u64::MAX`).
    pub fn find_all(&self, bytes: &[u8], base_address: u64, limit: usize) -> (res: Vec<u64>)
        ensures
            res@ == find_all_spec(self.token_seq(), bytes@, base_address, limit as nat),
    {
        let ghost tokens = self.token_seq();
        if self.is_empty() || limit == 0 || bytes.len() < self.len() {
            return Vec::new();
        }
        let mut matches: Vec<u64> = Vec::new();
        let last = bytes.len() - self.len();
        let mut offset: usize = 0;
        loop
            invariant_except_break
                matches@.len() < limit,
                matches@ == match_offsets(tokens, bytes@, offset as int).map_values(
                    |o: int| saturating_address(base_address, o),
                ),
            invariant
                tokens == self.token_seq(),
                tokens.len() > 0,
                limit > 0,
                last + tokens.len() == bytes@.len(),
                bytes@.len() == bytes.len(),
                offset <= last,
            ensures
                matches@ == find_all_spec(tokens, bytes@, base_address, limit as nat),
            decreases last - offset,
        {
            let ghost before = matches@;
            if self.matches_at(bytes, offset) {
                matches.push(base_address.saturating_add(offset as u64));
                assert(matches@ =~= match_offsets(tokens, bytes@, offset + 1).map_values(
                    |o: int| saturating_address(base_address, o),
                ));
                if matches.len() >= limit {
                    proof {
                        lemma_match_offsets_prefix(tokens, bytes@, offset + 1, last + 1);
                        let all = match_offsets(tokens, bytes@, last + 1);
                        let part = match_offsets(tokens, bytes@, offset + 1);
                        assert(part.len() == limit);
                        assert(all.take(limit as int) =~= part);
                    }
                    break;
                }
            } else {
                assert(match_offsets(tokens, bytes@, offset + 1) == match_offsets(tokens, bytes@, offset as int));
            }
            if offset == last {
                proof {
                    let all = match_offsets(tokens, bytes@, last + 1);
                    assert(all.len() < limit);
                }
                break;
            }
            offset = offset + 1;
        }
        matches
    }
}

/// The matches below `k` are exactly the offsets in `0..k` at which the signature
/// matches, each once and in ascending order.
pub proof fn lemma_match_offsets_exact(tokens: Seq<Option<u8>>, bytes: Seq<u8>, k: int)
    ensures
        forall|a: int, b: int|
            0 <= a < b < match_offsets(tokens, bytes, k).len() ==> match_offsets(tokens, bytes, k)[a]
                < match_offsets(tokens, bytes, k)[b],
        forall|a: int|
            0 <= a < match_offsets(tokens, bytes, k).len() ==> 0 <= #[trigger] match_offsets(
                tokens,
                bytes,
                k,
            )[a] < k && tokens_match(tokens, bytes, match_offsets(tokens, bytes, k)[a]),
        forall|o: int|
            0 <= o < k && #[trigger] tokens_match(tokens, bytes, o) ==> match_offsets(
                tokens,
                bytes,
                k,
            ).contains(o),
    decreases k,
{
    if k > 0 {
        lemma_match_offsets_exact(tokens, bytes, k - 1);
        let prev = match_offsets(tokens, bytes, k - 1);
        let cur = match_offsets(tokens, bytes, k);
        if tokens_match(tokens, bytes, k - 1) {
            assert(cur == prev.push(k - 1));
            assert(cur[cur.len() - 1] == k - 1);
            assert forall|o: int| 0 <= o < k && #[trigger] tokens_match(tokens, bytes, o) implies cur.contains(o) by {
                if o < k - 1 {
                    let w = choose|w: int| 0 <= w < prev.len() && prev[w] == o;
                    assert(cur[w] == o);
                } else {
                    assert(cur[cur.len() - 1] == o);
                }
            }
        } else {
            assert forall|o: int| 0 <= o < k && #[trigger] tokens_match(tokens, bytes, o) implies cur.contains(o) by {
                assert(o < k - 1);
            }
        }
    }
}

/// What `find_all` returns, stated directly: no more than `limit` addresses, the
/// first `min(limit, n)` of the `n` ascending offsets at which the signature
/// matches, each moved by the base address (saturating), so the addresses never
/// decrease; nothing for an empty signature, a zero limit or too few bytes.
pub proof fn lemma_find_all_law(tokens: Seq<Option<u8>>, bytes: Seq<u8>, base: u64, limit: nat)
    ensures
        find_all_spec(tokens, bytes, base, limit).len() <= limit,
        tokens.len() == 0 || limit == 0 || bytes.len() < tokens.len() ==> find_all_spec(
            tokens,
            bytes,
            base,
            limit,
        ).len() == 0,
        tokens.len() > 0 && bytes.len() >= tokens.len() ==> ({
            let all = match_offsets(tokens, bytes, bytes.len() - tokens.len() + 1);
            let r = find_all_spec(tokens, bytes, base, limit);
            &&& r.len() == (if all.len() <= limit { all.len() } else { limit as nat })
            &&& forall|a: int| 0 <= a < r.len() ==> #[trigger] r[a] == saturating_address(base, all[a])
        }),
        forall|a: int, b: int|
            0 <= a < b < find_all_spec(tokens, bytes, base, limit).len() ==> find_all_spec(
                tokens,
                bytes,
                base,
                limit,
            )[a] <= find_all_spec(tokens, bytes, base, limit)[b],
{
    if tokens.len() > 0 && limit > 0 && bytes.len() >= tokens.len() {
        let k = bytes.len() - tokens.len() + 1;
        lemma_match_offsets_exact(tokens, bytes, k);
        let all = match_offsets(tokens, bytes, k);
        let r = find_all_spec(tokens, bytes, base, limit);
        assert forall|a: int, b: int| 0 <= a < b < r.len() implies r[a] <= r[b] by {
            assert(all[a] < all[b]);
        }
    }
}

/// Matches below `k` are a prefix of the matches below any `m >= k`.
proof fn lemma_match_offsets_prefix(tokens: Seq<Option<u8>>, bytes: Seq<u8>, k: int, m: int)
    requires
        0 <= k <= m,
    ensures
        match_offsets(tokens, bytes, m).len() >= match_offsets(tokens, bytes, k).len(),
        match_offsets(tokens, bytes, m).take(match_offsets(tokens, bytes, k).len() as int)
            == match_offsets(tokens, bytes, k),
    decreases m - k,
{
    if k == m {
        assert(match_offsets(tokens, bytes, m).take(match_offsets(tokens, bytes, k).len() as int)
            =~= match_offsets(tokens, bytes, k));
    } else {
        lemma_match_offsets_prefix(tokens, bytes, k, m - 1);
        let a = match_offsets(tokens, bytes, m - 1);
        let b = match_offsets(tokens, bytes, m);
        let p = match_offsets(tokens, bytes, k);
        assert(b.take(p.len() as int) =~= a.take(p.len() as int));
    }
}

} // verus!
