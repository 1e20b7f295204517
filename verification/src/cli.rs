//! What the command-line tool decides before and after it touches a process:
//! argument values, address arithmetic, scan budgets, the reader's mode, and the
//! text it prints.
use crate::address::{
    checked_add, checked_add_signed, parse_u128_as_u64, parse_u128_as_u64_spec,
    parse_u64, parse_u64_spec, AddressError,
};
use crate::reader::OsuReaderMode;
use crate::text::{
    chars_equal, chars_of, contains_chars, contains_seq, find_chars, first_occurrence, lower_chars,
    lower_seq, slice_chars, string_from, string_of,
};
use vstd::prelude::*;

verus! {

/// Bytes in a megabyte.
pub const MEGABYTE: usize = 1024 * 1024;
/// Shortest interval between two reads of the `watch` command.
pub const MIN_WATCH_INTERVAL_MS: u64 = 10;
/// Distance from the ruleset pattern back to the ruleset container pointer.
pub const RULESET_CONTAINER_BACKSTEP: u64 = 0xb;

/// Why the command-line tool refuses a value.
#[derive(Debug, Clone, Copy, PartialEq, Eq)]
pub enum CliError {
    /// A scan budget in megabytes does not fit in bytes.
    ScanSizeTooLarge,
    /// The `watch` interval is below [`MIN_WATCH_INTERVAL_MS`].
    IntervalTooShort,
    /// The ruleset pattern lies too low to step back to the container pointer.
    RulesetAddressUnderflow,
}

impl CliError {
    /// The message the tool prints for the error.
    pub fn message(&self) -> (res: &'static str)
        ensures
            *self == CliError::ScanSizeTooLarge ==> res@ == "scan size is too large"@,
            *self == CliError::IntervalTooShort ==> res@ == "interval must be at least 10ms"@,
            *self == CliError::RulesetAddressUnderflow ==> res@ == "ruleset pattern address underflow"@,
    {
        match self {
            CliError::ScanSizeTooLarge => "scan size is too large",
            CliError::IntervalTooShort => "interval must be at least 10ms",
            CliError::RulesetAddressUnderflow => "ruleset pattern address underflow",
        }
    }
}

/// A scan budget of `megabytes` megabytes, in bytes.
pub fn scan_limit_bytes(megabytes: usize) -> (res: Result<usize, CliError>)
    ensures
        megabytes * MEGABYTE <= usize::MAX ==> res == Ok::<usize, CliError>((megabytes * MEGABYTE) as usize),
        megabytes * MEGABYTE > usize::MAX ==> res == Err::<usize, CliError>(CliError::ScanSizeTooLarge),
{
    match megabytes.checked_mul(MEGABYTE) {
        Some(b) => Ok(b),
        None => Err(CliError::ScanSizeTooLarge),
    }
}

/// The pointer width of `--pointer-width`: 4 or 8, nothing else.
pub fn parse_pointer_width(value: &str) -> (res: Result<usize, String>)
    ensures
        value@ == "4"@ ==> res == Ok::<usize, String>(4),
        value@ == "8"@ ==> res == Ok::<usize, String>(8),
        value@ != "4"@ && value@ != "8"@ ==> (res matches Err(e) && e@ == "pointer width must be 4 or 8"@),
{
    proof {
        reveal_strlit("4");
        reveal_strlit("8");
        assert("4"@[0] != "8"@[0]);
    }
    let v = chars_of(value);
    let four = chars_of("4");
    let eight = chars_of("8");
    if chars_equal(v.as_slice(), four.as_slice()) {
        Ok(4)
    } else if chars_equal(v.as_slice(), eight.as_slice()) {
        Ok(8)
    } else {
        Err(string_from("pointer width must be 4 or 8"))
    }
}

/// A pattern match moved by the profile's offset.
pub fn apply_pattern_offset(address: u64, offset: i64) -> (res: Result<u64, AddressError>)
    ensures
        0 <= address + offset <= u64::MAX ==> res == Ok::<u64, AddressError>((address + offset) as u64),
        address + offset > u64::MAX ==> res == Err::<u64, AddressError>(AddressError::AddressOverflow),
        address + offset < 0 ==> res == Err::<u64, AddressError>(AddressError::AddressUnderflow),
{
    checked_add_signed(address, offset)
}

/// An absolute address given on the command line.
pub fn parse_address(value: &str) -> (res: Result<u64, AddressError>)
    ensures
        res == parse_u128_as_u64_spec(value@),
{
    parse_u128_as_u64(value)
}

/// The address to read: an offset into the module at `module_base` when a module
/// was named, an absolute address otherwise.
pub fn resolve_read_address(module_base: Option<u64>, address: &str) -> (res: Result<u64, AddressError>)
    ensures
        module_base is None ==> res == parse_u128_as_u64_spec(address@),
        module_base matches Some(base) ==> match parse_u64_spec(address@) {
            Ok(off) => if base + off <= u64::MAX {
                res == Ok::<u64, AddressError>((base + off) as u64)
            } else {
                res == Err::<u64, AddressError>(AddressError::AddressOverflow)
            },
            Err(e) => res == Err::<u64, AddressError>(e),
        },
{
    match module_base {
        Some(base) => match parse_u64(address) {
            Ok(off) => checked_add(base, off),
            Err(e) => Err(e),
        },
        None => parse_address(address),
    }
}

/// Upper-case hexadecimal digit for `d < 16`.
pub open spec fn hex_upper_digit(d: nat) -> char {
    if d < 10 {
        ((d + '0' as nat) as u32) as char
    } else {
        ((d - 10 + 'A' as nat) as u32) as char
    }
}

/// A byte as two upper-case hexadecimal digits.
pub open spec fn byte_hex(b: u8) -> Seq<char> {
    seq![hex_upper_digit(b as nat / 16), hex_upper_digit(b as nat % 16)]
}

/// The bytes `bytes` as hexadecimal pairs separated by single spaces.
pub open spec fn hex_line(bytes: Seq<u8>) -> Seq<char>
    decreases bytes.len(),
{
    if bytes.len() == 0 {
        Seq::empty()
    } else if bytes.len() == 1 {
        byte_hex(bytes[0])
    } else {
        hex_line(bytes.drop_last()) + seq![' '] + byte_hex(bytes.last())
    }
}

/// Number of lines of sixteen bytes (the last one shorter) that `n` bytes take.
pub open spec fn dump_line_count(n: nat) -> nat {
    (n + 15) / 16
}

/// Line `k` of the dump of `bytes`: bytes `16k` to `16k + 15`.
pub open spec fn dump_line(bytes: Seq<u8>, k: int) -> Seq<char> {
    let end = if 16 * k + 16 <= bytes.len() {
        16 * k + 16
    } else {
        bytes.len() as int
    };
    hex_line(bytes.subrange(16 * k, end))
}

fn hex_upper(d: u8) -> (res: char)
    requires
        d < 16,
    ensures
        res == hex_upper_digit(d as nat),
{
    if d < 10 {
        (d + ('0' as u8)) as char
    } else {
        (d - 10 + ('A' as u8)) as char
    }
}

fn hex_line_chars(bytes: &[u8]) -> (res: Vec<char>)
    ensures
        res@ == hex_line(bytes@),
{
    let mut out: Vec<char> = Vec::new();
    let mut i: usize = 0;
    assert(bytes@.take(0) =~= Seq::<u8>::empty());
    while i < bytes.len()
        invariant
            i <= bytes@.len(),
            out@ == hex_line(bytes@.take(i as int)),
        decreases bytes@.len() - i,
    {
        let b = bytes[i];
        let ghost prev = out@;
        if i > 0 {
            out.push(' ');
        }
        out.push(hex_upper(b / 16));
        out.push(hex_upper(b % 16));
        assert(bytes@.take(i + 1).drop_last() =~= bytes@.take(i as int));
        assert(bytes@.take(i + 1).last() == b);
        if i == 0 {
            assert(bytes@.take(1) =~= seq![b]);
            assert(out@ =~= byte_hex(b));
        } else {
            assert(out@ =~= prev + seq![' '] + byte_hex(b));
        }
        i = i + 1;
    }
    assert(bytes@.take(bytes@.len() as int) =~= bytes@);
    out
}

/// The hexadecimal dump of `bytes`: sixteen bytes a line, each byte as two
/// upper-case digits, separated by spaces.
pub fn hex_dump_lines(bytes: &[u8]) -> (res: Vec<String>)
    ensures
        res@.len() == dump_line_count(bytes@.len()),
        forall|k: int| 0 <= k < res@.len() ==> #[trigger] res@[k]@ == dump_line(bytes@, k),
{
    let mut lines: Vec<String> = Vec::new();
    let mut start: usize = 0;
    let n = bytes.len();
    while start < n
        invariant
            n == bytes@.len(),
            start <= n,
            start == (if 16 * lines@.len() <= n {
                (16 * lines@.len()) as int
            } else {
                n as int
            }),
            lines@.len() <= dump_line_count(n as nat),
            start < n ==> lines@.len() < dump_line_count(n as nat),
            start >= n ==> lines@.len() == dump_line_count(n as nat),
            forall|k: int| 0 <= k < lines@.len() ==> #[trigger] lines@[k]@ == dump_line(bytes@, k),
        decreases n - start,
    {
        let end = if n - start >= 16 {
            start + 16
        } else {
            n
        };
        let chunk = slice_for(bytes, start, end);
        let line = string_of(hex_line_chars(chunk.as_slice()).as_slice());
        let ghost k = lines@.len() as int;
        assert(line@ == dump_line(bytes@, k));
        let ghost before = lines@;
        lines.push(line);
        assert forall|m: int| 0 <= m < lines@.len() implies #[trigger] lines@[m]@ == dump_line(bytes@, m) by {
            if m < k {
                assert(lines@[m] == before[m]);
            }
        }
        start = end;
    }
    lines
}

fn slice_for(bytes: &[u8], lo: usize, hi: usize) -> (res: Vec<u8>)
    requires
        lo <= hi <= bytes@.len(),
    ensures
        res@ == bytes@.subrange(lo as int, hi as int),
{
    let mut out: Vec<u8> = Vec::new();
    let mut i: usize = lo;
    while i < hi
        invariant
            lo <= i <= hi <= bytes@.len(),
            out@ == bytes@.subrange(lo as int, i as int),
        decreases hi - i,
    {
        out.push(bytes[i]);
        assert(bytes@.subrange(lo as int, i + 1) =~= bytes@.subrange(lo as int, i as int).push(bytes@[i as int]));
        i = i + 1;
    }
    out
}

/// `MATCH` when the two printed values agree, `DIFF` otherwise.
pub fn compare_status(tosu: &str, rust: &str) -> (res: &'static str)
    ensures
        tosu@ == rust@ ==> res@ == "MATCH"@,
        tosu@ != rust@ ==> res@ == "DIFF"@,
{
    let a = chars_of(tosu);
    let b = chars_of(rust);
    if chars_equal(a.as_slice(), b.as_slice()) {
        "MATCH"
    } else {
        "DIFF"
    }
}

/// Accepts a `watch` interval of at least [`MIN_WATCH_INTERVAL_MS`].
pub fn check_watch_interval(interval_ms: u64) -> (res: Result<(), CliError>)
    ensures
        interval_ms >= MIN_WATCH_INTERVAL_MS ==> res is Ok,
        interval_ms < MIN_WATCH_INTERVAL_MS ==> res == Err::<(), CliError>(CliError::IntervalTooShort),
{
    if interval_ms < MIN_WATCH_INTERVAL_MS {
        Err(CliError::IntervalTooShort)
    } else {
        Ok(())
    }
}

/// Address of the ruleset container pointer, [`RULESET_CONTAINER_BACKSTEP`] bytes
/// before the (offset) ruleset pattern match.
pub fn ruleset_container_slot(match_address: u64) -> (res: Result<u64, CliError>)
    ensures
        match_address >= RULESET_CONTAINER_BACKSTEP ==> res == Ok::<u64, CliError>(
            (match_address - RULESET_CONTAINER_BACKSTEP) as u64,
        ),
        match_address < RULESET_CONTAINER_BACKSTEP ==> res == Err::<u64, CliError>(
            CliError::RulesetAddressUnderflow,
        ),
{
    match match_address.checked_sub(RULESET_CONTAINER_BACKSTEP) {
        Some(a) => Ok(a),
        None => Err(CliError::RulesetAddressUnderflow),
    }
}

/// Sum of the latencies `v`.
pub open spec fn sum_u128(v: Seq<u128>) -> int
    decreases v.len(),
{
    if v.len() == 0 {
        0
    } else {
        sum_u128(v.drop_last()) + v.last()
    }
}

proof fn lemma_sum_prefix_bound(v: Seq<u128>, i: int)
    requires
        0 <= i <= v.len(),
    ensures
        0 <= sum_u128(v.take(i)) <= sum_u128(v),
    decreases v.len(),
{
    if i == v.len() {
        assert(v.take(i) =~= v);
        if v.len() > 0 {
            lemma_sum_prefix_bound(v.drop_last(), v.len() - 1);
            assert(v.drop_last().take(v.len() - 1) =~= v.drop_last());
        }
    } else {
        lemma_sum_prefix_bound(v.drop_last(), i);
        assert(v.drop_last().take(i) =~= v.take(i));
    }
}

/// Average of the poll latencies `latencies`, 0 for none.
pub fn average_latency_us(latencies: &Vec<u128>) -> (res: u128)
    requires
        sum_u128(latencies@) <= u128::MAX,
    ensures
        latencies@.len() == 0 ==> res == 0,
        latencies@.len() > 0 ==> res == sum_u128(latencies@) / (latencies@.len() as int),
{
    let mut sum: u128 = 0;
    let mut i: usize = 0;
    assert(latencies@.take(0) =~= Seq::<u128>::empty());
    while i < latencies.len()
        invariant
            i <= latencies@.len(),
            sum_u128(latencies@) <= u128::MAX,
            sum == sum_u128(latencies@.take(i as int)),
        decreases latencies@.len() - i,
    {
        proof {
            assert(latencies@.take(i + 1).drop_last() =~= latencies@.take(i as int));
            lemma_sum_prefix_bound(latencies@, i + 1);
        }
        sum = sum + latencies[i];
        i = i + 1;
    }
    assert(latencies@.take(latencies@.len() as int) =~= latencies@);
    let count: u128 = if latencies.len() > 0 {
        latencies.len() as u128
    } else {
        1
    };
    sum / count
}

/// The body of an HTTP response: what follows the first blank line, or the whole
/// response when it has none.
pub open spec fn http_body_spec(response: Seq<char>) -> Seq<char> {
    match first_occurrence(response, seq!['\r', '\n', '\r', '\n']) {
        Some(i) => response.skip(i + 4),
        None => response,
    }
}

/// The body of the HTTP response `response`.
pub fn http_body(response: &str) -> (res: String)
    ensures
        res@ == http_body_spec(response@),
{
    let r = chars_of(response);
    let sep = ['\r', '\n', '\r', '\n'];
    assert(sep@ =~= seq!['\r', '\n', '\r', '\n']);
    match find_chars(r.as_slice(), &sep) {
        Some(i) => {
            proof {
                crate::text::lemma_first_occurrence(r@, seq!['\r', '\n', '\r', '\n']);
            }
            let n = r.len();
            let body = slice_chars(r.as_slice(), i + 4, n);
            assert(body@ =~= r@.skip(i + 4));
            string_of(body.as_slice())
        },
        None => string_from(response),
    }
}

/// Whether a server error says that the port is taken.
pub fn is_port_in_use(message: &str) -> (res: bool)
    ensures
        res == (contains_seq(message@, "os error 10048"@) || contains_seq(message@, "Address already in use"@)
            || contains_seq(message@, "address already in use"@)),
{
    let m = chars_of(message);
    let a = chars_of("os error 10048");
    let b = chars_of("Address already in use");
    let c = chars_of("address already in use");
    contains_chars(m.as_slice(), a.as_slice()) || contains_chars(m.as_slice(), b.as_slice())
        || contains_chars(m.as_slice(), c.as_slice())
}

/// The host to show in the endpoint list: `127.0.0.1` for the wildcard `0.0.0.0`.
pub fn display_host(host: &str) -> (res: String)
    ensures
        host@ == "0.0.0.0"@ ==> res@ == "127.0.0.1"@,
        host@ != "0.0.0.0"@ ==> res@ == host@,
{
    let h = chars_of(host);
    let any = chars_of("0.0.0.0");
    if chars_equal(h.as_slice(), any.as_slice()) {
        string_from("127.0.0.1")
    } else {
        string_from(host)
    }
}

/// Milliseconds between two polls at `poll_rate_hz` polls a second (a rate of 0
/// counts as 1).
pub fn poll_interval_ms(poll_rate_hz: u64) -> (res: u64)
    ensures
        res == 1000u64 / (if poll_rate_hz > 1 {
            poll_rate_hz
        } else {
            1
        }),
{
    let hz = if poll_rate_hz > 1 {
        poll_rate_hz
    } else {
        1
    };
    1000 / hz
}

/// Whether `a` equals `b` in ASCII case-insensitive comparison.
pub open spec fn eq_ignore_case(a: Seq<char>, b: Seq<char>) -> bool {
    lower_seq(a) == lower_seq(b)
}

fn eq_ignore_ascii_case(a: &str, b: &str) -> (res: bool)
    ensures
        res == eq_ignore_case(a@, b@),
{
    let x = lower_chars(chars_of(a).as_slice());
    let y = lower_chars(chars_of(b).as_slice());
    chars_equal(x.as_slice(), y.as_slice())
}

/// The reader's mode from the configuration: automatic detection when enabled,
/// otherwise tournament for the `tournament` profile (in any case) and solo for
/// any other.
pub fn reader_mode_for(auto_mode: bool, default_profile: &str) -> (res: OsuReaderMode)
    ensures
        auto_mode ==> res == OsuReaderMode::Auto,
        !auto_mode && eq_ignore_case(default_profile@, "tournament"@) ==> res == OsuReaderMode::Tournament,
        !auto_mode && !eq_ignore_case(default_profile@, "tournament"@) ==> res == OsuReaderMode::Solo,
{
    if auto_mode {
        OsuReaderMode::Auto
    } else if eq_ignore_ascii_case(default_profile, "tournament") {
        OsuReaderMode::Tournament
    } else {
        OsuReaderMode::Solo
    }
}

/// Scan budget in bytes of a validated configuration (16 to 1024 megabytes).
pub fn scan_budget_bytes(scan_budget_mb: usize) -> (res: usize)
    requires
        scan_budget_mb * MEGABYTE <= usize::MAX,
    ensures
        res == scan_budget_mb * MEGABYTE,
{
    scan_budget_mb * MEGABYTE
}

/// Whether the `profile` command lists every profile: its name is `all`, in any case.
pub fn lists_all_profiles(name: &str) -> (res: bool)
    ensures
        res == eq_ignore_case(name@, "all"@),
{
    eq_ignore_ascii_case(name, "all")
}

/// Whether the tosu address can be compared with: only the local port 24050 is.
pub fn compare_url_supported(url: &str) -> (res: bool)
    ensures
        res == contains_seq(url@, "24050"@),
{
    let u = chars_of(url);
    let p = chars_of("24050");
    contains_chars(u.as_slice(), p.as_slice())
}

} // verus!
