//! What the provider knows about processes, their modules and their memory
//! regions, and the decisions it makes on them without touching the system.
use crate::text::{chars_equal, chars_of, lower_chars, lower_seq, string_of};
use vstd::prelude::*;

verus! {

/// A running process.
#[derive(Debug, Clone)]
pub struct ProcessInfo {
    pub pid: u32,
    pub name: String,
}

/// A module loaded in a process.
#[derive(Debug, Clone)]
pub struct ModuleInfo {
    pub name: String,
    pub base: u64,
    pub size: u64,
    pub path: Option<String>,
}

/// A region of a process's address space, with its state, protection and type flags.
#[derive(Debug, Clone, Copy, PartialEq, Eq)]
pub struct MemoryRegion {
    pub base: u64,
    pub size: usize,
    pub state: u32,
    pub protection: u32,
    pub kind: u32,
}

/// Why a module lookup failed.
#[derive(Debug, Clone, Copy, PartialEq, Eq)]
pub enum ProcessError {
    /// No module has the requested name.
    ModuleNotFound,
    /// The process has no module at all.
    NoModules,
}

/// The region is committed (`MEM_COMMIT`), not a guard page, and its protection
/// allows reading.
pub open spec fn region_readable(r: MemoryRegion) -> bool {
    let p = r.protection & 0xff;
    &&& r.state == 0x1000
    &&& r.protection & 0x100 == 0
    &&& (p == 0x02 || p == 0x04 || p == 0x08 || p == 0x20 || p == 0x40 || p == 0x80)
}

/// The region is committed, not a guard page, and its protection allows execution.
pub open spec fn region_executable(r: MemoryRegion) -> bool {
    let p = r.protection & 0xff;
    &&& r.state == 0x1000
    &&& r.protection & 0x100 == 0
    &&& (p == 0x20 || p == 0x40 || p == 0x80)
}

impl MemoryRegion {
    /// Whether the region can be read.
    pub fn is_readable(&self) -> (res: bool)
        ensures
            res == region_readable(*self),
    {
        if self.state != 0x1000 || self.protection & 0x100 != 0 {
            return false;
        }
        let p = self.protection & 0xff;
        p == 0x02 || p == 0x04 || p == 0x08 || p == 0x20 || p == 0x40 || p == 0x80
    }

    /// Whether the region holds executable code.
    pub fn is_executable(&self) -> (res: bool)
        ensures
            res == region_executable(*self),
    {
        let p = self.protection & 0xff;
        self.state == 0x1000 && self.protection & 0x100 == 0 && (p == 0x20 || p == 0x40 || p
            == 0x80)
    }
}

/// Index of the first module whose name equals `requested` ignoring ASCII case.
pub open spec fn module_index(modules: Seq<ModuleInfo>, requested: Seq<char>) -> Option<int> {
    if exists|i: int| 0 <= i < modules.len() && lower_seq(#[trigger] modules[i].name@) == lower_seq(requested) {
        Some(choose|i: int|
            0 <= i < modules.len() && lower_seq(modules[i].name@) == lower_seq(requested) && forall|j: int|
                0 <= j < i ==> lower_seq(#[trigger] modules[j].name@) != lower_seq(requested))
    } else {
        None
    }
}


/// The first module whose name equals `requested`, ignoring ASCII case.
pub fn module_by_name<'a>(modules: &'a [ModuleInfo], requested: &str) -> (res: Result<
    &'a ModuleInfo,
    ProcessError,
>)
    ensures
        module_index(modules@, requested@) matches Some(i) ==> (res matches Ok(m) && *m == modules@[i]),
        module_index(modules@, requested@) is None ==> res == Err::<&ModuleInfo, ProcessError>(
            ProcessError::ModuleNotFound,
        ),
{
    let wanted = lower_chars(chars_of(requested).as_slice());
    let mut i: usize = 0;
    while i < modules.len()
        invariant
            i <= modules@.len(),
            wanted@ == lower_seq(requested@),
            forall|j: int| 0 <= j < i ==> lower_seq(#[trigger] modules@[j].name@) != lower_seq(requested@),
        decreases modules@.len() - i,
    {
        let name = lower_chars(chars_of(modules[i].name.as_str()).as_slice());
        if chars_equal(name.as_slice(), wanted.as_slice()) {
            proof {
                let k = choose|k: int|
                    0 <= k < modules@.len() && lower_seq(modules@[k].name@) == lower_seq(requested@) && forall|j: int|
                        0 <= j < k ==> lower_seq(#[trigger] modules@[j].name@) != lower_seq(requested@);
                assert(0 <= i < modules@.len() && lower_seq(modules@[i as int].name@) == lower_seq(requested@));
                if k < i {
                } else if k > i {
                }
                assert(k == i);
            }
            return Ok(&modules[i]);
        }
        i = i + 1;
    }
    Err(ProcessError::ModuleNotFound)
}

/// The first module when `requested` is `main` (in any ASCII case), otherwise the
/// module named `requested`.
pub fn module_or_main<'a>(modules: &'a [ModuleInfo], requested: &str) -> (res: Result<
    &'a ModuleInfo,
    ProcessError,
>)
    ensures
        lower_seq(requested@) == "main"@ && modules@.len() > 0 ==> (res matches Ok(m) && *m
            == modules@[0]),
        lower_seq(requested@) == "main"@ && modules@.len() == 0 ==> res == Err::<
            &ModuleInfo,
            ProcessError,
        >(ProcessError::NoModules),
        lower_seq(requested@) != "main"@ ==> (module_index(modules@, requested@) matches Some(i)
            ==> (res matches Ok(m) && *m == modules@[i])),
        lower_seq(requested@) != "main"@ ==> (module_index(modules@, requested@) is None ==> res
            == Err::<&ModuleInfo, ProcessError>(ProcessError::ModuleNotFound)),
{
    let wanted = lower_chars(chars_of(requested).as_slice());
    if chars_equal(wanted.as_slice(), chars_of("main").as_slice()) {
        if modules.len() == 0 {
            return Err(ProcessError::NoModules);
        }
        return Ok(&modules[0]);
    }
    module_by_name(modules, requested)
}

/// ASCII lower case of one UTF-16 unit.
pub open spec fn unit_lower(c: u16) -> u16 {
    if 65 <= c <= 90 {
        (c + 32) as u16
    } else {
        c
    }
}

/// ASCII lower case of one UTF-16 unit.
pub fn u16_ascii_lower(c: u16) -> (res: u16)
    ensures
        res == unit_lower(c),
{
    if 65 <= c && c <= 90 {
        c + 32
    } else {
        c
    }
}

/// The units of `value` before its first NUL (all of them if there is none).
pub open spec fn until_nul(value: Seq<u16>) -> Seq<u16> {
    if exists|i: int| 0 <= i < value.len() && value[i] == 0 {
        value.take(
            choose|i: int| 0 <= i < value.len() && value[i] == 0 && forall|j: int| 0 <= j < i ==> value[j] != 0,
        )
    } else {
        value
    }
}

/// `u` is a UTF-16 high surrogate.
pub open spec fn is_high_surrogate(u: u16) -> bool {
    0xD800 <= u <= 0xDBFF
}

/// `u` is a UTF-16 low surrogate.
pub open spec fn is_low_surrogate(u: u16) -> bool {
    0xDC00 <= u <= 0xDFFF
}

/// The character that `std` substitutes for malformed input.
pub open spec fn replacement_char() -> char {
    '\u{fffd}'
}

/// UTF-16 decoding in which every unpaired surrogate becomes U+FFFD, as
/// `String::from_utf16_lossy` does.
pub open spec fn decode_utf16_lossy(units: Seq<u16>) -> Seq<char>
    decreases units.len(),
{
    if units.len() == 0 {
        Seq::empty()
    } else {
        let u = units[0];
        if !is_high_surrogate(u) && !is_low_surrogate(u) {
            seq![(u as u32) as char] + decode_utf16_lossy(units.drop_first())
        } else if is_high_surrogate(u) && units.len() >= 2 && is_low_surrogate(units[1]) {
            seq![
                ((0x10000 + (u - 0xD800) * 0x400 + (units[1] - 0xDC00)) as u32) as char,
            ] + decode_utf16_lossy(units.skip(2))
        } else {
            seq![replacement_char()] + decode_utf16_lossy(units.drop_first())
        }
    }
}

/// The code point `x` is a Unicode scalar value.
pub open spec fn is_scalar(x: u32) -> bool {
    x <= 0x10FFFF && !(0xD800 <= x <= 0xDFFF)
}

/// `char::from_u32`: the character with code point `x`, if `x` is a scalar value.
#[verifier::external_body]
fn char_from_u32(x: u32) -> (res: Option<char>)
    ensures
        is_scalar(x) ==> res == Some(x as char),
        !is_scalar(x) ==> res is None,
{
    char::from_u32(x)
}

/// The string held by a NUL-terminated UTF-16 buffer, unpaired surrogates replaced
/// by U+FFFD.
pub fn utf16_to_string(value: &[u16]) -> (res: String)
    ensures
        res@ == decode_utf16_lossy(until_nul(value@)),
{
    let mut len: usize = 0;
    while len < value.len() && value[len] != 0
        invariant
            len <= value@.len(),
            forall|j: int| 0 <= j < len ==> value@[j] != 0,
        decreases value@.len() - len,
    {
        len = len + 1;
    }
    let ghost units = value@.take(len as int);
    assert(until_nul(value@) == units) by {
        if exists|i: int| 0 <= i < value@.len() && value@[i] == 0 {
            let k = choose|i: int|
                0 <= i < value@.len() && value@[i] == 0 && forall|j: int| 0 <= j < i ==> value@[j] != 0;
            assert(len < value@.len() && value@[len as int] == 0);
            if k < len {
            } else if k > len {
            }
            assert(k == len);
        } else {
            assert(len == value@.len());
            assert(units =~= value@);
        }
    }
    let mut out: Vec<char> = Vec::new();
    let mut i: usize = 0;
    assert(units.skip(0) =~= units);
    while i < len
        invariant
            len <= value@.len(),
            i <= len,
            units == value@.take(len as int),
            decode_utf16_lossy(units) == out@ + decode_utf16_lossy(units.skip(i as int)),
        decreases len - i,
    {
        let ghost rest = units.skip(i as int);
        let u = value[i];
        assert(rest[0] == u);
        if u < 0xD800 || u > 0xDFFF {
            assert(rest.drop_first() =~= units.skip(i + 1));
            let c = char_from_u32(u as u32);
            match c {
                Some(ch) => out.push(ch),
                None => {
                    assert(false);
                },
            }
            i = i + 1;
        } else if u <= 0xDBFF && i + 1 < len && 0xDC00 <= value[i + 1] && value[i + 1] <= 0xDFFF {
            let lo = value[i + 1];
            assert(rest[1] == lo);
            assert(rest.skip(2) =~= units.skip(i + 2));
            let code: u32 = 0x10000 + ((u as u32) - 0xD800) * 0x400 + ((lo as u32) - 0xDC00);
            let c = char_from_u32(code);
            match c {
                Some(ch) => out.push(ch),
                None => {
                    assert(false);
                },
            }
            i = i + 2;
        } else {
            assert(rest.drop_first() =~= units.skip(i + 1));
            out.push('\u{fffd}');
            i = i + 1;
        }
    }
    assert(units.skip(i as int).len() == 0);
    assert(out@ + decode_utf16_lossy(units.skip(i as int)) =~= out@);
    string_of(out.as_slice())
}

/// The NUL-terminated executable name `exe_file` contains `filter`, comparing
/// units with ASCII case folded; an empty filter matches every name.
pub open spec fn process_name_matches_spec(exe_file: Seq<u16>, filter: Seq<u16>) -> bool {
    let exe = until_nul(exe_file);
    filter.len() == 0 || exists|i: int|
        0 <= i && i + filter.len() <= exe.len() && #[trigger] window_matches(exe, filter, i)
}

/// `filter` equals the units of `exe` starting at `i`, ASCII case folded.
pub open spec fn window_matches(exe: Seq<u16>, filter: Seq<u16>, i: int) -> bool {
    forall|k: int| 0 <= k < filter.len() ==> #[trigger] unit_lower(exe[i + k]) == unit_lower(filter[k])
}

/// Whether a process whose executable name is `exe_file` passes the name filter.
pub fn process_name_matches(exe_file: &[u16], filter: &[u16]) -> (res: bool)
    ensures
        res == process_name_matches_spec(exe_file@, filter@),
{
    let mut len: usize = 0;
    while len < exe_file.len() && exe_file[len] != 0
        invariant
            len <= exe_file@.len(),
            forall|j: int| 0 <= j < len ==> exe_file@[j] != 0,
        decreases exe_file@.len() - len,
    {
        len = len + 1;
    }
    let ghost exe = exe_file@.take(len as int);
    assert(until_nul(exe_file@) == exe) by {
        if exists|i: int| 0 <= i < exe_file@.len() && exe_file@[i] == 0 {
            let k = choose|i: int|
                0 <= i < exe_file@.len() && exe_file@[i] == 0 && forall|j: int| 0 <= j < i ==> exe_file@[j] != 0;
            assert(len < exe_file@.len() && exe_file@[len as int] == 0);
            if k < len {
            } else if k > len {
            }
        } else {
            assert(exe =~= exe_file@);
        }
    }
    if filter.len() == 0 {
        return true;
    }
    if filter.len() > len {
        return false;
    }
    let last = len - filter.len();
    let mut i: usize = 0;
    loop
        invariant
            exe == exe_file@.take(len as int),
            until_nul(exe_file@) == exe,
            len <= exe_file@.len(),
            last + filter@.len() == len,
            filter@.len() > 0,
            i <= last,
            forall|s: int| 0 <= s < i ==> !#[trigger] window_matches(exe, filter@, s),
        ensures
            forall|s: int| 0 <= s <= last ==> !#[trigger] window_matches(exe, filter@, s),
        decreases last - i,
    {
        let mut k: usize = 0;
        let mut all = true;
        while k < filter.len()
            invariant_except_break
                all,
            invariant
                exe == exe_file@.take(len as int),
                i + filter@.len() <= len <= exe_file@.len(),
                k <= filter@.len(),
                forall|j: int| 0 <= j < k ==> #[trigger] unit_lower(exe[i + j]) == unit_lower(filter@[j]),
            ensures
                all ==> forall|j: int|
                    0 <= j < filter@.len() ==> #[trigger] unit_lower(exe[i + j]) == unit_lower(filter@[j]),
                !all ==> exists|j: int|
                    0 <= j < filter@.len() && #[trigger] unit_lower(exe[i + j]) != unit_lower(filter@[j]),
            decreases filter@.len() - k,
        {
            if u16_ascii_lower(exe_file[i + k]) != u16_ascii_lower(filter[k]) {
                assert(unit_lower(exe[i + k]) != unit_lower(filter@[k as int]));
                all = false;
                break;
            }
            k = k + 1;
        }
        if all {
            assert(window_matches(exe, filter@, i as int));
            return true;
        }
        if i == last {
            break;
        }
        i = i + 1;
    }
    false
}

/// `region` cut to the range `[base, end)`, if any of it lies there.
pub open spec fn clip_region_spec(region: MemoryRegion, base: u64, end: u64) -> Option<MemoryRegion> {
    if region.base + region.size > u64::MAX {
        None
    } else {
        let region_end = region.base + region.size;
        let start = if region.base >= base {
            region.base as int
        } else {
            base as int
        };
        let stop = if region_end <= end {
            region_end
        } else {
            end as int
        };
        if start >= stop || stop - start > usize::MAX {
            None
        } else {
            Some(
                MemoryRegion {
                    base: start as u64,
                    size: (stop - start) as usize,
                    state: region.state,
                    protection: region.protection,
                    kind: region.kind,
                },
            )
        }
    }
}

/// The part of `region` that lies in `[base, end)`, keeping its flags.
pub fn clip_region(region: &MemoryRegion, base: u64, end: u64) -> (res: Option<MemoryRegion>)
    ensures
        res == clip_region_spec(*region, base, end),
{
    let region_end = match region.base.checked_add(region.size as u64) {
        Some(e) => e,
        None => {
            return None;
        },
    };
    let start = if region.base >= base {
        region.base
    } else {
        base
    };
    let stop = if region_end <= end {
        region_end
    } else {
        end
    };
    if start >= stop {
        return None;
    }
    let size = stop - start;
    if size > usize::MAX as u64 {
        return None;
    }
    Some(
        MemoryRegion {
            base: start,
            size: size as usize,
            state: region.state,
            protection: region.protection,
            kind: region.kind,
        },
    )
}

/// The regions in scanning order: executable regions first, each group in its
/// input order.
pub open spec fn scan_order_spec(regions: Seq<MemoryRegion>) -> Seq<MemoryRegion> {
    regions.filter(|r: MemoryRegion| region_executable(r)) + regions.filter(
        |r: MemoryRegion| !region_executable(r),
    )
}

/// Orders regions for a signature scan: code first, where signatures usually are.
pub fn scan_order(regions: &[MemoryRegion]) -> (res: Vec<MemoryRegion>)
    ensures
        res@ == scan_order_spec(regions@),
{
    let mut code: Vec<MemoryRegion> = Vec::new();
    let mut data: Vec<MemoryRegion> = Vec::new();
    let mut i: usize = 0;
    while i < regions.len()
        invariant
            i <= regions@.len(),
            code@ == regions@.take(i as int).filter(|r: MemoryRegion| region_executable(r)),
            data@ == regions@.take(i as int).filter(|r: MemoryRegion| !region_executable(r)),
        decreases regions@.len() - i,
    {
        let r = regions[i];
        assert(regions@.take(i + 1).drop_last() =~= regions@.take(i as int));
        proof {
            reveal_with_fuel(Seq::filter, 1);
        }
        if r.is_executable() {
            code.push(r);
        } else {
            data.push(r);
        }
        i = i + 1;
    }
    assert(regions@.take(regions@.len() as int) =~= regions@);
    let mut k: usize = 0;
    let ghost code_part = code@;
    while k < data.len()
        invariant
            k <= data@.len(),
            code@ == code_part + data@.take(k as int),
        decreases data@.len() - k,
    {
        code.push(data[k]);
        assert(data@.take(k + 1) =~= data@.take(k as int).push(data@[k as int]));
        k = k + 1;
    }
    assert(data@.take(data@.len() as int) =~= data@);
    code
}

/// A scan order holds every region of the input, each as often as the input
/// does: it only moves the code regions to the front.
pub proof fn lemma_scan_order_keeps_every_region(regions: Seq<MemoryRegion>)
    ensures
        scan_order_spec(regions).to_multiset() =~= regions.to_multiset(),
    decreases regions.len(),
{
    broadcast use vstd::seq_lib::group_to_multiset_ensures;

    let code = |r: MemoryRegion| region_executable(r);
    let data = |r: MemoryRegion| !region_executable(r);
    vstd::seq_lib::lemma_multiset_commutative(regions.filter(code), regions.filter(data));
    if regions.len() == 0 {
        assert(regions.filter(code) =~= Seq::<MemoryRegion>::empty());
        assert(regions.filter(data) =~= Seq::<MemoryRegion>::empty());
    } else {
        let rest = regions.drop_last();
        let last = regions.last();
        lemma_scan_order_keeps_every_region(rest);
        vstd::seq_lib::lemma_multiset_commutative(rest.filter(code), rest.filter(data));
        assert(regions =~= rest.push(last));
        rest.lemma_filter_push(last, code);
        rest.lemma_filter_push(last, data);
    }
}

} // verus!
