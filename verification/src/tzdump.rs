//! `tzdump <zone>`: the Dash's DST source. The panel parses
//! `<zone><time utc= gmtoff= isdst= abbrev=/>…</zone>` and picks the last
//! entry at or before now, so the list must be ascending. The transitions
//! come from the system tzdata (TZif, RFC 8536); every transition through
//! 2037 is spelled out there, so the POSIX footer is not expanded.

use vstd::prelude::*;
use crate::text::{chars_of, lossy_string, push_str, split_char, split_chars, eq_str, utf8_lossy, views};
use crate::xml::{decimal, escape, push_decimal, push_escaped};

verus! {

/// One transition: seconds since the epoch, offset from UTC, DST flag, name.
#[derive(Debug, PartialEq, Eq)]
pub struct Transition {
    pub utc: i64,
    pub gmtoff: i32,
    pub isdst: bool,
    pub abbrev: String,
}

pub open spec fn transition_view(t: Transition) -> (int, int, bool, Seq<char>) {
    (t.utc as int, t.gmtoff as int, t.isdst, t.abbrev@)
}

pub open spec fn transition_views(v: Seq<Transition>) -> Seq<(int, int, bool, Seq<char>)> {
    v.map_values(|t: Transition| transition_view(t))
}

/// The unsigned big-endian number in `n` bytes of `d` from `o`.
pub open spec fn be_u(d: Seq<u8>, o: int, n: nat) -> int
    decreases n,
{
    if n == 0 {
        0
    } else {
        be_u(d, o, (n - 1) as nat) * 256 + d[o + n - 1]
    }
}

/// A big-endian two's-complement `i32` at `o`.
pub open spec fn be_i32(d: Seq<u8>, o: int) -> int {
    let u = be_u(d, o, 4);
    if u >= 0x8000_0000 {
        u - 0x1_0000_0000
    } else {
        u
    }
}

/// A big-endian two's-complement `i64` at `o`.
pub open spec fn be_i64(d: Seq<u8>, o: int) -> int {
    let u = be_u(d, o, 8);
    if u >= 0x8000_0000_0000_0000 {
        u - 0x1_0000_0000_0000_0000
    } else {
        u
    }
}

/// A TZif header starts `d`: 44 bytes, the first four `TZif`.
pub open spec fn tzif_magic(d: Seq<u8>) -> bool {
    &&& d.len() >= 44
    &&& d[0] == 0x54u8
    &&& d[1] == 0x5Au8
    &&& d[2] == 0x69u8
    &&& d[3] == 0x66u8
}

/// Header count `k` in file order: isutcnt, isstdcnt, leapcnt, timecnt,
/// typecnt, charcnt.
pub open spec fn tz_count(h: Seq<u8>, k: int) -> int {
    be_u(h, 20 + 4 * k, 4)
}

/// The length of the version-1 block (header and data).
pub open spec fn v1_len(h: Seq<u8>) -> int {
    44 + tz_count(h, 3) * 5 + tz_count(h, 4) * 6 + tz_count(h, 5) + tz_count(h, 2) * 8
        + tz_count(h, 1) + tz_count(h, 0)
}

/// The first NUL in `s`, or its length.
pub open spec fn nul_pos(s: Seq<u8>) -> int
    decreases s.len(),
{
    if s.len() == 0 {
        0
    } else if s[0] == 0 {
        0
    } else {
        1 + nul_pos(s.drop_first())
    }
}

/// Local time type `i`: its offset, DST flag and abbreviation (the
/// NUL-terminated text at its index into the abbreviation bytes), or `None`
/// when the type or its index is out of range.
pub open spec fn ttinfo(types: Seq<u8>, chars: Seq<u8>, i: int) -> Option<(int, bool, Seq<char>)> {
    if i * 6 + 6 > types.len() {
        None
    } else if types[i * 6 + 5] as int > chars.len() {
        None
    } else {
        let abbr = chars.skip(types[i * 6 + 5] as int);
        Some((be_i32(types, i * 6), types[i * 6 + 4] != 0, utf8_lossy(abbr.take(nul_pos(abbr)))))
    }
}

/// Transition time `j`, in 4- or 8-byte form.
pub open spec fn time_at(times: Seq<u8>, ts: int, j: int) -> int {
    if ts == 8 {
        be_i64(times, j * 8)
    } else {
        be_i32(times, j * 4)
    }
}

/// The first `n` transitions from 1970 on, in file order; `None` when one of
/// them names a type that does not exist.
pub open spec fn tz_entries(
    times: Seq<u8>,
    idx: Seq<u8>,
    ts: int,
    types: Seq<u8>,
    chars: Seq<u8>,
    n: nat,
) -> Option<Seq<(int, int, bool, Seq<char>)>>
    decreases n,
{
    if n == 0 {
        Some(Seq::empty())
    } else {
        match tz_entries(times, idx, ts, types, chars, (n - 1) as nat) {
            None => None,
            Some(prev) => {
                let utc = time_at(times, ts, n - 1);
                if utc < 0 {
                    Some(prev)
                } else {
                    match ttinfo(types, chars, idx[n - 1] as int) {
                        None => None,
                        Some(t) => Some(prev.push((utc, t.0, t.1, t.2))),
                    }
                }
            },
        }
    }
}

/// The transitions of one data block (header `h`, then the data), with
/// `ts`-byte times; a block without any from 1970 on yields its first type
/// at utc 0. `None` when the data is shorter than its header says or names
/// a missing type.
pub open spec fn block_transitions(h: Seq<u8>, ts: int) -> Option<Seq<(int, int, bool, Seq<char>)>> {
    let body = h.skip(44);
    let tc = tz_count(h, 3);
    let ty = tz_count(h, 4);
    let ch = tz_count(h, 5);
    let types_at = tc * (ts + 1);
    if body.len() < types_at + ty * 6 + ch {
        None
    } else {
        let times = body.take(tc * ts);
        let idx = body.subrange(tc * ts, types_at);
        let types = body.subrange(types_at, types_at + ty * 6);
        let chars = body.subrange(types_at + ty * 6, types_at + ty * 6 + ch);
        match tz_entries(times, idx, ts, types, chars, tc as nat) {
            None => None,
            Some(out) => if out.len() == 0 {
                match ttinfo(types, chars, 0) {
                    None => None,
                    Some(t) => Some(seq![(0int, t.0, t.1, t.2)]),
                }
            } else {
                Some(out)
            },
        }
    }
}

/// The transitions of a TZif file: those of its 64-bit block when its
/// version is 2 or later, else of its 32-bit block.
pub open spec fn tz_transitions(d: Seq<u8>) -> Option<Seq<(int, int, bool, Seq<char>)>> {
    if !tzif_magic(d) {
        None
    } else if d[4] >= 0x32 {
        if v1_len(d) > d.len() || !tzif_magic(d.skip(v1_len(d))) {
            None
        } else {
            block_transitions(d.skip(v1_len(d)), 8)
        }
    } else {
        block_transitions(d, 4)
    }
}

fn read_u32(d: &[u8], o: usize) -> (r: u64)
    requires
        o + 4 <= d@.len(),
    ensures
        r == be_u(d@, o as int, 4),
        r < 0x1_0000_0000,
{
    proof {
        reveal_with_fuel(be_u, 5);
    }
    (d[o] as u64) * 16777216 + (d[o + 1] as u64) * 65536 + (d[o + 2] as u64) * 256 + (d[o
        + 3] as u64)
}

proof fn lemma_be_split(d: Seq<u8>, o: int)
    ensures
        be_u(d, o, 8) == be_u(d, o, 4) * 0x1_0000_0000 + be_u(d, o + 4, 4),
{
    reveal_with_fuel(be_u, 9);
}

fn read_i32(d: &[u8], o: usize) -> (r: i32)
    requires
        o + 4 <= d@.len(),
    ensures
        r == be_i32(d@, o as int),
{
    let u = read_u32(d, o);
    if u >= 0x8000_0000 {
        ((u - 0x8000_0000) as i32) + i32::MIN
    } else {
        u as i32
    }
}

fn read_i64(d: &[u8], o: usize) -> (r: i64)
    requires
        o + 8 <= d@.len(),
    ensures
        r == be_i64(d@, o as int),
{
    let hi = read_u32(d, o);
    assert(o + 4 < d.len());
    let lo = read_u32(d, o + 4);
    proof {
        lemma_be_split(d@, o as int);
    }
    let u: u64 = hi * 0x1_0000_0000 + lo;
    if u >= 0x8000_0000_0000_0000 {
        ((u - 0x8000_0000_0000_0000) as i64) + i64::MIN
    } else {
        u as i64
    }
}

fn magic_ok(d: &[u8]) -> (b: bool)
    ensures
        b == tzif_magic(d@),
{
    d.len() >= 44 && d[0] == 0x54 && d[1] == 0x5A && d[2] == 0x69 && d[3] == 0x66
}

fn nul_index(s: &[u8]) -> (r: usize)
    ensures
        r == nul_pos(s@),
        r <= s@.len(),
{
    let mut i: usize = 0;
    assert(s@.skip(0) =~= s@);
    while i < s.len() && s[i] != 0
        invariant
            i <= s@.len(),
            nul_pos(s@) == i + nul_pos(s@.skip(i as int)),
        decreases s@.len() - i,
    {
        proof {
            assert(s@.skip(i as int).drop_first() =~= s@.skip(i + 1));
        }
        i = i + 1;
    }
    i
}

fn type_info(types: &[u8], chars: &[u8], i: usize) -> (r: Option<(i32, bool, String)>)
    requires
        i < 256,
    ensures
        match r {
            Some(t) => ttinfo(types@, chars@, i as int) == Some((t.0 as int, t.1, t.2@)),
            None => ttinfo(types@, chars@, i as int) is None,
        },
{
    if i * 6 + 6 > types.len() {
        return None;
    }
    let k = types[i * 6 + 5] as usize;
    if k > chars.len() {
        return None;
    }
    let off = read_i32(types, i * 6);
    let abbr = vstd::slice::slice_subrange(chars, k, chars.len());
    let end = nul_index(abbr);
    let text = lossy_string(vstd::slice::slice_subrange(abbr, 0, end));
    proof {
        assert(abbr@ =~= chars@.skip(k as int));
        assert(abbr@.subrange(0, end as int) =~= abbr@.take(end as int));
    }
    Some((off, types[i * 6 + 4] != 0, text))
}


proof fn lemma_entries_fail(
    times: Seq<u8>,
    idx: Seq<u8>,
    ts: int,
    types: Seq<u8>,
    chars: Seq<u8>,
    k: nat,
    m: nat,
)
    requires
        k <= m,
        tz_entries(times, idx, ts, types, chars, k) is None,
    ensures
        tz_entries(times, idx, ts, types, chars, m) is None,
    decreases m - k,
{
    if k < m {
        lemma_entries_fail(times, idx, ts, types, chars, k, (m - 1) as nat);
    }
}

fn entries(times: &[u8], idx: &[u8], ts: usize, types: &[u8], chars: &[u8]) -> (r: Option<Vec<Transition>>)
    requires
        ts == 4 || ts == 8,
        times@.len() == idx@.len() * ts,
    ensures
        match r {
            Some(v) => tz_entries(times@, idx@, ts as int, types@, chars@, idx@.len()) == Some(
                transition_views(v@),
            ),
            None => tz_entries(times@, idx@, ts as int, types@, chars@, idx@.len()) is None,
        },
{
    let n = idx.len();
    let tl = times.len();
    let mut out: Vec<Transition> = Vec::new();
    let mut i: usize = 0;
    while i < n
        invariant
            i <= n,
            n == idx@.len(),
            tl == times@.len(),
            ts == 4 || ts == 8,
            times@.len() == n * ts,
            tz_entries(times@, idx@, ts as int, types@, chars@, i as nat) == Some(
                transition_views(out@),
            ),
        decreases n - i,
    {
        assert(i * ts + ts <= n * ts) by (nonlinear_arith)
            requires
                i < n,
                ts == 4 || ts == 8,
        ;
        let utc: i64 = if ts == 8 {
            read_i64(times, i * 8)
        } else {
            read_i32(times, i * 4) as i64
        };
        assert(utc == time_at(times@, ts as int, i as int));
        if utc >= 0 {
            match type_info(types, chars, idx[i] as usize) {
                None => {
                    proof {
                        assert(tz_entries(times@, idx@, ts as int, types@, chars@, (i + 1) as nat)
                            is None);
                        lemma_entries_fail(
                            times@,
                            idx@,
                            ts as int,
                            types@,
                            chars@,
                            (i + 1) as nat,
                            n as nat,
                        );
                    }
                    return None;
                },
                Some(t) => {
                    let (off, dst, ab) = t;
                    let ghost before = transition_views(out@);
                    out.push(Transition { utc, gmtoff: off, isdst: dst, abbrev: ab });
                    proof {
                        assert(transition_views(out@) =~= before.push(
                            (utc as int, off as int, dst, ab@),
                        ));
                    }
                },
            }
        }
        i = i + 1;
    }
    Some(out)
}

fn parse_block(h: &[u8], ts: usize) -> (r: Option<Vec<Transition>>)
    requires
        tzif_magic(h@),
        ts == 4 || ts == 8,
    ensures
        match r {
            Some(v) => block_transitions(h@, ts as int) == Some(transition_views(v@)),
            None => block_transitions(h@, ts as int) is None,
        },
{
    let tc = read_u32(h, 32);
    let ty = read_u32(h, 36);
    let ch = read_u32(h, 40);
    let ghost body_v = h@.skip(44);
    let body_len = (h.len() - 44) as u64;
    assert(tc < 0x1_0000_0000 && ty < 0x1_0000_0000 && ch < 0x1_0000_0000);
    let times_len: u64 = if ts == 8 { tc * 8 } else { tc * 4 };
    let types_at: u64 = if ts == 8 { tc * 9 } else { tc * 5 };
    assert(times_len == tc * ts && types_at == tc * (ts + 1)) by (nonlinear_arith)
        requires
            ts == 4 || ts == 8,
            times_len == (if ts == 8 { tc * 8 } else { tc * 4 }),
            types_at == (if ts == 8 { tc * 9 } else { tc * 5 }),
    ;
    let need: u64 = types_at + ty * 6 + ch;
    if need > body_len {
        return None;
    }
    let body = vstd::slice::slice_subrange(h, 44, h.len());
    assert(body@ =~= body_v);
    let times = vstd::slice::slice_subrange(body, 0, times_len as usize);
    let idx = vstd::slice::slice_subrange(body, times_len as usize, types_at as usize);
    let types = vstd::slice::slice_subrange(body, types_at as usize, (types_at + ty * 6) as usize);
    let chars = vstd::slice::slice_subrange(body, (types_at + ty * 6) as usize, need as usize);
    assert(times@ =~= body_v.take(tc * ts));
    assert(idx@.len() == tc);
    let out = match entries(times, idx, ts, types, chars) {
        Some(v) => v,
        None => {
            return None;
        },
    };
    if out.len() == 0 {
        match type_info(types, chars, 0) {
            None => None,
            Some(t) => {
                let (off, dst, ab) = t;
                let mut v: Vec<Transition> = Vec::new();
                v.push(Transition { utc: 0, gmtoff: off, isdst: dst, abbrev: ab });
                proof {
                    assert(transition_views(v@) =~= seq![(0int, off as int, dst, ab@)]);
                }
                Some(v)
            },
        }
    } else {
        Some(out)
    }
}

/// The transitions of a TZif file from 1970 on, in file order (tzdata
/// writes them ascending); a zone without any (UTC) yields its single type
/// at utc 0, so there is always one entry. `None` for a file that is not
/// TZif or is shorter than its headers say.
pub fn parse_tzif(d: &[u8]) -> (r: Option<Vec<Transition>>)
    ensures
        match r {
            Some(v) => tz_transitions(d@) == Some(transition_views(v@)),
            None => tz_transitions(d@) is None,
        },
{
    if !magic_ok(d) {
        return None;
    }
    if d[4] >= 0x32 {
        let v1: u64 = 44 + read_u32(d, 32) * 5 + read_u32(d, 36) * 6 + read_u32(d, 40) + read_u32(
            d,
            28,
        ) * 8 + read_u32(d, 24) + read_u32(d, 20);
        if v1 > d.len() as u64 {
            return None;
        }
        let rest = vstd::slice::slice_subrange(d, v1 as usize, d.len());
        assert(rest@ =~= d@.skip(v1_len(d@)));
        if !magic_ok(rest) {
            return None;
        }
        parse_block(rest, 8)
    } else {
        parse_block(d, 4)
    }
}


/// A zone name that stays inside the zoneinfo tree: not empty, not
/// absolute, no empty, `.` or `..` component.
pub open spec fn zone_name_ok(zone: Seq<char>) -> bool {
    let parts = split_char(zone, '/');
    &&& zone.len() > 0
    &&& zone[0] != '/'
    &&& forall|k: int|
        0 <= k < parts.len() ==> (#[trigger] parts[k]).len() > 0 && parts[k] != "."@ && parts[k]
            != ".."@
}

/// The tzdata file of a zone, or `None` for a name that could leave the
/// zoneinfo tree.
pub fn zone_file(zone: &str) -> (r: Option<String>)
    ensures
        r is Some <==> zone_name_ok(zone@),
        r matches Some(p) ==> p@ == "/usr/share/zoneinfo/"@ + zone@,
{
    let z = chars_of(zone);
    if z.len() == 0 || z[0] == '/' {
        return None;
    }
    let parts = split_chars(&z, '/');
    let mut k: usize = 0;
    while k < parts.len()
        invariant
            k <= parts@.len(),
            z@ == zone@,
            z@.len() > 0,
            z@[0] != '/',
            views(parts@) == split_char(z@, '/'),
            forall|m: int|
                0 <= m < k ==> (#[trigger] views(parts@)[m]).len() > 0 && views(parts@)[m] != "."@
                    && views(parts@)[m] != ".."@,
        decreases parts@.len() - k,
    {
        assert(views(parts@)[k as int] == parts@[k as int]@);
        if parts[k].len() == 0 || eq_str(&parts[k], ".") || eq_str(&parts[k], "..") {
            proof {
                let bad = split_char(zone@, '/')[k as int];
                assert(!(bad.len() > 0 && bad != "."@ && bad != ".."@));
            }
            return None;
        }
        k = k + 1;
    }
    let mut out: Vec<char> = Vec::new();
    push_str(&mut out, "/usr/share/zoneinfo/");
    crate::text::push_all(&mut out, &z);
    Some(crate::text::string_of(&out))
}

/// One `<time/>` element.
pub open spec fn time_xml(t: (int, int, bool, Seq<char>)) -> Seq<char> {
    "<time utc=\""@ + decimal(t.0) + "\" gmtoff=\""@ + decimal(t.1) + "\" isdst=\""@ + (if t.2 {
        "1"@
    } else {
        "0"@
    }) + "\" abbrev=\""@ + escape(t.3, false) + "\"/>"@
}

pub open spec fn times_xml(ts: Seq<(int, int, bool, Seq<char>)>) -> Seq<char>
    decreases ts.len(),
{
    if ts.len() == 0 {
        Seq::empty()
    } else {
        times_xml(ts.drop_last()) + time_xml(ts.last())
    }
}

/// The XML the panel parses for a zone and its transitions.
pub open spec fn zone_document(zone: Seq<char>, ts: Seq<(int, int, bool, Seq<char>)>) -> Seq<char> {
    "<zone name=\""@ + escape(zone, false) + "\">"@ + times_xml(ts) + "</zone>\n"@
}

fn push_time(out: &mut Vec<char>, t: &Transition)
    ensures
        final(out)@ == old(out)@ + time_xml(transition_view(*t)),
{
    let a = chars_of(t.abbrev.as_str());
    push_str(out, "<time utc=\"");
    push_decimal(out, t.utc);
    push_str(out, "\" gmtoff=\"");
    push_decimal(out, t.gmtoff as i64);
    push_str(out, "\" isdst=\"");
    if t.isdst {
        push_str(out, "1");
    } else {
        push_str(out, "0");
    }
    push_str(out, "\" abbrev=\"");
    push_escaped(out, &a, false);
    push_str(out, "\"/>");
    assert(final(out)@ =~= old(out)@ + time_xml(transition_view(*t)));
}

/// The zone document for the given transitions.
pub fn zone_xml(zone: &str, transitions: &Vec<Transition>) -> (r: String)
    ensures
        r@ == zone_document(zone@, transition_views(transitions@)),
{
    let z = chars_of(zone);
    let mut out: Vec<char> = Vec::new();
    push_str(&mut out, "<zone name=\"");
    push_escaped(&mut out, &z, false);
    push_str(&mut out, "\">");
    let ghost head = out@;
    let mut i: usize = 0;
    assert(transition_views(transitions@).take(0) =~= Seq::<(int, int, bool, Seq<char>)>::empty());
    while i < transitions.len()
        invariant
            i <= transitions@.len(),
            out@ == head + times_xml(transition_views(transitions@).take(i as int)),
        decreases transitions@.len() - i,
    {
        push_time(&mut out, &transitions[i]);
        proof {
            let v = transition_views(transitions@).take(i + 1);
            assert(v.drop_last() =~= transition_views(transitions@).take(i as int));
            assert(v.last() == transition_view(transitions@[i as int]));
            assert(out@ =~= head + times_xml(v));
        }
        i = i + 1;
    }
    push_str(&mut out, "</zone>\n");
    assert(transition_views(transitions@).take(transitions@.len() as int) =~= transition_views(
        transitions@,
    ));
    crate::text::string_of(&out)
}

/// `tzdump <zone>` given the zone's tzdata: the zone document, or `None`
/// when the data is not a usable TZif file.
pub fn tzdump(zone: &str, tzdata: &[u8]) -> (r: Option<String>)
    ensures
        match tz_transitions(tzdata@) {
            Some(ts) => r matches Some(x) && x@ == zone_document(zone@, ts),
            None => r is None,
        },
{
    match parse_tzif(tzdata) {
        Some(ts) => Some(zone_xml(zone, &ts)),
        None => None,
    }
}


/// The block a file's transitions are read from, and its time size.
pub open spec fn selected_block(d: Seq<u8>) -> (Seq<u8>, int) {
    if d[4] >= 0x32 {
        (d.skip(v1_len(d)), 8)
    } else {
        (d, 4)
    }
}

/// A block's transition times are strictly ascending, as tzdata writes them.
pub open spec fn block_times_ascending(h: Seq<u8>, ts: int) -> bool {
    let tc = tz_count(h, 3);
    let times = h.skip(44).take(tc * ts);
    forall|i: int, j: int|
        0 <= i < j < tc ==> #[trigger] time_at(times, ts, i) < #[trigger] time_at(times, ts, j)
}

proof fn lemma_entries_ascending(
    times: Seq<u8>,
    idx: Seq<u8>,
    ts: int,
    types: Seq<u8>,
    chars: Seq<u8>,
    n: nat,
    total: int,
)
    requires
        n <= total,
        forall|i: int, j: int|
            0 <= i < j < total ==> #[trigger] time_at(times, ts, i) < #[trigger] time_at(
                times,
                ts,
                j,
            ),
        tz_entries(times, idx, ts, types, chars, n) is Some,
    ensures
        ({
            let out = tz_entries(times, idx, ts, types, chars, n).unwrap();
            &&& forall|k: int| 0 <= k < out.len() ==> (#[trigger] out[k]).0 >= 0
            &&& forall|a: int, b: int| 0 <= a < b < out.len() ==> (#[trigger] out[a]).0 < (
            #[trigger] out[b]).0
            &&& forall|k: int, m: int|
                0 <= k < out.len() && n <= m < total ==> (#[trigger] out[k]).0 < #[trigger] time_at(
                    times,
                    ts,
                    m,
                )
        }),
    decreases n,
{
    if n > 0 {
        lemma_entries_ascending(times, idx, ts, types, chars, (n - 1) as nat, total);
        let prev = tz_entries(times, idx, ts, types, chars, (n - 1) as nat).unwrap();
        let out = tz_entries(times, idx, ts, types, chars, n).unwrap();
        let last = time_at(times, ts, n - 1);
        assert forall|k: int, m: int| 0 <= k < prev.len() && n <= m < total implies (
        #[trigger] prev[k]).0 < #[trigger] time_at(times, ts, m) by {
            assert(prev[k].0 < time_at(times, ts, n - 1));
            assert(time_at(times, ts, n - 1) < time_at(times, ts, m));
        }
        if last >= 0 {
            assert(out.drop_last() == prev);
            assert forall|k: int| 0 <= k < prev.len() implies (#[trigger] prev[k]).0 < last by {}
        }
    }
}

proof fn lemma_entries_from_epoch(
    times: Seq<u8>,
    idx: Seq<u8>,
    ts: int,
    types: Seq<u8>,
    chars: Seq<u8>,
    n: nat,
)
    requires
        tz_entries(times, idx, ts, types, chars, n) is Some,
    ensures
        ({
            let out = tz_entries(times, idx, ts, types, chars, n).unwrap();
            forall|k: int| 0 <= k < out.len() ==> (#[trigger] out[k]).0 >= 0
        }),
    decreases n,
{
    if n > 0 {
        lemma_entries_from_epoch(times, idx, ts, types, chars, (n - 1) as nat);
    }
}

/// The transitions any file yields are never empty and all from 1970 on.
pub proof fn law_transitions_from_epoch(d: Seq<u8>)
    requires
        tz_transitions(d) is Some,
    ensures
        ({
            let out = tz_transitions(d).unwrap();
            &&& out.len() >= 1
            &&& forall|k: int| 0 <= k < out.len() ==> (#[trigger] out[k]).0 >= 0
        }),
{
    let (h, ts) = selected_block(d);
    assert(block_transitions(h, ts) == tz_transitions(d));
    let body = h.skip(44);
    let tc = tz_count(h, 3);
    let ty = tz_count(h, 4);
    let ch = tz_count(h, 5);
    let types_at = tc * (ts + 1);
    let times = body.take(tc * ts);
    let idx = body.subrange(tc * ts, types_at);
    let types = body.subrange(types_at, types_at + ty * 6);
    let chars = body.subrange(types_at + ty * 6, types_at + ty * 6 + ch);
    lemma_entries_from_epoch(times, idx, ts, types, chars, tc as nat);
}

/// The transitions a file yields are never empty, all from 1970 on, and
/// strictly ascending when the file's times are, as tzdata writes them:
/// the order the panel's "last entry at or before now" needs.
pub proof fn law_transitions_ascending(d: Seq<u8>)
    requires
        tz_transitions(d) is Some,
        block_times_ascending(selected_block(d).0, selected_block(d).1),
    ensures
        ({
            let out = tz_transitions(d).unwrap();
            &&& out.len() >= 1
            &&& forall|k: int| 0 <= k < out.len() ==> (#[trigger] out[k]).0 >= 0
            &&& forall|a: int, b: int| 0 <= a < b < out.len() ==> (#[trigger] out[a]).0 < (
            #[trigger] out[b]).0
        }),
{
    let (h, ts) = selected_block(d);
    assert(block_transitions(h, ts) == tz_transitions(d));
    let body = h.skip(44);
    let tc = tz_count(h, 3);
    let ty = tz_count(h, 4);
    let ch = tz_count(h, 5);
    let types_at = tc * (ts + 1);
    let times = body.take(tc * ts);
    let idx = body.subrange(tc * ts, types_at);
    let types = body.subrange(types_at, types_at + ty * 6);
    let chars = body.subrange(types_at + ty * 6, types_at + ty * 6 + ch);
    assert(tc >= 0) by {
        reveal_with_fuel(be_u, 5);
    }
    lemma_entries_ascending(times, idx, ts, types, chars, tc as nat, tc);
}


/// An 8-byte transition time is the full big-endian two's-complement value
/// of its eight bytes: the top byte's high bit is the sign, and no byte is
/// dropped.
pub proof fn law_time_is_all_eight_bytes(times: Seq<u8>, j: int)
    requires
        0 <= j,
        j * 8 + 8 <= times.len(),
    ensures
        ({
            let o = j * 8;
            let unsigned = times[o] as int * 0x100_0000_0000_0000 + times[o + 1] as int
                * 0x1_0000_0000_0000 + times[o + 2] as int * 0x100_0000_0000 + times[o + 3] as int
                * 0x1_0000_0000 + times[o + 4] as int * 0x100_0000 + times[o + 5] as int
                * 0x1_0000 + times[o + 6] as int * 0x100 + times[o + 7] as int;
            &&& time_at(times, 8, j) == if times[o] >= 0x80 {
                unsigned - 0x1_0000_0000_0000_0000
            } else {
                unsigned
            }
            &&& i64::MIN <= time_at(times, 8, j) <= i64::MAX
        }),
{
    reveal_with_fuel(be_u, 9);
}

/// A 4-byte transition time is the big-endian two's-complement value of its
/// four bytes.
pub proof fn law_time_is_all_four_bytes(times: Seq<u8>, j: int)
    requires
        0 <= j,
        j * 4 + 4 <= times.len(),
    ensures
        ({
            let o = j * 4;
            let unsigned = times[o] as int * 0x100_0000 + times[o + 1] as int * 0x1_0000
                + times[o + 2] as int * 0x100 + times[o + 3] as int;
            &&& time_at(times, 4, j) == if times[o] >= 0x80 {
                unsigned - 0x1_0000_0000
            } else {
                unsigned
            }
            &&& i32::MIN <= time_at(times, 4, j) <= i32::MAX
        }),
{
    reveal_with_fuel(be_u, 5);
}

} // verus!
