//! Live network readings: the kernel's route table, wireless statistics and
//! resolver configuration turned into the XML the panel parses.

use vstd::prelude::*;
use crate::text::{
    skip_n, chars_of, eq_str, has_prefix, has_suffix, lines, lines_of, parse_i32, parse_int, parse_u32,
    push_str, slice_of, starts_with, string_of, strip_prefix, trim, trim_chars,
    trim_end_char, trim_end_matches, views, words, words_of,
};
use crate::xml::{decimal, escape, escape_str, push_decimal, push_escaped};

verus! {

/// A `/proc/net/wireless` number: its trailing `.` ("updated" flag) dropped,
/// then parsed as an `i32`.
pub open spec fn wireless_number(s: Seq<char>) -> Option<int> {
    parse_int(trim_end_char(s, '.'), 10, true, i32::MIN as int, i32::MAX as int)
}

/// The statistics line for `iface` among `ls`: the first line with at least
/// five fields whose first field is `iface:`; its link quality scaled from
/// the driver's 0–70 to percent, signal and noise in dBm.
pub open spec fn wireless_stats(ls: Seq<Seq<char>>, iface: Seq<char>) -> Option<(int, int, int)>
    decreases ls.len(),
{
    if ls.len() == 0 {
        None
    } else {
        let f = words(ls[0]);
        if f.len() < 5 || !(has_suffix(f[0], ":"@) && f[0].drop_last() == iface) {
            wireless_stats(ls.drop_first(), iface)
        } else {
            match (wireless_number(f[2]), wireless_number(f[3]), wireless_number(f[4])) {
                (Some(link), Some(level), Some(noise)) => {
                    let q = if link < 0 {
                        0
                    } else if link > 70 {
                        70
                    } else {
                        link
                    };
                    Some((q * 100 / 70, level, noise))
                },
                _ => None,
            }
        }
    }
}

fn number(s: &[char]) -> (r: Option<i32>)
    ensures
        r matches Some(v) ==> wireless_number(s@) == Some(v as int),
        r is None ==> wireless_number(s@) is None,
{
    let t = trim_end_matches(s, '.');
    parse_i32(&t)
}

/// `/proc/net/wireless` stats for `iface`: (link quality %, signal dBm,
/// noise dBm), the two header lines skipped.
pub fn parse_proc_wireless(text: &str, iface: &str) -> (r: Option<(i32, i32, i32)>)
    ensures
        r matches Some((a, b, c)) ==> wireless_stats(skip_n(lines(text@), 2), iface@) == Some(
            (a as int, b as int, c as int),
        ),
        r is None ==> wireless_stats(skip_n(lines(text@), 2), iface@) is None,
{
    let t = chars_of(text);
    let ls = lines_of(&t);
    let ghost lv = views(ls@);
    let mut i: usize = 2;
    if ls.len() < 2 {
        return None;
    }
    while i < ls.len()
        invariant
            2 <= i <= ls@.len(),
            lv == views(ls@),
            lv == lines(text@),
            wireless_stats(skip_n(lv, 2), iface@) == wireless_stats(lv.skip(i as int), iface@),
        decreases ls@.len() - i,
    {
        let ghost rest = lv.skip(i as int);
        proof {
            reveal_strlit(":");
            assert(rest[0] == ls@[i as int]@);
            assert(rest.drop_first() =~= lv.skip(i + 1));
        }
        let f = words_of(&ls[i]);
        let ghost fv = views(f@);
        let mut ours = false;
        if f.len() >= 5 {
            let first = &f[0];
            let n = first.len();
            if n > 0 && first[n - 1] == ':' {
                let name = slice_of(first, 0, n - 1);
                ours = eq_str(&name, iface);
                proof {
                    assert(fv[0] == first@);
                    assert(name@ =~= fv[0].drop_last());
                    assert(has_suffix(fv[0], ":"@)) by {
                        assert(fv[0].subrange(fv[0].len() - 1, fv[0].len() as int) =~= ":"@);
                    }
                }
            } else {
                proof {
                    assert(fv[0] == first@);
                    if has_suffix(fv[0], ":"@) {
                        assert(fv[0].len() >= 1);
                        assert(fv[0][fv[0].len() - 1] == fv[0].subrange(
                            fv[0].len() - 1,
                            fv[0].len() as int,
                        )[0]);
                    }
                }
            }
        }
        if ours {
            proof {
                assert(fv[2] == f@[2]@);
                assert(fv[3] == f@[3]@);
                assert(fv[4] == f@[4]@);
            }
            let link = match number(&f[2]) {
                Some(v) => v,
                None => return None,
            };
            let level = match number(&f[3]) {
                Some(v) => v,
                None => return None,
            };
            let noise = match number(&f[4]) {
                Some(v) => v,
                None => return None,
            };
            let q: i32 = if link < 0 {
                0
            } else if link > 70 {
                70
            } else {
                link
            };
            return Some((q * 100 / 70, level, noise));
        }
        i = i + 1;
    }
    proof {
        assert(lv.skip(i as int) =~= Seq::<Seq<char>>::empty());
    }
    None
}

/// Minimal escape for XML attribute values (SSIDs are arbitrary bytes):
/// `&`, `<`, `>` and `"`.
pub fn xml_escape(s: &str) -> (r: String)
    ensures
        r@ == escape(s@, true),
{
    escape_str(s, true)
}

/// The dotted IPv4 address of a `/proc/net/route` hex field: the hex of a
/// little-endian 32-bit value, so its octets are the value's bytes from the
/// least significant up; unparseable text reads as 0.
pub open spec fn le_ip(hex: Seq<char>) -> Seq<char> {
    let v = match parse_int(hex, 16, false, 0, u32::MAX as int) {
        Some(v) => v,
        None => 0,
    };
    decimal(v % 256) + "."@ + decimal(v / 256 % 256) + "."@ + decimal(v / 65536 % 256) + "."@
        + decimal(v / 16777216 % 256)
}

/// `/proc/net/route` stores an address as the hex of a little-endian
/// `__le32`, so its octets are the value's little-endian bytes in order.
pub fn hex_le_to_ip(hex: &str) -> (r: String)
    ensures
        r@ == le_ip(hex@),
{
    let h = chars_of(hex);
    let v: u32 = match parse_u32(&h, 16) {
        Some(v) => v,
        None => 0,
    };
    let mut out: Vec<char> = Vec::new();
    push_decimal(&mut out, (v % 256) as i64);
    push_str(&mut out, ".");
    push_decimal(&mut out, (v / 256 % 256) as i64);
    push_str(&mut out, ".");
    push_decimal(&mut out, (v / 65536 % 256) as i64);
    push_str(&mut out, ".");
    push_decimal(&mut out, (v / 16777216 % 256) as i64);
    string_of(&out)
}

/// The default route among route-table lines: the first line with at least
/// eight fields whose destination is `00000000`, as (interface, gateway).
pub open spec fn default_route_spec(ls: Seq<Seq<char>>) -> Option<(Seq<char>, Seq<char>)>
    decreases ls.len(),
{
    if ls.len() == 0 {
        None
    } else {
        let f = words(ls[0]);
        if f.len() >= 8 && f[1] == "00000000"@ {
            Some((f[0], le_ip(f[2])))
        } else {
            default_route_spec(ls.drop_first())
        }
    }
}

/// A route-table line that is a default route: at least eight fields, the
/// destination `00000000`.
pub open spec fn is_default_line(l: Seq<char>) -> bool {
    words(l).len() >= 8 && words(l)[1] == "00000000"@
}

/// The interface and the dotted gateway a route-table line names.
pub open spec fn route_of(l: Seq<char>) -> (Seq<char>, Seq<char>) {
    (words(l)[0], le_ip(words(l)[2]))
}

/// The default route is the one of the first default-route line, in table
/// order: whatever the lines after it hold.
pub proof fn law_default_route_is_first(ls: Seq<Seq<char>>, k: int)
    requires
        0 <= k < ls.len(),
        is_default_line(ls[k]),
        forall|j: int| 0 <= j < k ==> !is_default_line(#[trigger] ls[j]),
    ensures
        default_route_spec(ls) == Some(route_of(ls[k])),
    decreases k,
{
    if k > 0 {
        let rest = ls.drop_first();
        assert forall|j: int| 0 <= j < k - 1 implies !is_default_line(#[trigger] rest[j]) by {
            assert(rest[j] == ls[j + 1]);
        }
        assert(!is_default_line(ls[0]));
        law_default_route_is_first(rest, k - 1);
        assert(rest[k - 1] == ls[k]);
    }
}

/// There is no default route exactly when no line is a default-route line.
pub proof fn law_no_default_route(ls: Seq<Seq<char>>)
    ensures
        default_route_spec(ls) is None <==> forall|k: int|
            0 <= k < ls.len() ==> !is_default_line(#[trigger] ls[k]),
    decreases ls.len(),
{
    if ls.len() > 0 {
        let rest = ls.drop_first();
        law_no_default_route(rest);
        if !is_default_line(ls[0]) {
            if default_route_spec(ls) is None {
                assert forall|k: int| 0 <= k < ls.len() implies !is_default_line(#[trigger] ls[k]) by {
                    if k > 0 {
                        assert(ls[k] == rest[k - 1]);
                    }
                }
            } else {
                let k = choose|k: int| 0 <= k < rest.len() && is_default_line(#[trigger] rest[k]);
                assert(ls[k + 1] == rest[k]);
            }
        }
    }
}

/// The default-route interface and its gateway (dotted), from the text of
/// the kernel routing table (its header line skipped). `None` when there is
/// no default route.
pub fn default_route(table: &str) -> (r: Option<(String, String)>)
    ensures
        r matches Some((a, b)) ==> default_route_spec(skip_n(lines(table@), 1)) == Some((a@, b@)),
        r is None ==> default_route_spec(skip_n(lines(table@), 1)) is None,
{
    let t = chars_of(table);
    let ls = lines_of(&t);
    let ghost lv = views(ls@);
    if ls.len() < 1 {
        return None;
    }
    let mut i: usize = 1;
    while i < ls.len()
        invariant
            1 <= i <= ls@.len(),
            lv == views(ls@),
            lv == lines(table@),
            default_route_spec(skip_n(lv, 1)) == default_route_spec(lv.skip(i as int)),
        decreases ls@.len() - i,
    {
        let ghost rest = lv.skip(i as int);
        proof {
            assert(rest[0] == ls@[i as int]@);
            assert(rest.drop_first() =~= lv.skip(i + 1));
        }
        let f = words_of(&ls[i]);
        proof {
            assert(views(f@).len() == f@.len());
        }
        if f.len() >= 8 && eq_str(&f[1], "00000000") {
            proof {
                assert(views(f@)[1] == f@[1]@);
                assert(views(f@)[0] == f@[0]@);
                assert(views(f@)[2] == f@[2]@);
            }
            let gw = hex_le_to_ip(string_of(&f[2]).as_str());
            return Some((string_of(&f[0]), gw));
        }
        proof {
            if f@.len() >= 8 {
                assert(views(f@)[1] == f@[1]@);
            }
        }
        i = i + 1;
    }
    proof {
        assert(lv.skip(i as int) =~= Seq::<Seq<char>>::empty());
    }
    None
}

/// The nameserver addresses of resolver-configuration lines, in order: each
/// trimmed line starting with `nameserver`, the rest trimmed, empty ones
/// skipped.
pub open spec fn nameservers(ls: Seq<Seq<char>>) -> Seq<Seq<char>>
    decreases ls.len(),
{
    if ls.len() == 0 {
        Seq::empty()
    } else {
        let init = nameservers(ls.drop_last());
        let t = trim(ls.last());
        if has_prefix(t, "nameserver"@) && trim(t.skip(10)).len() > 0 {
            init.push(trim(t.skip(10)))
        } else {
            init
        }
    }
}

/// The first two nameservers of `/etc/resolv.conf`, empty when missing.
pub fn read_dns(text: &str) -> (r: (String, String))
    ensures
        ({
            let ns = nameservers(lines(text@));
            &&& r.0@ == (if ns.len() > 0 { ns[0] } else { Seq::empty() })
            &&& r.1@ == (if ns.len() > 1 { ns[1] } else { Seq::empty() })
        }),
{
    let t = chars_of(text);
    let ls = lines_of(&t);
    let ghost lv = views(ls@);
    let mut ns: Vec<Vec<char>> = Vec::new();
    let mut i: usize = 0;
    proof {
        reveal_strlit("nameserver");
    }
    while i < ls.len()
        invariant
            i <= ls@.len(),
            lv == views(ls@),
            lv == lines(text@),
            views(ns@) == nameservers(lv.take(i as int)),
        decreases ls@.len() - i,
    {
        proof {
            reveal_strlit("nameserver");
            assert(lv.take(i + 1).drop_last() =~= lv.take(i as int));
            assert(lv.take(i + 1).last() == ls@[i as int]@);
        }
        let line = trim_chars(&ls[i]);
        match strip_prefix(&line, "nameserver") {
            Some(rest) => {
                let addr = trim_chars(&rest);
                if addr.len() > 0 {
                    let ghost before = views(ns@);
                    ns.push(addr);
                    proof {
                        assert(views(ns@) =~= before.push(addr@));
                    }
                }
            },
            None => {},
        }
        i = i + 1;
    }
    proof {
        assert(lv.take(ls@.len() as int) =~= lv);
    }
    let first = if ns.len() > 0 {
        string_of(&ns[0])
    } else {
        String::new()
    };
    let second = if ns.len() > 1 {
        string_of(&ns[1])
    } else {
        String::new()
    };
    proof {
        if ns@.len() > 0 {
            assert(views(ns@)[0] == ns@[0]@);
        }
        if ns@.len() > 1 {
            assert(views(ns@)[1] == ns@[1]@);
        }
    }
    (first, second)
}

/// What the kernel reports of the connected interface.
pub struct NetInfo {
    pub iface: String,
    pub wireless: bool,
    pub ip: String,
    pub netmask: String,
    pub gateway: String,
    pub dns1: String,
    pub dns2: String,
}

pub open spec fn network_status_spec(n: &NetInfo, ssid: Seq<char>) -> Seq<char> {
    "<network><configuration type=\""@ + (if n.wireless { "wlan"@ } else { "lan"@ })
        + "\" ssid=\""@ + escape(if n.wireless { ssid } else { Seq::empty() }, true)
        + "\" auth=\"\" encryption=\"\"/><interface ip=\""@ + n.ip@ + "\" netmask=\""@ + n.netmask@
        + "\" gateway=\""@ + n.gateway@ + "\" nameserver1=\""@ + n.dns1@ + "\" nameserver2=\""@
        + n.dns2@ + "\"/></network>"@
}

/// `<network>` XML the panel parses: `type="lan"` for a wired link,
/// `type="wlan"` with the (escaped) SSID for a wireless one; `auth` and
/// `encryption` stay empty. `ssid` is the SSID the wireless interface
/// reports (empty when unknown).
pub fn network_status_xml(n: &NetInfo, ssid: &str) -> (r: String)
    ensures
        r@ == network_status_spec(n, ssid@),
{
    let mut out: Vec<char> = Vec::new();
    push_str(&mut out, "<network><configuration type=\"");
    if n.wireless {
        push_str(&mut out, "wlan");
    } else {
        push_str(&mut out, "lan");
    }
    push_str(&mut out, "\" ssid=\"");
    let s = if n.wireless {
        chars_of(ssid)
    } else {
        Vec::new()
    };
    push_escaped(&mut out, &s, true);
    push_str(&mut out, "\" auth=\"\" encryption=\"\"/><interface ip=\"");
    push_str(&mut out, n.ip.as_str());
    push_str(&mut out, "\" netmask=\"");
    push_str(&mut out, n.netmask.as_str());
    push_str(&mut out, "\" gateway=\"");
    push_str(&mut out, n.gateway.as_str());
    push_str(&mut out, "\" nameserver1=\"");
    push_str(&mut out, n.dns1.as_str());
    push_str(&mut out, "\" nameserver2=\"");
    push_str(&mut out, n.dns2.as_str());
    push_str(&mut out, "\"/></network>");
    string_of(&out)
}

pub open spec fn signal_strength_spec(wifi: Option<(int, int, int)>) -> Seq<char> {
    match wifi {
        Some((q, dbm, noise)) => "<wifi connected=\"1\" linkquality=\""@ + decimal(q)
            + "\" signalstrength=\""@ + decimal(dbm) + "\" noiselevel=\""@ + decimal(noise)
            + "\"/>"@,
        None => "<wifi connected=\"0\"/>"@,
    }
}

/// The `signal_strength` answer: link quality in percent, signal and noise
/// in dBm for a wireless link; `connected="0"` otherwise (the meter is a
/// wifi meter and hides).
pub fn signal_strength_xml(wifi: Option<(i32, i32, i32)>) -> (r: String)
    ensures
        r@ == signal_strength_spec(match wifi {
            Some((a, b, c)) => Some((a as int, b as int, c as int)),
            None => None,
        }),
{
    let mut out: Vec<char> = Vec::new();
    match wifi {
        Some((q, dbm, noise)) => {
            push_str(&mut out, "<wifi connected=\"1\" linkquality=\"");
            push_decimal(&mut out, q as i64);
            push_str(&mut out, "\" signalstrength=\"");
            push_decimal(&mut out, dbm as i64);
            push_str(&mut out, "\" noiselevel=\"");
            push_decimal(&mut out, noise as i64);
            push_str(&mut out, "\"/>");
        },
        None => {
            push_str(&mut out, "<wifi connected=\"0\"/>");
        },
    }
    string_of(&out)
}

/// The shell commands answered from live state rather than fixtures.
#[derive(Debug, PartialEq, Eq)]
pub enum LiveCommand {
    NetworkStatus,
    SignalStrength,
    Mac,
    Guid,
    HwSerial,
    /// `md5sum <path>`, the path trimmed.
    Md5sum { path: String },
    /// Not one of ours: the fixture host answers.
    Other,
}

/// Which live reading answers `command`, by its leading words.
pub fn live_command(command: &str) -> (r: LiveCommand)
    ensures
        has_prefix(command@, "network_status.sh"@) ==> r == LiveCommand::NetworkStatus,
        !has_prefix(command@, "network_status.sh"@) && has_prefix(command@, "signal_strength"@)
            ==> r == LiveCommand::SignalStrength,
        !has_prefix(command@, "network_status.sh"@) && !has_prefix(command@, "signal_strength"@)
            && has_prefix(command@, "macgen.sh"@) ==> r == LiveCommand::Mac,
        !has_prefix(command@, "network_status.sh"@) && !has_prefix(command@, "signal_strength"@)
            && !has_prefix(command@, "macgen.sh"@) && has_prefix(command@, "guidgen.sh"@) ==> r
            == LiveCommand::Guid,
        !has_prefix(command@, "network_status.sh"@) && !has_prefix(command@, "signal_strength"@)
            && !has_prefix(command@, "macgen.sh"@) && !has_prefix(command@, "guidgen.sh"@)
            && has_prefix(command@, "chumby_version -n"@) ==> r == LiveCommand::HwSerial,
        !has_prefix(command@, "network_status.sh"@) && !has_prefix(command@, "signal_strength"@)
            && !has_prefix(command@, "macgen.sh"@) && !has_prefix(command@, "guidgen.sh"@)
            && !has_prefix(command@, "chumby_version -n"@) && has_prefix(command@, "md5sum "@) ==> (
        r matches LiveCommand::Md5sum { path } && path@ == trim(command@.skip(7))),
        !has_prefix(command@, "network_status.sh"@) && !has_prefix(command@, "signal_strength"@)
            && !has_prefix(command@, "macgen.sh"@) && !has_prefix(command@, "guidgen.sh"@)
            && !has_prefix(command@, "chumby_version -n"@) && !has_prefix(command@, "md5sum "@)
            ==> r == LiveCommand::Other,
{
    let c = chars_of(command);
    proof {
        reveal_strlit("md5sum ");
    }
    if starts_with(&c, "network_status.sh") {
        LiveCommand::NetworkStatus
    } else if starts_with(&c, "signal_strength") {
        LiveCommand::SignalStrength
    } else if starts_with(&c, "macgen.sh") {
        LiveCommand::Mac
    } else if starts_with(&c, "guidgen.sh") {
        LiveCommand::Guid
    } else if starts_with(&c, "chumby_version -n") {
        LiveCommand::HwSerial
    } else {
        match strip_prefix(&c, "md5sum ") {
            Some(p) => LiveCommand::Md5sum { path: string_of(&trim_chars(&p)) },
            None => LiveCommand::Other,
        }
    }
}

} // verus!
