//! Device identity: the GUID and hardware serial derived from the host
//! machine in place of the original hardware's crypto processor, and the
//! md5 digests the panel asks for.

use vstd::prelude::*;
use crate::text::{
    chars_of, has_prefix, push_all, push_str, slice_of, string_of, strip_prefix, trim,
    trim_chars, views, words, words_of,
};

verus! {

/// The MD5 digest of `data` (RFC 1321), as computed by the `md-5` crate.
pub uninterp spec fn md5_digest(data: Seq<u8>) -> Seq<u8>;

/// `md5::Md5::digest` of the `md-5` crate. Claimed: the 16-byte digest
/// (the crate's `OutputSize` is `U16`), a function of the input bytes alone,
/// named `md5_digest`.
#[verifier::external_body]
fn md5_bytes(data: &[u8]) -> (r: Vec<u8>)
    ensures
        r@ == md5_digest(data@),
        r@.len() == 16,
{
    <md5::Md5 as md5::Digest>::digest(data).to_vec()
}

/// A lowercase hex digit.
pub open spec fn hex_digit(v: int) -> char {
    if v < 10 {
        (48 + v) as char
    } else {
        (87 + v) as char
    }
}

/// Bytes as lowercase hex, two digits each.
pub open spec fn hex_lower(b: Seq<u8>) -> Seq<char>
    decreases b.len(),
{
    if b.len() == 0 {
        Seq::empty()
    } else {
        hex_lower(b.drop_last()) + seq![hex_digit(b.last() as int / 16), hex_digit(b.last() as int % 16)]
    }
}

fn hex_char(v: u8) -> (c: char)
    requires
        v < 16,
    ensures
        c == hex_digit(v as int),
{
    if v < 10 {
        (48 + v) as char
    } else {
        (87 + v) as char
    }
}

/// The lowercase hex md5 digest of `data`, as `md5sum` prints it.
pub fn md5_hex(data: &[u8]) -> (r: String)
    ensures
        r@ == hex_lower(md5_digest(data@)),
        md5_digest(data@).len() == 16,
{
    let d = md5_bytes(data);
    let mut out: Vec<char> = Vec::new();
    let mut i: usize = 0;
    while i < d.len()
        invariant
            i <= d@.len(),
            out@ == hex_lower(d@.take(i as int)),
        decreases d@.len() - i,
    {
        proof {
            assert(d@.take(i + 1).drop_last() =~= d@.take(i as int));
        }
        out.push(hex_char(d[i] / 16));
        out.push(hex_char(d[i] % 16));
        i = i + 1;
        proof {
            assert(out@ =~= hex_lower(d@.take(i as int)));
        }
    }
    assert(d@.take(d@.len() as int) =~= d@);
    string_of(&out)
}

/// `md5sum <path>` output line for the given file content.
pub fn md5sum_line(content: &[u8], path: &str) -> (r: String)
    ensures
        r@ == hex_lower(md5_digest(content@)) + "  "@ + path@ + "\n"@,
{
    let h = md5_hex(content);
    let mut out = chars_of(h.as_str());
    push_str(&mut out, "  ");
    push_str(&mut out, path);
    push_str(&mut out, "\n");
    string_of(&out)
}

/// ASCII letters uppercased, everything else kept (`to_ascii_uppercase`).
pub open spec fn ascii_upper(c: char) -> char {
    if 'a' <= c && c <= 'z' {
        ((c as int) - 32) as char
    } else {
        c
    }
}

/// ASCII letters lowercased, everything else kept (`to_ascii_lowercase`).
pub open spec fn ascii_lower(c: char) -> char {
    if 'A' <= c && c <= 'Z' {
        ((c as int) + 32) as char
    } else {
        c
    }
}

fn upper_char(c: char) -> (r: char)
    ensures
        r == ascii_upper(c),
{
    if 'a' <= c && c <= 'z' {
        ((c as u8) - 32) as char
    } else {
        c
    }
}

fn lower_char(c: char) -> (r: char)
    ensures
        r == ascii_lower(c),
{
    if 'A' <= c && c <= 'Z' {
        ((c as u8) + 32) as char
    } else {
        c
    }
}

/// `str::eq_ignore_ascii_case`: equal once ASCII letters are lowercased.
pub open spec fn eq_ignore_ascii_case(a: Seq<char>, b: Seq<char>) -> bool {
    a.len() == b.len() && forall|k: int| 0 <= k < a.len() ==> ascii_lower(a[k]) == ascii_lower(b[k])
}

pub fn eq_ignore_case(a: &[char], b: &str) -> (r: bool)
    ensures
        r == eq_ignore_ascii_case(a@, b@),
{
    let q = chars_of(b);
    if a.len() != q.len() {
        return false;
    }
    let mut i: usize = 0;
    while i < a.len()
        invariant
            i <= a@.len(),
            a@.len() == q@.len(),
            q@ == b@,
            forall|k: int| 0 <= k < i ==> ascii_lower(a@[k]) == ascii_lower(q@[k]),
        decreases a@.len() - i,
    {
        if lower_char(a[i]) != lower_char(q[i]) {
            return false;
        }
        i = i + 1;
    }
    true
}

/// The 8-4-4-4-12 GUID shape of 32 hex digits, uppercased.
pub open spec fn guid_shape(h: Seq<char>) -> Seq<char> {
    let u = h.map_values(|c: char| ascii_upper(c));
    u.subrange(0, 8) + seq!['-'] + u.subrange(8, 12) + seq!['-'] + u.subrange(12, 16) + seq!['-']
        + u.subrange(16, 20) + seq!['-'] + u.subrange(20, 32)
}

/// Uppercase 8-4-4-4-12 GUID from 32 ASCII hex digits.
pub fn format_guid(hex32: &str) -> (r: String)
    requires
        hex32@.len() >= 32,
        forall|k: int| 0 <= k < hex32@.len() ==> (hex32@[k] as u32) < 128,
    ensures
        r@ == guid_shape(hex32@),
{
    let h = chars_of(hex32);
    let ghost u = h@.map_values(|c: char| ascii_upper(c));
    let mut out: Vec<char> = Vec::new();
    let mut i: usize = 0;
    while i < 32
        invariant
            i <= 32,
            h@.len() >= 32,
            u == h@.map_values(|c: char| ascii_upper(c)),
            out@ == (if i <= 8 {
                u.subrange(0, i as int)
            } else if i <= 12 {
                u.subrange(0, 8) + seq!['-'] + u.subrange(8, i as int)
            } else if i <= 16 {
                u.subrange(0, 8) + seq!['-'] + u.subrange(8, 12) + seq!['-'] + u.subrange(12, i as int)
            } else if i <= 20 {
                u.subrange(0, 8) + seq!['-'] + u.subrange(8, 12) + seq!['-'] + u.subrange(12, 16)
                    + seq!['-'] + u.subrange(16, i as int)
            } else {
                u.subrange(0, 8) + seq!['-'] + u.subrange(8, 12) + seq!['-'] + u.subrange(12, 16)
                    + seq!['-'] + u.subrange(16, 20) + seq!['-'] + u.subrange(20, i as int)
            }),
        decreases 32 - i,
    {
        if i == 8 || i == 12 || i == 16 || i == 20 {
            out.push('-');
        }
        out.push(upper_char(h[i]));
        i = i + 1;
        proof {
            assert(u[i - 1] == ascii_upper(h@[i - 1]));
            if i <= 8 {
                assert(out@ =~= u.subrange(0, i as int));
            } else if i <= 12 {
                assert(out@ =~= u.subrange(0, 8) + seq!['-'] + u.subrange(8, i as int));
            } else if i <= 16 {
                assert(out@ =~= u.subrange(0, 8) + seq!['-'] + u.subrange(8, 12) + seq!['-']
                    + u.subrange(12, i as int));
            } else if i <= 20 {
                assert(out@ =~= u.subrange(0, 8) + seq!['-'] + u.subrange(8, 12) + seq!['-']
                    + u.subrange(12, 16) + seq!['-'] + u.subrange(16, i as int));
            } else {
                assert(out@ =~= u.subrange(0, 8) + seq!['-'] + u.subrange(8, 12) + seq!['-']
                    + u.subrange(12, 16) + seq!['-'] + u.subrange(16, 20) + seq!['-']
                    + u.subrange(20, i as int));
            }
        }
    }
    string_of(&out)
}

/// The salted digest input for a serial: `chumby-pi:<serial>`.
pub open spec fn guid_seed(serial: Seq<char>) -> Seq<u8> {
    vstd::utf8::encode_utf8("chumby-pi:"@ + serial)
}

proof fn lemma_hex_lower_ascii(b: Seq<u8>)
    ensures
        hex_lower(b).len() == 2 * b.len(),
        forall|k: int| 0 <= k < hex_lower(b).len() ==> (#[trigger] hex_lower(b)[k] as u32) < 128,
    decreases b.len(),
{
    if b.len() > 0 {
        lemma_hex_lower_ascii(b.drop_last());
        let v = b.last();
        let prev = hex_lower(b.drop_last());
        assert forall|k: int| 0 <= k < hex_lower(b).len() implies (#[trigger] hex_lower(b)[k] as u32)
            < 128 by {
            if k < prev.len() {
                assert(hex_lower(b)[k] == prev[k]);
            }
        }
    }
}

/// `guidgen.sh`: the salted md5 of the machine serial as an uppercase
/// 8-4-4-4-12 GUID; `None` without a serial.
pub fn guid(serial: Option<&str>) -> (r: Option<String>)
    ensures
        serial is None ==> r is None,
        serial matches Some(s) ==> (r matches Some(g) && g@ == guid_shape(
            hex_lower(md5_digest(guid_seed(s@))),
        )),
{
    match serial {
        None => None,
        Some(s) => {
            let mut seed: Vec<char> = Vec::new();
            push_str(&mut seed, "chumby-pi:");
            push_str(&mut seed, s);
            let seed_s = string_of(&seed);
            let bytes = crate::text::utf8_bytes(seed_s.as_str());
            let h = md5_hex(&bytes);
            proof {
                lemma_hex_lower_ascii(md5_digest(bytes@));
            }
            Some(format_guid(h.as_str()))
        },
    }
}

/// A device-tree string: the bytes before the first NUL, each byte one
/// character, trimmed; `None` when nothing is left.
pub open spec fn cstr_text(raw: Seq<u8>) -> Option<Seq<char>> {
    let n = match raw.index_of_first(0u8) {
        Some(i) => i,
        None => raw.len() as int,
    };
    let t = trim(raw.take(n).map_values(|b: u8| b as char));
    if t.len() == 0 {
        None
    } else {
        Some(t)
    }
}

/// Reads a file's content that may be a NUL-terminated device-tree string.
pub fn read_cstr(raw: &[u8]) -> (r: Option<String>)
    ensures
        r matches Some(s) ==> cstr_text(raw@) == Some(s@),
        r is None ==> cstr_text(raw@) is None,
{
    let mut chars: Vec<char> = Vec::new();
    let mut i: usize = 0;
    while i < raw.len() && raw[i] != 0
        invariant
            i <= raw@.len(),
            forall|k: int| 0 <= k < i ==> raw@[k] != 0u8,
            chars@ =~= raw@.take(i as int).map_values(|b: u8| b as char),
        decreases raw@.len() - i,
    {
        chars.push(raw[i] as char);
        i = i + 1;
    }
    proof {
        let n = match raw@.index_of_first(0u8) {
            Some(j) => j,
            None => raw@.len() as int,
        };
        raw@.index_of_first_ensures(0u8);
        if i < raw@.len() {
            assert(raw@[i as int] == 0u8);
            assert(raw@.contains(0u8));
        }
        assert(n == i);
    }
    let t = trim_chars(&chars);
    if t.len() == 0 {
        None
    } else {
        Some(string_of(&t))
    }
}

/// The machine's stable serial: the first source (device-tree serial, then
/// `/etc/machine-id`) whose content reads as a non-empty string.
pub open spec fn serial_spec(sources: Seq<Option<Seq<u8>>>) -> Option<Seq<char>>
    decreases sources.len(),
{
    if sources.len() == 0 {
        None
    } else {
        match sources[0] {
            Some(raw) => match cstr_text(raw) {
                Some(s) => Some(s),
                None => serial_spec(sources.drop_first()),
            },
            None => serial_spec(sources.drop_first()),
        }
    }
}

/// What one serial source reads as: its text, or `None` when it could not
/// be read or holds no text.
pub open spec fn source_text(source: Option<Seq<u8>>) -> Option<Seq<char>> {
    match source {
        Some(raw) => cstr_text(raw),
        None => None,
    }
}

/// The serial is the text of the first source, in order, that reads as
/// text: whatever the sources after it hold.
pub proof fn law_serial_is_first_readable(sources: Seq<Option<Seq<u8>>>, k: int)
    requires
        0 <= k < sources.len(),
        source_text(sources[k]) is Some,
        forall|j: int| 0 <= j < k ==> source_text(#[trigger] sources[j]) is None,
    ensures
        serial_spec(sources) == source_text(sources[k]),
    decreases k,
{
    if k > 0 {
        let rest = sources.drop_first();
        assert forall|j: int| 0 <= j < k - 1 implies source_text(#[trigger] rest[j]) is None by {
            assert(rest[j] == sources[j + 1]);
        }
        assert(source_text(sources[0]) is None);
        law_serial_is_first_readable(rest, k - 1);
        assert(rest[k - 1] == sources[k]);
    }
}

/// There is no serial exactly when no source reads as text.
pub proof fn law_serial_none_when_unreadable(sources: Seq<Option<Seq<u8>>>)
    ensures
        serial_spec(sources) is None <==> forall|k: int|
            0 <= k < sources.len() ==> source_text(#[trigger] sources[k]) is None,
    decreases sources.len(),
{
    if sources.len() > 0 {
        let rest = sources.drop_first();
        law_serial_none_when_unreadable(rest);
        if source_text(sources[0]) is None {
            assert forall|k: int| 0 <= k < rest.len() implies #[trigger] rest[k] == sources[k + 1] by {}
            if serial_spec(sources) is None {
                assert forall|k: int| 0 <= k < sources.len() implies source_text(#[trigger] sources[k]) is None by {
                    if k > 0 {
                        assert(sources[k] == rest[k - 1]);
                    }
                }
            } else {
                let k = choose|k: int| 0 <= k < rest.len() && source_text(#[trigger] rest[k]) is Some;
                assert(sources[k + 1] == rest[k]);
            }
        }
    }
}

/// The machine's stable serial from the contents of its candidate sources,
/// in order (`None` for a source that could not be read).
pub fn serial(sources: &Vec<Option<Vec<u8>>>) -> (r: Option<String>)
    ensures
        r matches Some(s) ==> serial_spec(sources@.map_values(|o: Option<Vec<u8>>| match o {
            Some(v) => Some(v@),
            None => None,
        })) == Some(s@),
        r is None ==> serial_spec(sources@.map_values(|o: Option<Vec<u8>>| match o {
            Some(v) => Some(v@),
            None => None,
        })) is None,
{
    let ghost all = sources@.map_values(|o: Option<Vec<u8>>| match o {
        Some(v) => Some(v@),
        None => None,
    });
    let mut i: usize = 0;
    assert(all.skip(0) =~= all);
    while i < sources.len()
        invariant
            i <= sources@.len(),
            all == sources@.map_values(|o: Option<Vec<u8>>| match o {
                Some(v) => Some(v@),
                None => None,
            }),
            serial_spec(all) == serial_spec(all.skip(i as int)),
        decreases sources@.len() - i,
    {
        proof {
            assert(all.skip(i as int).drop_first() =~= all.skip(i + 1));
            assert(all.skip(i as int)[0] == all[i as int]);
        }
        match &sources[i] {
            Some(raw) => {
                match read_cstr(raw.as_slice()) {
                    Some(s) => {
                        return Some(s);
                    },
                    None => {},
                }
            },
            None => {},
        }
        i = i + 1;
    }
    proof {
        assert(all.skip(i as int) =~= Seq::<Option<Seq<u8>>>::empty());
    }
    None
}

/// Uppercase per Unicode (`str::to_uppercase`).
pub uninterp spec fn uppercase(s: Seq<char>) -> Seq<char>;

/// std's `str::to_uppercase`. Claimed: the result is a function of the text
/// alone, named `uppercase`, and on ASCII text it uppercases the letters
/// `a`..=`z` and keeps every other character, as Unicode's mapping does
/// there; the case tables for other characters are not written out.
#[verifier::external_body]
fn to_uppercase(s: &str) -> (r: String)
    ensures
        r@ == uppercase(s@),
        (forall|k: int| 0 <= k < s@.len() ==> (#[trigger] s@[k] as u32) < 128) ==> r@
            == s@.map_values(|c: char| ascii_upper(c)),
{
    s.to_uppercase()
}

/// The tag made from the words of a Raspberry Pi model name after
/// "Raspberry Pi": each word uppercased, `Model` skipped, stopping at `Rev`.
pub open spec fn acronym_words(ws: Seq<Seq<char>>) -> Seq<char>
    decreases ws.len(),
{
    if ws.len() == 0 {
        Seq::empty()
    } else if eq_ignore_ascii_case(ws[0], "Model"@) {
        acronym_words(ws.drop_first())
    } else if eq_ignore_ascii_case(ws[0], "Rev"@) {
        Seq::empty()
    } else {
        uppercase(ws[0]) + acronym_words(ws.drop_first())
    }
}

pub open spec fn acronym_spec(model: Seq<char>) -> Option<Seq<char>> {
    if has_prefix(model, "Raspberry Pi"@) {
        Some("RPI"@ + acronym_words(words(model.skip(12))))
    } else {
        None
    }
}

/// Short model tag: "RPI3B" for "Raspberry Pi 3 Model B Rev 1.2"; `None`
/// for a model that is not a Raspberry Pi.
pub fn acronym_from(model: &str) -> (r: Option<String>)
    ensures
        r matches Some(t) ==> acronym_spec(model@) == Some(t@),
        r is None ==> acronym_spec(model@) is None,
{
    let m = chars_of(model);
    proof {
        reveal_strlit("Raspberry Pi");
    }
    let rest = match strip_prefix(&m, "Raspberry Pi") {
        Some(r) => r,
        None => return None,
    };
    let ws = words_of(&rest);
    let ghost wv = views(ws@);
    let mut tag: Vec<char> = Vec::new();
    push_str(&mut tag, "RPI");
    let mut i: usize = 0;
    let mut stop = false;
    assert(wv.skip(0) =~= wv);
    while i < ws.len() && !stop
        invariant
            i <= ws@.len(),
            wv == views(ws@),
            wv == words(model@.skip(12)),
            tag@ + acronym_words(wv.skip(i as int)) == "RPI"@ + acronym_words(wv),
            stop ==> acronym_words(wv.skip(i as int)) == Seq::<char>::empty(),
        decreases ws@.len() - i, if stop { 0int } else { 1int },
    {
        let ghost t = wv.skip(i as int);
        proof {
            assert(t[0] == ws@[i as int]@);
            assert(t.drop_first() =~= wv.skip(i + 1));
        }
        if eq_ignore_case(&ws[i], "Model") {
            i = i + 1;
        } else if eq_ignore_case(&ws[i], "Rev") {
            stop = true;
        } else {
            let word = string_of(&ws[i]);
            let up = to_uppercase(word.as_str());
            let ghost before = tag@;
            push_str(&mut tag, up.as_str());
            proof {
                assert(tag@ + acronym_words(wv.skip(i + 1)) =~= before + acronym_words(t));
            }
            i = i + 1;
        }
    }
    proof {
        if !stop {
            assert(wv.skip(i as int) =~= Seq::<Seq<char>>::empty());
        }
        assert(tag@ =~= tag@ + acronym_words(wv.skip(i as int)));
    }
    Some(string_of(&tag))
}

/// `s` without its leading `0`s.
pub open spec fn strip_zeros(s: Seq<char>) -> Seq<char>
    decreases s.len(),
{
    if s.len() > 0 && s[0] == '0' {
        strip_zeros(s.drop_first())
    } else {
        s
    }
}

/// The model tag: the acronym of a Raspberry Pi model, `PC` otherwise.
pub open spec fn model_tag(model: Option<Seq<char>>) -> Seq<char> {
    match model {
        Some(m) => match acronym_spec(m) {
            Some(t) => t,
            None => "PC"@,
        },
        None => "PC"@,
    }
}

/// `chumby_version -n` (the Info screen's `HW#:` line): model tag, `-`, and
/// the serial uppercased with its leading zeros stripped; `None` without a
/// serial or when nothing but zeros is left.
pub fn hw_serial(serial: Option<&str>, model: Option<&str>) -> (r: Option<String>)
    ensures
        serial is None ==> r is None,
        serial matches Some(s) ==> {
            let z = strip_zeros(uppercase(s@));
            &&& z.len() == 0 ==> r is None
            &&& z.len() > 0 ==> (r matches Some(h) && h@ == model_tag(match model {
                Some(m) => Some(m@),
                None => None,
            }) + "-"@ + z)
        },
{
    let s = match serial {
        Some(s) => s,
        None => return None,
    };
    let up = to_uppercase(s);
    let u = chars_of(up.as_str());
    let mut i: usize = 0;
    assert(u@.skip(0) =~= u@);
    while i < u.len() && u[i] == '0'
        invariant
            i <= u@.len(),
            strip_zeros(u@) == strip_zeros(u@.skip(i as int)),
        decreases u@.len() - i,
    {
        proof {
            assert(u@.skip(i as int).drop_first() =~= u@.skip(i + 1));
        }
        i = i + 1;
    }
    let z = slice_of(&u, i, u.len());
    proof {
        assert(z@ =~= u@.skip(i as int));
        if i < u@.len() {
            assert(z@[0] != '0');
        }
        assert(strip_zeros(z@) == z@);
    }
    if z.len() == 0 {
        return None;
    }
    let tag: String = match model {
        Some(m) => match acronym_from(m) {
            Some(t) => t,
            None => String::from_str("PC"),
        },
        None => String::from_str("PC"),
    };
    let mut out = chars_of(tag.as_str());
    push_str(&mut out, "-");
    push_all(&mut out, &z);
    Some(string_of(&out))
}


/// A GUID is 36 characters, 8-4-4-4-12: dashes at 8, 13, 18 and 23, and
/// between them the 32 digits in order, uppercased.
pub proof fn law_guid_layout(h: Seq<char>)
    requires
        h.len() == 32,
    ensures
        guid_shape(h).len() == 36,
        guid_shape(h)[8] == '-' && guid_shape(h)[13] == '-' && guid_shape(h)[18] == '-'
            && guid_shape(h)[23] == '-',
        forall|k: int| 0 <= k < 8 ==> #[trigger] guid_shape(h)[k] == ascii_upper(h[k]),
        forall|k: int| 8 <= k < 12 ==> #[trigger] guid_shape(h)[k + 1] == ascii_upper(h[k]),
        forall|k: int| 12 <= k < 16 ==> #[trigger] guid_shape(h)[k + 2] == ascii_upper(h[k]),
        forall|k: int| 16 <= k < 20 ==> #[trigger] guid_shape(h)[k + 3] == ascii_upper(h[k]),
        forall|k: int| 20 <= k < 32 ==> #[trigger] guid_shape(h)[k + 4] == ascii_upper(h[k]),
{
}

} // verus!
