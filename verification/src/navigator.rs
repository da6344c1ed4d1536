//! The player's URL extensions: `exec://<command>` (a raw shell command
//! whose output becomes the document), local device paths answered from the
//! virtual rootfs, and the widget-cache download the panel shells out.

use vstd::prelude::*;
use crate::text::{
    char_pos, char_position, chars_of, find_str, has_prefix, lossy_string, push_str, slice_of,
    split_char, split_chars, str_pos, string_of, strip_prefix, trim, trim_chars, utf8_bytes,
    utf8_lossy, views,
};

verus! {

/// A decorator around the desktop navigator that answers the chumby URL
/// extensions before requests reach the real backend.
pub struct ChumbyNavigator<T> {
    pub inner: T,
}

impl<T> ChumbyNavigator<T> {
    pub fn new(inner: T) -> (r: Self)
        ensures
            r.inner == inner,
    {
        ChumbyNavigator { inner }
    }
}

pub open spec fn local_path_spec(url: Seq<char>) -> Option<Seq<char>> {
    if has_prefix(url, "file://"@) {
        Some(url.skip(7))
    } else if has_prefix(url, "sys://"@) {
        Some(url.skip(6))
    } else if url.len() > 0 && url[0] == '/' {
        Some(url)
    } else {
        None
    }
}

/// The rootfs path a URL names, or `None` if it names no local file:
/// `file://` and `sys://` URLs, and scheme-less absolute paths.
pub fn local_path(url: &str) -> (r: Option<String>)
    ensures
        r matches Some(p) ==> local_path_spec(url@) == Some(p@),
        r is None ==> local_path_spec(url@) is None,
{
    let u = chars_of(url);
    proof {
        reveal_strlit("file://");
        reveal_strlit("sys://");
    }
    if let Some(p) = strip_prefix(&u, "file://") {
        return Some(string_of(&p));
    }
    if let Some(p) = strip_prefix(&u, "sys://") {
        return Some(string_of(&p));
    }
    if u.len() > 0 && u[0] == '/' {
        return Some(string_of(&u));
    }
    None
}

/// The value of an ASCII hex digit byte.
pub open spec fn hex_byte_value(c: u8) -> Option<u8> {
    if 48 <= c && c <= 57 {
        Some((c - 48) as u8)
    } else if 97 <= c && c <= 102 {
        Some((c - 87) as u8)
    } else if 65 <= c && c <= 70 {
        Some((c - 55) as u8)
    } else {
        None
    }
}

/// `%XX` escapes turned into bytes, every other byte kept.
pub open spec fn percent_decode_bytes(b: Seq<u8>) -> Seq<u8>
    decreases b.len(),
{
    if b.len() == 0 {
        Seq::empty()
    } else if b.len() >= 3 && b[0] == 37 && hex_byte_value(b[1]) is Some && hex_byte_value(b[2]) is Some {
        seq![(hex_byte_value(b[1]).unwrap() * 16 + hex_byte_value(b[2]).unwrap()) as u8]
            + percent_decode_bytes(b.skip(3))
    } else {
        seq![b[0]] + percent_decode_bytes(b.drop_first())
    }
}

fn hex_byte(c: u8) -> (r: Option<u8>)
    ensures
        r == hex_byte_value(c),
{
    if 48 <= c && c <= 57 {
        Some(c - 48)
    } else if 97 <= c && c <= 102 {
        Some(c - 87)
    } else if 65 <= c && c <= 70 {
        Some(c - 55)
    } else {
        None
    }
}

/// `%XX` escapes to bytes, anything else untouched (AS2 `escape` output),
/// read back as UTF-8 (invalid sequences replaced).
pub fn percent_decode(s: &str) -> (r: String)
    ensures
        r@ == utf8_lossy(percent_decode_bytes(vstd::utf8::encode_utf8(s@))),
        vstd::utf8::valid_utf8(percent_decode_bytes(vstd::utf8::encode_utf8(s@))) ==> r@
            == vstd::utf8::decode_utf8(percent_decode_bytes(vstd::utf8::encode_utf8(s@))),
{
    let b = utf8_bytes(s);
    let ghost bs = b@;
    let mut out: Vec<u8> = Vec::new();
    let mut i: usize = 0;
    assert(bs.skip(0) =~= bs);
    assert(out@ + percent_decode_bytes(bs.skip(0)) =~= percent_decode_bytes(bs));
    while i < b.len()
        invariant
            i <= b@.len(),
            bs == b@,
            out@ + percent_decode_bytes(bs.skip(i as int)) == percent_decode_bytes(bs),
        decreases b@.len() - i,
    {
        let ghost rest = bs.skip(i as int);
        let ghost before = out@;
        let mut decoded: Option<u8> = None;
        if b[i] == 37u8 && b.len() - i >= 3 {
            match (hex_byte(b[i + 1]), hex_byte(b[i + 2])) {
                (Some(h), Some(l)) => {
                    decoded = Some(h * 16 + l);
                },
                _ => {},
            }
        }
        proof {
            assert(rest[0] == bs[i as int]);
            if b@.len() - i >= 3 {
                assert(rest[1] == bs[i + 1]);
                assert(rest[2] == bs[i + 2]);
            }
        }
        match decoded {
            Some(v) => {
                out.push(v);
                proof {
                    assert(rest.skip(3) =~= bs.skip(i + 3));
                    assert(out@ + percent_decode_bytes(bs.skip(i + 3)) =~= before
                        + percent_decode_bytes(rest));
                }
                i = i + 3;
            },
            None => {
                out.push(b[i]);
                proof {
                    assert(rest.drop_first() =~= bs.skip(i + 1));
                    assert(out@ + percent_decode_bytes(bs.skip(i + 1)) =~= before
                        + percent_decode_bytes(rest));
                }
                i = i + 1;
            },
        }
    }
    proof {
        assert(bs.skip(b@.len() as int) =~= Seq::<u8>::empty());
        assert(out@ =~= out@ + percent_decode_bytes(bs.skip(i as int)));
    }
    lossy_string(&out)
}

/// The widget-cache download command `exec://[nice -n N ]curl '<url>' >
/// <dest>[; echo $?]`, as (url, destination): the first quoted string after
/// the first `curl `, and the trimmed text between the first `>` and the
/// next `;`, which must name a `widgetcache` path.
pub open spec fn widget_curl_spec(url: Seq<char>) -> Option<(Seq<char>, Seq<char>)> {
    if !has_prefix(url, "exec://"@) {
        None
    } else {
        let cmd = url.skip(7);
        match str_pos(cmd, "curl "@) {
            None => None,
            Some(c) => {
                let after = cmd.skip(c + 5);
                match char_pos(after, '\'') {
                    None => None,
                    Some(q) => {
                        let q1 = q + 1;
                        match char_pos(after.skip(q1), '\'') {
                            None => None,
                            Some(q2r) => {
                                let fetch = after.subrange(q1, q1 + q2r);
                                match char_pos(cmd, '>') {
                                    None => None,
                                    Some(g) => {
                                        let dest = trim(split_char(cmd.skip(g + 1), ';')[0]);
                                        if dest.len() == 0 || str_pos(dest, "widgetcache"@) is None {
                                            None
                                        } else {
                                            Some((fetch, dest))
                                        }
                                    },
                                }
                            },
                        }
                    },
                }
            },
        }
    }
}

/// Parses the panel's widget-cache download command out of an `exec://`
/// URL: the SWF URL and the cache destination path, or `None` if this is
/// not that command.
pub fn parse_widget_curl(url: &str) -> (r: Option<(String, String)>)
    ensures
        r matches Some((f, d)) ==> widget_curl_spec(url@) == Some((f@, d@)),
        r is None ==> widget_curl_spec(url@) is None,
{
    let u = chars_of(url);
    proof {
        reveal_strlit("exec://");
        reveal_strlit("curl ");
    }
    let cmd = match strip_prefix(&u, "exec://") {
        Some(c) => c,
        None => return None,
    };
    let c = match find_str(&cmd, "curl ") {
        Some(c) => c,
        None => return None,
    };
    let after = slice_of(&cmd, c + 5, cmd.len());
    assert(after@ =~= cmd@.skip(c + 5));
    let q = match char_position(&after, '\'') {
        Some(q) => q,
        None => return None,
    };
    let q1 = q + 1;
    let tail = slice_of(&after, q1, after.len());
    assert(tail@ =~= after@.skip(q1 as int));
    let q2r = match char_position(&tail, '\'') {
        Some(k) => k,
        None => return None,
    };
    let fetch = slice_of(&after, q1, q1 + q2r);
    let g = match char_position(&cmd, '>') {
        Some(g) => g,
        None => return None,
    };
    let dest_part = slice_of(&cmd, g + 1, cmd.len());
    assert(dest_part@ =~= cmd@.skip(g + 1));
    let pieces = split_chars(&dest_part, ';');
    let dest = trim_chars(&pieces[0]);
    proof {
        assert(views(pieces@)[0] == pieces@[0]@);
    }
    if dest.len() == 0 {
        return None;
    }
    match find_str(&dest, "widgetcache") {
        None => None,
        Some(_) => Some((string_of(&fetch), string_of(&dest))),
    }
}

/// The host of an http(s) URL (or of a bare `host/...`): up to the first
/// `/` or `:`.
pub open spec fn url_host(url: Seq<char>) -> Seq<char> {
    let rest = if has_prefix(url, "http://"@) {
        url.skip(7)
    } else if has_prefix(url, "https://"@) {
        url.skip(8)
    } else {
        url
    };
    let a = split_char(rest, '/')[0];
    split_char(a, ':')[0]
}

/// True for the chumby hosts that carry the using surface; the widget SWF
/// download must target one.
pub fn is_using_url_host(url: &str) -> (b: bool)
    ensures
        b == (url_host(url@) == "xml.chumby.com"@ || url_host(url@) == "widgets.chumby.com"@),
{
    let u = chars_of(url);
    proof {
        reveal_strlit("http://");
        reveal_strlit("https://");
    }
    let rest = match strip_prefix(&u, "http://") {
        Some(r) => r,
        None => match strip_prefix(&u, "https://") {
            Some(r) => r,
            None => u,
        },
    };
    let a = split_chars(&rest, '/');
    let first = slice_of(&a[0], 0, a[0].len());
    proof {
        assert(views(a@)[0] == a@[0]@);
        assert(first@ =~= a@[0]@);
    }
    let h = split_chars(&first, ':');
    proof {
        assert(views(h@)[0] == h@[0]@);
    }
    crate::text::eq_str(&h[0], "xml.chumby.com") || crate::text::eq_str(&h[0], "widgets.chumby.com")
}

/// How an intercepted request is answered.
#[derive(Debug, PartialEq, Eq)]
pub enum Interception {
    /// `exec://`: run the (percent-decoded) command.
    Exec { command: String },
    /// A local device path, keyed without its query string: the rootfs.
    Local { path: String },
    /// Anything else: the host's fixture corpus decides.
    Fetch,
}

/// How `url` is intercepted: `exec://` runs its percent-decoded command,
/// local paths go to the rootfs without their query string, everything else
/// to the host's fetch.
pub fn intercept(url: &str) -> (r: Interception)
    ensures
        has_prefix(url@, "exec://"@) ==> (r matches Interception::Exec { command } && command@
            == utf8_lossy(percent_decode_bytes(vstd::utf8::encode_utf8(url@.skip(7))))),
        !has_prefix(url@, "exec://"@) && local_path_spec(url@) is Some ==> (
        r matches Interception::Local { path } && path@ == split_char(
            local_path_spec(url@).unwrap(),
            '?',
        )[0]),
        !has_prefix(url@, "exec://"@) && local_path_spec(url@) is None ==> r == Interception::Fetch,
{
    let u = chars_of(url);
    proof {
        reveal_strlit("exec://");
    }
    if let Some(cmd) = strip_prefix(&u, "exec://") {
        let cs = string_of(&cmd);
        return Interception::Exec { command: percent_decode(cs.as_str()) };
    }
    match local_path(url) {
        Some(p) => {
            let pc = chars_of(p.as_str());
            let pieces = split_chars(&pc, '?');
            proof {
                assert(views(pieces@)[0] == pieces@[0]@);
            }
            Interception::Local { path: string_of(&pieces[0]) }
        },
        None => Interception::Fetch,
    }
}

/// The URL an in-memory answer reports: a scheme-less path gains `file://`
/// so the player can parse the widget parameters off its query string.
pub fn response_url(url: &str) -> (r: String)
    ensures
        url@.len() > 0 && url@[0] == '/' ==> r@ == "file://"@ + url@,
        !(url@.len() > 0 && url@[0] == '/') ==> r@ == url@,
{
    let u = chars_of(url);
    if u.len() > 0 && u[0] == '/' {
        let mut out: Vec<char> = Vec::new();
        push_str(&mut out, "file://");
        crate::text::push_all(&mut out, &u);
        string_of(&out)
    } else {
        string_of(&u)
    }
}

/// The widget-cache download runs only with chumby.com access, a stable
/// identity, and a using host as its target.
pub fn widget_download_allowed(access_chumby_com: bool, wire_identity: bool, fetch_url: &str) -> (b:
    bool)
    ensures
        b == (access_chumby_com && wire_identity && (url_host(fetch_url@) == "xml.chumby.com"@
            || url_host(fetch_url@) == "widgets.chumby.com"@)),
{
    access_chumby_com && wire_identity && is_using_url_host(fetch_url)
}

} // verus!
