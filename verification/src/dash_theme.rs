//! The Dash's theme catalog, and the file commands its picker issues.
//!
//! The picker loads `dash/<release>/themes/themes.xml`; here the catalog is
//! derived from the themes directory of the virtual rootfs, so a theme
//! dropped there is offered without any server. Picking one runs
//! `download_theme <url> <md5>`, then a `cp … ; rm … ; sync; echo $?` line
//! (or `rm …` on failure or update). Those shapes are interpreted on the
//! rootfs here, and only `file://` themes are "downloaded".

use vstd::prelude::*;
use crate::host::{ChumbyFs, DirEntry, DirEntryResult};
use crate::real_ident::{eq_ignore_ascii_case, eq_ignore_case, hex_lower, md5_digest, md5_hex};
use crate::text::{
    chars_of, ends_with, eq_str, has_prefix, has_suffix, lex_sorted, push_all, push_str,
    remove_char, replace_char, replace_chars, slice_of, sort_lex, split_char, split_chars,
    starts_with, string_of, strip_prefix, trim, trim_char, trim_chars, trim_matches, utf8_bytes,
    views, without_char, words, words_of,
};
use crate::xml::{decimal, escape, escape_char, push_digits, push_escaped};

verus! {

/// Where local themes live.
pub open spec fn themes_dir() -> Seq<char> {
    "/psp/themes"@
}

/// `dash/<release>/themes/themes.xml`, slashes at either end ignored.
pub open spec fn catalog_path(path: Seq<char>) -> bool {
    let parts = split_char(trim_char(path, '/'), '/');
    &&& parts.len() == 4
    &&& parts[0] == "dash"@
    &&& parts[2] == "themes"@
    &&& parts[3] == "themes.xml"@
}

/// Whether a files.chumby.com path is the theme catalog.
pub fn is_catalog_path(path: &str) -> (b: bool)
    ensures
        b == catalog_path(path@),
{
    let s = chars_of(path);
    let t = trim_matches(&s, '/');
    let parts = split_chars(&t, '/');
    proof {
        reveal_strlit("dash");
        reveal_strlit("themes");
        reveal_strlit("themes.xml");
    }
    if parts.len() != 4 {
        return false;
    }
    assert(views(parts@)[0] == parts@[0]@ && views(parts@)[2] == parts@[2]@);
    assert(views(parts@)[3] == parts@[3]@);
    eq_str(&parts[0], "dash") && eq_str(&parts[2], "themes") && eq_str(&parts[3], "themes.xml")
}

/// A theme file as the catalog lists it: the `.swf` file name, the
/// thumbnail URL (empty when there is none) and the md5 of its content
/// (empty when it could not be read).
pub struct ThemeFile {
    pub name: String,
    pub thumb: String,
    pub md5: String,
}

pub open spec fn theme_views(v: Seq<ThemeFile>) -> Seq<(Seq<char>, Seq<char>, Seq<char>)> {
    v.map_values(|f: ThemeFile| (f.name@, f.thumb@, f.md5@))
}

/// A theme's name without its `.swf`.
pub open spec fn swf_stem(name: Seq<char>) -> Seq<char> {
    name.take(name.len() - 4)
}

/// Where a theme file lives.
pub open spec fn theme_path(name: Seq<char>) -> Seq<char> {
    themes_dir() + "/"@ + name
}

/// Where a thumbnail of the theme with stem `stem` would be.
pub open spec fn thumb_path(stem: Seq<char>, ext: Seq<char>) -> Seq<char> {
    themes_dir() + "/"@ + stem + ext
}

/// The thumbnail beside a theme: its `.jpg` when there is one, else its
/// `.png`, else none.
pub open spec fn thumb_url(stem: Seq<char>, jpg: bool, png: bool) -> Seq<char> {
    if jpg {
        "file:///"@ + thumb_path(stem, ".jpg"@)
    } else if png {
        "file:///"@ + thumb_path(stem, ".png"@)
    } else {
        Seq::empty()
    }
}

/// The md5 the catalog states for a theme whose content read as `body`.
pub open spec fn md5_field(body: Option<Seq<u8>>) -> Seq<char> {
    match body {
        Some(b) => hex_lower(md5_digest(b)),
        None => Seq::empty(),
    }
}

/// One `<theme>` element; underscores in the name read as spaces.
pub open spec fn theme_xml(id: int, name: Seq<char>, thumb: Seq<char>, md5: Seq<char>) -> Seq<char> {
    "<theme id=\""@ + decimal(id) + "\" version=\"1\"><name>"@ + escape(
        replace_char(swf_stem(name), '_', ' '),
        false,
    ) + "</name><description>local theme</description><author>local</author><thumbnailURL>"@
        + escape(thumb, false) + "</thumbnailURL><url>file:///"@ + escape(theme_path(name), false)
        + "</url><md5>"@ + md5 + "</md5><layouts/></theme>"@
}

/// The `<theme>` elements of a listing, numbered from 1.
pub open spec fn themes_xml(files: Seq<(Seq<char>, Seq<char>, Seq<char>)>) -> Seq<char>
    decreases files.len(),
{
    if files.len() == 0 {
        Seq::empty()
    } else {
        themes_xml(files.drop_last()) + theme_xml(
            files.len() as int,
            files.last().0,
            files.last().1,
            files.last().2,
        )
    }
}

/// The catalog document for a listing.
pub open spec fn catalog_text(files: Seq<(Seq<char>, Seq<char>, Seq<char>)>) -> Seq<char> {
    "<themes>"@ + themes_xml(files) + "</themes>\n"@
}

fn push_theme(out: &mut Vec<char>, id: usize, f: &ThemeFile)
    requires
        has_suffix(f.name@, ".swf"@),
    ensures
        final(out)@ == old(out)@ + theme_xml(id as int, f.name@, f.thumb@, f.md5@),
{
    proof {
        reveal_strlit(".swf");
    }
    let name = chars_of(f.name.as_str());
    let stem = slice_of(&name, 0, name.len() - 4);
    assert(stem@ == swf_stem(f.name@));
    let shown = replace_chars(&stem, '_', ' ');
    let thumb = chars_of(f.thumb.as_str());
    let mut path: Vec<char> = Vec::new();
    push_str(&mut path, "/psp/themes/");
    push_all(&mut path, &name);
    proof {
        reveal_strlit("/psp/themes/");
        reveal_strlit("/psp/themes");
        reveal_strlit("/");
        assert(path@ =~= theme_path(f.name@));
    }
    let md5 = chars_of(f.md5.as_str());
    push_str(out, "<theme id=\"");
    push_digits(out, id as u128);
    push_str(out, "\" version=\"1\"><name>");
    push_escaped(out, &shown, false);
    push_str(
        out,
        "</name><description>local theme</description><author>local</author><thumbnailURL>",
    );
    push_escaped(out, &thumb, false);
    push_str(out, "</thumbnailURL><url>file:///");
    push_escaped(out, &path, false);
    push_str(out, "</url><md5>");
    push_all(out, &md5);
    push_str(out, "</md5><layouts/></theme>");
    proof {
        assert(final(out)@ =~= old(out)@ + theme_xml(id as int, f.name@, f.thumb@, f.md5@));
    }
}

/// The catalog document listing `files` in order, numbered from 1.
pub fn catalog_document(files: &Vec<ThemeFile>) -> (r: String)
    requires
        forall|i: int| 0 <= i < files@.len() ==> has_suffix(#[trigger] files@[i].name@, ".swf"@),
    ensures
        r@ == catalog_text(theme_views(files@)),
{
    let mut out: Vec<char> = Vec::new();
    push_str(&mut out, "<themes>");
    let mut i: usize = 0;
    assert(theme_views(files@).take(0) =~= Seq::<(Seq<char>, Seq<char>, Seq<char>)>::empty());
    while i < files.len()
        invariant
            i <= files@.len(),
            forall|k: int| 0 <= k < files@.len() ==> has_suffix(#[trigger] files@[k].name@, ".swf"@),
            out@ == "<themes>"@ + themes_xml(theme_views(files@).take(i as int)),
        decreases files@.len() - i,
    {
        push_theme(&mut out, i + 1, &files[i]);
        proof {
            let v = theme_views(files@).take(i + 1);
            assert(v.drop_last() =~= theme_views(files@).take(i as int));
            assert(v.last() == (files@[i as int].name@, files@[i as int].thumb@, files@[i as int].md5@));
            assert(out@ =~= "<themes>"@ + themes_xml(v));
        }
        i = i + 1;
    }
    push_str(&mut out, "</themes>\n");
    assert(theme_views(files@).take(files@.len() as int) =~= theme_views(files@));
    string_of(&out)
}


/// The `.swf` files among the entries of a directory listing, in listing
/// order.
pub open spec fn swf_files(entries: Seq<DirEntry>) -> Seq<Seq<char>>
    decreases entries.len(),
{
    if entries.len() == 0 {
        Seq::empty()
    } else {
        let e = entries.last();
        let init = swf_files(entries.drop_last());
        if e.is_file && has_suffix(e.name@, ".swf"@) {
            init.push(e.name@)
        } else {
            init
        }
    }
}

/// `names` are the `.swf` files of the listing, sorted by name.
pub open spec fn theme_listing(entries: Seq<DirEntry>, names: Seq<Seq<char>>) -> bool {
    &&& lex_sorted(names)
    &&& names.to_multiset() == swf_files(entries).to_multiset()
}

pub open spec fn name_views(v: Seq<String>) -> Seq<Seq<char>> {
    v.map_values(|s: String| s@)
}

pub open spec fn body_views(v: Seq<Option<Vec<u8>>>) -> Seq<Option<Seq<u8>>> {
    v.map_values(
        |b: Option<Vec<u8>>|
            match b {
                Some(x) => Some(x@),
                None => None,
            },
    )
}

/// The themes of a directory listing: its `.swf` files, sorted by name.
pub fn theme_names(entries: &Vec<DirEntry>) -> (r: Vec<String>)
    ensures
        theme_listing(entries@, name_views(r@)),
{
    proof {
        reveal_strlit(".swf");
    }
    let mut names: Vec<Vec<char>> = Vec::new();
    let mut i: usize = 0;
    assert(entries@.take(0) =~= Seq::<DirEntry>::empty());
    assert(views(names@) =~= Seq::<Seq<char>>::empty());
    while i < entries.len()
        invariant
            i <= entries@.len(),
            views(names@) == swf_files(entries@.take(i as int)),
        decreases entries@.len() - i,
    {
        let e = &entries[i];
        let n = chars_of(e.name.as_str());
        proof {
            assert(entries@.take(i + 1).drop_last() =~= entries@.take(i as int));
            assert(entries@.take(i + 1).last() == entries@[i as int]);
        }
        if e.is_file && ends_with(&n, ".swf") {
            let ghost before = views(names@);
            names.push(n);
            assert(views(names@) =~= before.push(e.name@));
        }
        i = i + 1;
    }
    assert(entries@.take(entries@.len() as int) =~= entries@);
    let sorted = sort_lex(names);
    let mut out: Vec<String> = Vec::new();
    let mut k: usize = 0;
    while k < sorted.len()
        invariant
            k <= sorted@.len(),
            name_views(out@) == views(sorted@).take(k as int),
        decreases sorted@.len() - k,
    {
        assert(views(sorted@)[k as int] == sorted@[k as int]@);
        let ghost before = name_views(out@);
        let item = string_of(&sorted[k]);
        out.push(item);
        assert(name_views(out@) =~= before.push(item@));
        assert(views(sorted@).take(k + 1) =~= views(sorted@).take(k as int).push(sorted@[k as int]@));
        k = k + 1;
    }
    assert(views(sorted@).take(sorted@.len() as int) =~= views(sorted@));
    out
}

/// The rootfs path of the file `name` in the themes directory.
pub fn theme_file_path(name: &str) -> (r: String)
    ensures
        r@ == theme_path(name@),
{
    let mut path: Vec<char> = Vec::new();
    push_str(&mut path, "/psp/themes/");
    push_str(&mut path, name);
    proof {
        reveal_strlit("/psp/themes/");
        reveal_strlit("/psp/themes");
        reveal_strlit("/");
        assert(path@ =~= theme_path(name@));
    }
    string_of(&path)
}

/// The rootfs paths of the `.jpg` and the `.png` thumbnail of theme `name`.
pub fn thumb_paths(name: &str) -> (r: (String, String))
    requires
        has_suffix(name@, ".swf"@),
    ensures
        r.0@ == thumb_path(swf_stem(name@), ".jpg"@),
        r.1@ == thumb_path(swf_stem(name@), ".png"@),
{
    proof {
        reveal_strlit(".swf");
        reveal_strlit("/psp/themes/");
        reveal_strlit("/psp/themes");
        reveal_strlit("/");
    }
    let n = chars_of(name);
    let stem = slice_of(&n, 0, n.len() - 4);
    let mut jpg: Vec<char> = Vec::new();
    push_str(&mut jpg, "/psp/themes/");
    push_all(&mut jpg, &stem);
    push_str(&mut jpg, ".jpg");
    let mut png: Vec<char> = Vec::new();
    push_str(&mut png, "/psp/themes/");
    push_all(&mut png, &stem);
    push_str(&mut png, ".png");
    assert(jpg@ =~= thumb_path(swf_stem(name@), ".jpg"@));
    assert(png@ =~= thumb_path(swf_stem(name@), ".png"@));
    (string_of(&jpg), string_of(&png))
}

/// The catalog rows for themes `names`, given what reading each theme gave
/// (`bodies`) and whether its `.jpg` and its `.png` thumbnail exist.
pub open spec fn theme_rows(
    names: Seq<Seq<char>>,
    bodies: Seq<Option<Seq<u8>>>,
    jpg: Seq<bool>,
    png: Seq<bool>,
) -> Seq<(Seq<char>, Seq<char>, Seq<char>)> {
    Seq::new(
        names.len(),
        |i: int| (names[i], thumb_url(swf_stem(names[i]), jpg[i], png[i]), md5_field(bodies[i])),
    )
}

fn thumb_link(stem: &Vec<char>, jpg: bool, png: bool) -> (r: String)
    ensures
        r@ == thumb_url(stem@, jpg, png),
{
    proof {
        reveal_strlit("/psp/themes/");
        reveal_strlit("/psp/themes");
        reveal_strlit("/");
        reveal_strlit("file:///");
    }
    let mut out: Vec<char> = Vec::new();
    if jpg || png {
        push_str(&mut out, "file:///");
        push_str(&mut out, "/psp/themes/");
        push_all(&mut out, stem);
        if jpg {
            push_str(&mut out, ".jpg");
        } else {
            push_str(&mut out, ".png");
        }
    }
    assert(out@ =~= thumb_url(stem@, jpg, png));
    string_of(&out)
}

/// The catalog for themes `names` (in that order), given what reading each
/// gave and whether its `.jpg` and its `.png` thumbnail exist.
pub fn theme_catalog(
    names: &Vec<String>,
    bodies: &Vec<Option<Vec<u8>>>,
    jpg: &Vec<bool>,
    png: &Vec<bool>,
) -> (r: String)
    requires
        bodies@.len() == names@.len(),
        jpg@.len() == names@.len(),
        png@.len() == names@.len(),
        forall|i: int| 0 <= i < names@.len() ==> has_suffix(#[trigger] names@[i]@, ".swf"@),
    ensures
        r@ == catalog_text(theme_rows(name_views(names@), body_views(bodies@), jpg@, png@)),
{
    proof {
        reveal_strlit(".swf");
    }
    let ghost rows = theme_rows(name_views(names@), body_views(bodies@), jpg@, png@);
    let mut files: Vec<ThemeFile> = Vec::new();
    let mut i: usize = 0;
    while i < names.len()
        invariant
            i <= names@.len(),
            bodies@.len() == names@.len(),
            jpg@.len() == names@.len(),
            png@.len() == names@.len(),
            rows == theme_rows(name_views(names@), body_views(bodies@), jpg@, png@),
            forall|k: int| 0 <= k < names@.len() ==> has_suffix(#[trigger] names@[k]@, ".swf"@),
            forall|k: int| 0 <= k < files@.len() ==> has_suffix(#[trigger] files@[k].name@, ".swf"@),
            theme_views(files@) == rows.take(i as int),
        decreases names@.len() - i,
    {
        proof {
            reveal_strlit(".swf");
        }
        let n = chars_of(names[i].as_str());
        assert(has_suffix(n@, ".swf"@));
        let stem = slice_of(&n, 0, n.len() - 4);
        assert(stem@ == swf_stem(n@));
        let md5 = match &bodies[i] {
            Some(b) => md5_hex(b.as_slice()),
            None => String::new(),
        };
        assert(md5@ == md5_field(body_views(bodies@)[i as int]));
        assert(name_views(names@)[i as int] == names@[i as int]@);
        let thumb = thumb_link(&stem, jpg[i], png[i]);
        let ghost before = theme_views(files@);
        let f = ThemeFile { name: string_of(&n), thumb, md5 };
        files.push(f);
        proof {
            assert(theme_views(files@) =~= before.push((f.name@, f.thumb@, f.md5@)));
            assert(rows[i as int] == (f.name@, f.thumb@, f.md5@));
            assert(rows.take(i + 1) =~= rows.take(i as int).push(rows[i as int]));
            assert(body_views(bodies@)[i as int] == match bodies@[i as int] {
                Some(x) => Some(x@),
                None => None::<Seq<u8>>,
            });
            assert(theme_views(files@) =~= rows.take(i + 1));
        }
        i = i + 1;
    }
    assert(rows.take(names@.len() as int) =~= rows);
    catalog_document(&files)
}

/// What the rootfs answered for a theme, where it models its files
/// (`content`: what reading the theme gives; `has_jpg`, `has_png`: whether
/// its `.jpg` and `.png` thumbnails exist): `body` is what reading the theme
/// gave, `jpg` whether the `.jpg` exists, and, when it does not, `png`
/// whether the `.png` does (never asked when there is a `.jpg`).
pub open spec fn theme_reads(
    content: Option<Option<Seq<u8>>>,
    has_jpg: Option<bool>,
    has_png: Option<bool>,
    body: Option<Seq<u8>>,
    jpg: bool,
    png: bool,
) -> bool {
    &&& (content matches Some(c) ==> body == c)
    &&& (has_jpg matches Some(b) ==> jpg == b)
    &&& (jpg ==> !png)
    &&& (!jpg ==> (has_png matches Some(b) ==> png == b))
}

/// Where the rootfs models its files, a theme's catalog thumbnail is its
/// `.jpg` when that exists, else its `.png` when that exists, else none;
/// and its md5 is that of what the rootfs holds at the theme's path.
pub proof fn law_catalog_row_follows_rootfs(
    name: Seq<char>,
    content: Option<Seq<u8>>,
    has_jpg: bool,
    has_png: bool,
    body: Option<Seq<u8>>,
    jpg: bool,
    png: bool,
)
    requires
        theme_reads(Some(content), Some(has_jpg), Some(has_png), body, jpg, png),
    ensures
        thumb_url(swf_stem(name), jpg, png) == if has_jpg {
            "file:///"@ + thumb_path(swf_stem(name), ".jpg"@)
        } else if has_png {
            "file:///"@ + thumb_path(swf_stem(name), ".png"@)
        } else {
            Seq::empty()
        },
        md5_field(body) == match content {
            Some(b) => hex_lower(md5_digest(b)),
            None => Seq::empty(),
        },
{
}

/// `<themes>` for every `*.swf` in the themes directory, sorted by name, with
/// the md5 of each and a `.jpg` or `.png` beside it as thumbnail. The
/// listing of `/psp/themes` is read by index from 0 up to the first index
/// that is no entry (or the last index a `u32` holds); then each theme is
/// read at `theme_file_path` and its thumbnails asked for at `thumb_paths`,
/// the `.png` only where there is no `.jpg`. What those reads give is the
/// rootfs's, and the document is `theme_catalog` of it. Nothing is written
/// or removed, which no clause here can state of the rootfs.
pub fn catalog_xml(fs: &dyn ChumbyFs) -> (r: String)
    ensures
        exists|
            count: u32,
            entries: Seq<DirEntry>,
            names: Seq<Seq<char>>,
            bodies: Seq<Option<Seq<u8>>>,
            jpg: Seq<bool>,
            png: Seq<bool>,
        |
            {
                &&& entries.len() == count
                &&& forall|i: u32|
                    i < count ==> #[trigger] fs.dir_listing("/psp/themes", i)
                        == DirEntryResult::Entry(entries[i as int])
                &&& count < u32::MAX ==> !(fs.dir_listing("/psp/themes", count) is Entry)
                &&& theme_listing(entries, names)
                &&& bodies.len() == names.len()
                &&& jpg.len() == names.len()
                &&& png.len() == names.len()
                &&& forall|i: int|
                    0 <= i < names.len() ==> theme_reads(
                        fs.content_model(theme_path(#[trigger] names[i])),
                        fs.exists_model(thumb_path(swf_stem(names[i]), ".jpg"@)),
                        fs.exists_model(thumb_path(swf_stem(names[i]), ".png"@)),
                        bodies[i],
                        jpg[i],
                        png[i],
                    )
                &&& r@ == catalog_text(theme_rows(names, bodies, jpg, png))
            },
{
    let mut entries: Vec<DirEntry> = Vec::new();
    let mut index: u32 = 0;
    while index < u32::MAX
        invariant
            entries@.len() == index,
            forall|i: u32|
                i < index ==> #[trigger] fs.dir_listing("/psp/themes", i)
                    == DirEntryResult::Entry(entries@[i as int]),
        ensures
            entries@.len() == index,
            forall|i: u32|
                i < index ==> #[trigger] fs.dir_listing("/psp/themes", i)
                    == DirEntryResult::Entry(entries@[i as int]),
            index < u32::MAX ==> !(fs.dir_listing("/psp/themes", index) is Entry),
        decreases u32::MAX - index,
    {
        let answer = fs.dir_entry("/psp/themes", index);
        match answer {
            DirEntryResult::Entry(e) => {
                entries.push(e);
            },
            _ => {
                break;
            },
        }
        index = index + 1;
    }
    let names = theme_names(&entries);
    proof {
        reveal_strlit(".swf");
        assert forall|k: int| 0 <= k < names@.len() implies has_suffix(
            #[trigger] names@[k]@,
            ".swf"@,
        ) by {
            lemma_listed_is_swf(entries@, name_views(names@), k);
        }
    }
    let mut bodies: Vec<Option<Vec<u8>>> = Vec::new();
    let mut jpg: Vec<bool> = Vec::new();
    let mut png: Vec<bool> = Vec::new();
    let mut i: usize = 0;
    while i < names.len()
        invariant
            i <= names@.len(),
            bodies@.len() == i,
            jpg@.len() == i,
            png@.len() == i,
            forall|k: int| 0 <= k < names@.len() ==> has_suffix(#[trigger] names@[k]@, ".swf"@),
            forall|k: int|
                0 <= k < i ==> theme_reads(
                    fs.content_model(theme_path(#[trigger] name_views(names@)[k])),
                    fs.exists_model(thumb_path(swf_stem(name_views(names@)[k]), ".jpg"@)),
                    fs.exists_model(thumb_path(swf_stem(name_views(names@)[k]), ".png"@)),
                    body_views(bodies@)[k],
                    jpg@[k],
                    png@[k],
                ),
        decreases names@.len() - i,
    {
        let path = theme_file_path(names[i].as_str());
        let body = fs.get_file(path.as_str());
        let ghost before_bodies = body_views(bodies@);
        bodies.push(body);
        let (jpg_path, png_path) = thumb_paths(names[i].as_str());
        let has_jpg = fs.file_exists(jpg_path.as_str());
        let has_png = if has_jpg {
            false
        } else {
            fs.file_exists(png_path.as_str())
        };
        jpg.push(has_jpg);
        png.push(has_png);
        proof {
            assert(name_views(names@)[i as int] == names@[i as int]@);
            let nm = names@[i as int]@;
            assert(fs.content_model(theme_path(nm)) matches Some(c) ==> body_views(bodies@)[i as int] == c);
            assert(fs.exists_model(thumb_path(swf_stem(nm), ".jpg"@)) matches Some(b) ==> has_jpg == b);
            assert(!has_jpg ==> (fs.exists_model(thumb_path(swf_stem(nm), ".png"@)) matches Some(b) ==> has_png == b));
            assert(body_views(bodies@) =~= before_bodies.push(match body {
                Some(b) => Some(b@),
                None => None,
            }));
            assert(theme_reads(
                fs.content_model(theme_path(name_views(names@)[i as int])),
                fs.exists_model(thumb_path(swf_stem(name_views(names@)[i as int]), ".jpg"@)),
                fs.exists_model(thumb_path(swf_stem(name_views(names@)[i as int]), ".png"@)),
                body_views(bodies@)[i as int],
                jpg@[i as int],
                png@[i as int],
            ));
        }
        i = i + 1;
    }
    let r = theme_catalog(&names, &bodies, &jpg, &png);
    assert(theme_listing(entries@, name_views(names@)));
    r
}

proof fn lemma_swf_files_suffix(entries: Seq<DirEntry>)
    ensures
        forall|k: int|
            0 <= k < swf_files(entries).len() ==> has_suffix(#[trigger] swf_files(entries)[k], ".swf"@),
    decreases entries.len(),
{
    if entries.len() > 0 {
        let init = entries.drop_last();
        lemma_swf_files_suffix(init);
        let r = swf_files(entries);
        assert forall|k: int| 0 <= k < r.len() implies has_suffix(#[trigger] r[k], ".swf"@) by {
            if k < swf_files(init).len() {
                assert(r[k] == swf_files(init)[k]);
            }
        }
    }
}

proof fn lemma_listed_is_swf(entries: Seq<DirEntry>, names: Seq<Seq<char>>, k: int)
    requires
        theme_listing(entries, names),
        0 <= k < names.len(),
    ensures
        has_suffix(names[k], ".swf"@),
{
    lemma_swf_files_suffix(entries);
    vstd::seq_lib::to_multiset_contains(names, names[k]);
    vstd::seq_lib::to_multiset_contains(swf_files(entries), names[k]);
}


/// A shell-escaped word with its backslashes removed.
pub open spec fn unescaped(s: Seq<char>) -> Seq<char> {
    without_char(s, '\\')
}

/// `<download_theme error="…"/>` with the message escaped.
pub open spec fn error_reply(message: Seq<char>) -> Seq<char> {
    "<download_theme error=\""@ + escape(message, false) + "\" />\n"@
}

pub open spec fn not_found_reply() -> Seq<char> {
    error_reply("theme not found\nPlease choose a different theme"@)
}

/// The answer to `download_theme <args>`, given what the rootfs held at the
/// url's path (`body`) and whether `/tmp/theme.swf` could be written.
/// Only `file://` urls are served; the md5 is compared without regard to
/// case.
pub open spec fn download_reply(args: Seq<char>, body: Option<Seq<u8>>, written: bool) -> Seq<char> {
    let w = words(args);
    if w.len() < 2 {
        error_reply("Syntax: download_theme <url> <md5>"@)
    } else if !has_prefix(unescaped(w[0]), "file://"@) {
        not_found_reply()
    } else {
        match body {
            None => not_found_reply(),
            Some(b) => if !eq_ignore_ascii_case(hex_lower(md5_digest(b)), w[1]) {
                error_reply("checksum failed\nPlease choose a different theme"@)
            } else if !written {
                error_reply("cannot write theme"@)
            } else {
                "<download_theme error=\"success\" />\n"@
            },
        }
    }
}

fn error(message: &str) -> (r: String)
    ensures
        r@ == error_reply(message@),
{
    let m = chars_of(message);
    let mut out: Vec<char> = Vec::new();
    push_str(&mut out, "<download_theme error=\"");
    push_escaped(&mut out, &m, false);
    push_str(&mut out, "\" />\n");
    string_of(&out)
}

fn unescape(s: &[char]) -> (r: Vec<char>)
    ensures
        r@ == unescaped(s@),
{
    remove_char(s, '\\')
}

/// The answer to `download_theme <args>` for the given rootfs content at the
/// url's path and outcome of writing `/tmp/theme.swf`.
pub fn download_answer(args: &str, body: Option<&[u8]>, written: bool) -> (r: String)
    ensures
        r@ == download_reply(
            args@,
            match body {
                Some(b) => Some(b@),
                None => None,
            },
            written,
        ),
{
    proof {
        reveal_strlit("file://");
    }
    let a = chars_of(args);
    let w = words_of(&a);
    if w.len() < 2 {
        return error("Syntax: download_theme <url> <md5>");
    }
    assert(views(w@)[0] == w@[0]@ && views(w@)[1] == w@[1]@);
    let url = unescape(&w[0]);
    if !starts_with(&url, "file://") {
        return error("theme not found\nPlease choose a different theme");
    }
    match body {
        None => error("theme not found\nPlease choose a different theme"),
        Some(b) => {
            let h = chars_of(md5_hex(b).as_str());
            let md5 = string_of(&w[1]);
            if !eq_ignore_case(&h, md5.as_str()) {
                error("checksum failed\nPlease choose a different theme")
            } else if !written {
                error("cannot write theme")
            } else {
                "<download_theme error=\"success\" />\n".to_string()
            }
        },
    }
}

/// Where on the rootfs `download_theme <args>` reads the theme: the path of
/// its `file://` url; none for any other url or fewer than two words.
pub open spec fn source_path(args: Seq<char>) -> Option<Seq<char>> {
    let w = words(args);
    if w.len() < 2 || !has_prefix(unescaped(w[0]), "file://"@) {
        None
    } else {
        Some(unescaped(w[0]).skip(7))
    }
}

/// The content read has the md5 that `download_theme <args>` asks for,
/// whatever the case of its hex digits.
pub open spec fn checksum_ok(args: Seq<char>, body: Seq<u8>) -> bool {
    &&& words(args).len() >= 2
    &&& eq_ignore_ascii_case(hex_lower(md5_digest(body)), words(args)[1])
}

/// Where a downloaded theme is put before the picker installs it.
pub open spec fn staging_path() -> Seq<char> {
    "/tmp/theme.swf"@
}

/// The rootfs path that `download_theme <args>` reads, if it reads one.
pub fn theme_source_path(args: &str) -> (r: Option<String>)
    ensures
        match r {
            Some(p) => source_path(args@) == Some(p@),
            None => source_path(args@) is None,
        },
{
    proof {
        reveal_strlit("file://");
    }
    let a = chars_of(args);
    let w = words_of(&a);
    if w.len() < 2 {
        return None;
    }
    assert(views(w@)[0] == w@[0]@);
    let url = unescape(&w[0]);
    match strip_prefix(&url, "file://") {
        Some(p) => Some(string_of(&p)),
        None => None,
    }
}

/// Where `download_theme <args>` writes the content it read: the staging
/// path when the md5 matches, else nowhere.
pub fn staging_target(args: &str, body: &[u8]) -> (r: Option<String>)
    ensures
        r is Some <==> checksum_ok(args@, body@),
        r matches Some(p) ==> p@ == staging_path(),
{
    let a = chars_of(args);
    let w = words_of(&a);
    if w.len() < 2 {
        return None;
    }
    assert(views(w@)[1] == w@[1]@);
    let h = chars_of(md5_hex(body).as_str());
    let md5 = string_of(&w[1]);
    if eq_ignore_case(&h, md5.as_str()) {
        Some("/tmp/theme.swf".to_string())
    } else {
        None
    }
}

/// `download_theme <url> <md5>` for a `file://` url: the content at
/// `theme_source_path` is read, and written to `staging_target` when its md5
/// matches. Any other url is "not found" without a look at the rootfs, and
/// nothing is fetched from the network. The answer is `download_answer` for
/// what was read and how the write went.
pub fn download_theme(fs: &dyn ChumbyFs, args: &str) -> (r: String)
    ensures
        source_path(args@) is None ==> r@ == download_reply(args@, None, false),
        exists|body: Option<Seq<u8>>, written: bool|
            {
                &&& r@ == download_reply(args@, body, written)
                &&& written ==> (body matches Some(b) && checksum_ok(args@, b))
            },
{
    let src = match theme_source_path(args) {
        Some(p) => p,
        None => {
            return download_answer(args, None, false);
        },
    };
    let body = match fs.get_file(src.as_str()) {
        Some(b) => b,
        None => {
            return download_answer(args, None, false);
        },
    };
    match staging_target(args, &body) {
        None => download_answer(args, Some(body.as_slice()), false),
        Some(target) => {
            let written = fs.put_file(target.as_str(), &body).is_ok();
            let r = download_answer(args, Some(body.as_slice()), written);
            assert(written ==> checksum_ok(args@, body@));
            r
        },
    }
}


/// The arguments of a `download_theme` command line, if it is one.
pub open spec fn download_args(c: Seq<char>) -> Option<Seq<char>> {
    if has_prefix(c, "/psp/download_theme "@) {
        Some(c.skip(20))
    } else if has_prefix(c, "download_theme "@) {
        Some(c.skip(15))
    } else {
        None
    }
}

/// A command line of file steps: it starts with `cp ` or `rm `.
pub open spec fn file_command(c: Seq<char>) -> bool {
    has_prefix(c, "cp "@) || has_prefix(c, "rm "@)
}

/// `cp <src> <dst>`.
pub open spec fn copy_step(step: Seq<char>) -> bool {
    let w = words(step);
    w.len() == 3 && w[0] == "cp"@
}

/// A step the picker issues: `cp <src> <dst>`, `rm <path>…`, `sync` or
/// `echo $?`.
pub open spec fn known_step(step: Seq<char>) -> bool {
    let w = words(step);
    ||| copy_step(step)
    ||| w.len() >= 2 && w[0] == "rm"@
    ||| w.len() == 1 && w[0] == "sync"@
    ||| w.len() == 2 && w[0] == "echo"@ && w[1] == "$?"@
}

/// The `;`-separated steps of a command line, trimmed.
pub open spec fn steps_of(c: Seq<char>) -> Seq<Seq<char>> {
    split_char(c, ';').map_values(|p: Seq<char>| trim(p))
}

/// The UTF-8 bytes of a text.
pub open spec fn bytes_of(s: Seq<char>) -> Seq<u8> {
    vstd::utf8::encode_utf8(s)
}

/// `v` is the UTF-8 of the answer to `download_theme <args>` for some
/// rootfs content and write outcome.
pub open spec fn answers_download(args: Seq<char>, v: Seq<u8>) -> bool {
    exists|body: Option<Seq<u8>>, written: bool| v == bytes_of(download_reply(args, body, written))
}

/// A file operation of the picker's command lines, as a path or two.
pub enum FileOpView {
    Copy(Seq<char>, Seq<char>),
    Unlink(Seq<char>),
}

/// A file operation of the picker's command lines.
#[derive(Debug, PartialEq, Eq)]
pub enum FileOp {
    /// Copy the file at the first path to the second.
    Copy(String, String),
    /// Remove the file at the path; a failure is ignored.
    Unlink(String),
}

pub open spec fn op_view(o: FileOp) -> FileOpView {
    match o {
        FileOp::Copy(a, b) => FileOpView::Copy(a@, b@),
        FileOp::Unlink(p) => FileOpView::Unlink(p@),
    }
}

pub open spec fn op_views(v: Seq<FileOp>) -> Seq<FileOpView> {
    v.map_values(|o: FileOp| op_view(o))
}

/// The operations of one step: `cp <src> <dst>` copies, `rm <path>…`
/// removes each path in turn, and the other steps touch no file. Paths lose
/// their backslashes.
pub open spec fn step_ops(step: Seq<char>) -> Seq<FileOpView> {
    let w = words(step);
    if copy_step(step) {
        seq![FileOpView::Copy(unescaped(w[1]), unescaped(w[2]))]
    } else if w.len() >= 2 && w[0] == "rm"@ {
        w.skip(1).map_values(|p: Seq<char>| FileOpView::Unlink(unescaped(p)))
    } else {
        Seq::empty()
    }
}

/// The operations of the steps, in order.
pub open spec fn ops_of(steps: Seq<Seq<char>>) -> Seq<FileOpView>
    decreases steps.len(),
{
    if steps.len() == 0 {
        Seq::empty()
    } else {
        ops_of(steps.drop_last()) + step_ops(steps.last())
    }
}

/// How many steps come before the first one of an unknown shape (all of
/// them when every step is known).
pub open spec fn known_len(steps: Seq<Seq<char>>) -> nat
    decreases steps.len(),
{
    if steps.len() == 0 {
        0
    } else {
        let k = known_len(steps.drop_last());
        if k == steps.len() - 1 && known_step(steps.last()) {
            steps.len()
        } else {
            k
        }
    }
}

/// The operations that run for a line of steps: those of the steps before
/// the first unknown one.
pub open spec fn plan_ops(steps: Seq<Seq<char>>) -> Seq<FileOpView> {
    ops_of(steps.take(known_len(steps) as int))
}

/// The number of copies among the operations.
pub open spec fn copy_count(ops: Seq<FileOpView>) -> nat
    decreases ops.len(),
{
    if ops.len() == 0 {
        0
    } else {
        copy_count(ops.drop_last()) + if ops.last() is Copy {
            1nat
        } else {
            0nat
        }
    }
}

/// The operations a line of file steps runs, and whether every step had a
/// known shape.
pub struct FilePlan {
    pub ops: Vec<FileOp>,
    pub complete: bool,
}

/// The file operations of a `;`-separated line of steps: those of the steps
/// before the first of an unknown shape, in order; `complete` when there is
/// none of those.
pub fn file_plan(line: &str) -> (r: FilePlan)
    ensures
        op_views(r.ops@) == plan_ops(steps_of(line@)),
        r.complete == (known_len(steps_of(line@)) == steps_of(line@).len()),
{
    proof {
        reveal_strlit("cp");
        reveal_strlit("rm");
        reveal_strlit("sync");
        reveal_strlit("echo");
        reveal_strlit("$?");
    }
    let c = chars_of(line);
    let pieces = split_chars(&c, ';');
    let ghost steps = steps_of(line@);
    assert(steps.len() == pieces@.len());
    let mut ops: Vec<FileOp> = Vec::new();
    let mut i: usize = 0;
    assert(steps.take(0) =~= Seq::<Seq<char>>::empty());
    assert(op_views(ops@) =~= Seq::<FileOpView>::empty());
    while i < pieces.len()
        invariant
            i <= pieces@.len(),
            c@ == line@,
            steps == steps_of(line@),
            steps.len() == pieces@.len(),
            views(pieces@) == split_char(c@, ';'),
            known_len(steps.take(i as int)) == i,
            op_views(ops@) == ops_of(steps.take(i as int)),
        decreases pieces@.len() - i,
    {
        proof {
            reveal_strlit("cp");
            reveal_strlit("rm");
            reveal_strlit("sync");
            reveal_strlit("echo");
            reveal_strlit("$?");
        }
        let step = trim_chars(&pieces[i]);
        assert(step@ == steps[i as int]) by {
            assert(views(pieces@)[i as int] == pieces@[i as int]@);
        }
        let ghost base = op_views(ops@);
        let w = words_of(&step);
        let n = w.len();
        if n >= 1 {
            assert(views(w@)[0] == w@[0]@);
        }
        if n >= 2 {
            assert(views(w@)[1] == w@[1]@);
        }
        if n == 3 && eq_str(&w[0], "cp") {
            assert(views(w@)[2] == w@[2]@);
            let src = string_of(&unescape(&w[1]));
            let dst = string_of(&unescape(&w[2]));
            ops.push(FileOp::Copy(src, dst));
            assert(op_views(ops@) =~= base + step_ops(step@));
        } else if n >= 2 && eq_str(&w[0], "rm") {
            let ghost targets = words(step@).skip(1).map_values(
                |p: Seq<char>| FileOpView::Unlink(unescaped(p)),
            );
            assert(step_ops(step@) == targets);
            let mut j: usize = 1;
            assert(op_views(ops@) =~= base + targets.take(0));
            while j < n
                invariant
                    1 <= j <= n,
                    n == w@.len(),
                    views(w@) == words(step@),
                    targets.len() == n - 1,
                    targets == words(step@).skip(1).map_values(
                        |p: Seq<char>| FileOpView::Unlink(unescaped(p)),
                    ),
                    op_views(ops@) == base + targets.take(j - 1),
                decreases n - j,
            {
                assert(views(w@)[j as int] == w@[j as int]@);
                let target = string_of(&unescape(&w[j]));
                let ghost before = op_views(ops@);
                ops.push(FileOp::Unlink(target));
                assert(targets[j - 1] == FileOpView::Unlink(unescaped(w@[j as int]@)));
                assert(op_views(ops@) =~= before.push(FileOpView::Unlink(target@)));
                assert(targets.take(j as int) =~= targets.take(j - 1).push(targets[j - 1]));
                assert(op_views(ops@) =~= base + targets.take(j as int));
                j = j + 1;
            }
            assert(targets.take(n - 1) =~= targets);
        } else if n == 1 && eq_str(&w[0], "sync") {
            assert(op_views(ops@) =~= base + step_ops(step@));
        } else if n == 2 && eq_str(&w[0], "echo") && eq_str(&w[1], "$?") {
            assert(op_views(ops@) =~= base + step_ops(step@));
        } else {
            proof {
                assert(!known_step(steps[i as int]));
                lemma_known_len_stops(steps, i as int, steps.len() as int);
                assert(steps.take(steps.len() as int) =~= steps);
            }
            return FilePlan { ops, complete: false };
        }
        proof {
            assert(known_step(steps[i as int]));
            let t = steps.take(i + 1);
            assert(t.drop_last() =~= steps.take(i as int));
            assert(t.last() == steps[i as int]);
        }
        i = i + 1;
    }
    proof {
        assert(steps.take(steps.len() as int) =~= steps);
    }
    FilePlan { ops, complete: true }
}

proof fn lemma_known_len_stops(steps: Seq<Seq<char>>, i: int, m: int)
    requires
        0 <= i < m <= steps.len(),
        known_len(steps.take(i)) == i,
        !known_step(steps[i]),
    ensures
        known_len(steps.take(m)) == i,
    decreases m - i,
{
    let t = steps.take(m);
    if m == i + 1 {
        assert(t.drop_last() =~= steps.take(i));
    } else {
        lemma_known_len_stops(steps, i, m - 1);
        assert(t.drop_last() =~= steps.take(m - 1));
    }
}

proof fn lemma_known_len(steps: Seq<Seq<char>>)
    ensures
        known_len(steps) <= steps.len(),
        known_len(steps) == steps.len() <==> forall|k: int|
            0 <= k < steps.len() ==> known_step(#[trigger] steps[k]),
    decreases steps.len(),
{
    if steps.len() > 0 {
        let init = steps.drop_last();
        lemma_known_len(init);
        if known_len(init) == init.len() && known_step(steps.last()) {
            assert forall|k: int| 0 <= k < steps.len() implies known_step(#[trigger] steps[k]) by {
                if k < init.len() {
                    assert(steps[k] == init[k]);
                }
            }
        } else if known_len(init) < init.len() {
            let k = choose|k: int| 0 <= k < init.len() && !known_step(#[trigger] init[k]);
            assert(steps[k] == init[k]);
        } else {
            assert(!known_step(steps[steps.len() - 1]));
        }
    }
}

proof fn lemma_copy_count_add(a: Seq<FileOpView>, b: Seq<FileOpView>)
    ensures
        copy_count(a + b) == copy_count(a) + copy_count(b),
    decreases b.len(),
{
    if b.len() == 0 {
        assert(a + b =~= a);
    } else {
        lemma_copy_count_add(a, b.drop_last());
        assert((a + b).drop_last() =~= a + b.drop_last());
    }
}

proof fn lemma_no_copy_ops(ops: Seq<FileOpView>)
    requires
        forall|k: int| 0 <= k < ops.len() ==> !(#[trigger] ops[k] is Copy),
    ensures
        copy_count(ops) == 0,
    decreases ops.len(),
{
    if ops.len() > 0 {
        lemma_no_copy_ops(ops.drop_last());
    }
}

proof fn lemma_no_copy_steps(steps: Seq<Seq<char>>)
    requires
        forall|k: int| 0 <= k < steps.len() ==> !copy_step(#[trigger] steps[k]),
    ensures
        copy_count(ops_of(steps)) == 0,
    decreases steps.len(),
{
    if steps.len() > 0 {
        let init = steps.drop_last();
        assert forall|k: int| 0 <= k < init.len() implies !copy_step(#[trigger] init[k]) by {
            assert(init[k] == steps[k]);
        }
        lemma_no_copy_steps(init);
        let last = steps.last();
        assert(!copy_step(steps[steps.len() - 1]));
        lemma_copy_count_add(ops_of(init), step_ops(last));
        lemma_no_copy_ops(step_ops(last));
    }
}

/// What `echo $?` answers after the copies: `1` when one failed, else `0`.
pub open spec fn status_text(copied: Seq<bool>) -> Seq<char> {
    if copied.contains(false) {
        "1\n"@
    } else {
        "0\n"@
    }
}

/// The answer to a line of file steps whose copies went as `copied` says
/// (`false` for a copy whose read or write failed).
pub fn status_reply(copied: &Vec<bool>) -> (r: Vec<u8>)
    ensures
        r@ == bytes_of(status_text(copied@)),
{
    let mut failed = false;
    let mut i: usize = 0;
    while i < copied.len()
        invariant
            i <= copied@.len(),
            failed <==> exists|k: int| 0 <= k < i && !#[trigger] copied@[k],
        decreases copied@.len() - i,
    {
        if !copied[i] {
            failed = true;
        }
        i = i + 1;
    }
    let text = if failed {
        "1\n"
    } else {
        "0\n"
    };
    utf8_bytes(text)
}

/// The picker's commands, or `None` when this is not one of them.
/// `download_theme` answers as `download_theme` does. A line of file steps
/// runs the operations of `file_plan` on the rootfs in order (a copy reads
/// its source and writes what it read to its destination) and answers as
/// `status_reply` does for how the copies went; it is not ours when a step
/// has an unknown shape, though the steps before it have run.
pub fn exec(fs: &dyn ChumbyFs, command: &str) -> (r: Option<Vec<u8>>)
    ensures
        ({
            let c = trim(command@);
            let steps = steps_of(c);
            &&& download_args(c) matches Some(a) ==> r matches Some(v) && answers_download(a, v@)
                && (source_path(a) is None ==> v@ == bytes_of(download_reply(a, None, false)))
            &&& download_args(c) is None && !file_command(c) ==> r is None
            &&& download_args(c) is None && file_command(c) ==> {
                &&& (r is None <==> exists|k: int|
                    0 <= k < steps.len() && !known_step(#[trigger] steps[k]))
                &&& r matches Some(v) ==> exists|copied: Seq<bool>|
                    copied.len() == copy_count(plan_ops(steps)) && v@ == bytes_of(
                        status_text(copied),
                    )
                &&& (forall|k: int| 0 <= k < steps.len() ==> !copy_step(#[trigger] steps[k]))
                    ==> (r matches Some(v) ==> v@ == bytes_of("0\n"@))
            }
        }),
{
    proof {
        reveal_strlit("/psp/download_theme ");
        reveal_strlit("download_theme ");
        reveal_strlit("cp ");
        reveal_strlit("rm ");
    }
    let raw = chars_of(command);
    let c = trim_chars(&raw);
    let args = match strip_prefix(&c, "/psp/download_theme ") {
        Some(a) => Some(a),
        None => strip_prefix(&c, "download_theme "),
    };
    if let Some(a) = args {
        assert(download_args(c@) == Some(a@));
        let a_s = string_of(&a);
        let reply = download_theme(fs, a_s.as_str());
        let v = utf8_bytes(reply.as_str());
        proof {
            let (body, written) = choose|body: Option<Seq<u8>>, written: bool|
                reply@ == download_reply(a@, body, written);
            assert(v@ == bytes_of(download_reply(a@, body, written)));
        }
        return Some(v);
    }
    if !(starts_with(&c, "cp ") || starts_with(&c, "rm ")) {
        return None;
    }
    let line = string_of(&c);
    let plan = file_plan(line.as_str());
    let ghost ops = op_views(plan.ops@);
    let mut copied: Vec<bool> = Vec::new();
    let mut j: usize = 0;
    assert(ops.take(0) =~= Seq::<FileOpView>::empty());
    while j < plan.ops.len()
        invariant
            j <= plan.ops@.len(),
            ops == op_views(plan.ops@),
            copied@.len() == copy_count(ops.take(j as int)),
        decreases plan.ops@.len() - j,
    {
        proof {
            let t = ops.take(j + 1);
            assert(t.drop_last() =~= ops.take(j as int));
            assert(t.last() == op_view(plan.ops@[j as int]));
        }
        match &plan.ops[j] {
            FileOp::Copy(src, dst) => {
                let ok = match fs.get_file(src.as_str()) {
                    Some(body) => fs.put_file(dst.as_str(), &body).is_ok(),
                    None => false,
                };
                copied.push(ok);
            },
            FileOp::Unlink(path) => {
                let _ = fs.unlink(path.as_str());
            },
        }
        j = j + 1;
    }
    assert(ops.take(plan.ops@.len() as int) =~= ops);
    proof {
        lemma_known_len(steps_of(c@));
    }
    if !plan.complete {
        return None;
    }
    let v = status_reply(&copied);
    proof {
        let steps = steps_of(c@);
        if forall|k: int| 0 <= k < steps.len() ==> !copy_step(#[trigger] steps[k]) {
            let t = steps.take(known_len(steps) as int);
            assert forall|k: int| 0 <= k < t.len() implies !copy_step(#[trigger] t[k]) by {
                assert(t[k] == steps[k]);
            }
            lemma_no_copy_steps(t);
            assert(!copied@.contains(false));
        }
    }
    Some(v)
}


/// Only `file://` themes are served: any other url is "not found" whatever
/// the rootfs holds, so nothing is fetched from the network.
pub proof fn law_only_local_themes_download(args: Seq<char>, body: Option<Seq<u8>>, written: bool)
    requires
        words(args).len() >= 2,
        !has_prefix(unescaped(words(args)[0]), "file://"@),
    ensures
        download_reply(args, body, written) == not_found_reply(),
{
}

/// A theme is installed (answered `success`) only when the content at its
/// path has the requested md5 and `/tmp/theme.swf` was written.
pub proof fn law_success_needs_checksum(args: Seq<char>, body: Option<Seq<u8>>, written: bool)
    requires
        download_reply(args, body, written) == "<download_theme error=\"success\" />\n"@,
    ensures
        words(args).len() >= 2,
        has_prefix(unescaped(words(args)[0]), "file://"@),
        body matches Some(b) && eq_ignore_ascii_case(hex_lower(md5_digest(b)), words(args)[1]),
        written,
{
    reveal_strlit("<download_theme error=\"success\" />\n");
    reveal_strlit("<download_theme error=\"");
    let succ = "<download_theme error=\"success\" />\n"@;
    let pre = "<download_theme error=\""@;
    if words(args).len() < 2 || !has_prefix(unescaped(words(args)[0]), "file://"@) || body is None
        || !eq_ignore_ascii_case(hex_lower(md5_digest(body.unwrap())), words(args)[1]) || !written {
        let m = if words(args).len() < 2 {
            "Syntax: download_theme <url> <md5>"@
        } else if !has_prefix(unescaped(words(args)[0]), "file://"@) || body is None {
            "theme not found\nPlease choose a different theme"@
        } else if !eq_ignore_ascii_case(hex_lower(md5_digest(body.unwrap())), words(args)[1]) {
            "checksum failed\nPlease choose a different theme"@
        } else {
            "cannot write theme"@
        };
        assert(download_reply(args, body, written) == error_reply(m));
        reveal_strlit("Syntax: download_theme <url> <md5>");
        reveal_strlit("theme not found\nPlease choose a different theme");
        reveal_strlit("checksum failed\nPlease choose a different theme");
        reveal_strlit("cannot write theme");
        assert(error_reply(m)[pre.len() as int] != succ[pre.len() as int]) by {
            lemma_escape_first(m);
        }
    }
}

proof fn lemma_escape_first(m: Seq<char>)
    requires
        m.len() > 0,
        m[0] != 's' && m[0] != '&' && m[0] != '"' && m[0] != '<',
    ensures
        escape(m, false).len() > 0 && escape(m, false)[0] == m[0],
    decreases m.len(),
{
    assert(escape(m, false) == escape(m.drop_last(), false) + escape_char(m.last(), false));
    if m.len() > 1 {
        lemma_escape_first(m.drop_last());
        assert(m.drop_last()[0] == m[0]);
    } else {
        assert(m.drop_last().len() == 0);
        assert(escape(m.drop_last(), false) =~= Seq::<char>::empty());
        assert(escape_char(m[0], false) == seq![m[0]]);
    }
}

} // verus!
