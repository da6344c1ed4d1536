//! Music sources the appliance cannot serve are spliced out of
//! `MusicPlayer.musicSources` once frame 2 defines it. That one array feeds
//! both the Music source list and the alarm audio list, so removing an entry
//! covers every screen.

use vstd::prelude::*;
use crate::text::chars_of;

verus! {

/// The selectors hidden for a configuration: iPod, NOAA and CBS Podcasts
/// always (dead regardless); the chumby.com-backed trio unless chumby.com
/// access is granted; Squeezebox unless Lyrion is enabled.
pub open spec fn hidden_list(access_chumby_com: bool, enable_lyrion: bool) -> Seq<Seq<char>> {
    seq!["ipod"@, "noaa"@, "cbspodcasts"@] + (if access_chumby_com {
        Seq::<Seq<char>>::empty()
    } else {
        seq!["shoutcast"@, "chumbcast"@, "sleepcast"@]
    }) + (if enable_lyrion {
        Seq::<Seq<char>>::empty()
    } else {
        seq!["slimserver"@]
    })
}

pub open spec fn str_views(v: Seq<&str>) -> Seq<Seq<char>> {
    v.map_values(|s: &str| s@)
}

/// The music-source selectors to hide under a configuration.
pub fn hidden_selectors(access_chumby_com: bool, enable_lyrion: bool) -> (r: Vec<&'static str>)
    ensures
        str_views(r@) == hidden_list(access_chumby_com, enable_lyrion),
{
    let mut hidden: Vec<&'static str> = Vec::new();
    hidden.push("ipod");
    hidden.push("noaa");
    hidden.push("cbspodcasts");
    if !access_chumby_com {
        hidden.push("shoutcast");
        hidden.push("chumbcast");
        hidden.push("sleepcast");
    }
    if !enable_lyrion {
        hidden.push("slimserver");
    }
    assert(str_views(hidden@) =~= hidden_list(access_chumby_com, enable_lyrion));
    hidden
}

/// The indices of the entries whose selector is not hidden, in order.
pub open spec fn kept_of(selectors: Seq<Seq<char>>, hidden: Seq<Seq<char>>) -> Seq<int>
    decreases selectors.len(),
{
    if selectors.len() == 0 {
        Seq::empty()
    } else if hidden.contains(selectors.last()) {
        kept_of(selectors.drop_last(), hidden)
    } else {
        kept_of(selectors.drop_last(), hidden).push(selectors.len() - 1)
    }
}

/// The hidden selectors among the entries, in order.
pub open spec fn removed_of(selectors: Seq<Seq<char>>, hidden: Seq<Seq<char>>) -> Seq<Seq<char>>
    decreases selectors.len(),
{
    if selectors.len() == 0 {
        Seq::empty()
    } else if hidden.contains(selectors.last()) {
        removed_of(selectors.drop_last(), hidden).push(selectors.last())
    } else {
        removed_of(selectors.drop_last(), hidden)
    }
}

/// How the sources array is rewritten: the entries kept, by index in
/// order, and the selectors removed.
pub struct SourcesEdit {
    pub kept: Vec<usize>,
    pub removed: Vec<String>,
}

/// One pass over the sources array.
pub enum SourcesPass {
    /// The array is empty: it is not defined yet, try again later.
    Retry,
    /// Nothing to hide: done.
    Unchanged,
    /// Rewrite the array to the kept entries: done.
    Edit(SourcesEdit),
}

pub open spec fn string_views(v: Seq<String>) -> Seq<Seq<char>> {
    v.map_values(|s: String| s@)
}

pub open spec fn index_views(v: Seq<usize>) -> Seq<int> {
    v.map_values(|i: usize| i as int)
}

fn is_hidden(hidden: &Vec<&str>, s: &str) -> (b: bool)
    ensures
        b == str_views(hidden@).contains(s@),
{
    let c = chars_of(s);
    let mut k: usize = 0;
    while k < hidden.len()
        invariant
            k <= hidden@.len(),
            c@ == s@,
            forall|m: int| 0 <= m < k ==> str_views(hidden@)[m] != s@,
        decreases hidden@.len() - k,
    {
        if crate::text::eq_str(&c, hidden[k]) {
            assert(str_views(hidden@)[k as int] == s@);
            return true;
        }
        k = k + 1;
    }
    false
}

/// The pass over a sources array whose entries have the given selectors
/// (empty for an entry without one): entries with a hidden selector go,
/// the others keep their order.
pub fn filter_sources(selectors: &Vec<String>, hidden: &Vec<&str>) -> (r: SourcesPass)
    ensures
        selectors@.len() == 0 ==> r is Retry,
        selectors@.len() > 0 && removed_of(string_views(selectors@), str_views(hidden@)).len() == 0
            ==> r is Unchanged,
        selectors@.len() > 0 && removed_of(string_views(selectors@), str_views(hidden@)).len() > 0
            ==> r is Edit,
        r matches SourcesPass::Edit(e) ==> {
            &&& selectors@.len() > 0
            &&& index_views(e.kept@) == kept_of(string_views(selectors@), str_views(hidden@))
            &&& string_views(e.removed@) == removed_of(string_views(selectors@), str_views(hidden@))
            &&& e.removed@.len() > 0
        },
{
    if selectors.len() == 0 {
        return SourcesPass::Retry;
    }
    let ghost sv = string_views(selectors@);
    let ghost hv = str_views(hidden@);
    let mut kept: Vec<usize> = Vec::new();
    let mut removed: Vec<String> = Vec::new();
    let mut i: usize = 0;
    assert(sv.take(0) =~= Seq::<Seq<char>>::empty());
    assert(index_views(kept@) =~= Seq::<int>::empty());
    assert(string_views(removed@) =~= Seq::<Seq<char>>::empty());
    while i < selectors.len()
        invariant
            i <= selectors@.len(),
            sv == string_views(selectors@),
            hv == str_views(hidden@),
            index_views(kept@) == kept_of(sv.take(i as int), hv),
            string_views(removed@) == removed_of(sv.take(i as int), hv),
        decreases selectors@.len() - i,
    {
        proof {
            assert(sv.take(i + 1).drop_last() =~= sv.take(i as int));
            assert(sv.take(i + 1).last() == selectors@[i as int]@);
        }
        let s = selectors[i].as_str();
        if is_hidden(hidden, s) {
            let ghost before = string_views(removed@);
            removed.push(crate::text::string_of(&chars_of(s)));
            assert(string_views(removed@) =~= before.push(s@));
        } else {
            let ghost before = index_views(kept@);
            kept.push(i);
            assert(index_views(kept@) =~= before.push(i as int));
        }
        i = i + 1;
    }
    assert(sv.take(selectors@.len() as int) =~= sv);
    if removed.len() == 0 {
        SourcesPass::Unchanged
    } else {
        SourcesPass::Edit(SourcesEdit { kept, removed })
    }
}


/// Filtering keeps the surviving entries in their order and accounts for
/// every entry: each is kept or removed, the kept ones by rising index,
/// none of them hidden, every removed one hidden.
pub proof fn law_filter_keeps_order(selectors: Seq<Seq<char>>, hidden: Seq<Seq<char>>)
    ensures
        kept_of(selectors, hidden).len() + removed_of(selectors, hidden).len() == selectors.len(),
        forall|a: int, b: int|
            0 <= a < b < kept_of(selectors, hidden).len() ==> #[trigger] kept_of(selectors, hidden)[a]
                < #[trigger] kept_of(selectors, hidden)[b],
        forall|a: int|
            0 <= a < kept_of(selectors, hidden).len() ==> {
                let k = #[trigger] kept_of(selectors, hidden)[a];
                0 <= k < selectors.len() && !hidden.contains(selectors[k])
            },
        forall|a: int|
            0 <= a < removed_of(selectors, hidden).len() ==> hidden.contains(
                #[trigger] removed_of(selectors, hidden)[a],
            ),
    decreases selectors.len(),
{
    if selectors.len() > 0 {
        let init = selectors.drop_last();
        law_filter_keeps_order(init, hidden);
        let k0 = kept_of(init, hidden);
        assert forall|a: int| 0 <= a < k0.len() implies #[trigger] k0[a] < selectors.len() - 1 && init[k0[a]] == selectors[k0[a]] by {
            let k = k0[a];
            assert(0 <= k < init.len());
        }
    }
}

} // verus!
