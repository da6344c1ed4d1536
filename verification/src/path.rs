//! The panel's path spellings: `"//mnt/usb/"`, `"////usr/..."`, `"/mnt/./usb"`
//! all name the same place once empty and `.` components are dropped.

use vstd::prelude::*;
use crate::text::{push_all, slice_of, split_char, split_chars, views};

verus! {

/// A component that survives normalization: neither empty nor `.`.
pub open spec fn is_component(c: Seq<char>) -> bool {
    c.len() > 0 && c != seq!['.']
}

/// The components of `cs` that survive normalization, in order.
pub open spec fn keep_components(cs: Seq<Seq<char>>) -> Seq<Seq<char>>
    decreases cs.len(),
{
    if cs.len() == 0 {
        Seq::empty()
    } else if is_component(cs.last()) {
        keep_components(cs.drop_last()).push(cs.last())
    } else {
        keep_components(cs.drop_last())
    }
}

/// The normalized components of a slash-separated path.
pub open spec fn path_components(p: Seq<char>) -> Seq<Seq<char>> {
    keep_components(split_char(p, '/'))
}

/// `/c1/c2/.../cn`; empty for no components.
pub open spec fn slash_join(cs: Seq<Seq<char>>) -> Seq<char>
    decreases cs.len(),
{
    if cs.len() == 0 {
        Seq::empty()
    } else {
        slash_join(cs.drop_last()) + seq!['/'] + cs.last()
    }
}

pub fn is_component_exec(c: &[char]) -> (b: bool)
    ensures
        b == is_component(c@),
{
    let b = c.len() > 0 && !(c.len() == 1 && c[0] == '.');
    proof {
        if c@.len() == 1 && c@[0] == '.' {
            assert(c@ =~= seq!['.']);
        }
        if c@ == seq!['.'] {
            assert(c@.len() == 1 && c@[0] == '.');
        }
    }
    b
}

/// The normalized components of `p`.
pub fn components(p: &[char]) -> (r: Vec<Vec<char>>)
    ensures
        views(r@) == path_components(p@),
{
    let pieces = split_chars(p, '/');
    let ghost ps = views(pieces@);
    let mut r: Vec<Vec<char>> = Vec::new();
    let mut i: usize = 0;
    while i < pieces.len()
        invariant
            i <= pieces@.len(),
            ps == views(pieces@),
            ps == split_char(p@, '/'),
            views(r@) == keep_components(ps.take(i as int)),
        decreases pieces@.len() - i,
    {
        proof {
            assert(ps.take(i + 1).drop_last() =~= ps.take(i as int));
            assert(ps.take(i + 1).last() == pieces@[i as int]@);
        }
        if is_component_exec(&pieces[i]) {
            let ghost before = views(r@);
            let c = slice_of(&pieces[i], 0, pieces[i].len());
            assert(c@ =~= pieces@[i as int]@);
            r.push(c);
            proof {
                assert(views(r@) =~= before.push(pieces@[i as int]@));
            }
        }
        i = i + 1;
    }
    proof {
        assert(ps.take(pieces@.len() as int) =~= ps);
    }
    r
}

/// `slash_join` of the given components.
pub fn join_components(cs: &Vec<Vec<char>>) -> (r: Vec<char>)
    ensures
        r@ == slash_join(views(cs@)),
{
    let ghost v = views(cs@);
    let mut r: Vec<char> = Vec::new();
    let mut i: usize = 0;
    while i < cs.len()
        invariant
            i <= cs@.len(),
            v == views(cs@),
            r@ == slash_join(v.take(i as int)),
        decreases cs@.len() - i,
    {
        proof {
            assert(v.take(i + 1).drop_last() =~= v.take(i as int));
        }
        r.push('/');
        push_all(&mut r, &cs[i]);
        i = i + 1;
    }
    proof {
        assert(v.take(cs@.len() as int) =~= v);
    }
    r
}

} // verus!
