//! Unix path text: components, absoluteness, joining and component-wise
//! equality, as `std::path` treats them on Linux.
use vstd::prelude::*;
use crate::text::{split, split_chars, views};

verus! {

/// The normal components of a path: its `/`-separated parts without empty
/// ones and without `.`, which `Path::components` drops.
pub open spec fn normal_parts(p: Seq<char>) -> Seq<Seq<char>> {
    split(p, '/').filter(|c: Seq<char>| c.len() > 0 && c != seq!['.'])
}

pub open spec fn is_absolute(p: Seq<char>) -> bool {
    p.len() > 0 && p[0] == '/'
}

/// The path has a `..` component.
pub open spec fn has_parent_dir(p: Seq<char>) -> bool {
    normal_parts(p).contains(seq!['.', '.'])
}

/// Two paths are equal as `Path`s: same kind (absolute or not) and the same components.
pub open spec fn same_path(a: Seq<char>, b: Seq<char>) -> bool {
    is_absolute(a) == is_absolute(b) && normal_parts(a) == normal_parts(b)
}

/// `PathBuf::join` with a relative component: a `/` goes in between unless
/// the base is empty or already ends with one.
pub open spec fn join(base: Seq<char>, part: Seq<char>) -> Seq<char> {
    if base.len() == 0 || base.last() == '/' {
        base + part
    } else {
        base + seq!['/'] + part
    }
}

pub fn path_parts(p: &Vec<char>) -> (r: Vec<Vec<char>>)
    ensures
        views(r@) == normal_parts(p@),
{
    let pieces = split_chars(p, '/');
    let mut out: Vec<Vec<char>> = Vec::new();
    let mut i: usize = 0;
    let ghost all = views(pieces@);
    let ghost pred = |c: Seq<char>| c.len() > 0 && c != seq!['.'];
    assert(all.take(0) =~= Seq::<Seq<char>>::empty());
    assert(all.take(0).filter(pred) =~= Seq::<Seq<char>>::empty()) by {
        reveal_with_fuel(Seq::filter, 1);
    }
    while i < pieces.len()
        invariant
            i <= pieces@.len(),
            all == views(pieces@),
            views(out@) == all.take(i as int).filter(pred),
            pred == (|c: Seq<char>| c.len() > 0 && c != seq!['.']),
        decreases pieces@.len() - i,
    {
        let c = &pieces[i];
        let keep = c.len() > 0 && !(c.len() == 1 && c[0] == '.');
        proof {
            reveal_with_fuel(Seq::filter, 1);
            assert(all.take(i + 1).drop_last() =~= all.take(i as int));
            assert(all.take(i + 1).last() == c@);
            if c@.len() == 1 && c@[0] == '.' {
                assert(c@ =~= seq!['.']);
            }
            if c@ == seq!['.'] {
                assert(c@.len() == 1 && c@[0] == '.');
            }
            assert(keep == pred(c@));
        }
        if keep {
            out.push(c.clone());
        }
        proof {
            assert(views(out@) =~= all.take(i + 1).filter(pred));
        }
        i = i + 1;
    }
    assert(all.take(pieces@.len() as int) =~= all);
    out
}

pub fn parts_eq(a: &Vec<Vec<char>>, b: &Vec<Vec<char>>) -> (r: bool)
    ensures
        r == (views(a@) == views(b@)),
{
    if a.len() != b.len() {
        assert(views(a@).len() != views(b@).len());
        return false;
    }
    let mut i: usize = 0;
    while i < a.len()
        invariant
            i <= a@.len(),
            a@.len() == b@.len(),
            forall|j: int| 0 <= j < i ==> a@[j]@ == b@[j]@,
        decreases a@.len() - i,
    {
        if !crate::text::chars_eq(&a[i], &b[i]) {
            assert(views(a@)[i as int] != views(b@)[i as int]);
            return false;
        }
        i = i + 1;
    }
    assert(views(a@) =~= views(b@));
    true
}

pub fn contains_parent_dir(parts: &Vec<Vec<char>>) -> (r: bool)
    ensures
        r == views(parts@).contains(seq!['.', '.']),
{
    let mut i: usize = 0;
    while i < parts.len()
        invariant
            i <= parts@.len(),
            forall|j: int| 0 <= j < i ==> parts@[j]@ != seq!['.', '.'],
        decreases parts@.len() - i,
    {
        let c = &parts[i];
        if c.len() == 2 && c[0] == '.' && c[1] == '.' {
            assert(c@ =~= seq!['.', '.']);
            assert(views(parts@)[i as int] == seq!['.', '.']);
            return true;
        }
        proof {
            if c@ == seq!['.', '.'] {
                assert(c@.len() == 2 && c@[0] == '.' && c@[1] == '.');
            }
        }
        i = i + 1;
    }
    assert forall|j: int| 0 <= j < views(parts@).len() implies views(parts@)[j] != seq!['.', '.'] by {
        assert(views(parts@)[j] == parts@[j]@);
    }
    false
}

pub fn path_is_absolute(p: &Vec<char>) -> (r: bool)
    ensures
        r == is_absolute(p@),
{
    p.len() > 0 && p[0] == '/'
}

/// `base` joined with a relative component.
pub fn join_path(base: &str, part: &str) -> (r: String)
    ensures
        r@ == join(base@, part@),
{
    let b = crate::text::str_chars(base);
    let mut r = String::from_str(base);
    if !(b.len() == 0 || b[b.len() - 1] == '/') {
        r.push('/');
    }
    r.append(part);
    r
}

} // verus!
