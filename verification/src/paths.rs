//! A textual model of filesystem paths: a path is its characters, components
//! are separated by `/`. `parent` is the text before the final separator and
//! `file_name` the text after it.

use vstd::prelude::*;

use crate::util::chars_clone;

verus! {

/// Index of the last `/` in `s`, or -1 when there is none.
pub open spec fn spec_last_slash(s: Seq<char>) -> int
    decreases s.len(),
{
    if s.len() == 0 {
        -1
    } else if s.last() == '/' {
        s.len() - 1
    } else {
        spec_last_slash(s.drop_last())
    }
}

/// The text before the final separator.
pub open spec fn spec_parent(s: Seq<char>) -> Seq<char> {
    s.take(spec_last_slash(s))
}

/// The text after the final separator (the whole of `s` when there is none).
pub open spec fn spec_file_name(s: Seq<char>) -> Seq<char> {
    s.skip(spec_last_slash(s) + 1)
}

/// `dir` and `name` joined by a separator.
pub open spec fn spec_path_join(dir: Seq<char>, name: Seq<char>) -> Seq<char> {
    dir + seq!['/'] + name
}

proof fn lemma_last_slash_bounds(s: Seq<char>)
    ensures
        -1 <= spec_last_slash(s) < s.len(),
        spec_last_slash(s) >= 0 ==> s[spec_last_slash(s)] == '/',
        forall|j: int| spec_last_slash(s) < j < s.len() ==> s[j] != '/',
    decreases s.len(),
{
    if s.len() > 0 && s.last() != '/' {
        lemma_last_slash_bounds(s.drop_last());
        assert(forall|j: int| 0 <= j < s.len() - 1 ==> s[j] == s.drop_last()[j]);
    }
}

/// Index of the last `/` in `p`, if any.
pub fn last_slash_index(p: &Vec<char>) -> (r: Option<usize>)
    ensures
        r matches Some(i) ==> spec_last_slash(p@) == i && i < p@.len(),
        r is None ==> spec_last_slash(p@) == -1,
{
    let mut i: usize = p.len();
    proof {
        assert(p@.take(p@.len() as int) =~= p@);
    }
    while i > 0
        invariant
            0 <= i <= p@.len(),
            spec_last_slash(p@) == spec_last_slash(p@.take(i as int)),
        decreases i,
    {
        proof {
            assert(p@.take(i as int).drop_last() =~= p@.take(i - 1));
            assert(p@.take(i as int).last() == p@[i - 1]);
        }
        if p[i - 1] == '/' {
            return Some(i - 1);
        }
        i -= 1;
    }
    None
}

/// The first `n` characters of `p`.
pub fn chars_prefix(p: &Vec<char>, n: usize) -> (r: Vec<char>)
    requires
        n <= p@.len(),
    ensures
        r@ == p@.take(n as int),
{
    let mut r: Vec<char> = Vec::new();
    let mut i: usize = 0;
    while i < n
        invariant
            0 <= i <= n <= p@.len(),
            r@ == p@.take(n as int).take(i as int),
        decreases n - i,
    {
        proof {
            assert(p@.take(n as int).take(i + 1 as int) =~= p@.take(n as int).take(i as int).push(
                p@[i as int],
            ));
        }
        r.push(p[i]);
        i += 1;
    }
    proof {
        assert(p@.take(n as int).take(n as int) =~= p@.take(n as int));
    }
    r
}

/// The characters of `p` from `n` on.
pub fn chars_suffix(p: &Vec<char>, n: usize) -> (r: Vec<char>)
    requires
        n <= p@.len(),
    ensures
        r@ == p@.skip(n as int),
{
    let mut r: Vec<char> = Vec::new();
    let mut i: usize = n;
    while i < p.len()
        invariant
            n <= i <= p@.len(),
            r@ == p@.skip(n as int).take(i - n),
        decreases p@.len() - i,
    {
        proof {
            assert(p@.skip(n as int).take(i + 1 - n) =~= p@.skip(n as int).take(i - n).push(
                p@[i as int],
            ));
        }
        r.push(p[i]);
        i += 1;
    }
    proof {
        assert(p@.skip(n as int).take(p@.len() - n) =~= p@.skip(n as int));
    }
    r
}

/// The parent of `p`, or `None` when `p` has no separator.
pub fn path_parent(p: &Vec<char>) -> (r: Option<Vec<char>>)
    ensures
        spec_last_slash(p@) >= 0 ==> (r matches Some(v) && v@ == spec_parent(p@)),
        spec_last_slash(p@) < 0 ==> r is None,
{
    proof {
        lemma_last_slash_bounds(p@);
    }
    match last_slash_index(p) {
        Some(i) => Some(chars_prefix(p, i)),
        None => None,
    }
}

/// The file name of `p`: everything after its last separator.
pub fn path_file_name(p: &Vec<char>) -> (r: Vec<char>)
    ensures
        r@ == spec_file_name(p@),
{
    proof {
        lemma_last_slash_bounds(p@);
    }
    // The length pins the separator index below `usize::MAX`, so `i + 1`
    // cannot overflow.
    let _len = p.len();
    match last_slash_index(p) {
        Some(i) => chars_suffix(p, i + 1),
        None => {
            proof {
                assert(p@.skip(0) =~= p@);
            }
            chars_clone(p)
        },
    }
}

/// `dir` and `name` joined by a separator.
pub fn path_join(dir: &Vec<char>, name: &Vec<char>) -> (r: Vec<char>)
    ensures
        r@ == spec_path_join(dir@, name@),
{
    let mut r = chars_clone(dir);
    r.push('/');
    let mut i: usize = 0;
    while i < name.len()
        invariant
            0 <= i <= name@.len(),
            r@ == dir@ + seq!['/'] + name@.take(i as int),
        decreases name@.len() - i,
    {
        proof {
            assert(dir@ + seq!['/'] + name@.take(i + 1 as int) =~= (dir@ + seq!['/']
                + name@.take(i as int)).push(name@[i as int]));
        }
        r.push(name[i]);
        i += 1;
    }
    proof {
        assert(dir@ + seq!['/'] + name@.take(name@.len() as int) =~= spec_path_join(dir@, name@));
    }
    r
}

} // verus!
