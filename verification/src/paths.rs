//! Paths as strings: joining a relative component, and splitting off the
//! last component. Paths are separated by `/`, as on the Unix hosts that the
//! daemon runs on; a path that ends in `/` has an empty last component here.

use vstd::prelude::*;
use crate::text::{chars_of, owned, string_from_chars};

verus! {

/// `base` joined with the relative component `name`.
pub open spec fn path_join(base: Seq<char>, name: Seq<char>) -> Seq<char> {
    if base.len() == 0 {
        name
    } else if base.last() == '/' {
        base + name
    } else {
        base + "/"@ + name
    }
}

/// `base` joined with the relative component `name`.
pub fn join_path(base: &str, name: &str) -> (r: String)
    ensures
        r@ == path_join(base@, name@),
{
    let n = base.unicode_len();
    if n == 0 {
        return owned(name);
    }
    let mut r = owned(base);
    if base.get_char(n - 1) != '/' {
        r.append("/");
    }
    r.append(name);
    r
}

/// Where the last component of `p` starts: after its last `/`.
pub open spec fn name_start(p: Seq<char>) -> int
    decreases p.len(),
{
    if p.len() == 0 {
        0
    } else if p.last() == '/' {
        p.len() as int
    } else {
        name_start(p.drop_last())
    }
}

/// The last component of `p`.
pub open spec fn path_name(p: Seq<char>) -> Seq<char> {
    p.skip(name_start(p))
}

/// `p` without its last component.
pub open spec fn path_parent(p: Seq<char>) -> Seq<char> {
    let k = name_start(p);
    if k == 0 {
        Seq::<char>::empty()
    } else if k == 1 {
        "/"@
    } else {
        p.take(k - 1)
    }
}

/// `p` split into its parent and its last component.
pub fn split_path(p: &str) -> (r: (String, String))
    ensures
        r.0@ == path_parent(p@),
        r.1@ == path_name(p@),
{
    let v = chars_of(p);
    let mut k: usize = v.len();
    assert(p@.take(p@.len() as int) =~= p@);
    while k > 0 && v[k - 1] != '/'
        invariant
            v@ == p@,
            k <= v@.len(),
            name_start(p@) == name_start(p@.take(k as int)),
        decreases k,
    {
        assert(p@.take(k as int).drop_last() =~= p@.take(k - 1));
        k = k - 1;
    }
    proof {
        if k > 0 {
            assert(p@.take(k as int).last() == '/');
        } else {
            assert(p@.take(0) =~= Seq::<char>::empty());
        }
        assert(name_start(p@) == k as int);
    }
    let name = string_from_chars(v.as_slice(), k, v.len());
    let parent = if k == 0 {
        String::new()
    } else if k == 1 {
        owned("/")
    } else {
        string_from_chars(v.as_slice(), 0, k - 1)
    };
    assert(v@.subrange(k as int, v@.len() as int) =~= p@.skip(k as int));
    assert(k > 1 ==> v@.subrange(0, k - 1) =~= p@.take(k - 1));
    (parent, name)
}

} // verus!
