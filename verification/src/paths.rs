//! Canonical path strings: absoluteness, final components, hidden names.

use vstd::prelude::*;

verus! {

/// A canonical path is absolute when it starts with the root separator.
pub open spec fn absolute_path(p: Seq<char>) -> bool {
    p.len() > 0 && p[0] == '/'
}

/// The final component of a path: the suffix after the last separator, or
/// the whole path when it has no separator. A path that ends in a separator
/// has an empty final component.
pub open spec fn file_name(p: Seq<char>) -> Seq<char>
    decreases p.len(),
{
    if p.len() == 0 {
        Seq::<char>::empty()
    } else if p.last() == '/' {
        Seq::<char>::empty()
    } else {
        file_name(p.drop_last()).push(p.last())
    }
}

/// A path is hidden when its final component starts with a dot.
pub open spec fn hidden_path(p: Seq<char>) -> bool {
    file_name(p).len() > 0 && file_name(p)[0] == '.'
}

/// Decides whether a path string is absolute.
pub fn is_absolute(p: &str) -> (r: bool)
    ensures
        r == absolute_path(p@),
{
    if p.unicode_len() == 0 {
        return false;
    }
    p.get_char(0) == '/'
}

/// Decides whether a path string names a hidden entry, that is, whether its
/// final component starts with a dot.
pub fn is_hidden(p: &str) -> (r: bool)
    ensures
        r == hidden_path(p@),
{
    let n = p.unicode_len();
    let mut start: usize = 0;
    let mut i: usize = 0;
    while i < n
        invariant
            n == p@.len(),
            i <= n,
            start <= i,
            file_name(p@.subrange(0, i as int)) =~= p@.subrange(start as int, i as int),
        decreases n - i,
    {
        let c = p.get_char(i);
        proof {
            let pre = p@.subrange(0, i as int);
            let ext = p@.subrange(0, i + 1 as int);
            assert(ext =~= pre.push(p@[i as int]));
            assert(ext.drop_last() =~= pre);
            if p@[i as int] != '/' {
                assert(file_name(ext) =~= file_name(pre).push(p@[i as int]));
                assert(p@.subrange(start as int, i + 1 as int) =~= p@.subrange(
                    start as int,
                    i as int,
                ).push(p@[i as int]));
            } else {
                assert(file_name(ext) =~= Seq::<char>::empty());
            }
        }
        if c == '/' {
            start = i + 1;
            proof {
                assert(p@.subrange(start as int, i + 1 as int) =~= Seq::<char>::empty());
            }
        }
        i = i + 1;
    }
    proof {
        assert(p@.subrange(0, n as int) =~= p@);
    }
    if start < n {
        let c = p.get_char(start);
        proof {
            assert(file_name(p@)[0] == p@.subrange(start as int, n as int)[0]);
        }
        c == '.'
    } else {
        proof {
            assert(file_name(p@).len() == 0);
        }
        false
    }
}

} // verus!
