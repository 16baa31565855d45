//! The file name at the end of a path written with `/` or `\` separators.
use vstd::prelude::*;
use crate::text::chars_of;

verus! {

/// Both `/` and `\` separate the components of a path.
pub open spec fn is_separator(c: char) -> bool {
    c == '/' || c == '\\'
}

/// Where the last component of `s` starts: just after its last separator,
/// or at 0 when it has none.
pub open spec fn component_start(s: Seq<char>) -> int
    decreases s.len(),
{
    if s.len() == 0 {
        0
    } else if is_separator(s.last()) {
        s.len() as int
    } else {
        component_start(s.drop_last())
    }
}

/// The file name of the path `s`: its last component that is neither empty
/// nor `.`, unless that component is `..`; none when there is no such
/// component.
pub open spec fn file_name_of(s: Seq<char>) -> Option<Seq<char>>
    decreases s.len()
    via file_name_of_decreases

{
    let start = component_start(s);
    let last = s.subrange(start, s.len() as int);
    if last.len() == 0 || last == seq!['.'] {
        if start == 0 {
            None
        } else {
            file_name_of(s.take(start - 1))
        }
    } else if last == seq!['.', '.'] {
        None
    } else {
        Some(last)
    }
}

proof fn lemma_component_start_bounds(s: Seq<char>)
    ensures
        0 <= component_start(s) <= s.len(),
    decreases s.len(),
{
    if s.len() > 0 && !is_separator(s.last()) {
        lemma_component_start_bounds(s.drop_last());
    }
}

#[via_fn]
proof fn file_name_of_decreases(s: Seq<char>) {
    lemma_component_start_bounds(s);
}

proof fn lemma_component_start(s: Seq<char>, j: int, i: int)
    requires
        0 <= i <= j <= s.len(),
        forall|k: int| i <= k < j ==> !is_separator(#[trigger] s[k]),
        i == 0 || is_separator(s[i - 1]),
    ensures
        component_start(s.take(j)) == i,
    decreases j - i,
{
    if j > i {
        assert(s.take(j).drop_last() =~= s.take(j - 1));
        lemma_component_start(s, j - 1, i);
    } else if i > 0 {
        assert(s.take(i).last() == s[i - 1]);
    }
}

/// The file name at the end of `path`, after `\` has been read as `/`;
/// `None` where the path ends in `..` or has no name at all.
pub fn file_name(path: &str) -> (r: Option<String>)
    ensures
        r is Some <==> file_name_of(path@) is Some,
        r is Some ==> r->0@ == file_name_of(path@)->0,
{
    let v = chars_of(path);
    let mut j: usize = v.len();
    assert(path@.take(j as int) =~= path@);
    loop
        invariant
            v@ == path@,
            j <= v.len(),
            file_name_of(path@) == file_name_of(path@.take(j as int)),
        decreases j,
    {
        let mut i: usize = j;
        while i > 0 && v[i - 1] != '/' && v[i - 1] != '\\'
            invariant
                i <= j <= v.len(),
                forall|k: int| i <= k < j ==> !is_separator(#[trigger] v@[k]),
            decreases i,
        {
            i = i - 1;
        }
        let ghost s = path@.take(j as int);
        proof {
            lemma_component_start(path@, j as int, i as int);
            assert(s.subrange(i as int, j as int) =~= path@.subrange(i as int, j as int));
            if i > 0 {
                assert(s.take(i - 1) =~= path@.take(i - 1));
            }
        }
        let len: usize = j - i;
        if len == 0 || (len == 1 && v[i] == '.') {
            proof {
                if len == 1 {
                    assert(s.subrange(i as int, j as int) =~= seq!['.']);
                }
            }
            if i == 0 {
                return None;
            }
            j = i - 1;
        } else if len == 2 && v[i] == '.' && v[i + 1] == '.' {
            proof {
                assert(s.subrange(i as int, j as int) =~= seq!['.', '.']);
            }
            return None;
        } else {
            proof {
                if len == 1 {
                    assert(s.subrange(i as int, j as int)[0] != '.');
                }
                if len == 2 {
                    assert(s.subrange(i as int, j as int)[0] != '.' || s.subrange(i as int, j as int)[1] != '.');
                }
            }
            return Some(path.substring_char(i, j).to_owned());
        }
    }
}

} // verus!
