//! The title of an image tab: the file name of the image when its path is
//! absolute, the path as it is otherwise.

use vstd::prelude::*;

verus! {

/// The position of the last `/` in `s`, or `-1` when there is none.
pub open spec fn last_slash(s: Seq<char>) -> int
    decreases s.len(),
{
    if s.len() == 0 {
        -1
    } else if s.last() == '/' {
        s.len() - 1
    } else {
        last_slash(s.drop_last())
    }
}

/// The title of a tab showing the image at `path`: what follows the last
/// `/` when the path starts with `/` and does not end with it; the whole
/// path otherwise.
pub open spec fn tab_title_of(path: Seq<char>) -> Seq<char> {
    let k: int = last_slash(path);
    if path.len() > 0 && path[0] == '/' && 0 <= k && k + 1 < path.len() {
        path.skip(k + 1)
    } else {
        path
    }
}

proof fn lemma_last_slash_bounds(s: Seq<char>)
    ensures
        -1 <= last_slash(s) < s.len(),
        last_slash(s) >= 0 ==> s[last_slash(s)] == '/',
        forall|j: int| last_slash(s) < j < s.len() ==> #[trigger] s[j] != '/',
    decreases s.len(),
{
    if s.len() > 0 && s.last() != '/' {
        lemma_last_slash_bounds(s.drop_last());
        assert forall|j: int| last_slash(s) < j < s.len() implies #[trigger] s[j] != '/' by {
            if j < s.len() - 1 {
                assert(s[j] == s.drop_last()[j]);
            }
        }
    }
}

/// The title of a tab showing the image at `path`.
pub fn tab_title(path: &str) -> (res: String)
    ensures
        res@ == tab_title_of(path@),
{
    let len: usize = path.unicode_len();
    let mut n: usize = 0;
    let mut first_is_slash: bool = false;
    let mut last: Option<usize> = None;
    for c in it: path.chars()
        invariant
            it.seq() == path@,
            path@.len() == len,
            n == it.index(),
            first_is_slash == (n > 0 && path@[0] == '/'),
            match last {
                Some(k) => k as int == last_slash(path@.take(n as int)),
                None => last_slash(path@.take(n as int)) == -1,
            },
    {
        assert(path@.take(n + 1).drop_last() == path@.take(n as int));
        assert(path@.take(n + 1).last() == c);
        if n == 0 && c == '/' {
            first_is_slash = true;
        }
        if c == '/' {
            last = Some(n);
        }
        n = n + 1;
    }
    assert(path@.take(n as int) == path@);
    proof {
        lemma_last_slash_bounds(path@);
    }
    match last {
        Some(k) => {
            if first_is_slash && k + 1 < n {
                String::from_str(path.substring_char(k + 1, n))
            } else {
                String::from_str(path)
            }
        },
        None => String::from_str(path),
    }
}

/// The title of an absolute path is what follows its last `/`, when that is
/// not empty; any other path is its own title.
pub proof fn law_title_is_the_file_name(path: Seq<char>, k: int)
    requires
        0 <= k < path.len(),
        path[k] == '/',
        forall|j: int| k < j < path.len() ==> path[j] != '/',
    ensures
        path[0] == '/' && k + 1 < path.len() ==> tab_title_of(path) == path.skip(k + 1),
        !(path[0] == '/' && k + 1 < path.len()) ==> tab_title_of(path) == path,
{
    lemma_last_slash_bounds(path);
}

/// A path without `/` is its own title.
pub proof fn law_title_of_a_bare_name(path: Seq<char>)
    requires
        forall|j: int| 0 <= j < path.len() ==> path[j] != '/',
    ensures
        tab_title_of(path) == path,
{
    lemma_last_slash_bounds(path);
}

} // verus!
