use vstd::prelude::*;

verus! {

/// Position of the last occurrence of `c` in `s`, or -1 when there is none.
pub open spec fn last_index(s: Seq<char>, c: char) -> int
    decreases s.len(),
{
    if s.len() == 0 {
        -1
    } else if s.last() == c {
        s.len() - 1
    } else {
        last_index(s.drop_last(), c)
    }
}

/// The final component of a `/`-separated path.
pub open spec fn file_name_of(p: Seq<char>) -> Seq<char> {
    p.subrange(last_index(p, '/') + 1, p.len() as int)
}

/// The project a task file belongs to: its file name without the
/// extension. A name whose only dot leads it (`.hidden`) has no extension.
pub open spec fn project_of(p: Seq<char>) -> Seq<char> {
    let name = file_name_of(p);
    let dot = last_index(name, '.');
    if dot > 0 {
        name.subrange(0, dot)
    } else {
        name
    }
}

/// The directory that holds the file at `p`: everything before the last
/// `/`, the root itself for a file directly under it, and the empty path
/// for a bare file name.
pub open spec fn parent_of(p: Seq<char>) -> Seq<char> {
    let slash = last_index(p, '/');
    if slash < 0 {
        Seq::empty()
    } else if slash == 0 {
        seq!['/']
    } else {
        p.subrange(0, slash)
    }
}

proof fn lemma_last_index_at(s: Seq<char>, c: char, j: int)
    requires
        0 <= j < s.len(),
        s[j] == c,
        forall|k: int| j < k < s.len() ==> s[k] != c,
    ensures
        last_index(s, c) == j,
    decreases s.len(),
{
    if j < s.len() - 1 {
        lemma_last_index_at(s.drop_last(), c, j);
    }
}

proof fn lemma_last_index_none(s: Seq<char>, c: char)
    requires
        forall|k: int| 0 <= k < s.len() ==> s[k] != c,
    ensures
        last_index(s, c) == -1,
    decreases s.len(),
{
    if s.len() > 0 {
        lemma_last_index_none(s.drop_last(), c);
    }
}

/// Scans `s` from the end for `c`.
fn find_last(s: &str, c: char) -> (r: Option<usize>)
    ensures
        match r {
            Some(i) => i < s@.len() && i as int == last_index(s@, c),
            None => last_index(s@, c) == -1,
        },
{
    let n = s.unicode_len();
    let mut i: usize = n;
    while i > 0
        invariant
            n == s@.len(),
            i <= n,
            forall|k: int| i <= k < n ==> s@[k] != c,
        decreases i,
    {
        if s.get_char(i - 1) == c {
            proof {
                lemma_last_index_at(s@, c, i - 1);
            }
            return Some(i - 1);
        }
        i = i - 1;
    }
    proof {
        lemma_last_index_none(s@, c);
    }
    None
}

/// The project name of the task file at `path`.
pub fn project_name(path: &str) -> (r: String)
    ensures
        r@ == project_of(path@),
{
    let n = path.unicode_len();
    let start: usize = match find_last(path, '/') {
        Some(i) => i + 1,
        None => 0,
    };
    let name = path.substring_char(start, n);
    assert(name@ == file_name_of(path@));
    match find_last(name, '.') {
        Some(d) => {
            if d > 0 {
                name.substring_char(0, d).to_owned()
            } else {
                name.to_owned()
            }
        },
        None => name.to_owned(),
    }
}

/// The directory that holds the file at `path`.
pub fn parent_dir(path: &str) -> (r: String)
    ensures
        r@ == parent_of(path@),
{
    match find_last(path, '/') {
        Some(i) => {
            if i == 0 {
                let r = "/".to_owned();
                proof {
                    reveal_strlit("/");
                }
                assert(r@ =~= seq!['/']);
                r
            } else {
                path.substring_char(0, i).to_owned()
            }
        },
        None => {
            let r = String::new();
            r
        },
    }
}

} // verus!
