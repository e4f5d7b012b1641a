//! File-path helpers: a modification-time wrapper and file-stem extraction.

use vstd::prelude::*;

verus! {

/// A file modification time, in milliseconds since the Unix epoch.
#[derive(Clone, Copy, PartialEq, Eq, Debug, Structural)]
pub struct Ms(pub u128);

/// The largest position at which `c` occurs, or `-1` when it does not.
pub open spec fn last_index_of(s: Seq<char>, c: char) -> int
    decreases s.len(),
{
    if s.len() == 0 {
        -1
    } else if s.last() == c {
        s.len() - 1
    } else {
        last_index_of(s.drop_last(), c)
    }
}

/// The file stem of a path written with `/` separators: the part after the
/// last separator, with the extension after its last dot removed (a dot in
/// first position, as in a hidden file, is kept).
pub open spec fn stem_of(s: Seq<char>) -> Seq<char> {
    let t = s.subrange(last_index_of(s, '/') + 1, s.len() as int);
    let d = last_index_of(t, '.');
    if d > 0 {
        t.subrange(0, d)
    } else {
        t
    }
}

/// A last occurrence is where the spec says, and bounded by the length.
proof fn lemma_last_index_of_bounds(s: Seq<char>, c: char)
    ensures
        -1 <= last_index_of(s, c) < s.len(),
        last_index_of(s, c) >= 0 ==> s[last_index_of(s, c)] == c,
    decreases s.len(),
{
    if s.len() > 0 && s.last() != c {
        lemma_last_index_of_bounds(s.drop_last(), c);
    }
}

/// Finds the largest position at which `c` occurs.
fn find_last(s: &str, c: char) -> (r: Option<usize>)
    ensures
        match r {
            Some(i) => i as int == last_index_of(s@, c),
            None => last_index_of(s@, c) == -1,
        },
{
    let n = s.unicode_len();
    proof {
        assert(s@.take(n as int) =~= s@);
    }
    let mut j = n;
    while j > 0
        invariant
            n == s@.len(),
            0 <= j <= n,
            last_index_of(s@, c) == last_index_of(s@.take(j as int), c),
        decreases j,
    {
        let ch = s.get_char(j - 1);
        proof {
            assert(s@.take(j as int).last() == s@[j - 1]);
            assert(s@.take(j as int).drop_last() =~= s@.take(j - 1));
        }
        if ch == c {
            proof {
                assert(last_index_of(s@.take(j as int), c) == j - 1);
            }
            return Some(j - 1);
        }
        j = j - 1;
    }
    proof {
        assert(s@.take(0) =~= Seq::<char>::empty());
    }
    None
}

/// Extraction of the file stem out of a path string.
pub trait FileStemString {
    /// The character sequence of the path.
    spec fn path_chars(&self) -> Seq<char>;

    /// The file stem of the path, or `None` when it is empty.
    fn file_stem_string(&self) -> (r: Option<String>)
        ensures
            match r {
                Some(t) => t@ == stem_of(self.path_chars()) && stem_of(self.path_chars()).len()
                    > 0,
                None => stem_of(self.path_chars()).len() == 0,
            },
    ;
}

impl FileStemString for String {
    open spec fn path_chars(&self) -> Seq<char> {
        self@
    }

    fn file_stem_string(&self) -> (r: Option<String>)
        ensures
            match r {
                Some(t) => t@ == stem_of(self.path_chars()) && stem_of(self.path_chars()).len()
                    > 0,
                None => stem_of(self.path_chars()).len() == 0,
            },
    {
        let s: &str = self.as_str();
        let n = s.unicode_len();
        proof {
            lemma_last_index_of_bounds(s@, '/');
        }
        let start = match find_last(s, '/') {
            Some(i) => i + 1,
            None => 0,
        };
        let tail: &str = s.substring_char(start, n);
        proof {
            lemma_last_index_of_bounds(tail@, '.');
        }
        let d = match find_last(tail, '.') {
            Some(i) => i,
            None => 0,
        };
        let stem: &str = if d > 0 {
            tail.substring_char(0, d)
        } else {
            tail
        };
        proof {
            assert(stem@ == stem_of(self@));
        }
        if stem.unicode_len() == 0 {
            None
        } else {
            Some(stem.to_owned())
        }
    }
}

} // verus!
