use vstd::prelude::*;

verus! {

/// Index of the last occurrence of `c` in `s`, or -1 when `c` does not occur.
pub open spec fn last_index_of(s: Seq<char>, c: char) -> int
    decreases s.len(),
{
    if s.len() == 0 {
        -1
    } else if s.last() == c {
        s.len() - 1
    } else {
        last_index_of(s.drop_last(), c)
    }
}

/// The final component of a path whose only separator is `/`: trailing
/// separators and `.` components are passed over, and a path that ends in
/// `..`, names only the root or the current directory, or is empty has none.
pub open spec fn file_name_of(p: Seq<char>) -> Option<Seq<char>>
    decreases p.len(),
{
    let k = last_index_of(p, '/');
    let seg = p.subrange(k + 1, p.len() as int);
    if seg.len() == 0 || seg == seq!['.'] {
        if k < 0 {
            None
        } else {
            proof {
                lemma_last_index_bounds(p, '/');
            }
            file_name_of(p.subrange(0, k))
        }
    } else if seg == seq!['.', '.'] {
        None
    } else {
        Some(seg)
    }
}

/// The stem of a file name: the whole name when it holds no `.` other than a
/// leading one, and otherwise the part before the final `.`.
pub open spec fn stem_of_name(name: Seq<char>) -> Seq<char> {
    let k = last_index_of(name, '.');
    if k <= 0 {
        name
    } else {
        name.subrange(0, k)
    }
}

/// The stem of the final component of `p`, if it has one.
pub open spec fn file_stem_of(p: Seq<char>) -> Option<Seq<char>> {
    match file_name_of(p) {
        Some(name) => Some(stem_of_name(name)),
        None => None,
    }
}

/// The stem of the final component of `p`, or the empty sequence when it has none.
pub open spec fn stem_or_empty(p: Seq<char>) -> Seq<char> {
    match file_stem_of(p) {
        Some(stem) => stem,
        None => Seq::empty(),
    }
}

/// Where `last_index_of` lies, and that it marks the last occurrence.
pub proof fn lemma_last_index_bounds(s: Seq<char>, c: char)
    ensures
        -1 <= last_index_of(s, c) < s.len(),
        last_index_of(s, c) >= 0 ==> s[last_index_of(s, c)] == c,
        forall|j: int| last_index_of(s, c) < j < s.len() ==> s[j] != c,
    decreases s.len(),
{
    if s.len() > 0 && s.last() != c {
        lemma_last_index_bounds(s.drop_last(), c);
        assert forall|j: int| last_index_of(s, c) < j < s.len() implies s[j] != c by {
            if j < s.len() - 1 {
                assert(s.drop_last()[j] == s[j]);
            }
        }
    }
}

/// `k` is the last index of `c` when `s[k]` is `c` and no `c` follows it.
pub proof fn lemma_last_index_is(s: Seq<char>, c: char, k: int)
    requires
        -1 <= k < s.len(),
        k >= 0 ==> s[k] == c,
        forall|j: int| k < j < s.len() ==> s[j] != c,
    ensures
        last_index_of(s, c) == k,
    decreases s.len(),
{
    if s.len() > 0 && k < s.len() - 1 {
        assert(s.drop_last().len() == s.len() - 1);
        lemma_last_index_is(s.drop_last(), c, k);
    }
}

/// The final component of a path is a real name: not empty, not `.` or `..`,
/// and free of separators.
pub proof fn lemma_file_name_is_component(p: Seq<char>)
    ensures
        file_name_of(p) matches Some(n) ==> n.len() > 0 && n != seq!['.'] && n != seq!['.', '.'] && !n.contains(
            '/',
        ),
    decreases p.len(),
{
    let k = last_index_of(p, '/');
    lemma_last_index_bounds(p, '/');
    let seg = p.subrange(k + 1, p.len() as int);
    if seg.len() == 0 || seg == seq!['.'] {
        if k >= 0 {
            lemma_file_name_is_component(p.subrange(0, k));
        }
    } else if seg != seq!['.', '.'] {
        assert forall|i: int| 0 <= i < seg.len() implies seg[i] != '/' by {
            assert(seg[i] == p[k + 1 + i]);
        }
    }
}

/// Index of the last `c` in the first `end` characters of `s`, or -1.
fn find_last(s: &str, c: char, end: usize) -> (r: Option<usize>)
    requires
        end <= s@.len(),
    ensures
        match r {
            Some(k) => k == last_index_of(s@.subrange(0, end as int), c),
            None => last_index_of(s@.subrange(0, end as int), c) == -1,
        },
{
    let mut i: usize = end;
    while i > 0
        invariant
            i <= end <= s@.len(),
            forall|j: int| i <= j < end ==> s@[j] != c,
        decreases i,
    {
        if s.get_char(i - 1) == c {
            proof {
                let p = s@.subrange(0, end as int);
                assert forall|j: int| i - 1 < j < p.len() implies p[j] != c by {
                    assert(p[j] == s@[j]);
                }
                lemma_last_index_is(p, c, i - 1);
            }
            return Some(i - 1);
        }
        i = i - 1;
    }
    proof {
        let p = s@.subrange(0, end as int);
        assert forall|j: int| -1 < j < p.len() implies p[j] != c by {
            assert(p[j] == s@[j]);
        }
        lemma_last_index_is(p, c, -1);
    }
    None
}

/// The final component of `path`, with `/` as the only separator (the
/// behaviour of `std::path::Path::file_name` on Unix).
pub fn file_name(path: &str) -> (r: Option<String>)
    ensures
        match r {
            Some(n) => file_name_of(path@) == Some(n@),
            None => file_name_of(path@) is None,
        },
{
    let n = path.unicode_len();
    let mut end: usize = n;
    assert(path@.subrange(0, n as int) =~= path@);
    loop
        invariant
            end <= n == path@.len(),
            file_name_of(path@.subrange(0, end as int)) == file_name_of(path@),
        decreases end,
    {
        let ghost p = path@.subrange(0, end as int);
        let found = find_last(path, '/', end);
        proof {
            lemma_last_index_bounds(p, '/');
        }
        let ghost k = last_index_of(p, '/');
        let start: usize = match found {
            Some(j) => j + 1,
            None => 0,
        };
        let seg = path.substring_char(start, end);
        assert(seg@ =~= p.subrange(k + 1, p.len() as int));
        let len = end - start;
        if len == 0 || (len == 1 && seg.get_char(0) == '.') {
            if len == 1 {
                assert(seg@ =~= seq!['.']);
            }
            match found {
                None => {
                    return None;
                },
                Some(j) => {
                    proof {
                        assert(p.subrange(0, k) =~= path@.subrange(0, k));
                    }
                    end = j;
                },
            }
        } else if len == 2 && seg.get_char(0) == '.' && seg.get_char(1) == '.' {
            assert(seg@ =~= seq!['.', '.']);
            return None;
        } else {
            proof {
                if len == 1 {
                    assert(seg@ != seq!['.']) by {
                        assert(seg@[0] != '.');
                    }
                }
                if len == 2 {
                    assert(seg@ != seq!['.', '.']) by {
                        assert(seg@[0] != '.' || seg@[1] != '.');
                    }
                }
            }
            return Some(String::from_str(seg));
        }
    }
}

/// The stem of `name`: the whole name when it holds no `.` other than a
/// leading one, and otherwise the part before the final `.`.
pub fn stem_of(name: &str) -> (r: String)
    ensures
        r@ == stem_of_name(name@),
{
    let n = name.unicode_len();
    let found = find_last(name, '.', n);
    assert(name@.subrange(0, n as int) =~= name@);
    proof {
        lemma_last_index_bounds(name@, '.');
    }
    match found {
        Some(k) if k > 0 => String::from_str(name.substring_char(0, k)),
        _ => String::from_str(name),
    }
}

/// The stem of the final component of `path` (the behaviour of
/// `std::path::Path::file_stem` on Unix).
pub fn file_stem(path: &str) -> (r: Option<String>)
    ensures
        match r {
            Some(s) => file_stem_of(path@) == Some(s@),
            None => file_stem_of(path@) is None,
        },
{
    match file_name(path) {
        Some(name) => Some(stem_of(name.as_str())),
        None => None,
    }
}

} // verus!
