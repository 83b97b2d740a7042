use vstd::prelude::*;

verus! {

/// The `/`-separated parts of `p`, empty ones included, in order.
pub open spec fn split_path(p: Seq<char>) -> Seq<Seq<char>>
    decreases p.len(),
{
    if p.len() == 0 {
        seq![Seq::empty()]
    } else if p.last() == '/' {
        split_path(p.drop_last()).push(Seq::empty())
    } else {
        let parts = split_path(p.drop_last());
        parts.update(parts.len() - 1, parts.last().push(p.last()))
    }
}

/// The parts `parts` joined with `/` between them.
pub open spec fn join_path(parts: Seq<Seq<char>>) -> Seq<char>
    decreases parts.len(),
{
    if parts.len() == 0 {
        Seq::empty()
    } else if parts.len() == 1 {
        parts[0]
    } else {
        join_path(parts.drop_last()) + seq!['/'] + parts.last()
    }
}

/// Whether a path part names an entry: it is not empty, `.` or `..`.
pub open spec fn normal_part(part: Seq<char>) -> bool {
    part.len() > 0 && part != seq!['.'] && part != seq!['.', '.']
}

/// The parts among `parts` that name entries, in order.
pub open spec fn normal_parts(parts: Seq<Seq<char>>) -> Seq<Seq<char>>
    decreases parts.len(),
{
    if parts.len() == 0 {
        parts
    } else if normal_part(parts.last()) {
        normal_parts(parts.drop_last()).push(parts.last())
    } else {
        normal_parts(parts.drop_last())
    }
}

/// Whether `p` is a plain relative path: no NUL or `\`, and every
/// `/`-separated part names an entry (so no leading, doubled or trailing
/// `/`, and no `.` or `..` part).
pub open spec fn plain_path(p: Seq<char>) -> bool {
    &&& !p.contains('\0')
    &&& !p.contains('\\')
    &&& forall|i: int| 0 <= i < split_path(p).len() ==> normal_part(#[trigger] split_path(p)[i])
}

/// Splitting a path gives at least one part, and joining the parts gives
/// the path back.
pub proof fn lemma_split_join(p: Seq<char>)
    ensures
        split_path(p).len() >= 1,
        join_path(split_path(p)) == p,
    decreases p.len(),
{
    if p.len() == 0 {
        assert(join_path(split_path(p)) =~= p);
    } else {
        let q = p.drop_last();
        lemma_split_join(q);
        let parts = split_path(q);
        if p.last() == '/' {
            assert(split_path(p).drop_last() =~= parts);
            assert(join_path(split_path(p)) =~= q + seq!['/'] + Seq::<char>::empty());
            assert(join_path(split_path(p)) =~= p);
        } else {
            let now = split_path(p);
            if parts.len() == 1 {
                assert(now[0] =~= p);
            } else {
                assert(now.drop_last() =~= parts.drop_last());
                assert(join_path(parts) == join_path(parts.drop_last()) + seq!['/'] + parts.last());
                assert(join_path(now) == join_path(parts.drop_last()) + seq!['/'] + parts.last().push(p.last()));
                assert(p =~= q.push(p.last()));
                assert(join_path(now) =~= p);
            }
        }
    }
}

/// Keeping the normal parts changes nothing when all parts are normal.
pub proof fn lemma_normal_parts_all(parts: Seq<Seq<char>>)
    requires
        forall|i: int| 0 <= i < parts.len() ==> normal_part(#[trigger] parts[i]),
    ensures
        normal_parts(parts) == parts,
    decreases parts.len(),
{
    if parts.len() > 0 {
        assert forall|i: int| 0 <= i < parts.drop_last().len() implies normal_part(#[trigger] parts.drop_last()[i]) by {
            assert(parts.drop_last()[i] == parts[i]);
        }
        lemma_normal_parts_all(parts.drop_last());
        assert(normal_parts(parts) =~= parts);
    }
}

/// The parts of a plain path are its normal parts, and a trailing `/` adds
/// only an empty part, which is not kept.
pub proof fn lemma_plain_path_parts(p: Seq<char>)
    requires
        plain_path(p),
    ensures
        normal_parts(split_path(p)) == split_path(p),
        normal_parts(split_path(p.push('/'))) == split_path(p),
        join_path(split_path(p)) == p,
{
    lemma_split_join(p);
    lemma_normal_parts_all(split_path(p));
    let q = p.push('/');
    assert(q.drop_last() =~= p);
    assert(split_path(q) == split_path(p).push(Seq::empty()));
    assert(split_path(q).drop_last() =~= split_path(p));
}

} // verus!
