//! Unix paths as text, with the component structure `std::path::Path` gives
//! them: a leading `/` for an absolute path, a leading `.` kept only at the
//! start of a relative path, then every non-empty part other than `.`.

use vstd::prelude::*;

use crate::chars::{
    chars_eq, chars_eq_str, chars_of, copy_range, lemma_split_join, lemma_split_lead_join,
    lemma_split_on_append, lemma_split_on_len, lemma_split_on_pieces, lemma_split_on_single, join_with, push_chars, push_joined, split_chars, split_on,
    vec_views,
};

verus! {

broadcast use vstd::seq_lib::group_seq_properties;

/// A part between slashes that names something: not empty and not `.`.
pub open spec fn is_named_part(part: Seq<char>) -> bool {
    part.len() > 0 && part != seq!['.']
}

/// The parts of `parts` that name something, in order.
pub open spec fn named_parts(parts: Seq<Seq<char>>) -> Seq<Seq<char>>
    decreases parts.len(),
{
    if parts.len() == 0 {
        Seq::empty()
    } else if is_named_part(parts.last()) {
        named_parts(parts.drop_last()).push(parts.last())
    } else {
        named_parts(parts.drop_last())
    }
}

/// The components of path `p`: `/` for the root, `.` only as the first
/// component of a relative path, then the named parts.
pub open spec fn path_components(p: Seq<char>) -> Seq<Seq<char>> {
    let parts = split_on(p, '/');
    if p.len() > 0 && p[0] == '/' {
        seq![seq!['/']] + named_parts(parts.drop_first())
    } else if parts[0] == seq!['.'] {
        seq![seq!['.']] + named_parts(parts.drop_first())
    } else {
        named_parts(parts)
    }
}

/// The path that the components spell, as `PathBuf` collects them.
pub open spec fn render_components(c: Seq<Seq<char>>) -> Seq<char> {
    if c.len() > 0 && c[0] == seq!['/'] {
        seq!['/'] + join_with(c.drop_first(), '/')
    } else {
        join_with(c, '/')
    }
}

/// `PathBuf::join`: an absolute `rel` replaces `base`; otherwise a `/` is put
/// between them unless `base` is empty or already ends in one.
pub open spec fn joined_path(base: Seq<char>, rel: Seq<char>) -> Seq<char> {
    if rel.len() > 0 && rel[0] == '/' {
        rel
    } else if base.len() > 0 && base.last() != '/' {
        base.push('/') + rel
    } else {
        base + rel
    }
}

/// `Path::parent`, in normalized form: `None` for the root and the empty
/// path.
pub open spec fn parent_path(p: Seq<char>) -> Option<Seq<char>> {
    let c = path_components(p);
    if c.len() == 0 || c.last() == seq!['/'] {
        None
    } else {
        Some(render_components(c.drop_last()))
    }
}

/// A component that names a file or directory (not the root, `.` or `..`).
pub open spec fn is_normal_component(c: Seq<char>) -> bool {
    c != seq!['/'] && c != seq!['.'] && c != seq!['.', '.']
}

/// The last `.` of `name` before position `n`.
pub open spec fn last_dot(name: Seq<char>, n: int) -> Option<int>
    decreases n,
{
    if n <= 0 {
        None
    } else if name[n - 1] == '.' {
        Some(n - 1)
    } else {
        last_dot(name, n - 1)
    }
}

/// `Path::extension` of a file name: what follows its last `.`, unless the
/// name has no `.` or only a leading one.
pub open spec fn extension(name: Seq<char>) -> Option<Seq<char>> {
    match last_dot(name, name.len() as int) {
        None => None,
        Some(k) => if k == 0 {
            None
        } else {
            Some(name.skip(k + 1))
        },
    }
}

proof fn lemma_named_parts_push(parts: Seq<Seq<char>>, x: Seq<char>)
    ensures
        named_parts(parts.push(x)) == if is_named_part(x) {
            named_parts(parts).push(x)
        } else {
            named_parts(parts)
        },
{
    assert(parts.push(x).drop_last() == parts);
}

/// The named parts of `parts[from..]`.
fn collect_named(parts: &Vec<Vec<char>>, from: usize, out: &mut Vec<Vec<char>>)
    requires
        from <= parts@.len(),
    ensures
        vec_views(final(out)@) == vec_views(old(out)@) + named_parts(
            vec_views(parts@).skip(from as int),
        ),
{
    let ghost views = vec_views(parts@).skip(from as int);
    let ghost start = vec_views(out@);
    let mut i: usize = from;
    assert(views.take(0) == Seq::<Seq<char>>::empty());
    while i < parts.len()
        invariant
            from <= i <= parts@.len(),
            views == vec_views(parts@).skip(from as int),
            vec_views(out@) == start + named_parts(views.take(i - from)),
        decreases parts@.len() - i,
    {
        let piece = &parts[i];
        proof {
            assert(views.take(i - from + 1) == views.take(i - from).push(parts@[i as int]@));
            lemma_named_parts_push(views.take(i - from), parts@[i as int]@);
        }
        let named = piece.len() > 0 && !(piece.len() == 1 && piece[0] == '.');
        proof {
            if piece@ == seq!['.'] {
                assert(piece@[0] == '.');
            }
            if piece@.len() == 1 && piece@[0] == '.' {
                assert(piece@ == seq!['.']);
            }
        }
        if named {
            let ghost before = vec_views(out@);
            out.push(copy_range(piece.as_slice(), 0, piece.len()));
            assert(piece@.subrange(0, piece@.len() as int) == piece@);
            assert(vec_views(out@) == before.push(piece@));
        }
        i += 1;
    }
    assert(views.take(parts@.len() - from) == views);
}

/// `Path::components`, each component as text.
pub fn components(p: &[char]) -> (c: Vec<Vec<char>>)
    ensures
        vec_views(c@) == path_components(p@),
{
    let parts = split_chars(p, '/');
    proof {
        crate::chars::lemma_split_on_len(p@, '/');
    }
    let mut out: Vec<Vec<char>> = Vec::new();
    if p.len() > 0 && p[0] == '/' {
        let mut root: Vec<char> = Vec::new();
        root.push('/');
        out.push(root);
        assert(vec_views(out@) == seq![seq!['/']]);
        collect_named(&parts, 1, &mut out);
        assert(vec_views(parts@).skip(1) == vec_views(parts@).drop_first());
    } else if parts[0].len() == 1 && parts[0][0] == '.' {
        let mut dot: Vec<char> = Vec::new();
        dot.push('.');
        out.push(dot);
        assert(vec_views(parts@)[0] == seq!['.']);
        assert(vec_views(out@) == seq![seq!['.']]);
        collect_named(&parts, 1, &mut out);
        assert(vec_views(parts@).skip(1) == vec_views(parts@).drop_first());
    } else {
        proof {
            if vec_views(parts@)[0] == seq!['.'] {
                assert(parts@[0]@[0] == '.');
            }
        }
        collect_named(&parts, 0, &mut out);
        assert(vec_views(parts@).skip(0) == vec_views(parts@));
        assert(vec_views(out@) == named_parts(vec_views(parts@)));
    }
    out
}

/// The path that components `c` spell.
pub fn render(c: &Vec<Vec<char>>) -> (p: Vec<char>)
    ensures
        p@ == render_components(vec_views(c@)),
{
    let mut out: Vec<char> = Vec::new();
    if c.len() > 0 && c[0].len() == 1 && c[0][0] == '/' {
        assert(vec_views(c@)[0] == seq!['/']);
        out.push('/');
        let mut rest: Vec<Vec<char>> = Vec::new();
        let mut i: usize = 1;
        while i < c.len()
            invariant
                1 <= i <= c@.len(),
                vec_views(rest@) == vec_views(c@).subrange(1, i as int),
            decreases c@.len() - i,
        {
            let ghost before = vec_views(rest@);
            rest.push(copy_range(c[i].as_slice(), 0, c[i].len()));
            assert(c@[i as int]@.subrange(0, c@[i as int]@.len() as int) == c@[i as int]@);
            assert(vec_views(rest@) == before.push(c@[i as int]@));
            assert(vec_views(c@).subrange(1, i + 1) == vec_views(c@).subrange(1, i as int).push(
                c@[i as int]@,
            ));
            i += 1;
        }
        assert(vec_views(c@).subrange(1, c@.len() as int) == vec_views(c@).drop_first());
        push_joined(&mut out, &rest, '/');
    } else {
        proof {
            if c@.len() > 0 && vec_views(c@)[0] == seq!['/'] {
                assert(c@[0]@[0] == '/');
            }
        }
        push_joined(&mut out, c, '/');
    }
    out
}

/// `PathBuf::join`.
pub fn join_path(base: &[char], rel: &[char]) -> (p: Vec<char>)
    ensures
        p@ == joined_path(base@, rel@),
{
    if rel.len() > 0 && rel[0] == '/' {
        return copy_range(rel, 0, rel.len());
    }
    let mut out = copy_range(base, 0, base.len());
    if base.len() > 0 && base[base.len() - 1] != '/' {
        out.push('/');
    }
    push_chars(&mut out, rel);
    assert(base@.subrange(0, base@.len() as int) == base@);
    out
}

/// `Path::parent`, normalized.
pub fn parent(p: &[char]) -> (q: Option<Vec<char>>)
    ensures
        match (q, parent_path(p@)) {
            (Some(a), Some(b)) => a@ == b,
            (None, None) => true,
            _ => false,
        },
{
    let mut c = components(p);
    if c.len() == 0 {
        return None;
    }
    let last: usize = c.len() - 1;
    if c[last].len() == 1 && c[last][0] == '/' {
        assert(vec_views(c@).last() == seq!['/']);
        return None;
    }
    proof {
        if vec_views(c@).last() == seq!['/'] {
            assert(c@[last as int]@[0] == '/');
        }
    }
    let ghost before = vec_views(c@);
    c.pop();
    assert(vec_views(c@) == before.drop_last());
    Some(render(&c))
}

/// `Path` equality: two paths are equal when their components are.
pub fn same_path(a: &str, b: &str) -> (eq: bool)
    ensures
        eq == (path_components(a@) == path_components(b@)),
{
    let ca = components(chars_of(a).as_slice());
    let cb = components(chars_of(b).as_slice());
    if ca.len() != cb.len() {
        proof {
            assert(vec_views(ca@).len() != vec_views(cb@).len());
        }
        return false;
    }
    let mut i: usize = 0;
    while i < ca.len()
        invariant
            ca@.len() == cb@.len(),
            vec_views(ca@) == path_components(a@),
            vec_views(cb@) == path_components(b@),
            i <= ca@.len(),
            forall|k: int| 0 <= k < i ==> ca@[k]@ == cb@[k]@,
        decreases ca@.len() - i,
    {
        if !chars_eq(ca[i].as_slice(), cb[i].as_slice()) {
            assert(vec_views(ca@)[i as int] == ca@[i as int]@);
            assert(vec_views(cb@)[i as int] == cb@[i as int]@);
            assert(path_components(a@)[i as int] != path_components(b@)[i as int]);
            return false;
        }
        i += 1;
    }
    assert(vec_views(ca@) =~= vec_views(cb@));
    true
}

// ---------------------------------------------------------------------------
// Files placed beside another
// ---------------------------------------------------------------------------

/// A component that names something and holds no `/`.
pub open spec fn plain_part(x: Seq<char>) -> bool {
    is_named_part(x) && !x.contains('/')
}

/// Components as `path_components` yields them: the first is `/` or a
/// non-empty text without `/` (possibly `.`); the others are plain parts.
pub open spec fn well_formed_components(c: Seq<Seq<char>>) -> bool {
    &&& c.len() > 0 ==> (c[0] == seq!['/'] || (c[0].len() > 0 && !c[0].contains('/')))
    &&& forall|i: int| 1 <= i < c.len() ==> plain_part(#[trigger] c[i])
}

proof fn lemma_named_parts_plain(parts: Seq<Seq<char>>)
    requires
        forall|i: int| 0 <= i < parts.len() ==> !(#[trigger] parts[i]).contains('/'),
    ensures
        forall|i: int| 0 <= i < named_parts(parts).len() ==> plain_part(#[trigger] named_parts(parts)[i]),
    decreases parts.len(),
{
    if parts.len() > 0 {
        let init = parts.drop_last();
        assert forall|i: int| 0 <= i < init.len() implies !(#[trigger] init[i]).contains('/') by {
            assert(init[i] == parts[i]);
        }
        lemma_named_parts_plain(init);
        assert(!parts.last().contains('/')) by {
            assert(parts[parts.len() - 1] == parts.last());
        }
        let before = named_parts(init);
        if is_named_part(parts.last()) {
            assert(named_parts(parts) == before.push(parts.last()));
            assert forall|i: int| 0 <= i < named_parts(parts).len() implies plain_part(
                #[trigger] named_parts(parts)[i],
            ) by {
                if i < before.len() {
                    assert(named_parts(parts)[i] == before[i]);
                }
            }
        } else {
            assert(named_parts(parts) == before);
        }
    }
}

proof fn lemma_named_parts_of_plain(parts: Seq<Seq<char>>)
    requires
        forall|i: int| 0 <= i < parts.len() ==> plain_part(#[trigger] parts[i]),
    ensures
        named_parts(parts) == parts,
    decreases parts.len(),
{
    if parts.len() > 0 {
        let init = parts.drop_last();
        assert forall|i: int| 0 <= i < init.len() implies plain_part(#[trigger] init[i]) by {
            assert(init[i] == parts[i]);
        }
        lemma_named_parts_of_plain(init);
        assert(plain_part(parts.last())) by {
            assert(parts[parts.len() - 1] == parts.last());
        }
        assert(init.push(parts.last()) =~= parts);
    }
}

/// What `path_components` yields is well formed.
pub proof fn lemma_components_well_formed(p: Seq<char>)
    ensures
        well_formed_components(path_components(p)),
{
    let parts = split_on(p, '/');
    lemma_split_on_pieces(p, '/');
    lemma_split_on_len(p, '/');
    let rest = parts.drop_first();
    assert forall|i: int| 0 <= i < rest.len() implies !(#[trigger] rest[i]).contains('/') by {
        assert(rest[i] == parts[i + 1]);
    }
    lemma_named_parts_plain(rest);
    lemma_named_parts_plain(parts);
    let c = path_components(p);
    if p.len() > 0 && p[0] == '/' {
        assert forall|i: int| 1 <= i < c.len() implies plain_part(#[trigger] c[i]) by {
            assert(c[i] == named_parts(rest)[i - 1]);
        }
    } else if parts[0] == seq!['.'] {
        assert(!seq!['.'].contains('/')) by {
            if seq!['.'].contains('/') {
                let i = choose|i: int| 0 <= i < 1 && seq!['.'][i] == '/';
            }
        }
        assert forall|i: int| 1 <= i < c.len() implies plain_part(#[trigger] c[i]) by {
            assert(c[i] == named_parts(rest)[i - 1]);
        }
    } else {
        if c.len() > 0 {
            assert(plain_part(c[0]));
        }
    }
}

/// Rendering well-formed components and reading them back gives them again.
pub proof fn lemma_render_components(c: Seq<Seq<char>>)
    requires
        well_formed_components(c),
    ensures
        path_components(render_components(c)) == c,
{
    if c.len() == 0 {
        assert(render_components(c) == join_with(c, '/'));
        assert(split_on(Seq::<char>::empty(), '/') == seq![Seq::<char>::empty()]);
        assert(named_parts(seq![Seq::<char>::empty()]) == named_parts(Seq::<Seq<char>>::empty()));
    } else if c[0] == seq!['/'] {
        let rest = c.drop_first();
        let p = render_components(c);
        assert(p == seq!['/'] + join_with(rest, '/'));
        assert forall|i: int| 0 <= i < rest.len() implies plain_part(#[trigger] rest[i]) by {
            assert(rest[i] == c[i + 1]);
        }
        if rest.len() == 0 {
            assert(p =~= Seq::<char>::empty().push('/'));
            assert(split_on(p, '/') == split_on(Seq::<char>::empty(), '/').push(Seq::empty()));
            assert(split_on(p, '/').drop_first() =~= seq![Seq::<char>::empty()]);
            assert(named_parts(seq![Seq::<char>::empty()]) == named_parts(Seq::<Seq<char>>::empty()));
            assert(c =~= seq![seq!['/']]);
        } else {
            lemma_split_lead_join(rest, '/');
            assert((seq![Seq::<char>::empty()] + rest).drop_first() =~= rest);
            lemma_named_parts_of_plain(rest);
            assert(seq![seq!['/']] + rest =~= c);
        }
    } else {
        let p = render_components(c);
        assert(p == join_with(c, '/'));
        assert forall|i: int| 0 <= i < c.len() implies !(#[trigger] c[i]).contains('/') by {
            if i >= 1 {
                assert(plain_part(c[i]));
            }
        }
        lemma_split_join(c, '/');
        lemma_join_first(c, '/');
        assert(p[0] != '/') by {
            assert(c[0][0] != '/') by {
                if c[0][0] == '/' {
                    assert(c[0].contains('/'));
                }
            }
        }
        let rest = c.drop_first();
        assert forall|i: int| 0 <= i < rest.len() implies plain_part(#[trigger] rest[i]) by {
            assert(rest[i] == c[i + 1]);
        }
        lemma_named_parts_of_plain(rest);
        if c[0] == seq!['.'] {
            assert(seq![seq!['.']] + rest =~= c);
        } else {
            assert(plain_part(c[0]));
            assert forall|i: int| 0 <= i < c.len() implies plain_part(#[trigger] c[i]) by {}
            lemma_named_parts_of_plain(c);
        }
    }
}

/// Joined text starts with the first piece.
proof fn lemma_join_first(xs: Seq<Seq<char>>, sep: char)
    requires
        xs.len() > 0,
        xs[0].len() > 0,
    ensures
        join_with(xs, sep).len() > 0,
        join_with(xs, sep)[0] == xs[0][0],
    decreases xs.len(),
{
    if xs.len() > 1 {
        lemma_join_first(xs.drop_last(), sep);
    }
}

/// Joining a plain name to a path adds it as the last component.
pub proof fn lemma_join_components(dir: Seq<char>, name: Seq<char>)
    requires
        plain_part(name),
    ensures
        path_components(joined_path(dir, name)) == path_components(dir).push(name),
{
    let j = joined_path(dir, name);
    assert(name[0] != '/') by {
        if name[0] == '/' {
            assert(name.contains('/'));
        }
    }
    lemma_split_on_len(dir, '/');
    if dir.len() == 0 {
        assert(j == name);
        lemma_split_on_single(name, '/');
        assert(dir =~= Seq::<char>::empty());
        assert(split_on(dir, '/') == seq![Seq::<char>::empty()]);
        assert(seq![Seq::<char>::empty()][0] != seq!['.']) by {
            assert(seq![Seq::<char>::empty()][0].len() == 0);
        }
        assert(seq![Seq::<char>::empty()].drop_last() =~= Seq::<Seq<char>>::empty());
        assert(named_parts(seq![Seq::<char>::empty()]) == named_parts(Seq::<Seq<char>>::empty()));
        assert(path_components(dir) =~= Seq::<Seq<char>>::empty());
        assert(named_parts(seq![name]) == named_parts(Seq::<Seq<char>>::empty()).push(name)) by {
            assert(seq![name].drop_last() =~= Seq::<Seq<char>>::empty());
        }
        assert(name != seq!['.']);
        assert(path_components(j) =~= seq![name]);
    } else {
        let base = if dir.last() != '/' {
            dir
        } else {
            dir.drop_last()
        };
        assert(j =~= base.push('/') + name);
        lemma_split_on_append(base, name, '/');
        let pj = split_on(j, '/');
        let pd = split_on(dir, '/');
        lemma_split_on_len(base, '/');
        if dir.last() == '/' {
            assert(dir =~= base.push('/'));
            assert(pd == split_on(base, '/').push(Seq::empty()));
            lemma_named_parts_push(split_on(base, '/'), Seq::empty());
            lemma_named_parts_push(split_on(base, '/').drop_first(), Seq::empty());
            assert(pd.drop_first() =~= split_on(base, '/').drop_first().push(Seq::empty()));
        }
        assert(pj == split_on(base, '/').push(name));
        assert(pj.drop_first() =~= split_on(base, '/').drop_first().push(name));
        lemma_named_parts_push(split_on(base, '/'), name);
        lemma_named_parts_push(split_on(base, '/').drop_first(), name);
        assert(j[0] == dir[0]);
        assert(pj[0] == pd[0]) by {
            if dir.last() == '/' {
                assert(pd[0] == split_on(base, '/')[0]);
            }
        }
        assert(path_components(j) =~= path_components(dir).push(name));
    }
}

/// A plain name joined to the parent of a path lies beside it: the joined
/// path's parent is that parent, and its last component is the name.
pub proof fn lemma_beside(path: Seq<char>, name: Seq<char>)
    requires
        parent_path(path) is Some,
        plain_part(name),
    ensures
        parent_path(joined_path(parent_path(path)->0, name)) == parent_path(path),
        path_components(joined_path(parent_path(path)->0, name)).last() == name,
{
    let c = path_components(path);
    let dir = parent_path(path)->0;
    lemma_components_well_formed(path);
    let init = c.drop_last();
    assert(well_formed_components(init)) by {
        assert forall|i: int| 1 <= i < init.len() implies plain_part(#[trigger] init[i]) by {
            assert(init[i] == c[i]);
        }
    }
    lemma_render_components(init);
    lemma_join_components(dir, name);
    let cj = path_components(joined_path(dir, name));
    assert(cj == init.push(name));
    assert(cj.drop_last() =~= init);
    assert(cj.last() == name);
    assert(name != seq!['/']) by {
        if name == seq!['/'] {
            assert(name[0] == '/');
            assert(name.contains('/'));
        }
    }
}

} // verus!
