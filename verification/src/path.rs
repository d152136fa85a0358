//! Path normalization.
//!
//! A candidate path is modelled as the sequence of its `/`-separated pieces.
//! Normalizing keeps only the "normal" pieces — plain names — and drops
//! everything a traversal root may have prefixed: current-directory markers
//! (`.`), parent-directory markers (`..`) and root markers (empty pieces, as
//! produced by a leading or doubled separator). Normalization never fails; a
//! path with no normal piece normalizes to the empty path.

use vstd::prelude::*;

verus! {

/// The characters of `s` split on `/`. The result always has at least one
/// piece; separators at the edges or doubled in the middle yield empty pieces.
pub open spec fn split_path(s: Seq<char>) -> Seq<Seq<char>>
    decreases s.len(),
{
    if s.len() == 0 {
        seq![Seq::<char>::empty()]
    } else if s[0] == '/' {
        seq![Seq::<char>::empty()] + split_path(s.skip(1))
    } else {
        let rest = split_path(s.skip(1));
        seq![seq![s[0]] + rest[0]] + rest.skip(1)
    }
}

/// A piece that survives normalization: a plain name, not a marker.
pub open spec fn is_normal_component(c: Seq<char>) -> bool {
    c.len() > 0 && c != seq!['.'] && c != seq!['.', '.']
}

/// `c` contains no separator, as every piece produced by `split_path` does.
pub open spec fn slash_free(c: Seq<char>) -> bool {
    forall|j: int| 0 <= j < c.len() ==> c[j] != '/'
}

/// The subsequence of `pieces` that are normal components, order kept.
pub open spec fn normal_components(pieces: Seq<Seq<char>>) -> Seq<Seq<char>>
    decreases pieces.len(),
{
    if pieces.len() == 0 {
        Seq::empty()
    } else if is_normal_component(pieces[0]) {
        seq![pieces[0]] + normal_components(pieces.skip(1))
    } else {
        normal_components(pieces.skip(1))
    }
}

/// `pieces` joined back into one path with `/` between consecutive pieces.
pub open spec fn join_path(pieces: Seq<Seq<char>>) -> Seq<char>
    decreases pieces.len(),
{
    if pieces.len() == 0 {
        Seq::empty()
    } else if pieces.len() == 1 {
        pieces[0]
    } else {
        pieces[0] + seq!['/'] + join_path(pieces.skip(1))
    }
}

/// The normal pieces of `s`, in order: what matching and naming see.
pub open spec fn path_components(s: Seq<char>) -> Seq<Seq<char>> {
    normal_components(split_path(s))
}

/// The normalized form of `s`: its normal pieces, rejoined.
pub open spec fn normalize_spec(s: Seq<char>) -> Seq<char> {
    join_path(path_components(s))
}

/// The views of a vector of character vectors.
pub open spec fn views_of(pieces: Seq<Vec<char>>) -> Seq<Seq<char>> {
    pieces.map_values(|p: Vec<char>| p@)
}

pub proof fn lemma_split_path_len(s: Seq<char>)
    ensures
        split_path(s).len() >= 1,
    decreases s.len(),
{
    if s.len() != 0 {
        lemma_split_path_len(s.skip(1));
    }
}

pub proof fn lemma_split_path_slash_free(s: Seq<char>)
    ensures
        forall|i: int| 0 <= i < split_path(s).len() ==> slash_free(#[trigger] split_path(s)[i]),
    decreases s.len(),
{
    if s.len() == 0 {
        assert(slash_free(Seq::<char>::empty()));
    } else if s[0] == '/' {
        lemma_split_path_slash_free(s.skip(1));
        assert(slash_free(Seq::<char>::empty()));
        assert forall|i: int| 0 <= i < split_path(s).len() implies slash_free(
            #[trigger] split_path(s)[i],
        ) by {
            if i > 0 {
                assert(split_path(s)[i] == split_path(s.skip(1))[i - 1]);
            }
        }
    } else {
        lemma_split_path_slash_free(s.skip(1));
        lemma_split_path_len(s.skip(1));
        let rest = split_path(s.skip(1));
        assert(slash_free(rest[0]));
        assert(slash_free(seq![s[0]] + rest[0]));
        assert forall|i: int| 0 <= i < split_path(s).len() implies slash_free(
            #[trigger] split_path(s)[i],
        ) by {
            if i == 0 {
                assert(split_path(s)[0] == seq![s[0]] + rest[0]);
            } else {
                assert(split_path(s)[i] == rest.skip(1)[i - 1]);
                assert(rest.skip(1)[i - 1] == rest[i]);
            }
        }
    }
}

pub proof fn lemma_normal_components_normal(pieces: Seq<Seq<char>>)
    ensures
        forall|i: int|
            0 <= i < normal_components(pieces).len() ==> is_normal_component(
                #[trigger] normal_components(pieces)[i],
            ),
        forall|i: int|
            0 <= i < normal_components(pieces).len() ==> exists|k: int|
                0 <= k < pieces.len() && #[trigger] normal_components(pieces)[i] == pieces[k],
    decreases pieces.len(),
{
    if pieces.len() != 0 {
        lemma_normal_components_normal(pieces.skip(1));
        assert forall|i: int| 0 <= i < normal_components(pieces).len() implies is_normal_component(
            #[trigger] normal_components(pieces)[i],
        ) by {
            let tail = normal_components(pieces.skip(1));
            if is_normal_component(pieces[0]) {
                if i == 0 {
                    assert(normal_components(pieces)[0] == pieces[0]);
                } else {
                    assert(normal_components(pieces)[i] == tail[i - 1]);
                }
            } else {
                assert(normal_components(pieces)[i] == tail[i]);
            }
        }
        assert forall|i: int| 0 <= i < normal_components(pieces).len() implies exists|k: int|
            0 <= k < pieces.len() && #[trigger] normal_components(pieces)[i] == pieces[k] by {
            if is_normal_component(pieces[0]) && i == 0 {
                assert(normal_components(pieces)[0] == pieces[0]);
            } else {
                let tail = normal_components(pieces.skip(1));
                let j = if is_normal_component(pieces[0]) {
                    i - 1
                } else {
                    i
                };
                let k = choose|k: int| 0 <= k < pieces.skip(1).len() && tail[j] == pieces.skip(
                    1,
                )[k];
                assert(normal_components(pieces)[i] == pieces[k + 1]);
            }
        }
    }
}

/// Filtering to the normal components is a no-op when every piece is
/// already normal.
pub proof fn lemma_normal_components_idem(pieces: Seq<Seq<char>>)
    requires
        forall|i: int| 0 <= i < pieces.len() ==> is_normal_component(#[trigger] pieces[i]),
    ensures
        normal_components(pieces) == pieces,
    decreases pieces.len(),
{
    if pieces.len() == 0 {
        assert(normal_components(pieces) =~= pieces);
    } else {
        assert(is_normal_component(pieces[0]));
        lemma_normal_components_idem(pieces.skip(1));
        assert(seq![pieces[0]] + pieces.skip(1) =~= pieces);
    }
}

/// Splitting a single slash-free piece gives that piece back alone.
proof fn lemma_split_single(c: Seq<char>)
    requires
        slash_free(c),
    ensures
        split_path(c) == seq![c],
    decreases c.len(),
{
    if c.len() == 0 {
        assert(c =~= Seq::<char>::empty());
        assert(split_path(c) =~= seq![c]);
    } else {
        assert(c[0] != '/');
        assert(slash_free(c.skip(1))) by {
            assert(forall|j: int| 0 <= j < c.skip(1).len() ==> c.skip(1)[j] == c[j + 1]);
        }
        lemma_split_single(c.skip(1));
        let rest = split_path(c.skip(1));
        assert(rest[0] == c.skip(1));
        assert(seq![c[0]] + c.skip(1) =~= c);
        assert(rest.skip(1) =~= Seq::<Seq<char>>::empty());
        assert(split_path(c) == seq![seq![c[0]] + rest[0]] + rest.skip(1));
        assert(seq![seq![c[0]] + rest[0]] + rest.skip(1) =~= seq![c]);
    }
}

/// Splitting `a` + `/` + `t` splits off `a` as the first piece, when `a` is
/// slash-free.
proof fn lemma_split_prepend(a: Seq<char>, t: Seq<char>)
    requires
        slash_free(a),
    ensures
        split_path(a + seq!['/'] + t) == seq![a] + split_path(t),
    decreases a.len(),
{
    let s = a + seq!['/'] + t;
    if a.len() == 0 {
        assert(a =~= Seq::<char>::empty());
        assert(s.len() >= 1 && s[0] == '/');
        assert(s.skip(1) =~= t);
        assert(seq![Seq::<char>::empty()] + split_path(t) =~= seq![a] + split_path(t));
    } else {
        assert(s[0] == a[0]);
        assert(s[0] != '/');
        assert(slash_free(a.skip(1))) by {
            assert(forall|j: int| 0 <= j < a.skip(1).len() ==> a.skip(1)[j] == a[j + 1]);
        }
        assert(s.skip(1) =~= a.skip(1) + seq!['/'] + t);
        lemma_split_prepend(a.skip(1), t);
        let rest = split_path(s.skip(1));
        assert(rest == seq![a.skip(1)] + split_path(t));
        assert(rest[0] == a.skip(1));
        assert(seq![s[0]] + a.skip(1) =~= a);
        assert(rest.skip(1) =~= split_path(t));
        assert(split_path(s) =~= seq![a] + split_path(t));
    }
}

/// Joining and re-splitting a non-empty run of slash-free pieces is the
/// identity.
pub proof fn lemma_split_join(pieces: Seq<Seq<char>>)
    requires
        pieces.len() >= 1,
        forall|i: int| 0 <= i < pieces.len() ==> slash_free(#[trigger] pieces[i]),
    ensures
        split_path(join_path(pieces)) == pieces,
    decreases pieces.len(),
{
    if pieces.len() == 1 {
        lemma_split_single(pieces[0]);
        assert(split_path(join_path(pieces)) =~= pieces);
    } else {
        assert(forall|i: int|
            0 <= i < pieces.skip(1).len() ==> slash_free(#[trigger] pieces.skip(1)[i]));
        lemma_split_join(pieces.skip(1));
        lemma_split_prepend(pieces[0], join_path(pieces.skip(1)));
        assert(seq![pieces[0]] + pieces.skip(1) =~= pieces);
    }
}

/// The normal pieces of a normalized path are exactly the normal pieces of
/// the original path: matching sees through normalization.
pub proof fn lemma_components_normalize(s: Seq<char>)
    ensures
        path_components(normalize_spec(s)) == path_components(s),
{
    let cs = path_components(s);
    lemma_split_path_slash_free(s);
    lemma_normal_components_normal(split_path(s));
    assert(forall|i: int| 0 <= i < cs.len() ==> slash_free(#[trigger] cs[i]));
    assert(forall|i: int| 0 <= i < cs.len() ==> is_normal_component(#[trigger] cs[i]));
    if cs.len() == 0 {
        assert(normalize_spec(s) == Seq::<char>::empty());
        assert(split_path(Seq::<char>::empty()) == seq![Seq::<char>::empty()]);
        assert(!is_normal_component(Seq::<char>::empty()));
        assert(seq![Seq::<char>::empty()].skip(1) =~= Seq::<Seq<char>>::empty());
        assert(normal_components(Seq::<Seq<char>>::empty()) == Seq::<Seq<char>>::empty());
        assert(normal_components(seq![Seq::<char>::empty()]) == normal_components(
            seq![Seq::<char>::empty()].skip(1),
        ));
        assert(path_components(normalize_spec(s)) =~= cs);
    } else {
        lemma_split_join(cs);
        lemma_normal_components_idem(cs);
    }
}

/// Normalization is idempotent: normalizing an already-normalized path
/// changes nothing.
pub proof fn lemma_normalize_idempotent(s: Seq<char>)
    ensures
        normalize_spec(normalize_spec(s)) == normalize_spec(s),
{
    lemma_components_normalize(s);
}

/// Whether `c` is a normal component: a non-empty plain name, not `.` or
/// `..`.
pub fn check_normal_component(c: &Vec<char>) -> (r: bool)
    ensures
        r == is_normal_component(c@),
{
    if c.len() == 0 {
        assert(!is_normal_component(c@));
        false
    } else if c.len() == 1 && c[0] == '.' {
        assert(c@ =~= seq!['.']);
        false
    } else if c.len() == 2 && c[0] == '.' && c[1] == '.' {
        assert(c@ =~= seq!['.', '.']);
        false
    } else {
        assert(c@ != seq!['.']) by {
            if c@ == seq!['.'] {
                assert(c@.len() == 1 && c@[0] == '.');
            }
        }
        assert(c@ != seq!['.', '.']) by {
            if c@ == seq!['.', '.'] {
                assert(c@.len() == 2 && c@[0] == '.' && c@[1] == '.');
            }
        }
        true
    }
}

/// Splits `p` (from index `from` on) at every `/`.
pub fn split_from(p: &Vec<char>, from: usize) -> (r: Vec<Vec<char>>)
    requires
        from <= p@.len(),
    ensures
        views_of(r@) == split_path(p@.skip(from as int)),
    decreases p@.len() - from,
{
    let s = Ghost(p@.skip(from as int));
    if from == p.len() {
        let mut r: Vec<Vec<char>> = Vec::new();
        r.push(Vec::new());
        proof {
            assert(s@ =~= Seq::<char>::empty());
            assert(views_of(r@) =~= split_path(s@));
        }
        r
    } else {
        proof {
            assert(s@[0] == p@[from as int]);
            assert(s@.skip(1) =~= p@.skip(from + 1 as int));
        }
        if p[from] == '/' {
            let mut r = split_from(p, from + 1);
            r.insert(0, Vec::new());
            proof {
                assert(views_of(r@) =~= seq![Seq::<char>::empty()] + split_path(s@.skip(1)));
            }
            r
        } else {
            let mut r = split_from(p, from + 1);
            proof {
                lemma_split_path_len(s@.skip(1));
            }
            let mut head = r.remove(0);
            head.insert(0, p[from]);
            r.insert(0, head);
            proof {
                let rest = split_path(s@.skip(1));
                assert(head@ =~= seq![s@[0]] + rest[0]);
                assert(views_of(r@) =~= seq![seq![s@[0]] + rest[0]] + rest.skip(1));
            }
            r
        }
    }
}

/// Keeps, in order, the pieces (from index `from` on) that are normal
/// components.
pub fn filter_normal(pieces: &Vec<Vec<char>>, from: usize) -> (r: Vec<Vec<char>>)
    requires
        from <= pieces@.len(),
    ensures
        views_of(r@) == normal_components(views_of(pieces@).skip(from as int)),
    decreases pieces@.len() - from,
{
    let s = Ghost(views_of(pieces@).skip(from as int));
    if from == pieces.len() {
        let r: Vec<Vec<char>> = Vec::new();
        proof {
            assert(s@ =~= Seq::<Seq<char>>::empty());
            assert(views_of(r@) =~= normal_components(s@));
        }
        r
    } else {
        proof {
            assert(s@[0] == pieces@[from as int]@);
            assert(s@.skip(1) =~= views_of(pieces@).skip(from + 1 as int));
        }
        let keep = check_normal_component(&pieces[from]);
        let mut r = filter_normal(pieces, from + 1);
        if keep {
            let mut head: Vec<char> = Vec::new();
            push_all(&mut head, &pieces[from]);
            r.insert(0, head);
            proof {
                assert(views_of(r@) =~= seq![s@[0]] + normal_components(s@.skip(1)));
            }
        }
        r
    }
}

/// Joins the pieces (from index `from` on) with `/` between them.
pub fn join_pieces(pieces: &Vec<Vec<char>>, from: usize) -> (r: Vec<char>)
    requires
        from <= pieces@.len(),
    ensures
        r@ == join_path(views_of(pieces@).skip(from as int)),
    decreases pieces@.len() - from,
{
    let s = Ghost(views_of(pieces@).skip(from as int));
    if from == pieces.len() {
        let r: Vec<char> = Vec::new();
        proof {
            assert(s@ =~= Seq::<Seq<char>>::empty());
        }
        r
    } else if from + 1 == pieces.len() {
        let mut r: Vec<char> = Vec::new();
        push_all(&mut r, &pieces[from]);
        proof {
            assert(s@.len() == 1);
            assert(r@ == s@[0]);
        }
        r
    } else {
        proof {
            assert(s@.len() >= 2);
            assert(s@[0] == pieces@[from as int]@);
            assert(s@.skip(1) =~= views_of(pieces@).skip(from + 1 as int));
        }
        let mut r: Vec<char> = Vec::new();
        push_all(&mut r, &pieces[from]);
        r.push('/');
        let tail = join_pieces(pieces, from + 1);
        push_all(&mut r, &tail);
        proof {
            assert(r@ =~= s@[0] + seq!['/'] + join_path(s@.skip(1)));
        }
        r
    }
}

/// Appends every character of `src` to `dst`.
pub fn push_all(dst: &mut Vec<char>, src: &Vec<char>)
    ensures
        final(dst)@ == old(dst)@ + src@,
{
    let mut i: usize = 0;
    while i < src.len()
        invariant
            i <= src@.len(),
            dst@ == old(dst)@ + src@.take(i as int),
        decreases src@.len() - i,
    {
        dst.push(src[i]);
        proof {
            assert(old(dst)@ + src@.take(i as int + 1) =~= (old(dst)@ + src@.take(i as int)).push(
                src@[i as int],
            ));
        }
        i = i + 1;
    }
    proof {
        assert(src@.take(src@.len() as int) =~= src@);
    }
}

/// The normal components of `path`, as character vectors, in order.
pub fn components_of(path: &Vec<char>) -> (r: Vec<Vec<char>>)
    ensures
        views_of(r@) == path_components(path@),
{
    let pieces = split_from(path, 0);
    proof {
        assert(path@.skip(0) =~= path@);
    }
    let r = filter_normal(&pieces, 0);
    proof {
        assert(views_of(pieces@).skip(0) =~= views_of(pieces@));
    }
    r
}

/// Strips every root, current-directory and parent-directory marker from
/// `path`, keeping its plain name pieces in order, joined with `/`.
pub fn normalize_path(path: &str) -> (r: String)
    ensures
        r@ == normalize_spec(path@),
{
    let chars = crate::text::str_to_chars(path);
    let comps = components_of(&chars);
    let joined = join_pieces(&comps, 0);
    proof {
        assert(views_of(comps@).skip(0) =~= views_of(comps@));
    }
    crate::text::chars_to_string(&joined)
}

} // verus!
