use vstd::prelude::*;
use vstd::string::StrSliceExecFns;

verus! {

/// One compiled piece of a route pattern: a literal path segment that must
/// match exactly, or a wildcard standing for a named placeholder (`:name`)
/// that captures exactly one non-empty path segment.
#[derive(Debug)]
pub enum Segment {
    Literal(String),
    Wildcard,
}

/// The mathematical shape of a `Segment`.
pub enum SegView {
    Literal(Seq<char>),
    Wildcard,
}

pub open spec fn seg_view(s: Segment) -> SegView {
    match s {
        Segment::Literal(l) => SegView::Literal(l@),
        Segment::Wildcard => SegView::Wildcard,
    }
}

pub open spec fn seg_views(v: Seq<Segment>) -> Seq<SegView> {
    Seq::new(v.len(), |i: int| seg_view(v[i]))
}

pub open spec fn str_views(v: Seq<String>) -> Seq<Seq<char>> {
    Seq::new(v.len(), |i: int| v[i]@)
}

/// A path or pattern, split at every `/`. The separators are dropped; the
/// result always holds at least one (possibly empty) piece.
pub open spec fn spec_split(s: Seq<char>) -> Seq<Seq<char>>
    decreases s.len(),
{
    if s.len() == 0 {
        seq![Seq::<char>::empty()]
    } else {
        let init = spec_split(s.drop_last());
        if s.last() == '/' {
            init.push(Seq::<char>::empty())
        } else {
            init.update(init.len() - 1, init.last().push(s.last()))
        }
    }
}

/// A pattern piece that names a placeholder, written `:name`.
pub open spec fn is_placeholder(piece: Seq<char>) -> bool {
    piece.len() > 0 && piece[0] == ':'
}

pub open spec fn compile_seg(piece: Seq<char>) -> SegView {
    if is_placeholder(piece) {
        SegView::Wildcard
    } else {
        SegView::Literal(piece)
    }
}

/// The compiled form of a whole pattern: one segment per piece.
pub open spec fn compile_pattern_spec(pattern: Seq<char>) -> Seq<SegView> {
    spec_split(pattern).map_values(|piece: Seq<char>| compile_seg(piece))
}

/// The placeholder names of a pattern's pieces, in order, `:` stripped.
pub open spec fn names_of(pieces: Seq<Seq<char>>) -> Seq<Seq<char>>
    decreases pieces.len(),
{
    if pieces.len() == 0 {
        Seq::empty()
    } else {
        let init = names_of(pieces.drop_last());
        if is_placeholder(pieces.last()) {
            init.push(pieces.last().drop_first())
        } else {
            init
        }
    }
}

pub open spec fn seg_matches(seg: SegView, piece: Seq<char>) -> bool {
    match seg {
        SegView::Literal(l) => l == piece,
        SegView::Wildcard => piece.len() > 0,
    }
}

/// A compiled pattern matches a split path when they have the same number of
/// pieces and every piece matches its segment.
pub open spec fn segs_match(segs: Seq<SegView>, pieces: Seq<Seq<char>>) -> bool {
    &&& segs.len() == pieces.len()
    &&& forall|i: int| 0 <= i < segs.len() ==> seg_matches(segs[i], pieces[i])
}

/// The path pieces standing at the wildcard positions of a pattern, in order:
/// the exact substrings a match captures.
pub open spec fn captures_of(segs: Seq<SegView>, pieces: Seq<Seq<char>>) -> Seq<Seq<char>>
    decreases segs.len(),
{
    if segs.len() == 0 || pieces.len() == 0 {
        Seq::empty()
    } else {
        let init = captures_of(segs.drop_last(), pieces.drop_last());
        match segs.last() {
            SegView::Wildcard => init.push(pieces.last()),
            SegView::Literal(_) => init,
        }
    }
}

/// How many wildcards stand among the first `p` segments.
pub open spec fn wildcards_before(segs: Seq<SegView>, p: int) -> int
    decreases p,
{
    if p <= 0 {
        0
    } else {
        wildcards_before(segs, p - 1) + if segs[p - 1] is Wildcard {
            1int
        } else {
            0int
        }
    }
}

pub proof fn lemma_wildcards_before_bounds(segs: Seq<SegView>, p: int)
    requires
        0 <= p,
    ensures
        0 <= wildcards_before(segs, p) <= p,
    decreases p,
{
    if p > 0 {
        lemma_wildcards_before_bounds(segs, p - 1);
    }
}

pub proof fn lemma_wildcards_before_drop_last(segs: Seq<SegView>, p: int)
    requires
        0 <= p < segs.len(),
    ensures
        wildcards_before(segs.drop_last(), p) == wildcards_before(segs, p),
    decreases p,
{
    if p > 0 {
        lemma_wildcards_before_drop_last(segs, p - 1);
        assert(segs.drop_last()[p - 1] == segs[p - 1]);
    }
}

/// A match captures one piece per wildcard.
pub proof fn lemma_captures_len(segs: Seq<SegView>, pieces: Seq<Seq<char>>)
    requires
        segs.len() == pieces.len(),
    ensures
        captures_of(segs, pieces).len() == wildcards_before(segs, segs.len() as int),
    decreases segs.len(),
{
    if segs.len() > 0 {
        lemma_captures_len(segs.drop_last(), pieces.drop_last());
        lemma_wildcards_before_drop_last(segs, segs.len() - 1);
    }
}

/// The captured values are the exact path pieces standing at the wildcard
/// positions: the piece at wildcard position `p` is capture number
/// `wildcards_before(segs, p)`.
pub proof fn lemma_capture_positions(segs: Seq<SegView>, pieces: Seq<Seq<char>>, p: int)
    requires
        segs.len() == pieces.len(),
        0 <= p < segs.len(),
        segs[p] is Wildcard,
    ensures
        0 <= wildcards_before(segs, p) < captures_of(segs, pieces).len(),
        captures_of(segs, pieces)[wildcards_before(segs, p)] == pieces[p],
    decreases segs.len(),
{
    lemma_wildcards_before_bounds(segs, p);
    lemma_captures_len(segs, pieces);
    lemma_wildcards_before_drop_last(segs, p);
    if p == segs.len() - 1 {
        lemma_captures_len(segs.drop_last(), pieces.drop_last());
    } else {
        assert(segs.drop_last()[p] == segs[p]);
        assert(pieces.drop_last()[p] == pieces[p]);
        lemma_capture_positions(segs.drop_last(), pieces.drop_last(), p);
    }
}

/// A pattern's pieces record one name per wildcard of its compiled form.
pub proof fn lemma_names_are_wildcards(pieces: Seq<Seq<char>>)
    ensures
        names_of(pieces).len() == wildcards_before(
            pieces.map_values(|p: Seq<char>| compile_seg(p)),
            pieces.len() as int,
        ),
    decreases pieces.len(),
{
    if pieces.len() > 0 {
        lemma_names_are_wildcards(pieces.drop_last());
        let segs = pieces.map_values(|p: Seq<char>| compile_seg(p));
        assert(pieces.drop_last().map_values(|p: Seq<char>| compile_seg(p)) =~= segs.drop_last());
        lemma_wildcards_before_drop_last(segs, pieces.len() - 1);
        assert(segs[pieces.len() - 1] == compile_seg(pieces.last()));
    }
}

/// Placeholder names zipped against captured values, in order. A name beyond
/// the captures available is left unset; a capture without a name is ignored.
pub open spec fn zip_params(names: Seq<Seq<char>>, caps: Seq<Seq<char>>) -> Seq<
    (Seq<char>, Seq<char>),
> {
    let n = if names.len() <= caps.len() {
        names.len()
    } else {
        caps.len()
    };
    Seq::new(n, |i: int| (names[i], caps[i]))
}

/// Character-for-character string comparison.
pub fn str_eq(a: &str, b: &str) -> (r: bool)
    ensures
        r == (a@ == b@),
{
    let alen = a.unicode_len();
    let blen = b.unicode_len();
    if alen != blen {
        return false;
    }
    let mut i: usize = 0;
    while i < alen
        invariant
            alen == a@.len(),
            blen == b@.len(),
            alen == blen,
            i <= alen,
            forall|j: int| 0 <= j < i ==> a@[j] == b@[j],
        decreases alen - i,
    {
        if a.get_char(i) != b.get_char(i) {
            return false;
        }
        i = i + 1;
    }
    proof {
        assert(a@ =~= b@);
    }
    true
}

/// Splits a path or pattern at every `/`, exactly as `spec_split` says.
pub fn split_path(s: &str) -> (r: Vec<String>)
    ensures
        str_views(r@) == spec_split(s@),
{
    let n = s.unicode_len();
    let mut pieces: Vec<String> = Vec::new();
    let mut start: usize = 0;
    let mut i: usize = 0;
    proof {
        assert(s@.take(0) =~= Seq::<char>::empty());
        assert(s@.subrange(0, 0) =~= Seq::<char>::empty());
        assert(str_views(pieces@).push(s@.subrange(0, 0)) =~= seq![Seq::<char>::empty()]);
    }
    while i < n
        invariant
            n == s@.len(),
            start <= i <= n,
            spec_split(s@.take(i as int)) == str_views(pieces@).push(
                s@.subrange(start as int, i as int),
            ),
        decreases n - i,
    {
        let ghost t0 = s@.take(i as int);
        let ghost old_pieces = pieces@;
        let ghost old_start = start as int;
        let c = s.get_char(i);
        if c == '/' {
            let piece = s.substring_char(start, i).to_owned();
            pieces.push(piece);
            start = i + 1;
        }
        i = i + 1;
        proof {
            let t1 = s@.take(i as int);
            assert(t1.drop_last() =~= t0);
            assert(t1.last() == s@[i - 1]);
            if c == '/' {
                assert(str_views(pieces@) =~= str_views(old_pieces).push(
                    s@.subrange(old_start, i - 1),
                ));
                assert(s@.subrange(start as int, i as int) =~= Seq::<char>::empty());
                assert(spec_split(t1) =~= str_views(pieces@).push(
                    s@.subrange(start as int, i as int),
                ));
            } else {
                assert(s@.subrange(old_start, i - 1).push(s@[i - 1]) =~= s@.subrange(
                    old_start,
                    i as int,
                ));
                assert(spec_split(t1) =~= str_views(pieces@).push(
                    s@.subrange(start as int, i as int),
                ));
            }
        }
    }
    let piece = s.substring_char(start, n).to_owned();
    pieces.push(piece);
    proof {
        assert(s@.take(n as int) =~= s@);
        assert(str_views(pieces@) =~= spec_split(s@));
    }
    pieces
}

} // verus!
