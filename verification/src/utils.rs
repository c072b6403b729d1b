//! Byte and path helpers.
use vstd::prelude::*;
use vstd::utf8::*;
use vstd::string::*;

verus! {

/// The fields of `s` as `str::split('/')` yields them: the maximal runs of
/// characters between slashes, empty ones included. There is always at least one.
pub open spec fn fields(s: Seq<char>) -> Seq<Seq<char>>
    decreases s.len(),
{
    if s.len() == 0 {
        seq![Seq::<char>::empty()]
    } else {
        let prev = fields(s.drop_last());
        if s.last() == '/' {
            prev.push(Seq::<char>::empty())
        } else {
            prev.update(prev.len() - 1, prev.last().push(s.last()))
        }
    }
}

/// The test that keeps a field as a path segment: it is not empty.
pub open spec fn is_segment() -> spec_fn(Seq<char>) -> bool {
    |f: Seq<char>| f.len() > 0
}

/// The segments of a path: its fields between slashes, empty ones dropped.
pub open spec fn path_segments(s: Seq<char>) -> Seq<Seq<char>> {
    fields(s).filter(is_segment())
}

/// `s` with every slash removed.
pub open spec fn without_slashes(s: Seq<char>) -> Seq<char> {
    s.filter(|c: char| c != '/')
}

/// The segments joined by single slashes.
pub open spec fn join_path(segs: Seq<Seq<char>>) -> Seq<char>
    decreases segs.len(),
{
    if segs.len() == 0 {
        Seq::<char>::empty()
    } else if segs.len() == 1 {
        segs[0]
    } else {
        join_path(segs.drop_last()) + seq!['/'] + segs.last()
    }
}

/// A sequence that can stand as one path segment: not empty, and without a slash.
pub open spec fn well_formed_segment(f: Seq<char>) -> bool {
    f.len() > 0 && !f.contains('/')
}

proof fn lemma_fields_nonempty(s: Seq<char>)
    ensures
        fields(s).len() >= 1,
    decreases s.len(),
{
    if s.len() > 0 {
        lemma_fields_nonempty(s.drop_last());
    }
}

/// No field contains a slash.
proof fn lemma_fields_slash_free(s: Seq<char>)
    ensures
        forall|i: int| 0 <= i < fields(s).len() ==> !(#[trigger] fields(s)[i]).contains('/'),
    decreases s.len(),
{
    if s.len() > 0 {
        let p = s.drop_last();
        lemma_fields_slash_free(p);
        lemma_fields_nonempty(p);
        let prev = fields(p);
        if s.last() != '/' {
            let l = prev.last().push(s.last());
            assert forall|i: int| 0 <= i < fields(s).len() implies !(#[trigger] fields(s)[i]).contains('/') by {
                if i == prev.len() - 1 {
                    assert(!prev[i].contains('/'));
                    if l.contains('/') {
                        let k = choose|k: int| 0 <= k < l.len() && l[k] == '/';
                        if k < prev[i].len() {
                            assert(prev[i][k] == '/');
                        }
                    }
                } else {
                    assert(fields(s)[i] == prev[i]);
                }
            }
        } else {
            assert forall|i: int| 0 <= i < fields(s).len() implies !(#[trigger] fields(s)[i]).contains('/') by {
                if i < prev.len() {
                    assert(fields(s)[i] == prev[i]);
                }
            }
        }
    }
}

/// Filtering drops nothing where every element passes.
proof fn lemma_filter_all<A>(s: Seq<A>, pred: spec_fn(A) -> bool)
    requires
        forall|i: int| 0 <= i < s.len() ==> pred(#[trigger] s[i]),
    ensures
        s.filter(pred) == s,
    decreases s.len(),
{
    reveal(Seq::filter);
    if s.len() > 0 {
        lemma_filter_all(s.drop_last(), pred);
        assert(s.drop_last().push(s.last()) =~= s);
    }
}

/// Dropping empty sequences does not change the concatenation.
proof fn lemma_flatten_filter_nonempty<A>(s: Seq<Seq<A>>, pred: spec_fn(Seq<A>) -> bool)
    requires
        forall|x: Seq<A>| #[trigger] pred(x) <==> x.len() > 0,
    ensures
        s.filter(pred).flatten() == s.flatten(),
    decreases s.len(),
{
    if s.len() > 0 {
        let d = s.drop_last();
        lemma_flatten_filter_nonempty(d, pred);
        assert(d.push(s.last()) =~= s);
        d.lemma_filter_push(s.last(), pred);
        d.lemma_flatten_push(s.last());
        d.filter(pred).lemma_flatten_push(s.last());
        if !pred(s.last()) {
            assert(s.last() =~= Seq::<A>::empty());
            assert(d.flatten() + s.last() =~= d.flatten());
        }
    }
}

/// Concatenating the fields gives back the text without its slashes.
proof fn lemma_fields_flatten(s: Seq<char>)
    ensures
        fields(s).flatten() == without_slashes(s),
    decreases s.len(),
{
    reveal(Seq::filter);
    if s.len() == 0 {
        assert(fields(s) =~= seq![Seq::<char>::empty()]);
        assert(fields(s).flatten() =~= Seq::<char>::empty()) by {
            fields(s).lemma_flatten_singleton();
        }
    } else {
        let p = s.drop_last();
        let c = s.last();
        lemma_fields_flatten(p);
        lemma_fields_nonempty(p);
        let prev = fields(p);
        assert(p.push(c) =~= s);
        p.lemma_filter_push(c, |c: char| c != '/');
        if c == '/' {
            prev.lemma_flatten_push(Seq::<char>::empty());
        } else {
            let dl = prev.drop_last();
            assert(dl.push(prev.last()) =~= prev);
            dl.lemma_flatten_push(prev.last());
            assert(fields(s) =~= dl.push(prev.last().push(c)));
            dl.lemma_flatten_push(prev.last().push(c));
        }
    }
}

/// Appending slash-free text extends the last field.
proof fn lemma_fields_append(x: Seq<char>, y: Seq<char>)
    requires
        !y.contains('/'),
    ensures
        fields(x + y) == fields(x).drop_last().push(fields(x).last() + y),
    decreases y.len(),
{
    lemma_fields_nonempty(x);
    if y.len() == 0 {
        assert(x + y =~= x);
        assert(fields(x).last() + y =~= fields(x).last());
        assert(fields(x).drop_last().push(fields(x).last()) =~= fields(x));
    } else {
        let y0 = y.drop_last();
        let c = y.last();
        assert(!y0.contains('/')) by {
            if y0.contains('/') {
                let k = choose|k: int| 0 <= k < y0.len() && y0[k] == '/';
                assert(y[k] == '/');
            }
        }
        assert(c != '/') by {
            assert(y[y.len() - 1] == c);
        }
        lemma_fields_append(x, y0);
        assert((x + y).drop_last() =~= x + y0);
        assert((x + y).last() == c);
        assert((fields(x).last() + y0).push(c) =~= fields(x).last() + y);
        assert(fields(x + y) =~= fields(x).drop_last().push(fields(x).last() + y));
    }
}

/// A slash closes the last field and opens an empty one.
proof fn lemma_fields_slash(x: Seq<char>)
    ensures
        fields(x + seq!['/']) == fields(x).push(Seq::<char>::empty()),
{
    assert((x + seq!['/']).drop_last() =~= x);
}

/// Splitting slash-free fields joined by slashes gives the fields back.
proof fn lemma_fields_join(segs: Seq<Seq<char>>)
    requires
        segs.len() >= 1,
        forall|i: int| 0 <= i < segs.len() ==> !(#[trigger] segs[i]).contains('/'),
    ensures
        fields(join_path(segs)) == segs,
    decreases segs.len(),
{
    if segs.len() == 1 {
        lemma_fields_append(Seq::<char>::empty(), segs[0]);
        assert(Seq::<char>::empty() + segs[0] =~= segs[0]);
        assert(fields(Seq::<char>::empty()) =~= seq![Seq::<char>::empty()]);
        assert(fields(segs[0]) =~= segs);
    } else {
        let d = segs.drop_last();
        assert forall|i: int| 0 <= i < d.len() implies !(#[trigger] d[i]).contains('/') by {
            assert(d[i] == segs[i]);
        }
        lemma_fields_join(d);
        let x = join_path(d) + seq!['/'];
        lemma_fields_slash(join_path(d));
        assert(!segs.last().contains('/')) by {
            assert(segs[segs.len() - 1] == segs.last());
        }
        lemma_fields_append(x, segs.last());
        assert(fields(x).drop_last() =~= d);
        assert(fields(x).last() + segs.last() =~= segs.last());
        assert(d.push(segs.last()) =~= segs);
    }
}

/// The fields of `x/y` are those of `x` followed by those of `y`.
proof fn lemma_fields_concat_slash(x: Seq<char>, y: Seq<char>)
    ensures
        fields(x + seq!['/'] + y) == fields(x) + fields(y),
    decreases y.len(),
{
    let xs = x + seq!['/'];
    lemma_fields_nonempty(x);
    if y.len() == 0 {
        assert(xs + y =~= xs);
        lemma_fields_slash(x);
        assert(fields(y) =~= seq![Seq::<char>::empty()]);
        assert(fields(x).push(Seq::<char>::empty()) =~= fields(x) + fields(y));
    } else {
        let y0 = y.drop_last();
        let c = y.last();
        lemma_fields_concat_slash(x, y0);
        assert(y0.push(c) =~= y);
        assert((xs + y0).push(c) =~= xs + y);
        lemma_fields_step(xs + y0, c);
        lemma_fields_step(y0, c);
        let fx = fields(x);
        let fy0 = fields(y0);
        if c == '/' {
            assert((fx + fy0).push(Seq::<char>::empty()) =~= fx + fy0.push(Seq::<char>::empty()));
        } else {
            let whole = fields(xs + y);
            assert(whole.drop_last() == (fx + fy0).drop_last());
            assert((fx + fy0).drop_last() =~= fx + fy0.drop_last());
            assert((fx + fy0).last() == fy0.last());
            assert(whole =~= whole.drop_last().push(whole.last()));
            assert(fields(y) =~= fields(y).drop_last().push(fields(y).last()));
            assert(whole =~= fx + fields(y));
        }
    }
}

/// Splitting `a/b` gives the segments of `a` followed by those of `b`.
pub proof fn lemma_path_segments_concat(a: Seq<char>, b: Seq<char>)
    ensures
        path_segments(a + seq!['/'] + b) == path_segments(a) + path_segments(b),
{
    lemma_fields_concat_slash(a, b);
    Seq::filter_distributes_over_add(fields(a), fields(b), is_segment());
}

/// Every path segment is non-empty and holds no slash.
pub proof fn lemma_path_segments_well_formed(s: Seq<char>)
    ensures
        forall|i: int|
            0 <= i < path_segments(s).len() ==> well_formed_segment(#[trigger] path_segments(s)[i]),
{
    lemma_fields_slash_free(s);
    let ps = path_segments(s);
    assert forall|i: int| 0 <= i < ps.len() implies well_formed_segment(#[trigger] ps[i]) by {
        fields(s).lemma_filter_pred(is_segment(), i);
        assert(ps.contains(ps[i]));
        fields(s).lemma_filter_contains_rev(is_segment(), ps[i]);
        let k = choose|k: int| 0 <= k < fields(s).len() && fields(s)[k] == ps[i];
        assert(!fields(s)[k].contains('/'));
    }
}

/// The segments of a path, concatenated, are the path with its slashes removed:
/// splitting loses nothing but slashes.
pub proof fn lemma_path_segments_flatten(s: Seq<char>)
    ensures
        path_segments(s).flatten() == without_slashes(s),
{
    lemma_flatten_filter_nonempty(fields(s), is_segment());
    lemma_fields_flatten(s);
}

/// Joining well-formed segments with slashes and splitting the result gives
/// the same segments back.
pub proof fn lemma_path_segments_join(segs: Seq<Seq<char>>)
    requires
        forall|i: int| 0 <= i < segs.len() ==> well_formed_segment(#[trigger] segs[i]),
    ensures
        path_segments(join_path(segs)) == segs,
{
    if segs.len() == 0 {
        assert(fields(join_path(segs)) =~= seq![Seq::<char>::empty()]);
        reveal_with_fuel(Seq::filter, 2);
        assert(path_segments(join_path(segs)) =~= segs);
    } else {
        lemma_fields_join(segs);
        lemma_filter_all(segs, is_segment());
    }
}

/// Splitting is idempotent: the segments of the normalised path (the segments
/// joined by single slashes) are the segments of the original path.
pub proof fn lemma_path_segments_normalise(s: Seq<char>)
    ensures
        path_segments(join_path(path_segments(s))) == path_segments(s),
{
    lemma_path_segments_well_formed(s);
    lemma_path_segments_join(path_segments(s));
}

/// One more character: a slash closes the current field, anything else extends it.
proof fn lemma_fields_step(t: Seq<char>, c: char)
    ensures
        fields(t).len() >= 1,
        c == '/' ==> fields(t.push(c)) == fields(t).push(Seq::<char>::empty()),
        c != '/' ==> fields(t.push(c)).drop_last() == fields(t).drop_last(),
        c != '/' ==> fields(t.push(c)).last() == fields(t).last().push(c),
        fields(t.push(c)).len() >= 1,
{
    lemma_fields_nonempty(t);
    assert(t.push(c).drop_last() =~= t);
    assert(t.push(c).last() == c);
    if c != '/' {
        assert(fields(t.push(c)).drop_last() =~= fields(t).drop_last());
    }
}

/// The segments found so far after one more character.
proof fn lemma_segments_step(t: Seq<char>, c: char)
    ensures
        c == '/' ==> fields(t.push(c)).drop_last().filter(is_segment()) == (if fields(t).last().len() > 0 {
            fields(t).drop_last().filter(is_segment()).push(fields(t).last())
        } else {
            fields(t).drop_last().filter(is_segment())
        }),
        c != '/' ==> fields(t.push(c)).drop_last().filter(is_segment()) == fields(t).drop_last().filter(is_segment()),
{
    lemma_fields_step(t, c);
    let f = fields(t);
    if c == '/' {
        assert(fields(t.push(c)).drop_last() =~= f);
        assert(f.drop_last().push(f.last()) =~= f);
        f.drop_last().lemma_filter_push(f.last(), is_segment());
    }
}

/// All segments: the closed ones, then the last field where it is not empty.
proof fn lemma_segments_end(t: Seq<char>)
    ensures
        path_segments(t) == (if fields(t).last().len() > 0 {
            fields(t).drop_last().filter(is_segment()).push(fields(t).last())
        } else {
            fields(t).drop_last().filter(is_segment())
        }),
{
    lemma_fields_nonempty(t);
    let f = fields(t);
    assert(f.drop_last().push(f.last()) =~= f);
    f.drop_last().lemma_filter_push(f.last(), is_segment());
}

/// `std::str::from_utf8`: the bytes read as a string slice, where they are
/// valid UTF-8. The contract claims what the standard library documents: the
/// call succeeds exactly on valid UTF-8, and the slice it returns holds the
/// same bytes.
#[verifier::external_body]
fn str_from_utf8(buf: &[u8]) -> (r: Option<&str>)
    ensures
        r is Some <==> valid_utf8(buf@),
        r matches Some(t) ==> t.spec_bytes() == buf@,
{
    match std::str::from_utf8(buf) {
        Ok(t) => Some(t),
        Err(_) => None,
    }
}

/// Reads a byte buffer as a string slice. The bytes must be valid UTF-8.
pub fn s(buf: &[u8]) -> (r: &str)
    requires
        valid_utf8(buf@),
    ensures
        r.spec_bytes() == buf@,
        r@ == decode_utf8(buf@),
{
    match str_from_utf8(buf) {
        Some(t) => {
            proof {
                encode_utf8_decode_utf8(t@);
            }
            t
        },
        None => {
            proof {
                assert(false);
            }
            ""
        },
    }
}

/// The serialisation of the URL that `url` parses to, or `None` where it is not
/// a valid absolute URL.
pub uninterp spec fn parsed_url(url: Seq<char>) -> Option<Seq<char>>;

/// `hyper::Url::parse` (the `url` crate's `Url::parse`), then `Url::into_string`.
/// Claimed: the result is a function of the input alone, named `parsed_url`.
#[verifier::external_body]
fn url_parse(url: &str) -> (r: Option<String>)
    ensures
        r is Some <==> parsed_url(url@) is Some,
        r matches Some(u) ==> u@ == parsed_url(url@)->0,
{
    match hyper::Url::parse(url) {
        Ok(u) => Some(u.into_string()),
        Err(_) => None,
    }
}

/// Parses `url` as an absolute URL and returns its normalised serialisation,
/// the address that is then fetched, or `None` where it does not parse.
pub fn parse_url(url: &str) -> (r: Option<String>)
    ensures
        r is Some <==> parsed_url(url@) is Some,
        r matches Some(u) ==> u@ == parsed_url(url@)->0,
{
    url_parse(url)
}

/// Whether two strings hold the same characters, compared byte by byte.
pub(crate) fn same_text(a: &str, b: &str) -> (r: bool)
    ensures
        r == (a@ == b@),
{
    let x = a.as_bytes();
    let y = b.as_bytes();
    proof {
        encode_utf8_decode_utf8(a@);
        encode_utf8_decode_utf8(b@);
    }
    if x.len() != y.len() {
        return false;
    }
    let mut i: usize = 0;
    while i < x.len()
        invariant
            x@ == a.spec_bytes(),
            y@ == b.spec_bytes(),
            x@.len() == y@.len(),
            i <= x@.len(),
            decode_utf8(a.spec_bytes()) == a@,
            decode_utf8(b.spec_bytes()) == b@,
            forall|k: int| 0 <= k < i ==> x@[k] == y@[k],
        decreases x@.len() - i,
    {
        if x[i] != y[i] {
            return false;
        }
        i = i + 1;
    }
    proof {
        assert(x@ =~= y@);
    }
    true
}

/// Splits a path into its segments: the text between slashes, with the empty
/// pieces (from leading, trailing or repeated slashes) left out.
pub fn splitter(s: &str) -> (r: Vec<&str>)
    ensures
        r@.map_values(|x: &str| x@) == path_segments(s@),
        forall|k: int| 0 <= k < r@.len() ==> well_formed_segment(#[trigger] r@[k]@),
{
    let n = s.unicode_len();
    let mut out: Vec<&str> = Vec::new();
    let mut start: usize = 0;
    let mut i: usize = 0;
    proof {
        assert(s@.take(0) =~= Seq::<char>::empty());
        assert(fields(s@.take(0)) =~= seq![Seq::<char>::empty()]);
        reveal_with_fuel(Seq::filter, 1);
        assert(out@.map_values(|x: &str| x@) =~= fields(s@.take(0)).drop_last().filter(is_segment()));
    }
    for c in it: s.chars()
        invariant
            n == s@.len(),
            i == it.index(),
            it.seq() == s@,
            start <= i <= n,
            fields(s@.take(i as int)).last() == s@.subrange(start as int, i as int),
            out@.map_values(|x: &str| x@) == fields(s@.take(i as int)).drop_last().filter(is_segment()),
    {
        let ghost t = s@.take(i as int);
        let ghost before = out@;
        proof {
            assert(s@.take(i + 1) =~= t.push(c));
            lemma_fields_step(t, c);
            lemma_segments_step(t, c);
        }
        if c == '/' {
            if start < i {
                let piece = s.substring_char(start, i);
                out.push(piece);
                assert(out@.map_values(|x: &str| x@) =~= before.map_values(|x: &str| x@).push(piece@));
            }
            assert(s@.subrange(i + 1, i + 1) =~= Seq::<char>::empty());
            start = i + 1;
        } else {
            assert(s@.subrange(start as int, i + 1) =~= s@.subrange(start as int, i as int).push(c));
        }
        i = i + 1;
    }
    proof {
        assert(s@.take(n as int) =~= s@);
        lemma_segments_end(s@);
    }
    if start < n {
        let piece = s.substring_char(start, n);
        let ghost before = out@;
        out.push(piece);
        assert(out@.map_values(|x: &str| x@) =~= before.map_values(|x: &str| x@).push(piece@));
    }
    proof {
        lemma_path_segments_well_formed(s@);
        assert forall|k: int| 0 <= k < out@.len() implies well_formed_segment(#[trigger] out@[k]@) by {
            assert(out@.map_values(|x: &str| x@)[k] == out@[k]@);
        }
    }
    out
}

} // verus!
