//! Text primitives on sequences of characters: prefix tests, trimming,
//! replacement, splitting, joining and line splitting, each specified over
//! `Seq<char>` and implemented on `Vec<char>`.
use vstd::prelude::*;

verus! {

/// `String::push` appends one character to the end of the string.
pub assume_specification[ String::push ](s: &mut String, ch: char)
    ensures
        final(s)@ == old(s)@.push(ch),
;

// ---------------------------------------------------------------------------
// Specifications
// ---------------------------------------------------------------------------

/// `s` begins with `p`.
pub open spec fn spec_starts_with(s: Seq<char>, p: Seq<char>) -> bool {
    p.len() <= s.len() && s.take(p.len() as int) == p
}

/// `s` ends with `p`.
pub open spec fn spec_ends_with(s: Seq<char>, p: Seq<char>) -> bool {
    p.len() <= s.len() && s.skip(s.len() - p.len()) == p
}

/// `s` with every leading repetition of `p` removed (`s` itself when `p` is empty).
pub open spec fn spec_trim_start_matches(s: Seq<char>, p: Seq<char>) -> Seq<char>
    decreases s.len(),
{
    if p.len() > 0 && spec_starts_with(s, p) {
        spec_trim_start_matches(s.skip(p.len() as int), p)
    } else {
        s
    }
}

/// `s` with every trailing repetition of `p` removed (`s` itself when `p` is empty).
pub open spec fn spec_trim_end_matches(s: Seq<char>, p: Seq<char>) -> Seq<char>
    decreases s.len(),
{
    if p.len() > 0 && spec_ends_with(s, p) {
        spec_trim_end_matches(s.take(s.len() - p.len()), p)
    } else {
        s
    }
}

/// The Unicode `White_Space` characters.
pub open spec fn spec_is_whitespace(c: char) -> bool {
    let u = c as u32;
    ||| 0x9 <= u <= 0xd
    ||| u == 0x20
    ||| u == 0x85
    ||| u == 0xa0
    ||| u == 0x1680
    ||| 0x2000 <= u <= 0x200a
    ||| u == 0x2028
    ||| u == 0x2029
    ||| u == 0x202f
    ||| u == 0x205f
    ||| u == 0x3000
}

/// `s` without its leading whitespace.
pub open spec fn spec_trim_start(s: Seq<char>) -> Seq<char>
    decreases s.len(),
{
    if s.len() > 0 && spec_is_whitespace(s[0]) {
        spec_trim_start(s.drop_first())
    } else {
        s
    }
}

/// `s` with each occurrence of `p` replaced by `r`. Occurrences are taken from the
/// left and do not overlap; an empty `p` occurs before every character and at the end.
pub open spec fn spec_replace(s: Seq<char>, p: Seq<char>, r: Seq<char>) -> Seq<char>
    decreases s.len(),
{
    if p.len() == 0 {
        if s.len() == 0 {
            r
        } else {
            r + seq![s[0]] + spec_replace(s.drop_first(), p, r)
        }
    } else if s.len() < p.len() {
        s
    } else if s.take(p.len() as int) == p {
        r + spec_replace(s.skip(p.len() as int), p, r)
    } else {
        seq![s[0]] + spec_replace(s.drop_first(), p, r)
    }
}

/// The pieces of `s` between the occurrences of `c` (one more piece than occurrences).
pub open spec fn spec_split(s: Seq<char>, c: char) -> Seq<Seq<char>>
    decreases s.len(),
{
    if s.len() == 0 {
        seq![Seq::<char>::empty()]
    } else {
        let init = spec_split(s.drop_last(), c);
        if s.last() == c {
            init.push(Seq::<char>::empty())
        } else {
            init.update(init.len() - 1, init.last().push(s.last()))
        }
    }
}

/// The pieces of `parts` in order, with `sep` between each two neighbours.
pub open spec fn spec_join(parts: Seq<Seq<char>>, sep: Seq<char>) -> Seq<char>
    decreases parts.len(),
{
    if parts.len() == 0 {
        Seq::<char>::empty()
    } else if parts.len() == 1 {
        parts[0]
    } else {
        spec_join(parts.drop_last(), sep) + sep + parts.last()
    }
}

/// A line ended by `"\r\n"` loses its carriage return.
pub open spec fn spec_strip_cr(l: Seq<char>) -> Seq<char> {
    if l.len() > 0 && l.last() == '\r' {
        l.drop_last()
    } else {
        l
    }
}

/// The lines of `s`: split at `'\n'`, with a `'\r'` before the `'\n'` dropped; a final
/// line ending adds no empty line, and the empty text has no line.
pub open spec fn spec_lines(s: Seq<char>) -> Seq<Seq<char>> {
    let pieces = spec_split(s, '\n');
    let ended = pieces.drop_last().map_values(|l: Seq<char>| spec_strip_cr(l));
    if pieces.last().len() == 0 {
        ended
    } else {
        ended.push(pieces.last())
    }
}

// ---------------------------------------------------------------------------
// Lemmas
// ---------------------------------------------------------------------------

/// Splitting always yields at least one piece.
pub proof fn lemma_split_nonempty(s: Seq<char>, c: char)
    ensures
        spec_split(s, c).len() >= 1,
    decreases s.len(),
{
    if s.len() > 0 {
        lemma_split_nonempty(s.drop_last(), c);
    }
}

/// One step of replacing the empty pattern.
pub proof fn lemma_replace_empty_step(t: Seq<char>, p: Seq<char>, r: Seq<char>)
    requires
        p.len() == 0,
        t.len() > 0,
    ensures
        spec_replace(t, p, r) == r + seq![t[0]] + spec_replace(t.drop_first(), p, r),
{
}

/// A vector of characters is its own deep view.
pub proof fn lemma_chars_deep_view(v: &Vec<char>)
    ensures
        v.deep_view() == v@,
{
    assert(v.deep_view() =~= v@);
}

// ---------------------------------------------------------------------------
// Executable functions
// ---------------------------------------------------------------------------

/// The characters of `s`, in order.
pub fn chars_of(s: &str) -> (out: Vec<char>)
    ensures
        out@ == s@,
{
    let mut out: Vec<char> = Vec::new();
    for c in it: s.chars()
        invariant
            out@ == it.seq().take(it.index() as int),
            it.seq() == s@,
    {
        out.push(c);
    }
    out
}

/// The string made of the characters of `v`, in order.
pub fn string_of(v: &Vec<char>) -> (out: String)
    ensures
        out@ == v@,
{
    let mut out = String::new();
    for i in 0..v.len()
        invariant
            out@ == v@.take(i as int),
    {
        out.push(v[i]);
        assert(v@.take(i + 1) == v@.take(i as int).push(v@[i as int]));
    }
    assert(v@.take(v@.len() as int) == v@);
    out
}

/// Appends the characters of `r` to `out`.
pub fn push_all(out: &mut Vec<char>, r: &Vec<char>)
    ensures
        final(out)@ == old(out)@ + r@,
{
    for i in 0..r.len()
        invariant
            out@ == old(out)@ + r@.take(i as int),
    {
        out.push(r[i]);
        assert(r@.take(i + 1) == r@.take(i as int).push(r@[i as int]));
    }
    assert(r@.take(r@.len() as int) == r@);
}

/// The characters of `s` from position `from` on.
pub fn suffix_from(s: &Vec<char>, from: usize) -> (out: Vec<char>)
    requires
        from <= s.len(),
    ensures
        out@ == s@.skip(from as int),
{
    let mut out: Vec<char> = Vec::new();
    let mut i = from;
    while i < s.len()
        invariant
            from <= i <= s.len(),
            out@ == s@.subrange(from as int, i as int),
        decreases s.len() - i,
    {
        out.push(s[i]);
        assert(s@.subrange(from as int, i + 1) == s@.subrange(from as int, i as int).push(
            s@[i as int],
        ));
        i += 1;
    }
    out
}

/// The first `n` characters of `s`.
pub fn prefix_upto(s: &Vec<char>, n: usize) -> (out: Vec<char>)
    requires
        n <= s.len(),
    ensures
        out@ == s@.take(n as int),
{
    let mut out: Vec<char> = Vec::new();
    for i in 0..n
        invariant
            n <= s.len(),
            out@ == s@.take(i as int),
    {
        out.push(s[i]);
        assert(s@.take(i + 1) == s@.take(i as int).push(s@[i as int]));
    }
    out
}

/// `p` occurs in `s` at position `pos`.
pub fn matches_at(s: &Vec<char>, pos: usize, p: &Vec<char>) -> (b: bool)
    requires
        pos <= s.len(),
    ensures
        b == (pos + p.len() <= s.len() && s@.subrange(pos as int, pos + p.len()) == p@),
{
    if p.len() > s.len() - pos {
        return false;
    }
    let mut j: usize = 0;
    while j < p.len()
        invariant
            j <= p.len(),
            pos + p.len() <= s.len(),
            forall|k: int| 0 <= k < j ==> s@[pos + k] == p@[k],
        decreases p.len() - j,
    {
        if s[pos + j] != p[j] {
            assert(s@.subrange(pos as int, pos + p.len())[j as int] != p@[j as int]);
            return false;
        }
        j += 1;
    }
    assert(s@.subrange(pos as int, pos + p.len()) =~= p@);
    true
}

/// Whether `s` begins with `p`.
pub fn starts_with(s: &Vec<char>, p: &Vec<char>) -> (b: bool)
    ensures
        b == spec_starts_with(s@, p@),
{
    let b = matches_at(s, 0, p);
    assert(s@.subrange(0, p@.len() as int) == s@.take(p@.len() as int));
    b
}

/// Whether `s` ends with `p`.
pub fn ends_with(s: &Vec<char>, p: &Vec<char>) -> (b: bool)
    ensures
        b == spec_ends_with(s@, p@),
{
    if p.len() > s.len() {
        return false;
    }
    let b = matches_at(s, s.len() - p.len(), p);
    assert(s@.subrange(s@.len() - p@.len(), s@.len() as int) == s@.skip(s@.len() - p@.len()));
    b
}

/// `s` with every leading repetition of `p` removed.
pub fn trim_start_matches(s: &Vec<char>, p: &Vec<char>) -> (out: Vec<char>)
    ensures
        out@ == spec_trim_start_matches(s@, p@),
{
    if p.len() == 0 {
        return s.clone();
    }
    let mut pos: usize = 0;
    assert(s@.skip(0) == s@);
    while matches_at(s, pos, p)
        invariant
            pos <= s.len(),
            p.len() > 0,
            spec_trim_start_matches(s@, p@) == spec_trim_start_matches(s@.skip(pos as int), p@),
        decreases s.len() - pos,
    {
        let ghost t = s@.skip(pos as int);
        assert(t.take(p@.len() as int) == s@.subrange(pos as int, pos + p@.len()));
        assert(t.skip(p@.len() as int) == s@.skip(pos + p@.len()));
        pos = pos + p.len();
    }
    let ghost t = s@.skip(pos as int);
    assert(p@.len() <= t.len() ==> t.take(p@.len() as int) == s@.subrange(
        pos as int,
        pos + p@.len(),
    ));
    suffix_from(s, pos)
}

/// `s` with every trailing repetition of `p` removed.
pub fn trim_end_matches(s: &Vec<char>, p: &Vec<char>) -> (out: Vec<char>)
    ensures
        out@ == spec_trim_end_matches(s@, p@),
{
    if p.len() == 0 {
        return s.clone();
    }
    let mut end: usize = s.len();
    assert(s@.take(s@.len() as int) == s@);
    while end >= p.len() && matches_at(s, end - p.len(), p)
        invariant
            end <= s.len(),
            p.len() > 0,
            spec_trim_end_matches(s@, p@) == spec_trim_end_matches(s@.take(end as int), p@),
        decreases end,
    {
        let ghost t = s@.take(end as int);
        assert(t.skip(t.len() - p@.len()) == s@.subrange(end - p@.len(), end as int));
        assert(t.take(t.len() - p@.len()) == s@.take(end - p@.len()));
        end = end - p.len();
    }
    let ghost t = s@.take(end as int);
    assert(p@.len() <= t.len() ==> t.skip(t.len() - p@.len()) == s@.subrange(
        end - p@.len(),
        end as int,
    ));
    prefix_upto(s, end)
}

/// Whether `c` is a Unicode `White_Space` character.
pub fn is_whitespace(c: char) -> (b: bool)
    ensures
        b == spec_is_whitespace(c),
{
    let u = c as u32;
    (0x9 <= u && u <= 0xd) || u == 0x20 || u == 0x85 || u == 0xa0 || u == 0x1680 || (0x2000 <= u
        && u <= 0x200a) || u == 0x2028 || u == 0x2029 || u == 0x202f || u == 0x205f || u == 0x3000
}

/// `s` without its leading whitespace.
pub fn trim_start(s: &Vec<char>) -> (out: Vec<char>)
    ensures
        out@ == spec_trim_start(s@),
{
    let mut pos: usize = 0;
    assert(s@.skip(0) == s@);
    while pos < s.len() && is_whitespace(s[pos])
        invariant
            pos <= s.len(),
            spec_trim_start(s@) == spec_trim_start(s@.skip(pos as int)),
        decreases s.len() - pos,
    {
        assert(s@.skip(pos as int).drop_first() == s@.skip(pos + 1));
        pos += 1;
    }
    suffix_from(s, pos)
}

/// `s` with each occurrence of `p` replaced by `r`.
pub fn replace(s: &Vec<char>, p: &Vec<char>, r: &Vec<char>) -> (out: Vec<char>)
    ensures
        out@ == spec_replace(s@, p@, r@),
{
    let mut out: Vec<char> = Vec::new();
    let mut pos: usize = 0;
    assert(s@.skip(0) == s@);
    assert(out@ + spec_replace(s@, p@, r@) == spec_replace(s@, p@, r@));
    if p.len() == 0 {
        while pos < s.len()
            invariant
                pos <= s.len(),
                p@.len() == 0,
                spec_replace(s@, p@, r@) == out@ + spec_replace(s@.skip(pos as int), p@, r@),
            decreases s.len() - pos,
        {
            let ghost t = s@.skip(pos as int);
            let ghost old_out = out@;
            proof {
                assert(t.drop_first() == s@.skip(pos + 1));
                lemma_replace_empty_step(t, p@, r@);
            }
            push_all(&mut out, r);
            out.push(s[pos]);
            pos += 1;
            assert(old_out + (r@ + seq![t[0]] + spec_replace(t.drop_first(), p@, r@)) =~= out@
                + spec_replace(t.drop_first(), p@, r@));
        }
        assert(s@.skip(pos as int).len() == 0);
        push_all(&mut out, r);
        return out;
    }
    while pos < s.len()
        invariant
            pos <= s.len(),
            p@.len() > 0,
            spec_replace(s@, p@, r@) == out@ + spec_replace(s@.skip(pos as int), p@, r@),
        decreases s.len() - pos,
    {
        let ghost t = s@.skip(pos as int);
        if matches_at(s, pos, p) {
            assert(t.take(p@.len() as int) == s@.subrange(pos as int, pos + p@.len()));
            assert(t.skip(p@.len() as int) == s@.skip(pos + p@.len()));
            push_all(&mut out, r);
            pos = pos + p.len();
        } else {
            proof {
                assert(t.drop_first() == s@.skip(pos + 1));
                if t.len() < p@.len() {
                    assert(spec_replace(t.drop_first(), p@, r@) == t.drop_first());
                    assert(t == seq![t[0]] + t.drop_first());
                } else {
                    assert(t.take(p@.len() as int) == s@.subrange(pos as int, pos + p@.len()));
                }
            }
            out.push(s[pos]);
            pos += 1;
        }
    }
    assert(s@.skip(pos as int).len() == 0);
    out
}

/// The pieces of `s` between the occurrences of `c`.
pub fn split(s: &Vec<char>, c: char) -> (out: Vec<Vec<char>>)
    ensures
        out.deep_view() == spec_split(s@, c),
{
    let mut pieces: Vec<Vec<char>> = Vec::new();
    let mut cur: Vec<char> = Vec::new();
    for i in 0..s.len()
        invariant
            pieces.deep_view().push(cur@) == spec_split(s@.take(i as int), c),
    {
        let ghost before = s@.take(i as int);
        proof {
            assert(s@.take(i + 1).drop_last() == before);
            lemma_split_nonempty(before, c);
        }
        let ghost old_pieces = pieces.deep_view();
        if s[i] == c {
            let ghost done_view = cur@;
            proof {
                lemma_chars_deep_view(&cur);
            }
            let done = cur;
            pieces.push(done);
            cur = Vec::new();
            assert(pieces.deep_view() =~= old_pieces.push(done_view));
            assert(pieces.deep_view().push(cur@) =~= spec_split(before, c).push(
                Seq::<char>::empty(),
            ));
        } else {
            cur.push(s[i]);
            let ghost sp = spec_split(before, c);
            assert(pieces.deep_view().push(cur@) =~= sp.update(sp.len() - 1, sp.last().push(
                s@[i as int],
            )));
        }
    }
    assert(s@.take(s@.len() as int) == s@);
    let ghost old_pieces = pieces.deep_view();
    let ghost last_view = cur@;
    proof {
        lemma_chars_deep_view(&cur);
    }
    pieces.push(cur);
    assert(pieces.deep_view() =~= old_pieces.push(last_view));
    pieces
}

/// The pieces of `parts` joined, with `sep` between each two neighbours.
pub fn join(parts: &Vec<Vec<char>>, sep: &Vec<char>) -> (out: Vec<char>)
    ensures
        out@ == spec_join(parts.deep_view(), sep@),
{
    let mut out: Vec<char> = Vec::new();
    let ghost dv = parts.deep_view();
    for i in 0..parts.len()
        invariant
            dv == parts.deep_view(),
            out@ == spec_join(dv.take(i as int), sep@),
    {
        assert(dv.take(i + 1).drop_last() == dv.take(i as int));
        assert(dv[i as int] == parts[i as int]@);
        if i > 0 {
            push_all(&mut out, sep);
        }
        push_all(&mut out, &parts[i]);
        if i == 0 {
            assert(out@ == dv.take(1)[0]);
        }
    }
    assert(dv.take(parts.len() as int) == dv);
    out
}

/// The lines of `s`.
pub fn lines(s: &Vec<char>) -> (out: Vec<Vec<char>>)
    ensures
        out.deep_view() == spec_lines(s@),
{
    let pieces = split(s, '\n');
    let ghost pv = pieces.deep_view();
    proof {
        lemma_split_nonempty(s@, '\n');
    }
    let n = pieces.len();
    let mut out: Vec<Vec<char>> = Vec::new();
    for i in 0..n - 1
        invariant
            n == pieces.len(),
            n >= 1,
            pv == pieces.deep_view(),
            out.deep_view() == pv.drop_last().take(i as int).map_values(
                |l: Seq<char>| spec_strip_cr(l),
            ),
    {
        let piece = &pieces[i];
        assert(pv[i as int] == piece@);
        let stripped = if piece.len() > 0 && piece[piece.len() - 1] == '\r' {
            prefix_upto(piece, piece.len() - 1)
        } else {
            piece.clone()
        };
        let ghost old_out = out.deep_view();
        let ghost sv = stripped@;
        assert(sv == spec_strip_cr(pv[i as int]));
        proof {
            lemma_chars_deep_view(&stripped);
        }
        out.push(stripped);
        assert(out.deep_view() =~= old_out.push(sv));
        assert(pv.drop_last().take(i + 1) =~= pv.drop_last().take(i as int).push(pv[i as int]));
        assert(out.deep_view() =~= pv.drop_last().take(i + 1).map_values(
            |l: Seq<char>| spec_strip_cr(l),
        ));
    }
    assert(pv.drop_last().take(n - 1) == pv.drop_last());
    let last = &pieces[n - 1];
    assert(pv.last() == last@);
    if last.len() > 0 {
        let ghost old_out = out.deep_view();
        let copy = last.clone();
        proof {
            lemma_chars_deep_view(&copy);
        }
        out.push(copy);
        assert(out.deep_view() =~= old_out.push(last@));
    }
    out
}

/// Whether the two texts are equal.
pub fn same_text(a: &str, b: &str) -> (r: bool)
    ensures
        r == (a@ == b@),
{
    let x = chars_of(a);
    let y = chars_of(b);
    if x.len() != y.len() {
        return false;
    }
    for i in 0..x.len()
        invariant
            x@ == a@,
            y@ == b@,
            x@.len() == y@.len(),
            forall|j: int| 0 <= j < i ==> x@[j] == y@[j],
    {
        if x[i] != y[i] {
            return false;
        }
    }
    assert(x@ =~= y@);
    true
}

} // verus!
