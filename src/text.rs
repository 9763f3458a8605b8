use vstd::prelude::*;

verus! {

/// The characters with Unicode's `White_Space` property.
pub open spec fn is_ws(c: char) -> bool {
    let u = c as u32;
    ||| 0x09 <= u <= 0x0d
    ||| u == 0x20
    ||| u == 0x85
    ||| u == 0xa0
    ||| u == 0x1680
    ||| 0x2000 <= u <= 0x200a
    ||| u == 0x2028
    ||| u == 0x2029
    ||| u == 0x202f
    ||| u == 0x205f
    ||| u == 0x3000
}

/// Whether `c` is white space, as [`is_ws`] states.
pub fn is_whitespace(c: char) -> (r: bool)
    ensures
        r == is_ws(c),
{
    let u = c as u32;
    (0x09 <= u && u <= 0x0d) || u == 0x20 || u == 0x85 || u == 0xa0 || u == 0x1680 || (0x2000
        <= u && u <= 0x200a) || u == 0x2028 || u == 0x2029 || u == 0x202f || u == 0x205f || u
        == 0x3000
}

/// The maximal runs of non-white-space characters of `s`, in order. Read
/// left to right: white space ends a token, and any other character either
/// extends the token in progress or starts a new one.
pub open spec fn tokens(s: Seq<char>) -> Seq<Seq<char>>
    decreases s.len(),
{
    if s.len() == 0 {
        seq![]
    } else {
        let before = tokens(s.drop_last());
        let c = s.last();
        if is_ws(c) {
            before
        } else if s.len() >= 2 && !is_ws(s[s.len() - 2]) {
            before.update(before.len() - 1, before.last().push(c))
        } else {
            before.push(seq![c])
        }
    }
}

/// The pieces of `s` that `spans` marks out, as half-open ranges.
pub open spec fn pieces(s: Seq<char>, spans: Seq<(usize, usize)>) -> Seq<Seq<char>> {
    spans.map_values(|p: (usize, usize)| s.subrange(p.0 as int, p.1 as int))
}

/// Where the tokens of `s` lie: the result marks out exactly [`tokens`].
pub fn token_spans(s: &str) -> (r: Vec<(usize, usize)>)
    ensures
        pieces(s@, r@) == tokens(s@),
        forall|k: int| #![trigger r@[k]] 0 <= k < r@.len() ==> r@[k].0 <= r@[k].1 <= s@.len(),
{
    let n = s.unicode_len();
    let mut spans: Vec<(usize, usize)> = Vec::new();
    let mut start: usize = 0;
    let mut in_token = false;
    let mut i: usize = 0;
    while i < n
        invariant
            n == s@.len(),
            i <= n,
            in_token <==> (i > 0 && !is_ws(s@[i - 1])),
            in_token ==> start < i,
            forall|k: int| #![trigger spans@[k]] 0 <= k < spans@.len() ==> spans@[k].0 <= spans@[k].1 <= i,
            !in_token ==> tokens(s@.take(i as int)) == pieces(s@, spans@),
            in_token ==> tokens(s@.take(i as int)) == pieces(s@, spans@).push(
                s@.subrange(start as int, i as int),
            ),
        decreases n - i,
    {
        let c = s.get_char(i);
        let ghost before = s@.take(i as int);
        assert(s@.take(i + 1).drop_last() == before);
        assert(s@.take(i + 1).last() == c);
        if is_whitespace(c) {
            if in_token {
                spans.push((start, i));
                assert(pieces(s@, spans@) == pieces(s@, spans@.drop_last()).push(
                    s@.subrange(start as int, i as int),
                ));
            }
            in_token = false;
        } else {
            if in_token {
                assert(s@.subrange(start as int, i as int).push(c) == s@.subrange(
                    start as int,
                    i + 1,
                ));
            } else {
                assert(seq![c] == s@.subrange(i as int, i + 1));
                start = i;
            }
            in_token = true;
        }
        i = i + 1;
    }
    assert(s@.take(n as int) == s@);
    if in_token {
        spans.push((start, n));
        assert(pieces(s@, spans@) == pieces(s@, spans@.drop_last()).push(
            s@.subrange(start as int, n as int),
        ));
    }
    spans
}

} // verus!
