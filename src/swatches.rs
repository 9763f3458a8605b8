use crate::error::RecolorError;
use crate::hex::{hex_rgb, is_hex_color, read_hex_color};
use crate::text::{pieces, token_spans, tokens};
use vstd::prelude::*;

verus! {

/// `s` with every value after its first occurrence removed.
pub open spec fn unique_in_order<T>(s: Seq<T>) -> Seq<T>
    decreases s.len(),
{
    if s.len() == 0 {
        s
    } else {
        let kept = unique_in_order(s.drop_last());
        if kept.contains(s.last()) {
            kept
        } else {
            kept.push(s.last())
        }
    }
}

/// Deduplication keeps each value once and loses none.
pub proof fn lemma_unique_in_order<T>(s: Seq<T>)
    ensures
        unique_in_order(s).no_duplicates(),
        forall|x: T| unique_in_order(s).contains(x) <==> s.contains(x),
    decreases s.len(),
{
    if s.len() > 0 {
        lemma_unique_in_order(s.drop_last());
        assert forall|x: T| s.contains(x) implies s.drop_last().contains(x) || x == s.last() by {
            let i = choose|i: int| 0 <= i < s.len() && s[i] == x;
            if i < s.len() - 1 {
                assert(s.drop_last()[i] == x);
            }
        }
        assert forall|x: T| s.drop_last().contains(x) implies s.contains(x) by {
            let i = choose|i: int| 0 <= i < s.len() - 1 && s.drop_last()[i] == x;
            assert(s[i] == x);
        }
        let kept = unique_in_order(s.drop_last());
        if !kept.contains(s.last()) {
            assert forall|x: T| kept.push(s.last()).contains(x) implies kept.contains(x) || x
                == s.last() by {
                let i = choose|i: int| 0 <= i < kept.len() + 1 && kept.push(s.last())[i] == x;
                if i < kept.len() {
                    assert(kept[i] == x);
                }
            }
            assert(kept.push(s.last()).contains(s.last())) by {
                assert(kept.push(s.last())[kept.len() as int] == s.last());
            }
            assert forall|x: T| kept.contains(x) implies kept.push(s.last()).contains(x) by {
                let i = choose|i: int| 0 <= i < kept.len() && kept[i] == x;
                assert(kept.push(s.last())[i] == x);
            }
        }
    }
}

/// Every token of the palette text is a hex colour literal.
pub open spec fn all_hex(toks: Seq<Seq<char>>) -> bool {
    forall|k: int| 0 <= k < toks.len() ==> is_hex_color(#[trigger] toks[k])
}

/// `k` is the first token that is not a hex colour literal.
pub open spec fn is_first_bad_token(toks: Seq<Seq<char>>, k: int) -> bool {
    &&& 0 <= k < toks.len()
    &&& !is_hex_color(toks[k])
    &&& forall|j: int| 0 <= j < k ==> is_hex_color(#[trigger] toks[j])
}

/// The colours that a palette text lists, each once, in order of first
/// appearance.
pub open spec fn palette_colors(text: Seq<char>) -> Seq<(u8, u8, u8)> {
    unique_in_order(tokens(text).map_values(|t: Seq<char>| hex_rgb(t)))
}

/// Relies on itertools' `Itertools::unique`: yields each value the first time
/// it is seen and skips it after that, keeping the order.
#[verifier::external_body]
fn unique_colors(colors: Vec<(u8, u8, u8)>) -> (r: Vec<(u8, u8, u8)>)
    ensures
        r@ == unique_in_order(colors@),
{
    itertools::Itertools::unique(colors.into_iter()).collect()
}

/// The colours available for recoloring: sRGB bytes, no two alike, in the
/// order in which they were first given.
pub struct Palette {
    colors: Vec<(u8, u8, u8)>,
}

impl View for Palette {
    type V = Seq<(u8, u8, u8)>;

    closed spec fn view(&self) -> Seq<(u8, u8, u8)> {
        self.colors@
    }
}

impl Palette {
    /// A palette of `colors`, with repeats dropped.
    pub fn from_colors(colors: Vec<(u8, u8, u8)>) -> (p: Palette)
        ensures
            p@ == unique_in_order(colors@),
            p@.no_duplicates(),
    {
        proof {
            lemma_unique_in_order(colors@);
        }
        Palette { colors: unique_colors(colors) }
    }

    /// Reads a palette from text: white-space-separated hex colour literals,
    /// each an optional `#` and three or six hex digits. Repeated colours are
    /// kept once, at their first position. Text with no tokens gives an empty
    /// palette.
    pub fn parse(text: &str) -> (r: Result<Palette, RecolorError>)
        ensures
            r is Ok <==> all_hex(tokens(text@)),
            r matches Ok(p) ==> p@ == palette_colors(text@) && p@.no_duplicates(),
            r matches Err(e) ==> e matches RecolorError::PaletteFormat { token }
                && is_first_bad_token(tokens(text@), token as int),
    {
        let spans = token_spans(text);
        let ghost toks = tokens(text@);
        let mut colors: Vec<(u8, u8, u8)> = Vec::with_capacity(spans.len());
        let mut k: usize = 0;
        while k < spans.len()
            invariant
                pieces(text@, spans@) == toks,
                toks == tokens(text@),
                forall|j: int| #![trigger spans@[j]] 0 <= j < spans@.len() ==> spans@[j].0
                    <= spans@[j].1 <= text@.len(),
                k <= spans@.len(),
                colors@.len() == k,
                forall|j: int| 0 <= j < k ==> is_hex_color(#[trigger] toks[j]),
                forall|j: int| 0 <= j < k ==> #[trigger] colors@[j] == hex_rgb(toks[j]),
            decreases spans@.len() - k,
        {
            let (a, b) = spans[k];
            let t = text.substring_char(a, b);
            assert(t@ == toks[k as int]);
            match read_hex_color(t) {
                Some(c) => colors.push(c),
                None => {
                    return Err(RecolorError::PaletteFormat { token: k });
                },
            }
            k = k + 1;
        }
        assert(colors@ == toks.map_values(|t: Seq<char>| hex_rgb(t)));
        Ok(Palette::from_colors(colors))
    }

    pub fn len(&self) -> (r: usize)
        ensures
            r == self@.len(),
    {
        self.colors.len()
    }

    /// The colour at position `i`.
    pub fn color(&self, i: usize) -> (r: (u8, u8, u8))
        requires
            i < self@.len(),
        ensures
            r == self@[i as int],
    {
        self.colors[i]
    }
}

} // verus!
