use crate::error::RecolorError;
use crate::select::{nearest, required_len, resolves, InterpolationMode, Match};
use vstd::prelude::*;

verus! {

/// Every pixel has at least as many palette distances as the mode needs.
pub open spec fn all_resolvable(pixels: Seq<Vec<u32>>, mode: Option<InterpolationMode>) -> bool {
    forall|i: int| 0 <= i < pixels.len() ==> pixels[i]@.len() >= required_len(mode)
}

/// `p` is the first pixel whose palette is too small for the mode.
pub open spec fn is_first_unresolvable(
    pixels: Seq<Vec<u32>>,
    mode: Option<InterpolationMode>,
    p: int,
) -> bool {
    &&& 0 <= p < pixels.len()
    &&& pixels[p]@.len() < required_len(mode)
    &&& forall|i: int| 0 <= i < p ==> pixels[i]@.len() >= required_len(mode)
}

/// `plan` is a replacement for every pixel, in order.
pub open spec fn resolves_all(
    pixels: Seq<Vec<u32>>,
    mode: Option<InterpolationMode>,
    plan: Seq<Match>,
) -> bool {
    &&& plan.len() == pixels.len()
    &&& forall|i: int| 0 <= i < pixels.len() ==> resolves(pixels[i]@, mode, #[trigger] plan[i])
}

/// Resolves every pixel of an image, or fails the whole run.
///
/// `pixels[i]` holds the distance keys from pixel `i` to each palette entry
/// (see [`nearest`]). Each pixel is resolved on its own inputs alone. If any
/// pixel cannot be resolved, no plan is returned and the error names the
/// lowest such pixel.
pub fn plan(pixels: &Vec<Vec<u32>>, mode: Option<InterpolationMode>) -> (r: Result<
    Vec<Match>,
    RecolorError,
>)
    ensures
        r is Ok <==> all_resolvable(pixels@, mode),
        r matches Ok(v) ==> resolves_all(pixels@, mode, v@),
        r matches Err(e) ==> e matches RecolorError::InsufficientPalette { pixel }
            && is_first_unresolvable(pixels@, mode, pixel as int),
{
    let n = pixels.len();
    let mut out: Vec<Match> = Vec::with_capacity(n);
    let mut i: usize = 0;
    while i < n
        invariant
            n == pixels@.len(),
            i <= n,
            out@.len() == i,
            forall|j: int| 0 <= j < i ==> pixels@[j]@.len() >= required_len(mode),
            forall|j: int| 0 <= j < i ==> resolves(pixels@[j]@, mode, #[trigger] out@[j]),
        decreases n - i,
    {
        match nearest(&pixels[i], mode) {
            Some(m) => out.push(m),
            None => {
                return Err(RecolorError::InsufficientPalette { pixel: i });
            },
        }
        i = i + 1;
    }
    Ok(out)
}

/// `perm` reorders `0..n`: each index appears exactly once.
pub open spec fn is_permutation(perm: Seq<int>, n: nat) -> bool {
    &&& perm.len() == n
    &&& forall|i: int| 0 <= i < n ==> 0 <= #[trigger] perm[i] < n
    &&& forall|i: int, j: int| 0 <= i < j < n ==> perm[i] != perm[j]
    &&& forall|k: int| 0 <= k < n ==> #[trigger] perm.contains(k)
}

/// Visiting the pixels in another order changes nothing but the order of
/// the results: if `moved[i]` is `pixels[perm[i]]` for a permutation `perm`,
/// the two runs succeed or fail together, and on success the replacement of
/// each pixel is the same in both.
pub proof fn lemma_plan_order_independent(
    pixels: Seq<Vec<u32>>,
    moved: Seq<Vec<u32>>,
    perm: Seq<int>,
    mode: Option<InterpolationMode>,
    a: Seq<Match>,
    b: Seq<Match>,
)
    requires
        is_permutation(perm, pixels.len()),
        moved.len() == pixels.len(),
        forall|i: int| 0 <= i < moved.len() ==> #[trigger] moved[i] == pixels[perm[i]],
    ensures
        all_resolvable(pixels, mode) <==> all_resolvable(moved, mode),
        resolves_all(pixels, mode, a) && resolves_all(moved, mode, b) ==> forall|i: int|
            0 <= i < b.len() ==> #[trigger] b[i] == a[perm[i]],
{
    if all_resolvable(moved, mode) {
        assert forall|k: int| 0 <= k < pixels.len() implies pixels[k]@.len() >= required_len(
            mode,
        ) by {
            assert(perm.contains(k));
            let i = choose|i: int| 0 <= i < perm.len() && perm[i] == k;
            assert(moved[i] == pixels[perm[i]]);
            assert(moved[i]@.len() >= required_len(mode));
        }
    }
    if resolves_all(pixels, mode, a) && resolves_all(moved, mode, b) {
        assert forall|i: int| 0 <= i < b.len() implies #[trigger] b[i] == a[perm[i]] by {
            assert(moved[i] == pixels[perm[i]]);
            assert(resolves(moved[i]@, mode, b[i]));
            assert(resolves(pixels[perm[i]]@, mode, a[perm[i]]));
            crate::select::lemma_resolution_deterministic(moved[i]@, mode, b[i], a[perm[i]]);
        }
    }
}

/// A palette with fewer entries than the mode needs fails every pixel, so a
/// run over any non-empty image fails as a whole, at its first pixel, and
/// no plan is made.
pub proof fn lemma_small_palette_fails_run(
    pixels: Seq<Vec<u32>>,
    mode: Option<InterpolationMode>,
    size: nat,
)
    requires
        size < required_len(mode),
        pixels.len() > 0,
        forall|i: int| 0 <= i < pixels.len() ==> (#[trigger] pixels[i])@.len() == size,
    ensures
        !all_resolvable(pixels, mode),
        is_first_unresolvable(pixels, mode, 0),
{
    assert(pixels[0]@.len() == size);
}

} // verus!
