use vstd::prelude::*;

verus! {

/// How the two nearest palette entries are combined.
#[derive(Clone, Copy, Debug, PartialEq, Eq, Structural)]
pub enum InterpolationMode {
    /// Weighted by the two distances.
    Mix,
    /// An even blend, whatever the distances.
    Interpolate,
}

/// The blend factor toward the second-nearest entry.
#[derive(Clone, Copy, Debug, PartialEq, Eq, Structural)]
pub enum Weight {
    /// `1 - d2 / (d1 + d2)`, from the two distances.
    Distance,
    /// Exactly one half.
    Half,
    /// Zero: the nearest entry alone. Used where both distances are zero and
    /// the distance formula is undefined.
    First,
}

/// The palette entries that replace one pixel.
#[derive(Clone, Copy, Debug, PartialEq, Eq, Structural)]
pub enum Match {
    /// No interpolation: the nearest entry.
    Nearest { index: usize },
    /// The nearest entry blended toward the second-nearest one.
    Blend { first: usize, second: usize, weight: Weight },
}

/// Entry `i` comes no later than entry `j` in the order of (distance, index).
pub open spec fn precedes(keys: Seq<u32>, i: int, j: int) -> bool {
    keys[i] < keys[j] || (keys[i] == keys[j] && i <= j)
}

/// `i` is the nearest entry; ties go to the earliest one.
pub open spec fn is_nearest(keys: Seq<u32>, i: int) -> bool {
    &&& 0 <= i < keys.len()
    &&& forall|j: int| 0 <= j < keys.len() ==> precedes(keys, i, j)
}

/// `s` is the nearest entry once `first` is set aside; ties go to the
/// earliest one.
pub open spec fn is_second(keys: Seq<u32>, first: int, s: int) -> bool {
    &&& 0 <= s < keys.len()
    &&& s != first
    &&& forall|j: int| 0 <= j < keys.len() && j != first ==> precedes(keys, s, j)
}

/// How many palette entries a mode needs.
pub open spec fn required_len(mode: Option<InterpolationMode>) -> nat {
    match mode {
        None => 1,
        Some(_) => 2,
    }
}

/// The blend weight for a mode, given the distances of the two nearest
/// entries.
pub open spec fn weight_for(mode: InterpolationMode, d1: u32, d2: u32) -> Weight {
    match mode {
        InterpolationMode::Interpolate => Weight::Half,
        InterpolationMode::Mix => if d1 == 0 && d2 == 0 {
            Weight::First
        } else if d1 == d2 {
            Weight::Half
        } else {
            Weight::Distance
        },
    }
}

/// `m` is the replacement that the mode calls for, given the distance keys of
/// every palette entry.
pub open spec fn resolves(keys: Seq<u32>, mode: Option<InterpolationMode>, m: Match) -> bool {
    match m {
        Match::Nearest { index } => mode is None && is_nearest(keys, index as int),
        Match::Blend { first, second, weight } => {
            &&& mode is Some
            &&& is_nearest(keys, first as int)
            &&& is_second(keys, first as int, second as int)
            &&& weight == weight_for(mode->0, keys[first as int], keys[second as int])
        },
    }
}

/// Chooses the palette entries that replace a pixel.
///
/// `keys[i]` is the distance from the pixel to palette entry `i`, given as a
/// key whose integer order is the order of the distances (the bits of a
/// non-negative float have that property). Ties go to the earlier entry.
pub fn nearest(keys: &Vec<u32>, mode: Option<InterpolationMode>) -> (r: Option<Match>)
    ensures
        r is None <==> keys@.len() < required_len(mode),
        r matches Some(m) ==> resolves(keys@, mode, m),
{
    let n = keys.len();
    if n == 0 {
        return None;
    }
    let mut first: usize = 0;
    let mut i: usize = 1;
    while i < n
        invariant
            n == keys@.len(),
            1 <= i <= n,
            first < i,
            forall|j: int| 0 <= j < i ==> precedes(keys@, first as int, j),
        decreases n - i,
    {
        let ghost prev = first;
        if keys[i] < keys[first] {
            first = i;
        }
        assert forall|j: int| 0 <= j < i + 1 implies precedes(keys@, first as int, j) by {
            if j < i {
                assert(precedes(keys@, prev as int, j));
            }
        }
        i = i + 1;
    }
    match mode {
        None => Some(Match::Nearest { index: first }),
        Some(m) => {
            if n < 2 {
                return None;
            }
            let mut second: usize = if first == 0 { 1 } else { 0 };
            let mut k: usize = 0;
            while k < n
                invariant
                    n == keys@.len(),
                    k <= n,
                    first < n,
                    second < n,
                    second != first,
                    forall|j: int| 0 <= j < k && j != first ==> precedes(keys@, second as int, j),
                decreases n - k,
            {
                let ghost prev = second;
                if k != first && (keys[k] < keys[second] || (keys[k] == keys[second] && k
                    < second)) {
                    second = k;
                }
                assert forall|j: int| 0 <= j < k + 1 && j != first implies precedes(
                    keys@,
                    second as int,
                    j,
                ) by {
                    if j < k {
                        assert(precedes(keys@, prev as int, j));
                    }
                }
                k = k + 1;
            }
            let d1 = keys[first];
            let d2 = keys[second];
            let weight = match m {
                InterpolationMode::Interpolate => Weight::Half,
                InterpolationMode::Mix => if d1 == 0 && d2 == 0 {
                    Weight::First
                } else if d1 == d2 {
                    Weight::Half
                } else {
                    Weight::Distance
                },
            };
            Some(Match::Blend { first, second, weight })
        },
    }
}

/// A pixel's replacement is a function of its distances and the mode: two
/// results that both meet the contract of [`nearest`] are the same.
pub proof fn lemma_resolution_deterministic(
    keys: Seq<u32>,
    mode: Option<InterpolationMode>,
    m1: Match,
    m2: Match,
)
    requires
        resolves(keys, mode, m1),
        resolves(keys, mode, m2),
    ensures
        m1 == m2,
{
    match (m1, m2) {
        (Match::Nearest { index: a }, Match::Nearest { index: b }) => {
            assert(precedes(keys, a as int, b as int));
            assert(precedes(keys, b as int, a as int));
        },
        (
            Match::Blend { first: a, second: s, weight: _ },
            Match::Blend { first: b, second: t, weight: _ },
        ) => {
            assert(precedes(keys, a as int, b as int));
            assert(precedes(keys, b as int, a as int));
            assert(precedes(keys, s as int, t as int));
            assert(precedes(keys, t as int, s as int));
        },
        _ => {},
    }
}

/// A pixel at the same non-zero distance from its two nearest entries gets
/// the same replacement under `Mix` as under `Interpolate`: an even blend.
pub proof fn lemma_equidistant_mix_is_even(keys: Seq<u32>, m: Match, i: Match)
    requires
        resolves(keys, Some(InterpolationMode::Mix), m),
        resolves(keys, Some(InterpolationMode::Interpolate), i),
        m matches Match::Blend { first, second, .. } && keys[first as int] == keys[second as int]
            && keys[first as int] != 0,
    ensures
        m == i,
        m matches Match::Blend { weight, .. } && weight == Weight::Half,
{
    if let (
        Match::Blend { first: a, second: s, weight: _ },
        Match::Blend { first: b, second: t, weight: _ },
    ) = (m, i) {
        assert(precedes(keys, a as int, b as int));
        assert(precedes(keys, b as int, a as int));
        assert(precedes(keys, s as int, t as int));
        assert(precedes(keys, t as int, s as int));
    }
}

} // verus!
