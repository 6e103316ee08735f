//! Splitting decoded RGBA pixel data into the two channel sequences a PDF
//! image needs: an RGB byte sequence for the image XObject and a
//! single-byte alpha sequence for the soft-mask XObject.
//!
//! Pixels are kept in scan order (row-major, left to right, top to
//! bottom); the `i`-th alpha byte belongs to the `i`-th RGB triplet.

use vstd::prelude::*;

verus! {

/// The RGB bytes of an RGBA byte sequence: three bytes per four-byte
/// pixel, in pixel order.
pub open spec fn rgb_of(rgba: Seq<u8>) -> Seq<u8>
    decreases rgba.len(),
{
    if rgba.len() < 4 {
        Seq::empty()
    } else {
        seq![rgba[0], rgba[1], rgba[2]] + rgb_of(rgba.skip(4))
    }
}

/// The alpha bytes of an RGBA byte sequence: the fourth byte of each
/// four-byte pixel, in pixel order.
pub open spec fn alpha_of(rgba: Seq<u8>) -> Seq<u8>
    decreases rgba.len(),
{
    if rgba.len() < 4 {
        Seq::empty()
    } else {
        seq![rgba[3]] + alpha_of(rgba.skip(4))
    }
}

/// A sequence of `4 * n` RGBA bytes splits into `3 * n` RGB bytes and
/// `n` alpha bytes, and the `i`-th alpha byte and the `i`-th RGB triplet
/// come from the same pixel.
pub proof fn lemma_channel_shape(rgba: Seq<u8>, n: nat)
    requires
        rgba.len() == 4 * n,
    ensures
        rgb_of(rgba).len() == 3 * n,
        alpha_of(rgba).len() == n,
        forall|i: int|
            0 <= i < n ==> #[trigger] alpha_of(rgba)[i] == rgba[4 * i + 3]
                && rgb_of(rgba)[3 * i] == rgba[4 * i]
                && rgb_of(rgba)[3 * i + 1] == rgba[4 * i + 1]
                && rgb_of(rgba)[3 * i + 2] == rgba[4 * i + 2],
    decreases n,
{
    if n > 0 {
        lemma_channel_shape(rgba.skip(4), (n - 1) as nat);
        assert forall|i: int| 0 <= i < n implies #[trigger] alpha_of(rgba)[i] == rgba[4 * i + 3]
            && rgb_of(rgba)[3 * i] == rgba[4 * i]
            && rgb_of(rgba)[3 * i + 1] == rgba[4 * i + 1]
            && rgb_of(rgba)[3 * i + 2] == rgba[4 * i + 2] by {
            if i > 0 {
                assert(alpha_of(rgba)[i] == alpha_of(rgba.skip(4))[i - 1]);
                assert(rgba.skip(4)[4 * (i - 1) + 3] == rgba[4 * i + 3]);
                assert(rgb_of(rgba)[3 * i] == rgb_of(rgba.skip(4))[3 * (i - 1)]);
                assert(rgb_of(rgba)[3 * i + 1] == rgb_of(rgba.skip(4))[3 * (i - 1) + 1]);
                assert(rgb_of(rgba)[3 * i + 2] == rgb_of(rgba.skip(4))[3 * (i - 1) + 2]);
                assert(rgba.skip(4)[4 * (i - 1)] == rgba[4 * i]);
                assert(rgba.skip(4)[4 * (i - 1) + 1] == rgba[4 * i + 1]);
                assert(rgba.skip(4)[4 * (i - 1) + 2] == rgba[4 * i + 2]);
            }
        }
    }
}

/// Splits an RGBA byte buffer into its RGB bytes and its alpha bytes,
/// preserving pixel order.
pub fn separate_rgb_and_alpha(rgba: &Vec<u8>) -> (r: (Vec<u8>, Vec<u8>))
    requires
        rgba@.len() % 4 == 0,
    ensures
        r.0@ == rgb_of(rgba@),
        r.1@ == alpha_of(rgba@),
{
    let n = rgba.len() / 4;
    let mut rgb: Vec<u8> = Vec::new();
    let mut alpha: Vec<u8> = Vec::new();
    let mut i: usize = 0;
    proof {
        assert(rgba@.skip(0) =~= rgba@);
        assert(rgb_of(rgba@) =~= rgb@ + rgb_of(rgba@.skip(0)));
        assert(alpha_of(rgba@) =~= alpha@ + alpha_of(rgba@.skip(0)));
    }
    while i < n
        invariant
            4 * n == rgba@.len(),
            rgba@.len() <= usize::MAX,
            i <= n,
            rgb_of(rgba@) == rgb@ + rgb_of(rgba@.skip(4 * i)),
            alpha_of(rgba@) == alpha@ + alpha_of(rgba@.skip(4 * i)),
        decreases n - i,
    {
        proof {
            assert(rgba@.len() == 4 * n);
            assert(rgba@.skip(4 * i as int).len() >= 4);
            assert(rgba@.skip(4 * i as int).skip(4) =~= rgba@.skip(4 * (i + 1) as int));
        }
        rgb.push(rgba[4 * i]);
        rgb.push(rgba[4 * i + 1]);
        rgb.push(rgba[4 * i + 2]);
        alpha.push(rgba[4 * i + 3]);
        proof {
            let tail = rgba@.skip(4 * i as int);
            assert(tail[0] == rgba@[4 * i as int]);
            assert(tail[1] == rgba@[4 * i as int + 1]);
            assert(tail[2] == rgba@[4 * i as int + 2]);
            assert(tail[3] == rgba@[4 * i as int + 3]);
            assert(rgb_of(rgba@) =~= rgb@ + rgb_of(rgba@.skip(4 * (i + 1) as int)));
            assert(alpha_of(rgba@) =~= alpha@ + alpha_of(rgba@.skip(4 * (i + 1) as int)));
        }
        i = i + 1;
    }
    proof {
        assert(rgba@.skip(4 * i as int).len() < 4);
        assert(rgb_of(rgba@) =~= rgb@);
        assert(alpha_of(rgba@) =~= alpha@);
    }
    (rgb, alpha)
}

} // verus!
