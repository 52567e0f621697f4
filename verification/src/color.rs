use vstd::prelude::*;

verus! {

use vstd::arithmetic::div_mod::lemma_fundamental_div_mod;

/// One pixel: a 4-channel RGBA color, each channel in 0..=255.
#[derive(Clone, Copy, Debug, PartialEq, Eq, Structural)]
pub struct Color {
    pub r: u8,
    pub g: u8,
    pub b: u8,
    pub a: u8,
}

impl Color {
    /// The default pixel value of a freshly allocated canvas:
    /// transparent black.
    pub open spec fn clear_spec() -> Color {
        Color { r: 0, g: 0, b: 0, a: 0 }
    }

    /// Transparent black, the initial value of every canvas pixel.
    pub fn clear() -> (c: Color)
        ensures
            c == Color::clear_spec(),
    {
        Color { r: 0, g: 0, b: 0, a: 0 }
    }
}

/// The flat RGBA byte sequence of a pixel sequence: four bytes per
/// pixel, in r, g, b, a order.
pub open spec fn rgba_seq(p: Seq<Color>) -> Seq<u8>
    decreases p.len(),
{
    if p.len() == 0 {
        Seq::empty()
    } else {
        rgba_seq(p.drop_last()) + seq![p.last().r, p.last().g, p.last().b, p.last().a]
    }
}

/// `rgba_seq` yields exactly four bytes per pixel.
pub proof fn lemma_rgba_seq_len(p: Seq<Color>)
    ensures
        rgba_seq(p).len() == 4 * p.len(),
    decreases p.len(),
{
    if p.len() > 0 {
        lemma_rgba_seq_len(p.drop_last());
    }
}

/// Appending one pixel appends its four channel bytes.
pub proof fn lemma_rgba_seq_push(p: Seq<Color>, c: Color)
    ensures
        rgba_seq(p.push(c)) == rgba_seq(p) + seq![c.r, c.g, c.b, c.a],
{
    assert(p.push(c).drop_last() =~= p);
    assert(p.push(c).last() == c);
}

/// Two pixel sequences with the same flat RGBA bytes are the same
/// sequence: flattening loses nothing.
pub proof fn lemma_rgba_seq_injective(p: Seq<Color>, q: Seq<Color>)
    requires
        rgba_seq(p) == rgba_seq(q),
    ensures
        p == q,
    decreases p.len(),
{
    lemma_rgba_seq_len(p);
    lemma_rgba_seq_len(q);
    if p.len() == 0 {
        assert(p =~= q);
    } else {
        lemma_rgba_seq_len(p.drop_last());
        lemma_rgba_seq_len(q.drop_last());
        let n = rgba_seq(p).len();
        assert(rgba_seq(p)[n - 4] == p.last().r);
        assert(rgba_seq(p)[n - 3] == p.last().g);
        assert(rgba_seq(p)[n - 2] == p.last().b);
        assert(rgba_seq(p)[n - 1] == p.last().a);
        assert(rgba_seq(q)[n - 4] == q.last().r);
        assert(rgba_seq(q)[n - 3] == q.last().g);
        assert(rgba_seq(q)[n - 2] == q.last().b);
        assert(rgba_seq(q)[n - 1] == q.last().a);
        assert(p.last() == q.last());
        assert(rgba_seq(p.drop_last()) =~= rgba_seq(p).take(n - 4));
        assert(rgba_seq(q.drop_last()) =~= rgba_seq(q).take(n - 4));
        lemma_rgba_seq_injective(p.drop_last(), q.drop_last());
        assert forall|i: int| 0 <= i < p.len() implies p[i] == q[i] by {
            if i < p.len() - 1 {
                assert(p[i] == p.drop_last()[i]);
                assert(q[i] == q.drop_last()[i]);
            }
        }
        assert(p =~= q);
    }
}

/// Flattens a pixel vector into its interleaved RGBA bytes.
pub fn to_rgba_bytes(pixels: &Vec<Color>) -> (r: Vec<u8>)
    ensures
        r@ == rgba_seq(pixels@),
{
    let mut out: Vec<u8> = Vec::new();
    let mut i: usize = 0;
    while i < pixels.len()
        invariant
            i <= pixels@.len(),
            out@ == rgba_seq(pixels@.subrange(0, i as int)),
        decreases pixels@.len() - i,
    {
        let c = pixels[i];
        proof {
            assert(pixels@.subrange(0, i + 1) =~= pixels@.subrange(0, i as int).push(
                pixels@[i as int],
            ));
            lemma_rgba_seq_push(pixels@.subrange(0, i as int), pixels@[i as int]);
            assert(rgba_seq(pixels@.subrange(0, i + 1)) =~= out@.push(c.r).push(c.g).push(
                c.b,
            ).push(c.a));
        }
        out.push(c.r);
        out.push(c.g);
        out.push(c.b);
        out.push(c.a);
        i = i + 1;
    }
    proof {
        assert(pixels@.subrange(0, pixels@.len() as int) =~= pixels@);
    }
    out
}

/// Rebuilds a pixel vector from interleaved RGBA bytes.
pub fn from_rgba_bytes(bytes: &Vec<u8>) -> (r: Vec<Color>)
    requires
        bytes@.len() % 4 == 0,
    ensures
        rgba_seq(r@) == bytes@,
        4 * r@.len() == bytes@.len(),
{
    let n = bytes.len() / 4;
    proof {
        lemma_fundamental_div_mod(bytes@.len() as int, 4);
    }
    let mut out: Vec<Color> = Vec::new();
    let mut i: usize = 0;
    while i < n
        invariant
            i <= n,
            4 * n == bytes@.len(),
            bytes@.len() <= usize::MAX,
            out@.len() == i,
            rgba_seq(out@) == bytes@.subrange(0, 4 * i as int),
        decreases n - i,
    {
        let c = Color { r: bytes[4 * i], g: bytes[4 * i + 1], b: bytes[4 * i + 2], a: bytes[4 * i
            + 3] };
        proof {
            lemma_rgba_seq_push(out@, c);
            assert(rgba_seq(out@.push(c)) =~= bytes@.subrange(0, 4 * (i + 1)));
        }
        out.push(c);
        i = i + 1;
    }
    proof {
        assert(bytes@.subrange(0, 4 * n as int) =~= bytes@);
    }
    out
}

} // verus!
