use vstd::prelude::*;

verus! {

/// One 8-bit pixel, after tone mapping.
#[derive(Clone, Copy, Debug, PartialEq, Eq, Structural)]
pub struct Rgb {
    pub r: u8,
    pub g: u8,
    pub b: u8,
}

/// The ASCII decimal digits of `n`, most significant first, without leading zeros.
pub open spec fn decimal(n: nat) -> Seq<u8>
    decreases n,
{
    if n < 10 {
        seq![(48 + n) as u8]
    } else {
        decimal(n / 10).push((48 + n % 10) as u8)
    }
}

/// The text line of one pixel: `"<r> <g> <b>\n"`.
pub open spec fn pixel_line(p: Rgb) -> Seq<u8> {
    decimal(p.r as nat) + seq![32u8] + decimal(p.g as nat) + seq![32u8] + decimal(p.b as nat)
        + seq![10u8]
}

/// The plain PPM header: `"P3\n<width> <height>\n255\n"`.
pub open spec fn header(width: nat, height: nat) -> Seq<u8> {
    seq![80u8, 51u8, 10u8] + decimal(width) + seq![32u8] + decimal(height) + seq![
        10u8,
        50u8,
        53u8,
        53u8,
        10u8,
    ]
}

/// The pixel lines of `ps`, in order.
pub open spec fn pixels_text(ps: Seq<Rgb>) -> Seq<u8>
    decreases ps.len(),
{
    if ps.len() == 0 {
        Seq::empty()
    } else {
        pixels_text(ps.drop_last()) + pixel_line(ps.last())
    }
}

/// The pixels of a grid of rows, row-major.
pub open spec fn row_major(rows: Seq<Vec<Rgb>>) -> Seq<Rgb> {
    rows.map_values(|row: Vec<Rgb>| row@).flatten()
}

/// A whole plain PPM image.
pub open spec fn image_text(width: nat, height: nat, ps: Seq<Rgb>) -> Seq<u8> {
    header(width, height) + pixels_text(ps)
}

/// Appends the decimal digits of `n`.
pub fn push_decimal(buf: &mut Vec<u8>, n: u32)
    ensures
        final(buf)@ == old(buf)@ + decimal(n as nat),
    decreases n,
{
    if n >= 10 {
        push_decimal(buf, n / 10);
    }
    buf.push((48 + n % 10) as u8);
    proof {
        if n < 10 {
            assert(n % 10 == n);
        }
    }
}

impl Rgb {
    /// Appends this pixel's text line.
    pub fn push_line(&self, buf: &mut Vec<u8>)
        ensures
            final(buf)@ == old(buf)@ + pixel_line(*self),
    {
        push_decimal(buf, self.r as u32);
        buf.push(32u8);
        push_decimal(buf, self.g as u32);
        buf.push(32u8);
        push_decimal(buf, self.b as u32);
        buf.push(10u8);
        proof {
            let s = *self;
            assert(final(buf)@ =~= old(buf)@ + pixel_line(s));
        }
    }

    /// This pixel's text line, `"<r> <g> <b>\n"`.
    pub fn as_bytes(&self) -> (r: Vec<u8>)
        ensures
            r@ == pixel_line(*self),
    {
        let mut buf: Vec<u8> = Vec::new();
        self.push_line(&mut buf);
        assert(buf@ =~= pixel_line(*self));
        buf
    }
}

/// The plain PPM header for an image of the given size.
pub fn ppm_header(width: u32, height: u32) -> (r: Vec<u8>)
    ensures
        r@ == header(width as nat, height as nat),
{
    let mut buf: Vec<u8> = Vec::new();
    buf.push(80u8);
    buf.push(51u8);
    buf.push(10u8);
    push_decimal(&mut buf, width);
    buf.push(32u8);
    push_decimal(&mut buf, height);
    buf.push(10u8);
    buf.push(50u8);
    buf.push(53u8);
    buf.push(53u8);
    buf.push(10u8);
    assert(buf@ =~= header(width as nat, height as nat));
    buf
}

/// The text of two runs of pixels, one after the other, is the text of the
/// first followed by the text of the second: rows rendered apart and then
/// joined in their order give the text of the whole image.
pub proof fn lemma_pixels_text_concat(a: Seq<Rgb>, b: Seq<Rgb>)
    ensures
        pixels_text(a + b) == pixels_text(a) + pixels_text(b),
    decreases b.len(),
{
    if b.len() == 0 {
        assert(a + b =~= a);
        assert(pixels_text(a) + pixels_text(b) =~= pixels_text(a));
    } else {
        assert((a + b).drop_last() =~= a + b.drop_last());
        assert((a + b).last() == b.last());
        lemma_pixels_text_concat(a, b.drop_last());
        assert(pixels_text(a + b) =~= pixels_text(a) + pixels_text(b));
    }
}

/// The pixel lines of a row-major image after any bytes already in `buf`.
pub fn push_rows(buf: &mut Vec<u8>, rows: &Vec<Vec<Rgb>>)
    ensures
        final(buf)@ == old(buf)@ + pixels_text(row_major(rows@)),
{
    let ghost start = buf@;
    let mut i: usize = 0;
    assert(rows@.take(0).map_values(|row: Vec<Rgb>| row@) =~= Seq::<Seq<Rgb>>::empty());
    assert(row_major(rows@.take(0)) =~= Seq::<Rgb>::empty());
    assert(start + pixels_text(row_major(rows@.take(0))) =~= start);
    while i < rows.len()
        invariant
            0 <= i <= rows.len(),
            buf@ == start + pixels_text(row_major(rows@.take(i as int))),
        decreases rows.len() - i,
    {
        let row = &rows[i];
        let ghost before = buf@;
        let mut j: usize = 0;
        assert(row@.take(0) =~= Seq::<Rgb>::empty());
        assert(before + pixels_text(row@.take(0)) =~= before);
        while j < row.len()
            invariant
                0 <= j <= row.len(),
                buf@ == before + pixels_text(row@.take(j as int)),
            decreases row.len() - j,
        {
            row[j].push_line(buf);
            assert(row@.take(j + 1).drop_last() =~= row@.take(j as int));
            j += 1;
        }
        proof {
            assert(row@.take(j as int) =~= row@);
            let prev = rows@.take(i as int);
            assert(rows@.take(i + 1) =~= prev.push(*row));
            assert(rows@.take(i + 1).map_values(|r: Vec<Rgb>| r@) =~= prev.map_values(
                |r: Vec<Rgb>| r@,
            ).push(row@));
            prev.map_values(|r: Vec<Rgb>| r@).lemma_flatten_push(row@);
            lemma_pixels_text_concat(row_major(prev), row@);
        }
        i += 1;
    }
    assert(rows@.take(i as int) =~= rows@);
}

/// A grid of rows that all have `width` pixels holds `width` times as many
/// pixels as it has rows.
pub proof fn lemma_row_major_len(rows: Seq<Vec<Rgb>>, width: nat)
    requires
        forall|k: int| 0 <= k < rows.len() ==> #[trigger] rows[k]@.len() == width,
    ensures
        row_major(rows).len() == rows.len() * width,
    decreases rows.len(),
{
    let m = rows.map_values(|row: Vec<Rgb>| row@);
    if rows.len() == 0 {
        assert(m.len() == 0);
    } else {
        let rest = rows.drop_first();
        assert forall|k: int| 0 <= k < rest.len() implies #[trigger] rest[k]@.len() == width by {
            assert(rest[k] == rows[k + 1]);
        }
        lemma_row_major_len(rest, width);
        assert(rows.map_values(|row: Vec<Rgb>| row@).drop_first() =~= rest.map_values(
            |row: Vec<Rgb>| row@,
        ));
        assert(m.flatten() == m.first() + m.drop_first().flatten());
        assert(m.first() == rows[0]@);
        assert(rows.len() * width == width + rest.len() * width) by (nonlinear_arith)
            requires
                rest.len() == rows.len() - 1,
        ;
    }
}

/// Encodes a rendered image, rows top to bottom, as a plain PPM file.
pub fn encode_image(width: u32, height: u32, rows: &Vec<Vec<Rgb>>) -> (r: Vec<u8>)
    requires
        rows.len() == height,
        forall|k: int| 0 <= k < rows.len() ==> #[trigger] rows[k].len() == width,
    ensures
        r@ == image_text(width as nat, height as nat, row_major(rows@)),
        row_major(rows@).len() == height * width,
{
    proof {
        assert forall|k: int| 0 <= k < rows@.len() implies #[trigger] rows@[k]@.len() == width by {
            assert(rows[k].len() == width);
        }
        lemma_row_major_len(rows@, width as nat);
    }
    let mut buf = ppm_header(width, height);
    push_rows(&mut buf, rows);
    buf
}

} // verus!
