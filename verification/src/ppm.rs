use crate::color::{channel_number, color_line, Color};
use crate::render::{pixel_color, Camera, IMG_HEIGHT, IMG_WIDTH};
use crate::scalar::{div_fixed, lemma_ratio_unit_interval, ratio, Scalar, ONE};
use crate::scene::ray_color;
use crate::text::{decimal, digits, push_decimal};
use crate::vec3::{triple, Triple};
use vstd::prelude::*;

verus! {

/// The head of a plain-text image: the format's name, the width and the
/// height, and the largest value of a colour component, 255.
pub open spec fn header_text(width: int, height: int) -> Seq<char> {
    seq!['P', '3', '\n'] + decimal(width) + seq![' '] + decimal(height) + seq![
        '\n',
        '2',
        '5',
        '5',
        '\n',
    ]
}

/// The line of one pixel: its three numbers, each followed by a space, and
/// the end of the line.
pub open spec fn pixel_line(color: Triple) -> Seq<char> {
    color_line(color) + seq!['\n']
}

/// The colour of the plain gradient at column `i` and row `j`, the rows
/// counted from the bottom: red grows to the right, green grows upward, and
/// blue is one quarter everywhere.
pub open spec fn gradient_color(i: int, j: int, width: int, height: int) -> Triple {
    triple(ratio(i * ONE, (width - 1) * ONE), ratio(j * ONE, (height - 1) * ONE), 250_000)
}

/// The lines of the first `count` pixels of row `j` of the gradient.
pub open spec fn gradient_row(width: int, height: int, j: int, count: nat) -> Seq<char>
    decreases count,
{
    if count == 0 {
        Seq::empty()
    } else {
        gradient_row(width, height, j, (count - 1) as nat) + pixel_line(
            gradient_color(count - 1, j, width, height),
        )
    }
}

/// The lines of the topmost `rows` rows of the gradient, the top row first.
pub open spec fn gradient_rows(width: int, height: int, rows: nat) -> Seq<char>
    decreases rows,
{
    if rows == 0 {
        Seq::empty()
    } else {
        gradient_rows(width, height, (rows - 1) as nat) + gradient_row(
            width,
            height,
            height - rows,
            width as nat,
        )
    }
}

/// The plain gradient as a plain-text image.
pub open spec fn gradient_text(width: int, height: int) -> Seq<char> {
    header_text(width, height) + gradient_rows(width, height, height as nat)
}

/// The lines of the first `count` pixels of row `j` of the scene.
pub open spec fn scene_row(j: int, count: nat) -> Seq<char>
    decreases count,
{
    if count == 0 {
        Seq::empty()
    } else {
        scene_row(j, (count - 1) as nat) + pixel_line(pixel_color(count - 1, j))
    }
}

/// The lines of the topmost `rows` rows of the scene, the top row first.
pub open spec fn scene_rows(rows: nat) -> Seq<char>
    decreases rows,
{
    if rows == 0 {
        Seq::empty()
    } else {
        scene_rows((rows - 1) as nat) + scene_row(IMG_HEIGHT - rows, IMG_WIDTH as nat)
    }
}

/// The scene as a plain-text image.
pub open spec fn scene_text() -> Seq<char> {
    header_text(IMG_WIDTH as int, IMG_HEIGHT as int) + scene_rows(IMG_HEIGHT as nat)
}

/// The line of the pixel in the top left corner of the plain gradient:
/// `0 255 63 ` and the end of the line.
pub open spec fn top_left_line() -> Seq<char> {
    seq!['0', ' ', '2', '5', '5', ' ', '6', '3', ' ', '\n']
}

/// What begins a text also begins the text with more behind it.
proof fn lemma_prefix_extend(p: Seq<char>, s: Seq<char>, t: Seq<char>)
    requires
        p.is_prefix_of(s),
    ensures
        p.is_prefix_of(s + t),
{
    assert(p =~= (s + t).subrange(0, p.len() as int));
}

/// What begins a text still begins it when the same head is put before both.
proof fn lemma_prefix_prepend(h: Seq<char>, p: Seq<char>, s: Seq<char>)
    requires
        p.is_prefix_of(s),
    ensures
        (h + p).is_prefix_of(h + s),
{
    assert(h + p =~= (h + s).subrange(0, (h + p).len() as int));
}

/// A row of the gradient begins with the line of its leftmost pixel.
proof fn lemma_gradient_row_begins(width: int, height: int, j: int, count: nat)
    requires
        1 <= count,
    ensures
        pixel_line(gradient_color(0, j, width, height)).is_prefix_of(
            gradient_row(width, height, j, count),
        ),
    decreases count,
{
    let first = pixel_line(gradient_color(0, j, width, height));
    if count == 1 {
        assert(gradient_row(width, height, j, 0) =~= Seq::<char>::empty());
        assert(gradient_row(width, height, j, 1) =~= first);
        assert(first =~= first.subrange(0, first.len() as int));
    } else {
        lemma_gradient_row_begins(width, height, j, (count - 1) as nat);
        lemma_prefix_extend(
            first,
            gradient_row(width, height, j, (count - 1) as nat),
            pixel_line(gradient_color(count - 1, j, width, height)),
        );
    }
}

/// The rows of the gradient begin with the line of the pixel in the top left
/// corner.
proof fn lemma_gradient_rows_begin(width: int, height: int, rows: nat)
    requires
        1 <= width,
        1 <= rows,
    ensures
        pixel_line(gradient_color(0, height - 1, width, height)).is_prefix_of(
            gradient_rows(width, height, rows),
        ),
    decreases rows,
{
    let first = pixel_line(gradient_color(0, height - 1, width, height));
    if rows == 1 {
        assert(gradient_rows(width, height, 0) =~= Seq::<char>::empty());
        assert(gradient_rows(width, height, 1) =~= gradient_row(
            width,
            height,
            height - 1,
            width as nat,
        ));
        lemma_gradient_row_begins(width, height, height - 1, width as nat);
    } else {
        lemma_gradient_rows_begin(width, height, (rows - 1) as nat);
        lemma_prefix_extend(
            first,
            gradient_rows(width, height, (rows - 1) as nat),
            gradient_row(width, height, height - rows, width as nat),
        );
    }
}

/// The pixel in the top left corner of the plain gradient has no red, full
/// green and a quarter of blue, whatever the size of the image, and its line
/// reads `0 255 63 `.
pub proof fn lemma_gradient_top_left(width: int, height: int)
    requires
        2 <= width,
        2 <= height,
    ensures
        gradient_color(0, height - 1, width, height) == triple(0, ONE as int, 250_000),
        pixel_line(gradient_color(0, height - 1, width, height)) == top_left_line(),
{
    let w = (width - 1) * 1_000_000;
    let h = (height - 1) * 1_000_000;
    assert((0int * 1_000_000) / w == 0) by (nonlinear_arith)
        requires
            w > 0,
    ;
    assert((h * 1_000_000) / h == 1_000_000) by (nonlinear_arith)
        requires
            h > 0,
    ;
    assert(channel_number(0) == 0);
    assert(channel_number(1_000_000) == 255);
    assert(channel_number(250_000) == 63);
    reveal_with_fuel(digits, 3);
    assert(decimal(0) =~= seq!['0']);
    assert(decimal(255) =~= seq!['2', '5', '5']);
    assert(decimal(63) =~= seq!['6', '3']);
    assert(pixel_line(triple(0, 1_000_000, 250_000)) =~= top_left_line());
}

/// Whatever its size, the plain gradient as text begins with the head for
/// that size, followed by the line `0 255 63 ` of the pixel in the top left
/// corner, which is the first to be written.
pub proof fn lemma_gradient_text_begins(width: int, height: int)
    requires
        2 <= width,
        2 <= height,
    ensures
        (header_text(width, height) + top_left_line()).is_prefix_of(gradient_text(width, height)),
{
    lemma_gradient_top_left(width, height);
    lemma_gradient_rows_begin(width, height, height as nat);
    lemma_prefix_prepend(
        header_text(width, height),
        top_left_line(),
        gradient_rows(width, height, height as nat),
    );
}

/// The head of a plain-text image of the given size.
pub fn ppm_header(width: i32, height: i32) -> (head: String)
    ensures
        head@ == header_text(width as int, height as int),
{
    let mut head = String::new();
    head.append("P3\n");
    push_decimal(&mut head, width);
    head.append(" ");
    push_decimal(&mut head, height);
    head.append("\n255\n");
    proof {
        reveal_strlit("P3\n");
        reveal_strlit(" ");
        reveal_strlit("\n255\n");
        assert("P3\n"@ =~= seq!['P', '3', '\n']);
        assert("\n255\n"@ =~= seq!['\n', '2', '5', '5', '\n']);
        assert(head@ =~= header_text(width as int, height as int));
    }
    head
}

/// The colour of the plain gradient at column `i` and row `j`, the rows
/// counted from the bottom.
pub fn flat_gradient(i: i32, j: i32, width: i32, height: i32) -> (color: Color)
    requires
        2 <= width,
        2 <= height,
        0 <= i < width,
        0 <= j < height,
    ensures
        color@ == gradient_color(i as int, j as int, width as int, height as int),
{
    proof {
        lemma_ratio_unit_interval(i * ONE, (width - 1) * ONE);
        lemma_ratio_unit_interval(j * ONE, (height - 1) * ONE);
    }
    let r: Scalar = div_fixed(i as i64 * ONE, (width as i64 - 1) * ONE);
    let g: Scalar = div_fixed(j as i64 * ONE, (height as i64 - 1) * ONE);
    Color::new(r, g, 250_000)
}

fn push_pixel_line(out: &mut String, color: &Color)
    ensures
        final(out)@ == old(out)@ + pixel_line(color@),
{
    let line: String = color.write_color();
    out.append(line.as_str());
    out.append("\n");
    proof {
        reveal_strlit("\n");
        assert(out@ =~= old(out)@ + pixel_line(color@));
    }
}

/// The plain gradient of the given size as a plain-text image: the head,
/// then one line for each pixel, the top row first and each row from left to
/// right.
pub fn render_gradient_text(width: i32, height: i32) -> (out: String)
    requires
        2 <= width,
        2 <= height,
    ensures
        out@ == gradient_text(width as int, height as int),
        (header_text(width as int, height as int) + top_left_line()).is_prefix_of(out@),
{
    proof {
        lemma_gradient_text_begins(width as int, height as int);
    }
    let mut out: String = ppm_header(width, height);
    let ghost head = out@;
    let mut j: i32 = height;
    while j > 0
        invariant
            2 <= width,
            2 <= height,
            0 <= j <= height,
            head == header_text(width as int, height as int),
            out@ == head + gradient_rows(width as int, height as int, (height - j) as nat),
        decreases j,
    {
        j -= 1;
        let ghost above = out@;
        let mut i: i32 = 0;
        while i < width
            invariant
                2 <= width,
                2 <= height,
                0 <= j < height,
                0 <= i <= width,
                out@ == above + gradient_row(width as int, height as int, j as int, i as nat),
            decreases width - i,
        {
            let color: Color = flat_gradient(i, j, width, height);
            push_pixel_line(&mut out, &color);
            i += 1;
            assert(out@ =~= above + gradient_row(
                width as int,
                height as int,
                j as int,
                i as nat,
            ));
        }
        assert(out@ =~= head + gradient_rows(
            width as int,
            height as int,
            (height - j) as nat,
        ));
    }
    out
}

/// The scene as a plain-text image: the head, then one line for each pixel,
/// the top row first and each row from left to right.
pub fn render_text() -> (out: String)
    ensures
        out@ == scene_text(),
{
    let camera = Camera::new();
    let mut out: String = ppm_header(IMG_WIDTH, IMG_HEIGHT);
    let ghost head = out@;
    let mut j: i32 = IMG_HEIGHT;
    while j > 0
        invariant
            camera.well_formed(),
            0 <= j <= IMG_HEIGHT,
            head == header_text(IMG_WIDTH as int, IMG_HEIGHT as int),
            out@ == head + scene_rows((IMG_HEIGHT - j) as nat),
        decreases j,
    {
        j -= 1;
        let ghost above = out@;
        let mut i: i32 = 0;
        while i < IMG_WIDTH
            invariant
                camera.well_formed(),
                0 <= j < IMG_HEIGHT,
                0 <= i <= IMG_WIDTH,
                out@ == above + scene_row(j as int, i as nat),
            decreases IMG_WIDTH - i,
        {
            let color: Color = camera.pixel(i, j);
            push_pixel_line(&mut out, &color);
            i += 1;
            assert(out@ =~= above + scene_row(j as int, i as nat));
        }
        assert(out@ =~= head + scene_rows((IMG_HEIGHT - j) as nat));
    }
    out
}

} // verus!
