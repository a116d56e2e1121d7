//! Pictures made of lit pixels, and the two speaker icons.

use vstd::prelude::*;
use crate::error::Error;
use crate::fanout::sent_in_turn;
use crate::led_matrix::{columns_of, draw_frames, LedMatrix};
use crate::transport::{fault, Transport};

verus! {

/// Whether `row` is one of `rows`.
pub open spec fn among(rows: Seq<usize>, row: int) -> bool
    decreases rows.len(),
{
    if rows.len() == 0 {
        false
    } else {
        among(rows.drop_last(), row) || rows.last() == row
    }
}

/// Whether `coords` lights the pixel in row `row` of column `col`.
/// Each entry of `coords` is a column and the rows to light in it.
pub open spec fn lights(coords: Seq<(usize, Vec<usize>)>, col: int, row: int) -> bool
    decreases coords.len(),
{
    if coords.len() == 0 {
        false
    } else {
        lights(coords.drop_last(), col, row) || (coords.last().0 == col && among(
            coords.last().1@,
            row,
        ))
    }
}

/// Whether every pixel that the entry names lies on the panel.
pub open spec fn entry_on_panel(entry: (usize, Vec<usize>)) -> bool {
    entry.1@.len() > 0 ==> entry.0 < 9 && forall|j: int|
        0 <= j < entry.1@.len() ==> (#[trigger] entry.1@[j]) < 34
}

/// Whether every pixel that `coords` names lies on the panel.
pub open spec fn on_panel(coords: Seq<(usize, Vec<usize>)>) -> bool {
    forall|k: int| 0 <= k < coords.len() ==> entry_on_panel(#[trigger] coords[k])
}

/// The picture, column by column, in which the pixels that `coords`
/// names are lit at `brightness` and every other pixel is dark.
pub open spec fn picture_of(coords: Seq<(usize, Vec<usize>)>, brightness: u8) -> Seq<Seq<u8>> {
    Seq::new(
        9,
        |col: int|
            Seq::new(
                34,
                |row: int|
                    if lights(coords, col, row) {
                        brightness
                    } else {
                        0u8
                    },
            ),
    )
}

/// Whether `picture` has the pixels that `coords` names at
/// `brightness` and every other pixel dark.
pub open spec fn pictures(
    picture: Seq<Seq<u8>>,
    coords: Seq<(usize, Vec<usize>)>,
    brightness: u8,
) -> bool {
    &&& picture.len() == 9
    &&& forall|col: int| 0 <= col < 9 ==> (#[trigger] picture[col]).len() == 34
    &&& forall|col: int, row: int|
        0 <= col < 9 && 0 <= row < 34 ==> #[trigger] picture[col][row] == if lights(
            coords,
            col,
            row,
        ) {
            brightness
        } else {
            0u8
        }
}

/// A picture that has exactly the pixels of `coords` lit is the
/// picture of `coords`.
proof fn lemma_pictures(picture: Seq<Seq<u8>>, coords: Seq<(usize, Vec<usize>)>, brightness: u8)
    requires
        pictures(picture, coords, brightness),
    ensures
        picture == picture_of(coords, brightness),
{
    let wanted = picture_of(coords, brightness);
    assert forall|col: int| 0 <= col < 9 implies picture[col] == wanted[col] by {
        assert(picture[col].len() == 34);
        assert forall|row: int| 0 <= row < 34 implies picture[col][row] == wanted[col][row] by {}
        assert(picture[col] =~= wanted[col]);
    }
    assert(picture =~= wanted);
}

/// The picture in which the pixels of `coords` are lit at
/// `brightness` and all others are dark.
pub fn bitmap(coords: &Vec<(usize, Vec<usize>)>, brightness: u8) -> (picture: [[u8; 34]; 9])
    requires
        on_panel(coords@),
    ensures
        columns_of(picture@) == picture_of(coords@, brightness),
{
    let mut picture: [[u8; 34]; 9] = [[0u8; 34]; 9];
    let n = coords.len();
    let mut k: usize = 0;
    assert(coords@.take(0) =~= Seq::<(usize, Vec<usize>)>::empty());
    while k < n
        invariant
            k <= n,
            n == coords.len(),
            on_panel(coords@),
            pictures(columns_of(picture@), coords@.take(k as int), brightness),
        decreases n - k,
    {
        let ghost earlier = coords@.take(k as int);
        let ghost entry = coords@[k as int];
        assert(coords@.take(k + 1).drop_last() =~= earlier);
        assert(coords@.take(k + 1).last() == entry);
        assert(entry_on_panel(entry));
        let col = coords[k].0;
        let rows = &coords[k].1;
        let m = rows.len();
        if m > 0 {
            let mut column: [u8; 34] = picture[col];
            let mut j: usize = 0;
            assert(rows@.take(0) =~= Seq::<usize>::empty());
            assert(column@ == columns_of(picture@)[col as int]);
            while j < m
                invariant
                    j <= m,
                    m == rows.len(),
                    col < 9,
                    forall|i: int| 0 <= i < m ==> (#[trigger] rows@[i]) < 34,
                    forall|row: int|
                        0 <= row < 34 ==> #[trigger] column@[row] == if lights(
                            earlier,
                            col as int,
                            row,
                        ) || among(rows@.take(j as int), row) {
                            brightness
                        } else {
                            0u8
                        },
                decreases m - j,
            {
                assert(rows@.take(j + 1).drop_last() =~= rows@.take(j as int));
                assert(rows@.take(j + 1).last() == rows@[j as int]);
                column[rows[j]] = brightness;
                j += 1;
            }
            assert(rows@.take(m as int) =~= rows@);
            let ghost previous = columns_of(picture@);
            picture[col] = column;
            assert forall|c: int| 0 <= c < 9 implies #[trigger] columns_of(picture@)[c] == if c
                == col {
                column@
            } else {
                previous[c]
            } by {}
        } else {
            assert(forall|row: int| !among(rows@, row));
        }
        k += 1;
    }
    assert(coords@.take(n as int) =~= coords@);
    proof {
        lemma_pictures(columns_of(picture@), coords@, brightness);
    }
    picture
}

/// Draws the picture in which the pixels of `coords` are lit at
/// `brightness`.
pub fn pattern<T: Transport>(
    matrix: &mut LedMatrix<T>,
    coords: Vec<(usize, Vec<usize>)>,
    brightness: u8,
) -> (result: Result<(), Error>)
    requires
        on_panel(coords@),
    ensures
        final(matrix).same_shape(old(matrix)),
        sent_in_turn(
            old(matrix).histories(),
            final(matrix).histories(),
            draw_frames(picture_of(coords@, brightness)),
            fault(result),
        ),
{
    let picture = bitmap(&coords, brightness);
    matrix.draw_cols(&picture)
}

/// Whether the muted speaker has the pixel in row `row` of column `col`.
pub open spec fn speaker_mute_pixel(col: int, row: int) -> bool {
    ||| col == 1 && 17 <= row <= 19
    ||| col == 2 && 16 <= row <= 20
    ||| col == 3 && 15 <= row <= 21
    ||| col == 5 && (row == 17 || row == 19)
    ||| col == 6 && row == 18
    ||| col == 7 && (row == 17 || row == 19)
}

/// Whether the sounding speaker has the pixel in row `row` of column `col`.
pub open spec fn speaker_on_pixel(col: int, row: int) -> bool {
    ||| col == 1 && 17 <= row <= 19
    ||| col == 2 && 16 <= row <= 20
    ||| col == 3 && 15 <= row <= 21
    ||| col == 5 && (row == 16 || row == 18 || row == 20)
    ||| col == 6 && (row == 15 || row == 17 || row == 19 || row == 21)
}

/// The muted speaker at full brightness, column by column.
pub open spec fn speaker_mute_picture() -> Seq<Seq<u8>> {
    Seq::new(
        9,
        |col: int|
            Seq::new(
                34,
                |row: int|
                    if speaker_mute_pixel(col, row) {
                        255u8
                    } else {
                        0u8
                    },
            ),
    )
}

/// The sounding speaker at full brightness, column by column.
pub open spec fn speaker_on_picture() -> Seq<Seq<u8>> {
    Seq::new(
        9,
        |col: int|
            Seq::new(
                34,
                |row: int|
                    if speaker_on_pixel(col, row) {
                        255u8
                    } else {
                        0u8
                    },
            ),
    )
}

/// The cone of the speaker, which both icons share: columns 1 to 3.
fn speaker_cone() -> (coords: Vec<(usize, Vec<usize>)>)
    ensures
        coords@.len() == 3,
        on_panel(coords@),
        forall|col: int, row: int|
            lights(coords@, col, row) <==> {
                ||| col == 1 && 17 <= row <= 19
                ||| col == 2 && 16 <= row <= 20
                ||| col == 3 && 15 <= row <= 21
            },
{
    let mut coords: Vec<(usize, Vec<usize>)> = Vec::new();
    coords.push((1, vec![17, 18, 19]));
    coords.push((2, vec![16, 17, 18, 19, 20]));
    coords.push((3, vec![15, 16, 17, 18, 19, 20, 21]));
    proof {
        reveal_with_fuel(lights, 4);
        reveal_with_fuel(among, 8);
    }
    coords
}

/// Adds one column and its rows to `coords`.
fn add_column(coords: &mut Vec<(usize, Vec<usize>)>, col: usize, rows: Vec<usize>)
    requires
        on_panel(old(coords)@),
        entry_on_panel((col, rows)),
    ensures
        final(coords)@ == old(coords)@.push((col, rows)),
        on_panel(final(coords)@),
        forall|c: int, r: int|
            lights(final(coords)@, c, r) <==> lights(old(coords)@, c, r) || (c == col && among(
                rows@,
                r,
            )),
{
    coords.push((col, rows));
    assert(coords@.drop_last() =~= old(coords)@);
}

/// Draws the muted speaker at full brightness.
pub fn draw_speaker_mute<T: Transport>(matrix: &mut LedMatrix<T>) -> (result: Result<(), Error>)
    ensures
        final(matrix).same_shape(old(matrix)),
        sent_in_turn(
            old(matrix).histories(),
            final(matrix).histories(),
            draw_frames(speaker_mute_picture()),
            fault(result),
        ),
{
    let mut coords = speaker_cone();
    proof {
        reveal_with_fuel(among, 3);
    }
    add_column(&mut coords, 5, vec![17, 19]);
    add_column(&mut coords, 6, vec![18]);
    add_column(&mut coords, 7, vec![17, 19]);
    proof {
        lemma_same_picture(picture_of(coords@, u8::MAX), speaker_mute_picture());
    }
    pattern(matrix, coords, u8::MAX)
}

/// Draws the sounding speaker at full brightness.
pub fn draw_speaker_on<T: Transport>(matrix: &mut LedMatrix<T>) -> (result: Result<(), Error>)
    ensures
        final(matrix).same_shape(old(matrix)),
        sent_in_turn(
            old(matrix).histories(),
            final(matrix).histories(),
            draw_frames(speaker_on_picture()),
            fault(result),
        ),
{
    let mut coords = speaker_cone();
    proof {
        reveal_with_fuel(among, 5);
    }
    add_column(&mut coords, 5, vec![16, 18, 20]);
    add_column(&mut coords, 6, vec![15, 17, 19, 21]);
    proof {
        lemma_same_picture(picture_of(coords@, u8::MAX), speaker_on_picture());
    }
    pattern(matrix, coords, u8::MAX)
}

/// Two pictures of the panel's size with the same pixels are the same picture.
proof fn lemma_same_picture(a: Seq<Seq<u8>>, b: Seq<Seq<u8>>)
    requires
        a.len() == 9,
        b.len() == 9,
        forall|col: int| 0 <= col < 9 ==> (#[trigger] a[col]).len() == 34,
        forall|col: int| 0 <= col < 9 ==> (#[trigger] b[col]).len() == 34,
        forall|col: int, row: int|
            0 <= col < 9 && 0 <= row < 34 ==> #[trigger] a[col][row] == b[col][row],
    ensures
        a == b,
{
    assert forall|col: int| 0 <= col < 9 implies a[col] == b[col] by {
        assert(a[col] =~= b[col]);
    }
    assert(a =~= b);
}

} // verus!
