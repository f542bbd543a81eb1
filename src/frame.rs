use vstd::prelude::*;

use crate::steam_renderer::{glyph, SteamParticle, SteamRendererOptions};
use crate::vector2::cell_of;
use vstd::arithmetic::div_mod::lemma_fundamental_div_mod_converse;

verus! {

/// Number of character columns in a frame line, newline excluded.
pub open spec fn columns(o: SteamRendererOptions) -> int {
    o.width + o.offset
}

/// Grid column of a particle.
pub open spec fn column_of(p: SteamParticle, o: SteamRendererOptions) -> int {
    cell_of(p.position.x as int) + o.offset
}

/// Grid row of a particle; row 0 is the source row.
pub open spec fn row_of(p: SteamParticle) -> int {
    cell_of(p.position.y as int)
}

/// Whether a particle's cell lies on the grid: its column before the offset
/// within `[0, width)` and its row within `[0, height)`. The offset margin is
/// never drawn on.
pub open spec fn visible(p: SteamParticle, o: SteamRendererOptions) -> bool {
    &&& 0 <= cell_of(p.position.x as int) < o.width
    &&& 0 <= row_of(p) < o.height
}

/// What the grid shows at `(row, col)` once the particles of `ps` are drawn
/// in order: the glyph of the last visible particle on that cell, or a space.
pub open spec fn cell_at(ps: Seq<(u32, SteamParticle)>, o: SteamRendererOptions, row: int, col: int) -> char
    decreases ps.len(),
{
    if ps.len() == 0 {
        ' '
    } else {
        let p = ps.last().1;
        if visible(p, o) && row_of(p) == row && column_of(p, o) == col {
            glyph(p)
        } else {
            cell_at(ps.drop_last(), o, row, col)
        }
    }
}

/// Length of a frame: `height` lines of `columns` characters and a newline.
pub open spec fn frame_len(o: SteamRendererOptions) -> int {
    o.height * (columns(o) + 1)
}

/// Character `k` of a frame. Lines run from the highest grid row down to
/// row 0, so that steam rises on screen.
pub open spec fn frame_char(ps: Seq<(u32, SteamParticle)>, o: SteamRendererOptions, k: int) -> char {
    let line = k / (columns(o) + 1);
    let col = k % (columns(o) + 1);
    if col == columns(o) {
        '\n'
    } else {
        cell_at(ps, o, o.height - 1 - line, col)
    }
}

/// The text of the frame that shows the particles `ps`.
pub open spec fn frame_text(ps: Seq<(u32, SteamParticle)>, o: SteamRendererOptions) -> Seq<char> {
    Seq::new(frame_len(o) as nat, |k: int| frame_char(ps, o, k))
}

pub proof fn lemma_cell_is_glyph(ps: Seq<(u32, SteamParticle)>, o: SteamRendererOptions, row: int, col: int)
    ensures
        cell_at(ps, o, row, col) == ' ' || cell_at(ps, o, row, col) == '|'
            || cell_at(ps, o, row, col) == '{' || cell_at(ps, o, row, col) == '}',
    decreases ps.len(),
{
    if ps.len() > 0 {
        lemma_cell_is_glyph(ps.drop_last(), o, row, col);
    }
}

/// A frame has exactly `height` lines, each of `width + offset` characters
/// followed by a newline.
pub proof fn lemma_frame_shape(ps: Seq<(u32, SteamParticle)>, o: SteamRendererOptions)
    ensures
        frame_text(ps, o).len() == o.height * (o.width + o.offset + 1),
        forall|k: int|
            0 <= k < frame_text(ps, o).len() ==> (#[trigger] frame_text(ps, o)[k] == '\n' <==> k
                % (o.width + o.offset + 1) == o.width + o.offset),
{
    assert forall|k: int| 0 <= k < frame_text(ps, o).len() implies (#[trigger] frame_text(ps, o)[k]
        == '\n' <==> k % (o.width + o.offset + 1) == o.width + o.offset) by {
        lemma_cell_is_glyph(ps, o, o.height - 1 - k / (columns(o) + 1), k % (columns(o) + 1));
    }
}

/// A particle whose cell lies off the grid leaves every character of the
/// frame as it was without it.
pub proof fn lemma_culled_particle_unseen(
    ps: Seq<(u32, SteamParticle)>,
    o: SteamRendererOptions,
    id: u32,
    p: SteamParticle,
)
    requires
        !visible(p, o),
    ensures
        frame_text(ps.push((id, p)), o) == frame_text(ps, o),
{
    assert forall|r: int, c: int| cell_at(ps.push((id, p)), o, r, c) == cell_at(ps, o, r, c) by {
        assert(ps.push((id, p)).drop_last() == ps);
    }
    assert(frame_text(ps.push((id, p)), o) =~= frame_text(ps, o));
}

/// No particle is drawn left of the grid's first column.
pub proof fn lemma_margin_cell_blank(ps: Seq<(u32, SteamParticle)>, o: SteamRendererOptions, row: int, col: int)
    requires
        col < o.offset,
    ensures
        cell_at(ps, o, row, col) == ' ',
    decreases ps.len(),
{
    if ps.len() > 0 {
        lemma_margin_cell_blank(ps.drop_last(), o, row, col);
    }
}

/// The offset margin, the first `offset` characters of every line, is blank.
pub proof fn lemma_margin_blank(ps: Seq<(u32, SteamParticle)>, o: SteamRendererOptions)
    ensures
        forall|line: int, col: int|
            0 <= line < o.height && 0 <= col < o.offset ==> #[trigger] frame_text(ps, o)[line * (
            columns(o) + 1) + col] == ' ',
{
    assert forall|line: int, col: int| 0 <= line < o.height && 0 <= col < o.offset implies #[trigger] frame_text(
        ps,
        o,
    )[line * (columns(o) + 1) + col] == ' ' by {
        let w = columns(o) + 1;
        lemma_fundamental_div_mod_converse(line * w + col, w, line, col);
        assert(line * w + col < o.height * w) by (nonlinear_arith)
            requires
                0 <= line < o.height,
                0 <= col < w,
        ;
        lemma_margin_cell_blank(ps, o, o.height - 1 - line, col);
    }
}

/// A visible particle drawn last shows its glyph at its cell of the frame:
/// `|` on the source row, else `{` or `}` by its orientation.
pub proof fn lemma_last_particle_shown(
    ps: Seq<(u32, SteamParticle)>,
    o: SteamRendererOptions,
    id: u32,
    p: SteamParticle,
)
    requires
        visible(p, o),
    ensures
        ({
            let k = (o.height - 1 - row_of(p)) * (columns(o) + 1) + column_of(p, o);
            &&& 0 <= k < frame_text(ps.push((id, p)), o).len()
            &&& frame_text(ps.push((id, p)), o)[k] == glyph(p)
        }),
{
    let w = columns(o) + 1;
    let line = o.height - 1 - row_of(p);
    let col = column_of(p, o);
    let k = line * w + col;
    lemma_fundamental_div_mod_converse(k, w, line, col);
    assert(k < o.height * w) by (nonlinear_arith)
        requires
            k == line * w + col,
            0 <= line < o.height,
            0 <= col < w,
    ;
    assert(ps.push((id, p)).last() == (id, p));
}

} // verus!
