//! Drawing of reads: each segment of a read becomes runs of glyphs on the
//! row of the read, and the marks of the segment are laid over them.

use crate::alignment::{
    AlignedRead, Alignment, ReadPair, RenderingContext, RenderingContextKind,
    RenderingContextModifier, State,
};
use crate::error::TGVError;
use crate::layout::{AlignmentView, OnScreenCoordinate};
use crate::modification::{modifications_view, BaseModification, ModificationType};
use crate::palette::Palette;
use crate::style::Style;
use crate::terminal::{
    area_of, bottom, buffer_area, buffer_cells, buffer_sound, cells_with_string, set_string,
    CellView,
};
use crate::text::push_char;
use ratatui::buffer::Buffer;
use ratatui::layout::Rect;
use ratatui::style::Color;
use std::collections::HashMap;
use vstd::prelude::*;

verus! {

broadcast use vstd::std_specs::hash::group_hash_axioms;

/// The glyph of aligned bases, deletions, gaps and overlaps.
pub const DASH: char = '-';

/// The mark at the end of a read on the forward strand.
pub const FORWARD_ARROW: char = '\u{25BA}';

/// The mark at the start of a read on the reverse strand.
pub const REVERSE_ARROW: char = '\u{25C4}';

/// The mark of an insertion.
pub const INSERTION_MARK: char = '\u{258C}';

/// The mark of a conflict between the reads of a pair.
pub const CONFLICT_MARK: char = '?';

/// A run of one glyph to be written on the area: `width` copies of `glyph`
/// in `style`, from column `x` of row `y` of the area on.
#[derive(Clone, Copy, Debug, PartialEq, Eq)]
pub struct OnScreenCell {
    pub x: u16,
    pub y: u16,
    pub glyph: char,
    pub width: u16,
    pub style: Style,
}

/// The calls of a read by reference position.
pub type Modifications = Map<u64, Seq<BaseModification>>;

/// The first of `calls` that is of `modification_type`.
pub open spec fn first_of_type(
    calls: Seq<BaseModification>,
    modification_type: ModificationType,
) -> Option<BaseModification>
    decreases calls.len(),
{
    if calls.len() == 0 {
        None
    } else if calls.first().modification_type == modification_type {
        Some(calls.first())
    } else {
        first_of_type(calls.drop_first(), modification_type)
    }
}

/// The call, among those made at one position, that colours the position:
/// the first 5-methylcytosine call; where there is none, the first
/// 5-hydroxymethylcytosine call; else the first call.
pub open spec fn preferred_call(calls: Seq<BaseModification>) -> Option<BaseModification> {
    match first_of_type(calls, ModificationType::FiveMC) {
        Some(call) => Some(call),
        None => match first_of_type(calls, ModificationType::FiveHMC) {
            Some(call) => Some(call),
            None => if calls.len() > 0 {
                Some(calls.first())
            } else {
                None
            },
        },
    }
}

/// The background that the calls at `position` give it; `None` where no
/// call was made.
pub open spec fn modification_background(
    modifications: Modifications,
    palette: Palette,
    position: u64,
) -> Option<Color> {
    if modifications.contains_key(position) {
        match preferred_call(modifications[position]) {
            Some(call) => Some(
                palette.modification_color(&call.modification_type, call.probability),
            ),
            None => None,
        }
    } else {
        None
    }
}

/// The background of an aligned base at `position` of a read with calls.
pub open spec fn aligned_background(
    modifications: Modifications,
    palette: Palette,
    position: u64,
) -> Color {
    match modification_background(modifications, palette, position) {
        Some(color) => color,
        None => palette.match_color,
    }
}

/// The glyph that shows the base `base`: the character whose code it is.
/// A byte from 128 on is no character by itself.
pub open spec fn glyph_of(base: u8) -> Option<char> {
    if base < 0x80 {
        Some(base as char)
    } else {
        None
    }
}

/// The style with both colours named.
pub open spec fn colors(fg: Color, bg: Color) -> Style {
    Style { fg: Some(fg), bg: Some(bg) }
}

/// The runs that show a segment by itself, without its marks, where the
/// segment covers `length` columns from column `x` of row `y` on.
///
/// Aligned bases of a read without calls are one run. Those of a read with
/// calls are a run of one column for each column, so that each can have the
/// background of its calls. Deletions, gaps and overlaps are one run each.
/// A soft-clipped base is its own glyph, once.
pub open spec fn base_cells(
    context: RenderingContext,
    x: u16,
    y: u16,
    length: u16,
    view: AlignmentView,
    palette: Palette,
    modifications: Option<Modifications>,
) -> Result<Seq<OnScreenCell>, TGVError> {
    match context.kind {
        RenderingContextKind::Match => match modifications {
            Some(calls) => Ok(
                Seq::new(
                    length as nat,
                    |i: int|
                        OnScreenCell {
                            x: (x + i) as u16,
                            y,
                            glyph: DASH,
                            width: 1,
                            style: colors(
                                palette.match_fg_color,
                                aligned_background(calls, palette, (view.left + x + i) as u64),
                            ),
                        },
                ),
            ),
            None => Ok(
                seq![
                    OnScreenCell {
                        x,
                        y,
                        glyph: DASH,
                        width: length,
                        style: colors(palette.match_fg_color, palette.match_color),
                    },
                ],
            ),
        },
        RenderingContextKind::Deletion => Ok(
            seq![
                OnScreenCell {
                    x,
                    y,
                    glyph: DASH,
                    width: length,
                    style: colors(palette.deletion_color, palette.background),
                },
            ],
        ),
        RenderingContextKind::SoftClip(base) => match glyph_of(base) {
            Some(glyph) => Ok(
                seq![
                    OnScreenCell {
                        x,
                        y,
                        glyph,
                        width: 1,
                        style: Style { fg: None, bg: Some(palette.softclip_color(base)) },
                    },
                ],
            ),
            None => Err(TGVError::Utf8Error(base)),
        },
        RenderingContextKind::PairGap => Ok(
            seq![
                OnScreenCell {
                    x,
                    y,
                    glyph: DASH,
                    width: length,
                    style: colors(palette.pairgap_color, palette.background),
                },
            ],
        ),
        RenderingContextKind::PairOverlap => Ok(
            seq![
                OnScreenCell {
                    x,
                    y,
                    glyph: DASH,
                    width: length,
                    style: colors(palette.pair_overlap_color, palette.background),
                },
            ],
        ),
    }
}

/// One glyph at column `x` of row `y`.
pub open spec fn mark(x: u16, y: u16, glyph: char, style: Style) -> OnScreenCell {
    OnScreenCell { x, y, glyph, width: 1, style }
}

/// The style of a mismatched base: the foreground of the base, over the
/// background that the calls give the position, or, for a read without
/// calls, over the background of the segment.
pub open spec fn mismatch_style(
    position: u64,
    base: u8,
    palette: Palette,
    modifications: Option<Modifications>,
    first: Style,
) -> Style {
    match modifications {
        Some(calls) => colors(
            palette.mismatch_color(base),
            aligned_background(calls, palette, position),
        ),
        None => Style { fg: Some(palette.mismatch_color(base)), bg: first.bg },
    }
}

/// The glyph that a mark lays over its segment, if the place of the mark is
/// in the area. `first` is the style of the first run of the segment.
pub open spec fn modifier_cell(
    modifier: RenderingContextModifier,
    context: RenderingContext,
    y: u16,
    view: AlignmentView,
    area: Rect,
    palette: Palette,
    modifications: Option<Modifications>,
    first: Style,
) -> Result<Option<OnScreenCell>, TGVError> {
    match modifier {
        RenderingContextModifier::Forward => match view.onscreen_x_coordinate(
            context.end,
            &area,
        ) {
            OnScreenCoordinate::OnScreen(x) => Ok(Some(mark(x, y, FORWARD_ARROW, first))),
            _ => Ok(None),
        },
        RenderingContextModifier::Reverse => match view.onscreen_x_coordinate(
            context.start,
            &area,
        ) {
            OnScreenCoordinate::OnScreen(x) => Ok(Some(mark(x, y, REVERSE_ARROW, first))),
            _ => Ok(None),
        },
        RenderingContextModifier::Insertion(_) => match view.onscreen_x_coordinate(
            context.start,
            &area,
        ) {
            OnScreenCoordinate::OnScreen(x) => Ok(
                Some(
                    mark(
                        x,
                        y,
                        INSERTION_MARK,
                        Style { fg: Some(palette.insertion_color), bg: None },
                    ),
                ),
            ),
            _ => Ok(None),
        },
        RenderingContextModifier::Mismatch(position, base) => match view.onscreen_x_coordinate(
            position,
            &area,
        ) {
            OnScreenCoordinate::OnScreen(x) => match glyph_of(base) {
                Some(glyph) => Ok(
                    Some(
                        mark(
                            x,
                            y,
                            glyph,
                            mismatch_style(position, base, palette, modifications, first),
                        ),
                    ),
                ),
                None => Err(TGVError::Utf8Error(base)),
            },
            _ => Ok(None),
        },
        RenderingContextModifier::PairConflict(position) => match view.onscreen_x_coordinate(
            position,
            &area,
        ) {
            OnScreenCoordinate::OnScreen(x) => Ok(Some(mark(x, y, CONFLICT_MARK, first))),
            _ => Ok(None),
        },
    }
}

/// `cells` with the glyphs of `modifiers` behind them, in the order of the
/// modifiers. The first glyph that cannot be made is the error.
pub open spec fn with_modifiers(
    cells: Seq<OnScreenCell>,
    modifiers: Seq<RenderingContextModifier>,
    context: RenderingContext,
    y: u16,
    view: AlignmentView,
    area: Rect,
    palette: Palette,
    modifications: Option<Modifications>,
    first: Style,
) -> Result<Seq<OnScreenCell>, TGVError>
    decreases modifiers.len(),
{
    if modifiers.len() == 0 {
        Ok(cells)
    } else {
        match with_modifiers(
            cells,
            modifiers.drop_last(),
            context,
            y,
            view,
            area,
            palette,
            modifications,
            first,
        ) {
            Ok(before) => match modifier_cell(
                modifiers.last(),
                context,
                y,
                view,
                area,
                palette,
                modifications,
                first,
            ) {
                Ok(Some(cell)) => Ok(before.push(cell)),
                Ok(None) => Ok(before),
                Err(error) => Err(error),
            },
            Err(error) => Err(error),
        }
    }
}

/// What is written on `area` for one segment of a read in row `row` of the
/// reads: the runs of the segment, then the glyphs of its marks. `None` if
/// the row or the whole segment lies outside the area.
pub open spec fn rendering_info(
    context: RenderingContext,
    row: usize,
    view: AlignmentView,
    area: Rect,
    palette: Palette,
    modifications: Option<Modifications>,
) -> Result<Option<Seq<OnScreenCell>>, TGVError> {
    match view.onscreen_y_coordinate(row, &area) {
        OnScreenCoordinate::OnScreen(y) => match OnScreenCoordinate::onscreen_start_and_length(
            &view.onscreen_x_coordinate(context.start, &area),
            &view.onscreen_x_coordinate(context.end, &area),
            &area,
        ) {
            Some((x, length)) => match base_cells(
                context,
                x,
                y,
                length,
                view,
                palette,
                modifications,
            ) {
                Ok(cells) => match with_modifiers(
                    cells,
                    context.modifiers@,
                    context,
                    y,
                    view,
                    area,
                    palette,
                    modifications,
                    cells.first().style,
                ) {
                    Ok(all) => Ok(Some(all)),
                    Err(error) => Err(error),
                },
                Err(error) => Err(error),
            },
            None => Ok(None),
        },
        _ => Ok(None),
    }
}

/// A soft-clipped base is shown as one glyph in one column, however many
/// reference positions its segment is given.
pub proof fn lemma_soft_clip_is_one_cell(
    context: RenderingContext,
    x: u16,
    y: u16,
    length: u16,
    view: AlignmentView,
    palette: Palette,
    modifications: Option<Modifications>,
)
    requires
        context.kind matches RenderingContextKind::SoftClip(base) && base < 0x80,
    ensures
        base_cells(context, x, y, length, view, palette, modifications) matches Ok(cells)
            && cells.len() == 1 && cells[0].width == 1 && cells[0].x == x && cells[0].y == y,
{
}

/// Aligned bases of a read with calls are shown column by column, each
/// column in the background of the calls at its reference position or, where
/// there is none, in the background of aligned bases. Those of a read
/// without calls are one run over all the columns.
pub proof fn lemma_aligned_cells(
    context: RenderingContext,
    x: u16,
    y: u16,
    length: u16,
    view: AlignmentView,
    palette: Palette,
    modifications: Option<Modifications>,
)
    requires
        context.kind is Match,
        x + length <= u16::MAX,
        view.left + x + length <= u64::MAX,
    ensures
        base_cells(context, x, y, length, view, palette, modifications) is Ok,
        modifications is None ==> {
            let cells = base_cells(context, x, y, length, view, palette, modifications)->Ok_0;
            cells.len() == 1 && cells[0].x == x && cells[0].width == length && cells[0].style.bg
                == Some(palette.match_color)
        },
        modifications matches Some(calls) ==> {
            let cells = base_cells(context, x, y, length, view, palette, modifications)->Ok_0;
            &&& cells.len() == length
            &&& forall|i: int|
                0 <= i < length ==> {
                    &&& (#[trigger] cells[i]).x == x + i
                    &&& cells[i].width == 1
                    &&& cells[i].style.bg == Some(
                        if calls.contains_key((view.left + x + i) as u64) && calls[(view.left + x
                            + i) as u64].len() > 0 {
                            palette.modification_color(
                                &preferred_call(
                                    calls[(view.left + x + i) as u64],
                                )->0.modification_type,
                                preferred_call(calls[(view.left + x + i) as u64])->0.probability,
                            )
                        } else {
                            palette.match_color
                        },
                    )
                }
        },
{
}

/// What lies in a row outside the area, or wholly before or behind the
/// columns of the area, is not drawn, and that is no error.
pub proof fn lemma_off_screen_is_not_drawn(
    context: RenderingContext,
    row: usize,
    view: AlignmentView,
    area: Rect,
    palette: Palette,
    modifications: Option<Modifications>,
)
    requires
        row < view.top || row - view.top >= area.height || context.end < view.left
            || context.start - view.left >= area.width,
    ensures
        rendering_info(context, row, view, area, palette, modifications) == Ok::<
            Option<Seq<OnScreenCell>>,
            TGVError,
        >(None),
{
}

/// Every column of `cell` is a column of `area`, and its row a row of it.
pub open spec fn cell_within(cell: OnScreenCell, area: Rect) -> bool {
    cell.y < area.height && cell.width >= 1 && cell.x + cell.width <= area.width
}

/// Marks are laid in the row of the runs below them and within the area if
/// those runs are.
proof fn lemma_modifiers_within_area(
    cells: Seq<OnScreenCell>,
    modifiers: Seq<RenderingContextModifier>,
    context: RenderingContext,
    y: u16,
    view: AlignmentView,
    area: Rect,
    palette: Palette,
    modifications: Option<Modifications>,
    first: Style,
)
    requires
        y < area.height,
        forall|i: int|
            0 <= i < cells.len() ==> (#[trigger] cells[i]).y == y && cell_within(cells[i], area),
    ensures
        with_modifiers(cells, modifiers, context, y, view, area, palette, modifications, first)
            matches Ok(all) ==> forall|i: int|
            0 <= i < all.len() ==> (#[trigger] all[i]).y == y && cell_within(all[i], area),
    decreases modifiers.len(),
{
    if modifiers.len() > 0 {
        lemma_modifiers_within_area(
            cells,
            modifiers.drop_last(),
            context,
            y,
            view,
            area,
            palette,
            modifications,
            first,
        );
    }
}

/// Nothing is drawn outside the area: every run that a segment gives lies
/// in the row of the area that shows the row of the read, and within the
/// columns of the area.
pub proof fn lemma_drawn_within_area(
    context: RenderingContext,
    row: usize,
    view: AlignmentView,
    area: Rect,
    palette: Palette,
    modifications: Option<Modifications>,
)
    ensures
        rendering_info(context, row, view, area, palette, modifications) matches Ok(Some(cells))
            ==> view.onscreen_y_coordinate(row, &area) matches OnScreenCoordinate::OnScreen(y)
            && forall|i: int|
            0 <= i < cells.len() ==> (#[trigger] cells[i]).y == y && cell_within(cells[i], area),
{
    if let OnScreenCoordinate::OnScreen(y) = view.onscreen_y_coordinate(row, &area) {
        if let Some((x, length)) = OnScreenCoordinate::onscreen_start_and_length(
            &view.onscreen_x_coordinate(context.start, &area),
            &view.onscreen_x_coordinate(context.end, &area),
            &area,
        ) {
            if let Ok(cells) = base_cells(context, x, y, length, view, palette, modifications) {
                assert forall|i: int| 0 <= i < cells.len() implies (#[trigger] cells[i]).y == y
                    && cell_within(cells[i], area) by {}
                lemma_modifiers_within_area(
                    cells,
                    context.modifiers@,
                    context,
                    y,
                    view,
                    area,
                    palette,
                    modifications,
                    cells.first().style,
                );
            }
        }
    }
}

/// The calls in `modifications`, if there are any.
pub open spec fn calls_of(
    modifications: Option<&HashMap<u64, Vec<BaseModification>>>,
) -> Option<Modifications> {
    match modifications {
        Some(map) => Some(modifications_view(*map)),
        None => None,
    }
}

/// The glyph that shows `base`.
pub fn glyph_from_byte(base: u8) -> (glyph: Result<char, TGVError>)
    ensures
        glyph == match glyph_of(base) {
            Some(c) => Ok::<char, TGVError>(c),
            None => Err(TGVError::Utf8Error(base)),
        },
{
    if base < 0x80 {
        Ok(base as char)
    } else {
        Err(TGVError::Utf8Error(base))
    }
}

/// The first of `calls` that is of `modification_type`.
fn find_of_type(calls: &Vec<BaseModification>, modification_type: ModificationType) -> (found:
    Option<BaseModification>)
    ensures
        found == first_of_type(calls@, modification_type),
{
    let mut i: usize = 0;
    proof {
        assert(calls@.skip(0) =~= calls@);
    }
    while i < calls.len()
        invariant
            i <= calls.len(),
            first_of_type(calls@, modification_type) == first_of_type(
                calls@.skip(i as int),
                modification_type,
            ),
        decreases calls.len() - i,
    {
        proof {
            assert(calls@.skip(i as int).drop_first() =~= calls@.skip(i + 1));
        }
        if calls[i].modification_type == modification_type {
            return Some(calls[i]);
        }
        i += 1;
    }
    None
}

/// The background that the calls of a read give the reference position
/// `pos`; `None` where no call was made.
pub fn mod_bg_at(
    pos: u64,
    mods: &HashMap<u64, Vec<BaseModification>>,
    pallete: &Palette,
) -> (background: Option<Color>)
    ensures
        background == modification_background(modifications_view(*mods), *pallete, pos),
{
    match mods.get(&pos) {
        Some(calls) => {
            let chosen = match find_of_type(calls, ModificationType::FiveMC) {
                Some(call) => Some(call),
                None => match find_of_type(calls, ModificationType::FiveHMC) {
                    Some(call) => Some(call),
                    None => if calls.len() > 0 {
                        Some(calls[0])
                    } else {
                        None
                    },
                },
            };
            match chosen {
                Some(call) => Some(
                    pallete.modification_color(&call.modification_type, call.probability),
                ),
                None => None,
            }
        },
        None => None,
    }
}

/// The glyph of one mark of a segment, if the place of the mark is in the
/// area.
fn get_modifier_cell(
    modifier: RenderingContextModifier,
    context: &RenderingContext,
    y: u16,
    alignment_view: &AlignmentView,
    area: &Rect,
    pallete: &Palette,
    base_modifications: Option<&HashMap<u64, Vec<BaseModification>>>,
    first: Style,
) -> (result: Result<Option<OnScreenCell>, TGVError>)
    ensures
        result == modifier_cell(
            modifier,
            *context,
            y,
            *alignment_view,
            *area,
            *pallete,
            calls_of(base_modifications),
            first,
        ),
{
    match modifier {
        RenderingContextModifier::Forward => {
            match alignment_view.onscreen_x_coordinate(context.end, area) {
                OnScreenCoordinate::OnScreen(x) => Ok(
                    Some(OnScreenCell { x, y, glyph: FORWARD_ARROW, width: 1, style: first }),
                ),
                _ => Ok(None),
            }
        },
        RenderingContextModifier::Reverse => {
            match alignment_view.onscreen_x_coordinate(context.start, area) {
                OnScreenCoordinate::OnScreen(x) => Ok(
                    Some(OnScreenCell { x, y, glyph: REVERSE_ARROW, width: 1, style: first }),
                ),
                _ => Ok(None),
            }
        },
        RenderingContextModifier::Insertion(_) => {
            match alignment_view.onscreen_x_coordinate(context.start, area) {
                OnScreenCoordinate::OnScreen(x) => Ok(
                    Some(
                        OnScreenCell {
                            x,
                            y,
                            glyph: INSERTION_MARK,
                            width: 1,
                            style: Style::default().fg(pallete.insertion_color),
                        },
                    ),
                ),
                _ => Ok(None),
            }
        },
        RenderingContextModifier::Mismatch(coordinate, base) => {
            match alignment_view.onscreen_x_coordinate(coordinate, area) {
                OnScreenCoordinate::OnScreen(x) => {
                    // With calls, the background of the calls stays and only
                    // the foreground changes.
                    let style = match base_modifications {
                        Some(mods) => {
                            let bg = match mod_bg_at(coordinate, mods, pallete) {
                                Some(color) => color,
                                None => pallete.match_color,
                            };
                            Style::default().bg(bg).fg(pallete.mismatch_color(base))
                        },
                        None => Style { fg: Some(pallete.mismatch_color(base)), bg: first.bg },
                    };
                    let glyph = glyph_from_byte(base)?;
                    Ok(Some(OnScreenCell { x, y, glyph, width: 1, style }))
                },
                _ => Ok(None),
            }
        },
        RenderingContextModifier::PairConflict(coordinate) => {
            match alignment_view.onscreen_x_coordinate(coordinate, area) {
                OnScreenCoordinate::OnScreen(x) => Ok(
                    Some(OnScreenCell { x, y, glyph: CONFLICT_MARK, width: 1, style: first }),
                ),
                _ => Ok(None),
            }
        },
    }
}

/// The runs that show a segment by itself, without its marks.
fn get_base_cells(
    context: &RenderingContext,
    x: u16,
    y: u16,
    length: u16,
    alignment_view: &AlignmentView,
    pallete: &Palette,
    base_modifications: Option<&HashMap<u64, Vec<BaseModification>>>,
) -> (result: Result<Vec<OnScreenCell>, TGVError>)
    requires
        length > 0,
        alignment_view.left + x + length - 1 <= u64::MAX,
        x + length <= u16::MAX,
    ensures
        match base_cells(
            *context,
            x,
            y,
            length,
            *alignment_view,
            *pallete,
            calls_of(base_modifications),
        ) {
            Ok(cells) => result matches Ok(output) && output@ == cells && output.len() > 0,
            Err(error) => result == Err::<Vec<OnScreenCell>, TGVError>(error),
        },
{
    let mut output: Vec<OnScreenCell> = Vec::new();
    match context.kind {
        RenderingContextKind::Match => {
            match base_modifications {
                Some(mods) => {
                    // One run for each column, so that each can have the
                    // background of its own calls.
                    let ghost calls = modifications_view(*mods);
                    let ghost cells = base_cells(
                        *context,
                        x,
                        y,
                        length,
                        *alignment_view,
                        *pallete,
                        Some(calls),
                    )->Ok_0;
                    let mut i: u16 = 0;
                    while i < length
                        invariant
                            i <= length,
                            x + length <= u16::MAX,
                            alignment_view.left + x + length - 1 <= u64::MAX,
                            context.kind is Match,
                            calls == modifications_view(*mods),
                            cells == base_cells(
                                *context,
                                x,
                                y,
                                length,
                                *alignment_view,
                                *pallete,
                                Some(calls),
                            )->Ok_0,
                            output@ == cells.take(i as int),
                        decreases length - i,
                    {
                        let pos: u64 = alignment_view.left + (x + i) as u64;
                        let bg = match mod_bg_at(pos, mods, pallete) {
                            Some(color) => color,
                            None => pallete.match_color,
                        };
                        output.push(
                            OnScreenCell {
                                x: x + i,
                                y,
                                glyph: DASH,
                                width: 1,
                                style: Style::default().bg(bg).fg(pallete.match_fg_color),
                            },
                        );
                        proof {
                            assert(cells.take(i + 1) =~= cells.take(i as int).push(cells[i as int]));
                        }
                        i += 1;
                    }
                    proof {
                        assert(cells.take(length as int) =~= cells);
                    }
                },
                None => {
                    output.push(
                        OnScreenCell {
                            x,
                            y,
                            glyph: DASH,
                            width: length,
                            style: Style::default().bg(pallete.match_color).fg(
                                pallete.match_fg_color,
                            ),
                        },
                    );
                },
            }
        },
        RenderingContextKind::Deletion => {
            output.push(
                OnScreenCell {
                    x,
                    y,
                    glyph: DASH,
                    width: length,
                    style: Style::new().bg(pallete.background).fg(pallete.deletion_color),
                },
            );
        },
        RenderingContextKind::SoftClip(base) => {
            let glyph = glyph_from_byte(base)?;
            output.push(
                OnScreenCell {
                    x,
                    y,
                    glyph,
                    width: 1,
                    style: Style::default().bg(pallete.softclip_color(base)),
                },
            );
        },
        RenderingContextKind::PairGap => {
            output.push(
                OnScreenCell {
                    x,
                    y,
                    glyph: DASH,
                    width: length,
                    style: Style::new().bg(pallete.background).fg(pallete.pairgap_color),
                },
            );
        },
        RenderingContextKind::PairOverlap => {
            output.push(
                OnScreenCell {
                    x,
                    y,
                    glyph: DASH,
                    width: length,
                    style: Style::new().bg(pallete.background).fg(pallete.pair_overlap_color),
                },
            );
        },
    }
    proof {
        let cells = base_cells(
            *context,
            x,
            y,
            length,
            *alignment_view,
            *pallete,
            calls_of(base_modifications),
        )->Ok_0;
        assert(output@ =~= cells);
    }
    Ok(output)
}

/// What is written on `area` for one segment of a read in row `y` of the
/// reads: the runs of the segment, then the glyphs of its marks. `None` if
/// the row or the whole segment lies outside the area; an error if a base
/// that is to be shown is no character.
pub fn get_read_rendering_info(
    context: &RenderingContext,
    y: usize,
    alignment_view: &AlignmentView,
    area: &Rect,
    pallete: &Palette,
    base_modifications: Option<&HashMap<u64, Vec<BaseModification>>>,
) -> (result: Result<Option<Vec<OnScreenCell>>, TGVError>)
    ensures
        match rendering_info(
            *context,
            y,
            *alignment_view,
            *area,
            *pallete,
            calls_of(base_modifications),
        ) {
            Ok(Some(cells)) => result matches Ok(Some(output)) && output@ == cells,
            Ok(None) => result matches Ok(None),
            Err(error) => result matches Err(found) && found == error,
        },
{
    let onscreen_y = match alignment_view.onscreen_y_coordinate(y, area) {
        OnScreenCoordinate::OnScreen(y_start) => y_start,
        _ => return Ok(None),
    };
    let start_onscreen_coordinate = alignment_view.onscreen_x_coordinate(context.start, area);
    let end_onscreen_coordinate = alignment_view.onscreen_x_coordinate(context.end, area);
    let (onscreen_x, length) = match OnScreenCoordinate::onscreen_start_and_length(
        &start_onscreen_coordinate,
        &end_onscreen_coordinate,
        area,
    ) {
        Some((onscreen_x, length)) => (onscreen_x, length),
        None => return Ok(None),
    };
    let mut output = get_base_cells(
        context,
        onscreen_x,
        onscreen_y,
        length,
        alignment_view,
        pallete,
        base_modifications,
    )?;
    let ghost cells = output@;
    let first: Style = output[0].style;
    let mut k: usize = 0;
    proof {
        assert(context.modifiers@.take(0) =~= Seq::<RenderingContextModifier>::empty());
    }
    while k < context.modifiers.len()
        invariant
            k <= context.modifiers.len(),
            with_modifiers(
                cells,
                context.modifiers@.take(k as int),
                *context,
                onscreen_y,
                *alignment_view,
                *area,
                *pallete,
                calls_of(base_modifications),
                first,
            ) == Ok::<Seq<OnScreenCell>, TGVError>(output@),
            rendering_info(
                *context,
                y,
                *alignment_view,
                *area,
                *pallete,
                calls_of(base_modifications),
            ) == match with_modifiers(
                cells,
                context.modifiers@,
                *context,
                onscreen_y,
                *alignment_view,
                *area,
                *pallete,
                calls_of(base_modifications),
                first,
            ) {
                Ok(all) => Ok::<Option<Seq<OnScreenCell>>, TGVError>(Some(all)),
                Err(error) => Err(error),
            },
        decreases context.modifiers.len() - k,
    {
        let ghost upto = context.modifiers@.take(k + 1);
        proof {
            assert(upto.drop_last() =~= context.modifiers@.take(k as int));
            assert(upto.last() == context.modifiers@[k as int]);
        }
        match get_modifier_cell(
            context.modifiers[k],
            context,
            onscreen_y,
            alignment_view,
            area,
            pallete,
            base_modifications,
            first,
        ) {
            Ok(Some(cell)) => {
                output.push(cell);
            },
            Ok(None) => {},
            Err(error) => {
                proof {
                    lemma_modifier_error_stays(
                        cells,
                        context.modifiers@,
                        k + 1,
                        *context,
                        onscreen_y,
                        *alignment_view,
                        *area,
                        *pallete,
                        calls_of(base_modifications),
                        first,
                    );
                }
                return Err(error);
            },
        }
        k += 1;
    }
    proof {
        assert(context.modifiers@.take(k as int) =~= context.modifiers@);
    }
    Ok(Some(output))
}

/// Once a glyph of the first `k` marks cannot be made, that is the error of
/// all the marks.
proof fn lemma_modifier_error_stays(
    cells: Seq<OnScreenCell>,
    modifiers: Seq<RenderingContextModifier>,
    k: int,
    context: RenderingContext,
    y: u16,
    view: AlignmentView,
    area: Rect,
    palette: Palette,
    modifications: Option<Modifications>,
    first: Style,
)
    requires
        0 <= k <= modifiers.len(),
        with_modifiers(
            cells,
            modifiers.take(k),
            context,
            y,
            view,
            area,
            palette,
            modifications,
            first,
        ) is Err,
    ensures
        with_modifiers(cells, modifiers, context, y, view, area, palette, modifications, first)
            == with_modifiers(
            cells,
            modifiers.take(k),
            context,
            y,
            view,
            area,
            palette,
            modifications,
            first,
        ),
    decreases modifiers.len(),
{
    if k == modifiers.len() {
        assert(modifiers.take(k) =~= modifiers);
    } else {
        assert(modifiers.drop_last().take(k) =~= modifiers.take(k));
        lemma_modifier_error_stays(
            cells,
            modifiers.drop_last(),
            k,
            context,
            y,
            view,
            area,
            palette,
            modifications,
            first,
        );
    }
}

/// What does not change while an alignment is drawn: the area of the screen
/// that the buffer covers, the area that is drawn on, the window that it
/// shows, and the colours.
pub ghost struct Scene {
    pub buffer_area: Rect,
    pub area: Rect,
    pub view: AlignmentView,
    pub palette: Palette,
}

/// What the cells of a buffer show, and the error that ended the drawing on
/// them, if one did.
pub ghost struct Drawn {
    pub cells: Seq<CellView>,
    pub error: Option<TGVError>,
}

/// `count` copies of `glyph`.
pub open spec fn repeated(glyph: char, count: u16) -> Seq<char> {
    Seq::new(count as nat, |i: int| glyph)
}

/// What the cells show after `width` copies of `glyph` were written in
/// `style` from column `column` of row `line` of the screen on. A run that
/// starts before the first column of the buffer, or in no row of it, is not
/// written.
pub open spec fn cells_with_run(
    cells: Seq<CellView>,
    buffer_area: Rect,
    column: int,
    line: int,
    glyph: char,
    width: u16,
    style: Style,
) -> Seq<CellView> {
    if buffer_area.x <= column <= u16::MAX && buffer_area.y <= line < bottom(buffer_area) {
        cells_with_string(
            cells,
            buffer_area,
            column as u16,
            line as u16,
            repeated(glyph, width),
            style,
        )
    } else {
        cells
    }
}

/// The cell at place `i` of the cells of a buffer over `buffer_area` lies
/// in row `line` of the screen.
pub open spec fn in_line(buffer_area: Rect, line: int, i: int) -> bool {
    (line - buffer_area.y) * buffer_area.width <= i < (line - buffer_area.y + 1)
        * buffer_area.width
}

/// What the cells show after `runs` were written in order, each at its
/// place counted from the corner of the area that is drawn on.
pub open spec fn cells_with_runs(
    cells: Seq<CellView>,
    scene: Scene,
    runs: Seq<OnScreenCell>,
) -> Seq<CellView>
    decreases runs.len(),
{
    if runs.len() == 0 {
        cells
    } else {
        let run = runs.last();
        cells_with_run(
            cells_with_runs(cells, scene, runs.drop_last()),
            scene.buffer_area,
            scene.area.x + run.x,
            scene.area.y + run.y,
            run.glyph,
            run.width,
            run.style,
        )
    }
}

/// What the cells show after one segment of a read in row `row` was drawn. A segment
/// with a glyph that cannot be made is not drawn at all, and ends the
/// drawing.
pub open spec fn draw_context(
    cells: Seq<CellView>,
    scene: Scene,
    context: RenderingContext,
    row: usize,
    modifications: Option<Modifications>,
) -> Drawn {
    match rendering_info(context, row, scene.view, scene.area, scene.palette, modifications) {
        Ok(Some(runs)) => Drawn { cells: cells_with_runs(cells, scene, runs), error: None },
        Ok(None) => Drawn { cells, error: None },
        Err(error) => Drawn { cells, error: Some(error) },
    }
}

/// What the cells show after the segments `contexts` of a read in row `row` were drawn
/// in order, up to the first that ends the drawing.
pub open spec fn draw_contexts(
    cells: Seq<CellView>,
    scene: Scene,
    contexts: Seq<RenderingContext>,
    row: usize,
    modifications: Option<Modifications>,
) -> Drawn
    decreases contexts.len(),
{
    if contexts.len() == 0 {
        Drawn { cells, error: None }
    } else {
        let first = draw_context(cells, scene, contexts.first(), row, modifications);
        if first.error is Some {
            first
        } else {
            draw_contexts(first.cells, scene, contexts.drop_first(), row, modifications)
        }
    }
}

/// The calls that colour a read: those of the read, if colouring is asked
/// for and the read has any.
pub open spec fn read_modifications(read: AlignedRead, show: bool) -> Option<Modifications> {
    if show && !read.base_modifications@.is_empty() {
        Some(modifications_view(read.base_modifications))
    } else {
        None
    }
}

/// What the cells show after the reads `indices` of row `row` were drawn in order.
pub open spec fn draw_row(
    cells: Seq<CellView>,
    scene: Scene,
    reads: Seq<AlignedRead>,
    indices: Seq<usize>,
    row: usize,
    show: bool,
) -> Drawn
    decreases indices.len(),
{
    if indices.len() == 0 {
        Drawn { cells, error: None }
    } else {
        let read = reads[indices.first() as int];
        let first = draw_contexts(
            cells,
            scene,
            read.rendering_contexts@,
            row,
            read_modifications(read, show),
        );
        if first.error is Some {
            first
        } else {
            draw_row(first.cells, scene, reads, indices.drop_first(), row, show)
        }
    }
}

/// What the cells show after the rows `rows` of reads were drawn in order, the first of
/// them being row `row`.
pub open spec fn draw_rows(
    cells: Seq<CellView>,
    scene: Scene,
    reads: Seq<AlignedRead>,
    rows: Seq<Vec<usize>>,
    row: usize,
    show: bool,
) -> Drawn
    decreases rows.len(),
{
    if rows.len() == 0 {
        Drawn { cells, error: None }
    } else {
        let first = draw_row(cells, scene, reads, rows.first()@, row, show);
        if first.error is Some {
            first
        } else {
            draw_rows(first.cells, scene, reads, rows.drop_first(), (row + 1) as usize, show)
        }
    }
}

/// What the cells show after the pairs `pairs` were drawn in order, each in the row of
/// its first read and each only if `shown` says so. Pairs are drawn without
/// the colours of modification calls. A pair without an entry in `shown`,
/// or an entry without a pair, is passed over.
pub open spec fn draw_pairs(
    cells: Seq<CellView>,
    scene: Scene,
    ys: Seq<usize>,
    pairs: Seq<ReadPair>,
    shown: Seq<bool>,
) -> Drawn
    decreases pairs.len(),
{
    if pairs.len() == 0 || shown.len() == 0 {
        Drawn { cells, error: None }
    } else {
        let first = if shown.first() {
            draw_contexts(
                cells,
                scene,
                pairs.first().rendering_contexts@,
                ys[pairs.first().read_1_index as int],
                None,
            )
        } else {
            Drawn { cells, error: None }
        };
        if first.error is Some {
            first
        } else {
            draw_pairs(first.cells, scene, ys, pairs.drop_first(), shown.drop_first())
        }
    }
}

/// Pairs are asked for, and the pairs or the choice of which of them to
/// show have not been worked out.
pub open spec fn lacks_pairs(state: State) -> bool {
    state.display_as_pairs() && (state.alignment.read_pairs is None
        || state.alignment.show_pairs is None)
}

/// What the cells show after the alignment of a state that does not lack pairs was
/// drawn: pair by pair where pairs are asked for, else row by row. An area
/// without rows is not drawn on.
pub open spec fn draw_alignment(cells: Seq<CellView>, scene: Scene, state: State) -> Drawn {
    if scene.area.height < 1 {
        Drawn { cells, error: None }
    } else if state.display_as_pairs() {
        draw_pairs(
            cells,
            scene,
            state.alignment.ys@,
            state.alignment.read_pairs->0@,
            state.alignment.show_pairs->0@,
        )
    } else {
        draw_rows(
            cells,
            scene,
            state.alignment.reads@,
            state.alignment.ys_index@,
            0,
            state.show_modifications(),
        )
    }
}

/// `result` and `cells` are what `drawn` says.
pub open spec fn is_drawn(
    drawn: Drawn,
    result: Result<(), TGVError>,
    cells: Seq<CellView>,
) -> bool {
    &&& cells == drawn.cells
    &&& match drawn.error {
        Some(error) => result == Err::<(), TGVError>(error),
        None => result is Ok,
    }
}

/// What is said when pairs are asked for and have not been worked out.
pub open spec fn lacks_pairs_message() -> Seq<char> {
    "Read pairs are not calculated before rendering."@
}

/// `count` copies of `glyph`, as a string.
fn repeat_glyph(glyph: char, count: u16) -> (text: String)
    ensures
        text@ == repeated(glyph, count),
{
    let mut text = String::new();
    let mut i: u16 = 0;
    while i < count
        invariant
            i <= count,
            text@ == repeated(glyph, i),
        decreases count - i,
    {
        push_char(&mut text, glyph);
        proof {
            assert(text@ =~= repeated(glyph, (i + 1) as u16));
        }
        i += 1;
    }
    text
}

/// Writes one run on `buf`, at its place counted from the corner of `area`.
fn draw_run(buf: &mut Buffer, area: &Rect, run: OnScreenCell)
    requires
        buffer_sound(*old(buf)),
    ensures
        buffer_sound(*final(buf)),
        buffer_area(*final(buf)) == buffer_area(*old(buf)),
        buffer_cells(*final(buf)) == cells_with_run(
            buffer_cells(*old(buf)),
            buffer_area(*old(buf)),
            area.x + run.x,
            area.y + run.y,
            run.glyph,
            run.width,
            run.style,
        ),
        buffer_cells(*final(buf)).len() == buffer_cells(*old(buf)).len(),
        forall|i: int|
            0 <= i < buffer_cells(*old(buf)).len() && !in_line(
                buffer_area(*old(buf)),
                area.y + run.y,
                i,
            ) ==> #[trigger] buffer_cells(*final(buf))[i] == buffer_cells(*old(buf))[i],
{
    let covered = area_of(buf);
    let column: u32 = area.x as u32 + run.x as u32;
    let line: u32 = area.y as u32 + run.y as u32;
    let below: u16 = covered.y.saturating_add(covered.height);
    if covered.x as u32 <= column && column <= u16::MAX as u32 && covered.y as u32 <= line && line
        < below as u32 {
        let text = repeat_glyph(run.glyph, run.width);
        proof {
            let rows = line - covered.y;
            let width = covered.width as int;
            assert((rows + 1) * width == rows * width + width) by (nonlinear_arith);
        }
        set_string(buf, column as u16, line as u16, text.as_str(), run.style);
    }
}

/// Draws one segment of a read in row `y` of the reads on `buf`, in the
/// part of the screen that `area` is. What falls outside the buffer is not
/// drawn. Cells in other rows of the screen stay as they are.
pub fn render_contexts(
    context: &RenderingContext,
    y: usize,
    buf: &mut Buffer,
    alignment_view: &AlignmentView,
    area: &Rect,
    pallete: &Palette,
    base_modifications: Option<&HashMap<u64, Vec<BaseModification>>>,
) -> (result: Result<(), TGVError>)
    requires
        buffer_sound(*old(buf)),
    ensures
        buffer_sound(*final(buf)),
        buffer_area(*final(buf)) == buffer_area(*old(buf)),
        is_drawn(
            draw_context(
                buffer_cells(*old(buf)),
                Scene {
                    buffer_area: buffer_area(*old(buf)),
                    area: *area,
                    view: *alignment_view,
                    palette: *pallete,
                },
                *context,
                y,
                calls_of(base_modifications),
            ),
            result,
            buffer_cells(*final(buf)),
        ),
        buffer_cells(*final(buf)).len() == buffer_cells(*old(buf)).len(),
        forall|i: int|
            0 <= i < buffer_cells(*old(buf)).len() && !(alignment_view.onscreen_y_coordinate(
                y,
                area,
            ) matches OnScreenCoordinate::OnScreen(row) && in_line(
                buffer_area(*old(buf)),
                area.y + row,
                i,
            )) ==> #[trigger] buffer_cells(*final(buf))[i] == buffer_cells(*old(buf))[i],
{
    let ghost scene = Scene {
        buffer_area: buffer_area(*buf),
        area: *area,
        view: *alignment_view,
        palette: *pallete,
    };
    proof {
        lemma_drawn_within_area(
            *context,
            y,
            *alignment_view,
            *area,
            *pallete,
            calls_of(base_modifications),
        );
    }
    if let Some(onscreen_contexts) = get_read_rendering_info(
        context,
        y,
        alignment_view,
        area,
        pallete,
        base_modifications,
    )? {
        let ghost row = alignment_view.onscreen_y_coordinate(y, area)->OnScreen_0;
        let mut k: usize = 0;
        proof {
            assert(onscreen_contexts@.take(0) =~= Seq::<OnScreenCell>::empty());
        }
        while k < onscreen_contexts.len()
            invariant
                k <= onscreen_contexts.len(),
                buffer_sound(*buf),
                buffer_area(*buf) == buffer_area(*old(buf)),
                scene.buffer_area == buffer_area(*buf),
                scene.area == *area,
                forall|i: int|
                    0 <= i < onscreen_contexts.len() ==> (#[trigger] onscreen_contexts[i]).y == row,
                buffer_cells(*buf) == cells_with_runs(
                    buffer_cells(*old(buf)),
                    scene,
                    onscreen_contexts@.take(k as int),
                ),
                buffer_cells(*buf).len() == buffer_cells(*old(buf)).len(),
                forall|i: int|
                    0 <= i < buffer_cells(*old(buf)).len() && !in_line(
                        buffer_area(*old(buf)),
                        area.y + row,
                        i,
                    ) ==> #[trigger] buffer_cells(*buf)[i] == buffer_cells(*old(buf))[i],
            decreases onscreen_contexts.len() - k,
        {
            let run = onscreen_contexts[k];
            proof {
                let upto = onscreen_contexts@.take(k + 1);
                assert(upto.drop_last() =~= onscreen_contexts@.take(k as int));
                assert(upto.last() == run);
            }
            draw_run(buf, area, run);
            k += 1;
        }
        proof {
            assert(onscreen_contexts@.take(k as int) =~= onscreen_contexts@);
        }
    }
    Ok(())
}

/// Draws the segments `contexts` of a read in row `y` in order, up to the
/// first that ends the drawing.
fn render_context_list(
    contexts: &Vec<RenderingContext>,
    y: usize,
    buf: &mut Buffer,
    alignment_view: &AlignmentView,
    area: &Rect,
    pallete: &Palette,
    base_modifications: Option<&HashMap<u64, Vec<BaseModification>>>,
) -> (result: Result<(), TGVError>)
    requires
        buffer_sound(*old(buf)),
    ensures
        buffer_sound(*final(buf)),
        buffer_area(*final(buf)) == buffer_area(*old(buf)),
        is_drawn(
            draw_contexts(
                buffer_cells(*old(buf)),
                Scene {
                    buffer_area: buffer_area(*old(buf)),
                    area: *area,
                    view: *alignment_view,
                    palette: *pallete,
                },
                contexts@,
                y,
                calls_of(base_modifications),
            ),
            result,
            buffer_cells(*final(buf)),
        ),
{
    let ghost scene = Scene {
        buffer_area: buffer_area(*buf),
        area: *area,
        view: *alignment_view,
        palette: *pallete,
    };
    let ghost calls = calls_of(base_modifications);
    let ghost whole = draw_contexts(buffer_cells(*buf), scene, contexts@, y, calls);
    let mut k: usize = 0;
    proof {
        assert(contexts@.skip(0) =~= contexts@);
    }
    while k < contexts.len()
        invariant
            k <= contexts.len(),
            buffer_sound(*buf),
            buffer_area(*buf) == buffer_area(*old(buf)),
            scene == (Scene {
                buffer_area: buffer_area(*buf),
                area: *area,
                view: *alignment_view,
                palette: *pallete,
            }),
            calls == calls_of(base_modifications),
            whole == draw_contexts(buffer_cells(*old(buf)), scene, contexts@, y, calls),
            whole == draw_contexts(buffer_cells(*buf), scene, contexts@.skip(k as int), y, calls),
        decreases contexts.len() - k,
    {
        proof {
            assert(contexts@.skip(k as int).drop_first() =~= contexts@.skip(k + 1));
            assert(contexts@.skip(k as int).first() == contexts@[k as int]);
        }
        render_contexts(&contexts[k], y, buf, alignment_view, area, pallete, base_modifications)?;
        k += 1;
    }
    Ok(())
}

/// Draws the reads `indices` of row `y` in order.
fn render_row(
    reads: &Vec<AlignedRead>,
    indices: &Vec<usize>,
    y: usize,
    show_modifications: bool,
    buf: &mut Buffer,
    alignment_view: &AlignmentView,
    area: &Rect,
    pallete: &Palette,
) -> (result: Result<(), TGVError>)
    requires
        buffer_sound(*old(buf)),
        forall|i: int| 0 <= i < indices.len() ==> #[trigger] indices[i] < reads.len(),
    ensures
        buffer_sound(*final(buf)),
        buffer_area(*final(buf)) == buffer_area(*old(buf)),
        is_drawn(
            draw_row(
                buffer_cells(*old(buf)),
                Scene {
                    buffer_area: buffer_area(*old(buf)),
                    area: *area,
                    view: *alignment_view,
                    palette: *pallete,
                },
                reads@,
                indices@,
                y,
                show_modifications,
            ),
            result,
            buffer_cells(*final(buf)),
        ),
{
    let ghost scene = Scene {
        buffer_area: buffer_area(*buf),
        area: *area,
        view: *alignment_view,
        palette: *pallete,
    };
    let ghost whole = draw_row(buffer_cells(*buf), scene, reads@, indices@, y, show_modifications);
    let mut k: usize = 0;
    proof {
        assert(indices@.skip(0) =~= indices@);
    }
    while k < indices.len()
        invariant
            k <= indices.len(),
            buffer_sound(*buf),
            buffer_area(*buf) == buffer_area(*old(buf)),
            forall|i: int| 0 <= i < indices.len() ==> #[trigger] indices[i] < reads.len(),
            scene == (Scene {
                buffer_area: buffer_area(*buf),
                area: *area,
                view: *alignment_view,
                palette: *pallete,
            }),
            whole == draw_row(buffer_cells(*old(buf)), scene, reads@, indices@, y, show_modifications),
            whole == draw_row(buffer_cells(*buf), scene, reads@, indices@.skip(k as int), y, show_modifications),
        decreases indices.len() - k,
    {
        proof {
            assert(indices@.skip(k as int).drop_first() =~= indices@.skip(k + 1));
            assert(indices@.skip(k as int).first() == indices@[k as int]);
        }
        let read = &reads[indices[k]];
        let mods: Option<&HashMap<u64, Vec<BaseModification>>> = if show_modifications
            && !read.base_modifications.is_empty() {
            Some(&read.base_modifications)
        } else {
            None
        };
        render_context_list(&read.rendering_contexts, y, buf, alignment_view, area, pallete, mods)?;
        k += 1;
    }
    Ok(())
}

/// Draws the alignment of `state` on `buf`, in the part of the screen that
/// `area` is, as `alignment_view` shows it.
///
/// Where the options of the state ask for pairs, each pair that is to be
/// shown is drawn in the row of its first read, without the colours of
/// modification calls; the pairs and the choice of which to show must have
/// been worked out. Else the reads are drawn row by row, with the colours
/// of their calls where the options ask for them.
pub fn render_alignment(
    area: &Rect,
    buf: &mut Buffer,
    state: &State,
    alignment_view: &AlignmentView,
    pallete: &Palette,
) -> (result: Result<(), TGVError>)
    requires
        buffer_sound(*old(buf)),
        state.alignment.wf(),
    ensures
        buffer_sound(*final(buf)),
        buffer_area(*final(buf)) == buffer_area(*old(buf)),
        area.height >= 1 && lacks_pairs(*state) ==> buffer_cells(*final(buf)) == buffer_cells(*old(buf)) && (
        result matches Err(TGVError::StateError(message)) && message@ == lacks_pairs_message()),
        !(area.height >= 1 && lacks_pairs(*state)) ==> is_drawn(
            draw_alignment(
                buffer_cells(*old(buf)),
                Scene {
                    buffer_area: buffer_area(*old(buf)),
                    area: *area,
                    view: *alignment_view,
                    palette: *pallete,
                },
                *state,
            ),
            result,
            buffer_cells(*final(buf)),
        ),
{
    if area.height < 1 {
        return Ok(());
    }
    let ghost scene = Scene {
        buffer_area: buffer_area(*buf),
        area: *area,
        view: *alignment_view,
        palette: *pallete,
    };
    let display_as_pairs = has_view_as_pairs(&state.alignment_options);
    let show_modifications = has_show_base_modifications(&state.alignment_options);
    if display_as_pairs {
        let (read_pairs, show_pairs) = match (&state.alignment.read_pairs, &state.alignment.show_pairs) {
            (Some(read_pairs), Some(show_pairs)) => (read_pairs, show_pairs),
            _ => {
                return Err(
                    TGVError::StateError(
                        String::from_str("Read pairs are not calculated before rendering."),
                    ),
                );
            },
        };
        let ghost whole = draw_pairs(buffer_cells(*buf), scene, state.alignment.ys@, read_pairs@, show_pairs@);
        let mut k: usize = 0;
        proof {
            assert(read_pairs@.skip(0) =~= read_pairs@);
            assert(show_pairs@.skip(0) =~= show_pairs@);
        }
        while k < read_pairs.len() && k < show_pairs.len()
            invariant
                k <= read_pairs.len(),
                k <= show_pairs.len(),
                buffer_sound(*buf),
                buffer_area(*buf) == buffer_area(*old(buf)),
                state.alignment.read_pairs == Some(*read_pairs),
                state.alignment.wf(),
                scene == (Scene {
                    buffer_area: buffer_area(*buf),
                    area: *area,
                    view: *alignment_view,
                    palette: *pallete,
                }),
                area.height >= 1,
                !lacks_pairs(*state),
                whole == draw_alignment(buffer_cells(*old(buf)), scene, *state),
                whole == draw_pairs(
                    buffer_cells(*buf),
                    scene,
                    state.alignment.ys@,
                    read_pairs@.skip(k as int),
                    show_pairs@.skip(k as int),
                ),
            decreases read_pairs.len() - k,
        {
            proof {
                assert(read_pairs@.skip(k as int).drop_first() =~= read_pairs@.skip(k + 1));
                assert(show_pairs@.skip(k as int).drop_first() =~= show_pairs@.skip(k + 1));
                assert(read_pairs@.skip(k as int).first() == read_pairs@[k as int]);
                assert(show_pairs@.skip(k as int).first() == show_pairs@[k as int]);
            }
            if show_pairs[k] {
                let read_pair = &read_pairs[k];
                let y = state.alignment.ys[read_pair.read_1_index];
                // Pairs are drawn without the colours of modification calls.
                render_context_list(
                    &read_pair.rendering_contexts,
                    y,
                    buf,
                    alignment_view,
                    area,
                    pallete,
                    None,
                )?;
            }
            k += 1;
        }
        Ok(())
    } else {
        let rows = &state.alignment.ys_index;
        let ghost whole = draw_rows(
            buffer_cells(*buf),
            scene,
            state.alignment.reads@,
            rows@,
            0,
            show_modifications,
        );
        let mut y: usize = 0;
        proof {
            assert(rows@.skip(0) =~= rows@);
        }
        while y < rows.len()
            invariant
                y <= rows.len(),
                buffer_sound(*buf),
                buffer_area(*buf) == buffer_area(*old(buf)),
                *rows == state.alignment.ys_index,
                state.alignment.wf(),
                scene == (Scene {
                    buffer_area: buffer_area(*buf),
                    area: *area,
                    view: *alignment_view,
                    palette: *pallete,
                }),
                area.height >= 1,
                !lacks_pairs(*state),
                whole == draw_alignment(buffer_cells(*old(buf)), scene, *state),
                whole == draw_rows(
                    buffer_cells(*buf),
                    scene,
                    state.alignment.reads@,
                    rows@.skip(y as int),
                    y,
                    show_modifications,
                ),
            decreases rows.len() - y,
        {
            proof {
                assert(rows@.skip(y as int).drop_first() =~= rows@.skip(y + 1));
                assert(rows@.skip(y as int).first() == rows@[y as int]);
            }
            render_row(
                &state.alignment.reads,
                &rows[y],
                y,
                show_modifications,
                buf,
                alignment_view,
                area,
                pallete,
            )?;
            y += 1;
        }
        Ok(())
    }
}

/// Whether `options` ask for the reads of a pair to share a row.
fn has_view_as_pairs(options: &Vec<crate::message::AlignmentDisplayOption>) -> (found: bool)
    ensures
        found == exists|i: int|
            0 <= i < options.len() && (#[trigger] options[i]).is_view_as_pairs(),
{
    let mut i: usize = 0;
    while i < options.len()
        invariant
            i <= options.len(),
            forall|j: int| 0 <= j < i ==> !(#[trigger] options[j]).is_view_as_pairs(),
        decreases options.len() - i,
    {
        if options[i].is_view_as_pairs() {
            return true;
        }
        i += 1;
    }
    false
}

/// Whether `options` ask for aligned bases to be coloured by their calls.
fn has_show_base_modifications(options: &Vec<crate::message::AlignmentDisplayOption>) -> (found:
    bool)
    ensures
        found == exists|i: int|
            0 <= i < options.len() && (#[trigger] options[i]).is_show_base_modifications(),
{
    let mut i: usize = 0;
    while i < options.len()
        invariant
            i <= options.len(),
            forall|j: int| 0 <= j < i ==> !(#[trigger] options[j]).is_show_base_modifications(),
        decreases options.len() - i,
    {
        if options[i].is_show_base_modifications() {
            return true;
        }
        i += 1;
    }
    false
}

} // verus!
