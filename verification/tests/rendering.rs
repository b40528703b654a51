use std::collections::HashMap;
use tgv::alignment::{
    AlignedRead, Alignment, ReadPair, RenderingContext, RenderingContextKind,
    RenderingContextModifier, State,
};
use ratatui::buffer::Buffer;
use ratatui::layout::Rect;
use ratatui::style::Color;
use tgv::error::TGVError;
use tgv::layout::OnScreenCoordinate::{Left, OnScreen, Right};
use tgv::layout::{AlignmentView, OnScreenCoordinate};
use tgv::message::AlignmentDisplayOption;
use tgv::modification::{BaseModification, ModificationType};
use tgv::palette::{BaseColors, ModificationShades, Palette};
use tgv::rendering::alignment::{
    get_read_rendering_info, glyph_from_byte, mod_bg_at, render_alignment, render_contexts,
    OnScreenCell,
};
use tgv::style::Style;
use tgv::terminal::buffer_is_sound;

fn palette() -> Palette {
    Palette {
        background: Color::Black,
        match_color: Color::Gray,
        match_fg_color: Color::White,
        deletion_color: Color::Red,
        insertion_color: Color::Magenta,
        pairgap_color: Color::DarkGray,
        pair_overlap_color: Color::Yellow,
        softclip: BaseColors {
            a: Color::Indexed(1),
            c: Color::Indexed(2),
            g: Color::Indexed(3),
            t: Color::Indexed(4),
            other: Color::Indexed(5),
        },
        mismatch: BaseColors {
            a: Color::Rgb(1, 0, 0),
            c: Color::Rgb(2, 0, 0),
            g: Color::Rgb(3, 0, 0),
            t: Color::Rgb(4, 0, 0),
            other: Color::Rgb(5, 0, 0),
        },
        five_mc: ModificationShades {
            low: Color::Indexed(10),
            medium: Color::Indexed(11),
            high: Color::Indexed(12),
        },
        five_hmc: ModificationShades {
            low: Color::Indexed(20),
            medium: Color::Indexed(21),
            high: Color::Indexed(22),
        },
        six_ma: ModificationShades {
            low: Color::Indexed(30),
            medium: Color::Indexed(31),
            high: Color::Indexed(32),
        },
    }
}

fn area(width: u16, height: u16) -> Rect {
    Rect { x: 0, y: 0, width, height }
}

fn context(
    kind: RenderingContextKind,
    start: u64,
    end: u64,
    modifiers: Vec<RenderingContextModifier>,
) -> RenderingContext {
    RenderingContext { start, end, kind, modifiers }
}

fn call(modification_type: ModificationType, probability: u8) -> BaseModification {
    BaseModification { modification_type, probability }
}

fn aligned(bg: Color) -> Style {
    Style { fg: Some(Color::White), bg: Some(bg) }
}

#[test]
fn test_match_with_modifications_is_drawn_cell_by_cell() {
    let view = AlignmentView { left: 10, top: 0 };
    let ctx = context(RenderingContextKind::Match, 10, 12, vec![]);
    let mut mods = HashMap::new();
    mods.insert(11u64, vec![call(ModificationType::FiveMC, 200)]);

    let cells = get_read_rendering_info(&ctx, 0, &view, &area(20, 5), &palette(), Some(&mods))
        .unwrap()
        .unwrap();
    assert_eq!(
        cells,
        vec![
            OnScreenCell { x: 0, y: 0, glyph: '-', width: 1, style: aligned(Color::Gray) },
            OnScreenCell { x: 1, y: 0, glyph: '-', width: 1, style: aligned(Color::Indexed(12)) },
            OnScreenCell { x: 2, y: 0, glyph: '-', width: 1, style: aligned(Color::Gray) },
        ]
    );
}

#[test]
fn test_match_without_modifications_is_one_run() {
    let view = AlignmentView { left: 10, top: 0 };
    let ctx = context(RenderingContextKind::Match, 10, 12, vec![]);
    let cells =
        get_read_rendering_info(&ctx, 0, &view, &area(20, 5), &palette(), None).unwrap().unwrap();
    assert_eq!(
        cells,
        vec![OnScreenCell { x: 0, y: 0, glyph: '-', width: 3, style: aligned(Color::Gray) }]
    );
}

#[test]
fn test_softclip_is_one_cell_whatever_its_length() {
    let view = AlignmentView { left: 1, top: 0 };
    for end in [5u64, 6, 50, 5000] {
        let ctx = context(RenderingContextKind::SoftClip(b'G'), 5, end, vec![]);
        let cells = get_read_rendering_info(&ctx, 2, &view, &area(20, 5), &palette(), None)
            .unwrap()
            .unwrap();
        assert_eq!(
            cells,
            vec![OnScreenCell {
                x: 4,
                y: 2,
                glyph: 'G',
                width: 1,
                style: Style { fg: None, bg: Some(Color::Indexed(3)) },
            }]
        );
    }
}

#[test]
fn test_off_screen_is_nothing() {
    let view = AlignmentView { left: 100, top: 3 };
    let p = palette();
    let a = area(10, 4);
    let ctx = context(RenderingContextKind::Match, 100, 105, vec![RenderingContextModifier::Forward]);
    // Rows above and below the area.
    assert_eq!(get_read_rendering_info(&ctx, 2, &view, &a, &p, None), Ok(None));
    assert_eq!(get_read_rendering_info(&ctx, 7, &view, &a, &p, None), Ok(None));
    assert!(get_read_rendering_info(&ctx, 6, &view, &a, &p, None).unwrap().is_some());
    // Segments left and right of the area.
    let left = context(RenderingContextKind::Match, 1, 99, vec![]);
    let right = context(RenderingContextKind::Match, 110, 120, vec![]);
    assert_eq!(get_read_rendering_info(&left, 3, &view, &a, &p, None), Ok(None));
    assert_eq!(get_read_rendering_info(&right, 3, &view, &a, &p, None), Ok(None));
    // An area without columns.
    assert_eq!(get_read_rendering_info(&ctx, 3, &view, &area(0, 4), &p, None), Ok(None));
    // A segment that ends before it starts.
    let backwards = context(RenderingContextKind::Match, 105, 100, vec![]);
    assert_eq!(get_read_rendering_info(&backwards, 3, &view, &a, &p, None), Ok(None));
}

#[test]
fn test_segments_are_cut_at_the_edges() {
    let view = AlignmentView { left: 100, top: 0 };
    let p = palette();
    let a = area(10, 4);
    let over = context(RenderingContextKind::Deletion, 90, 200, vec![]);
    let style = Style { fg: Some(Color::Red), bg: Some(Color::Black) };
    assert_eq!(
        get_read_rendering_info(&over, 1, &view, &a, &p, None).unwrap().unwrap(),
        vec![OnScreenCell { x: 0, y: 1, glyph: '-', width: 10, style }]
    );
    let from_left = context(RenderingContextKind::PairGap, 90, 103, vec![]);
    let style = Style { fg: Some(Color::DarkGray), bg: Some(Color::Black) };
    assert_eq!(
        get_read_rendering_info(&from_left, 1, &view, &a, &p, None).unwrap().unwrap(),
        vec![OnScreenCell { x: 0, y: 1, glyph: '-', width: 4, style }]
    );
    let to_right = context(RenderingContextKind::PairOverlap, 107, u64::MAX, vec![]);
    let style = Style { fg: Some(Color::Yellow), bg: Some(Color::Black) };
    assert_eq!(
        get_read_rendering_info(&to_right, 1, &view, &a, &p, None).unwrap().unwrap(),
        vec![OnScreenCell { x: 7, y: 1, glyph: '-', width: 3, style }]
    );
}

#[test]
fn test_modifiers_follow_the_base_run() {
    let view = AlignmentView { left: 100, top: 0 };
    let p = palette();
    let ctx = context(
        RenderingContextKind::Match,
        101,
        105,
        vec![
            RenderingContextModifier::Forward,
            RenderingContextModifier::Reverse,
            RenderingContextModifier::Insertion(3),
            RenderingContextModifier::Mismatch(103, b'T'),
            RenderingContextModifier::PairConflict(104),
            RenderingContextModifier::Mismatch(300, 0xFF),
            RenderingContextModifier::PairConflict(99),
        ],
    );
    let cells = get_read_rendering_info(&ctx, 0, &view, &area(10, 4), &p, None).unwrap().unwrap();
    let first = aligned(Color::Gray);
    assert_eq!(
        cells,
        vec![
            OnScreenCell { x: 1, y: 0, glyph: '-', width: 5, style: first },
            OnScreenCell { x: 5, y: 0, glyph: '\u{25BA}', width: 1, style: first },
            OnScreenCell { x: 1, y: 0, glyph: '\u{25C4}', width: 1, style: first },
            OnScreenCell {
                x: 1,
                y: 0,
                glyph: '\u{258C}',
                width: 1,
                style: Style { fg: Some(Color::Magenta), bg: None },
            },
            OnScreenCell {
                x: 3,
                y: 0,
                glyph: 'T',
                width: 1,
                style: Style { fg: Some(Color::Rgb(4, 0, 0)), bg: Some(Color::Gray) },
            },
            OnScreenCell { x: 4, y: 0, glyph: '?', width: 1, style: first },
        ]
    );
}

#[test]
fn test_mismatch_keeps_the_background_of_the_calls() {
    let view = AlignmentView { left: 100, top: 0 };
    let p = palette();
    let mut mods = HashMap::new();
    mods.insert(101u64, vec![call(ModificationType::SixMA, 10)]);
    let ctx = context(
        RenderingContextKind::Match,
        100,
        102,
        vec![
            RenderingContextModifier::Mismatch(101, b'a'),
            RenderingContextModifier::Mismatch(102, b'N'),
        ],
    );
    let cells =
        get_read_rendering_info(&ctx, 0, &view, &area(10, 4), &p, Some(&mods)).unwrap().unwrap();
    assert_eq!(cells.len(), 5);
    assert_eq!(
        cells[3],
        OnScreenCell {
            x: 1,
            y: 0,
            glyph: 'a',
            width: 1,
            style: Style { fg: Some(Color::Rgb(1, 0, 0)), bg: Some(Color::Indexed(30)) },
        }
    );
    assert_eq!(
        cells[4],
        OnScreenCell {
            x: 2,
            y: 0,
            glyph: 'N',
            width: 1,
            style: Style { fg: Some(Color::Rgb(5, 0, 0)), bg: Some(Color::Gray) },
        }
    );
}

#[test]
fn test_glyph_that_is_no_character_is_an_error() {
    let view = AlignmentView { left: 100, top: 0 };
    let p = palette();
    let a = area(10, 4);
    let clip = context(RenderingContextKind::SoftClip(0xC3), 100, 100, vec![]);
    assert_eq!(
        get_read_rendering_info(&clip, 0, &view, &a, &p, None),
        Err(TGVError::Utf8Error(0xC3))
    );
    let mismatch = context(
        RenderingContextKind::Match,
        100,
        105,
        vec![
            RenderingContextModifier::Mismatch(101, b'A'),
            RenderingContextModifier::Mismatch(102, 0x80),
            RenderingContextModifier::Mismatch(103, 0x90),
        ],
    );
    assert_eq!(
        get_read_rendering_info(&mismatch, 0, &view, &a, &p, None),
        Err(TGVError::Utf8Error(0x80))
    );
    assert_eq!(glyph_from_byte(0x7F), Ok('\u{7F}'));
    assert_eq!(glyph_from_byte(b'C'), Ok('C'));
    assert_eq!(glyph_from_byte(0x80), Err(TGVError::Utf8Error(0x80)));

    // Nothing is drawn of a segment that fails.
    let mut buf = Buffer::empty(a);
    let before = buf.clone();
    assert_eq!(
        render_contexts(&mismatch, 0, &mut buf, &view, &a, &p, None),
        Err(TGVError::Utf8Error(0x80))
    );
    assert_eq!(buf, before);
}

#[test]
fn test_preference_among_calls_at_one_position() {
    let p = palette();
    let mut mods = HashMap::new();
    mods.insert(
        1u64,
        vec![
            call(ModificationType::SixMA, 255),
            call(ModificationType::FiveHMC, 100),
            call(ModificationType::FiveMC, 0),
            call(ModificationType::FiveMC, 255),
        ],
    );
    mods.insert(
        2u64,
        vec![call(ModificationType::SixMA, 255), call(ModificationType::FiveHMC, 178)],
    );
    mods.insert(3u64, vec![call(ModificationType::SixMA, 179), call(ModificationType::SixMA, 0)]);
    mods.insert(4u64, vec![]);
    assert_eq!(mod_bg_at(1, &mods, &p), Some(Color::Indexed(10)));
    assert_eq!(mod_bg_at(2, &mods, &p), Some(Color::Indexed(21)));
    assert_eq!(mod_bg_at(3, &mods, &p), Some(Color::Indexed(32)));
    assert_eq!(mod_bg_at(4, &mods, &p), None);
    assert_eq!(mod_bg_at(5, &mods, &p), None);
}

#[test]
fn test_palette_shades_follow_the_thresholds() {
    let p = palette();
    assert_eq!(p.modification_color(&ModificationType::FiveMC, 76), Color::Indexed(10));
    assert_eq!(p.modification_color(&ModificationType::FiveMC, 77), Color::Indexed(11));
    assert_eq!(p.modification_color(&ModificationType::FiveMC, 178), Color::Indexed(11));
    assert_eq!(p.modification_color(&ModificationType::FiveMC, 179), Color::Indexed(12));
    assert_eq!(p.softclip_color(b't'), Color::Indexed(4));
    assert_eq!(p.mismatch_color(b'C'), Color::Rgb(2, 0, 0));
    assert_eq!(p.mismatch_color(b'-'), Color::Rgb(5, 0, 0));
}

#[test]
fn test_view_coordinates() {
    let view = AlignmentView { left: 100, top: 3 };
    let a = area(10, 4);
    assert_eq!(view.onscreen_x_coordinate(99, &a), OnScreenCoordinate::Left);
    assert_eq!(view.onscreen_x_coordinate(100, &a), OnScreenCoordinate::OnScreen(0));
    assert_eq!(view.onscreen_x_coordinate(109, &a), OnScreenCoordinate::OnScreen(9));
    assert_eq!(view.onscreen_x_coordinate(110, &a), OnScreenCoordinate::Right);
    assert_eq!(view.onscreen_y_coordinate(2, &a), OnScreenCoordinate::Left);
    assert_eq!(view.onscreen_y_coordinate(3, &a), OnScreenCoordinate::OnScreen(0));
    assert_eq!(view.onscreen_y_coordinate(6, &a), OnScreenCoordinate::OnScreen(3));
    assert_eq!(view.onscreen_y_coordinate(7, &a), OnScreenCoordinate::Right);
    let far = AlignmentView { left: u64::MAX, top: usize::MAX };
    assert_eq!(far.onscreen_x_coordinate(u64::MAX, &a), OnScreenCoordinate::OnScreen(0));
    assert_eq!(far.onscreen_y_coordinate(usize::MAX, &a), OnScreenCoordinate::OnScreen(0));

    let span = OnScreenCoordinate::onscreen_start_and_length;
    assert_eq!(span(&Left, &Left, &a), None);
    assert_eq!(span(&Right, &Right, &a), None);
    assert_eq!(span(&Right, &Left, &a), None);
    assert_eq!(span(&OnScreen(3), &Left, &a), None);
    assert_eq!(span(&Left, &OnScreen(3), &a), Some((0, 4)));
    assert_eq!(span(&Left, &Right, &a), Some((0, 10)));
    assert_eq!(span(&OnScreen(2), &OnScreen(2), &a), Some((2, 1)));
    assert_eq!(span(&OnScreen(2), &OnScreen(7), &a), Some((2, 6)));
    assert_eq!(span(&OnScreen(7), &OnScreen(2), &a), None);
    assert_eq!(span(&OnScreen(7), &Right, &a), Some((7, 3)));
    assert_eq!(span(&OnScreen(10), &Right, &a), None);
    assert_eq!(span(&Left, &OnScreen(u16::MAX), &a), None);
    assert_eq!(span(&Left, &Right, &area(0, 4)), None);
}

fn colors(fg: Color, bg: Color) -> Style {
    Style { fg: Some(fg), bg: Some(bg) }
}

fn shown(buf: &Buffer, x: u16, y: u16) -> (String, Color, Color) {
    let cell = buf.cell((x, y)).unwrap();
    (cell.symbol().to_string(), cell.fg, cell.bg)
}

fn blank() -> (String, Color, Color) {
    (" ".to_string(), Color::Reset, Color::Reset)
}

#[test]
fn test_style_names_colours() {
    assert_eq!(Style::new(), Style { fg: None, bg: None });
    assert_eq!(Style::default(), Style { fg: None, bg: None });
    assert_eq!(Style::new().fg(Color::Red), Style { fg: Some(Color::Red), bg: None });
    assert_eq!(Style::new().bg(Color::Blue), Style { fg: None, bg: Some(Color::Blue) });
    assert_eq!(
        Style::new().fg(Color::Red).bg(Color::Blue).fg(Color::Green),
        colors(Color::Green, Color::Blue)
    );
}

#[test]
fn test_buffer_soundness() {
    let mut buf = Buffer::empty(Rect::new(2, 1, 4, 2));
    assert!(buffer_is_sound(&buf));
    buf.content.pop();
    assert!(!buffer_is_sound(&buf));
    buf.area.height = 1;
    assert!(!buffer_is_sound(&buf));
    buf.content.truncate(4);
    assert!(buffer_is_sound(&buf));
    assert!(buffer_is_sound(&Buffer::empty(Rect::new(0, 0, 0, 7))));
}

#[test]
fn test_render_contexts_draws_from_the_corner_of_the_area() {
    let p = palette();
    let view = AlignmentView { left: 100, top: 0 };
    let mut buf = Buffer::empty(area(8, 3));
    assert!(buffer_is_sound(&buf));
    let inner = Rect { x: 2, y: 1, width: 4, height: 2 };
    let ctx = context(
        RenderingContextKind::Match,
        101,
        102,
        vec![RenderingContextModifier::Forward, RenderingContextModifier::Insertion(1)],
    );
    render_contexts(&ctx, 1, &mut buf, &view, &inner, &p, None).unwrap();
    assert_eq!(shown(&buf, 2, 2), blank());
    assert_eq!(shown(&buf, 3, 2), ("\u{258C}".to_string(), Color::Magenta, Color::Gray));
    assert_eq!(shown(&buf, 4, 2), ("\u{25BA}".to_string(), Color::White, Color::Gray));
    assert_eq!(shown(&buf, 5, 2), blank());
    let drawn = buf.content.iter().filter(|c| c.symbol() != " ").count();
    assert_eq!(drawn, 2);
}

fn read(contexts: Vec<RenderingContext>, mods: HashMap<u64, Vec<BaseModification>>) -> AlignedRead {
    AlignedRead { rendering_contexts: contexts, base_modifications: mods }
}

fn state(options: Vec<AlignmentDisplayOption>) -> State {
    let mut mods = HashMap::new();
    mods.insert(101u64, vec![call(ModificationType::FiveMC, 255)]);
    State {
        alignment_options: options,
        alignment: Alignment {
            reads: vec![
                read(vec![context(RenderingContextKind::Match, 100, 102, vec![])], mods),
                read(vec![context(RenderingContextKind::Deletion, 104, 104, vec![])], HashMap::new()),
                read(vec![context(RenderingContextKind::Match, 100, 101, vec![])], HashMap::new()),
            ],
            ys: vec![0, 0, 1],
            ys_index: vec![vec![0, 1], vec![2]],
            read_pairs: None,
            show_pairs: None,
        },
    }
}

fn symbols(buf: &Buffer) -> String {
    buf.content.iter().map(|c| c.symbol()).collect()
}

#[test]
fn test_render_alignment_row_by_row() {
    let p = palette();
    let view = AlignmentView { left: 100, top: 0 };
    let a = area(6, 2);

    let st = state(vec![]);
    assert!(st.alignment.is_well_formed());
    let mut buf = Buffer::empty(a);
    render_alignment(&a, &mut buf, &st, &view, &p).unwrap();
    assert_eq!(symbols(&buf), "--- - --    ");
    assert_eq!(buf.cell((1, 0)).unwrap().bg, Color::Gray);
    assert_eq!(buf.cell((4, 0)).unwrap().fg, Color::Red);

    let st = state(vec![AlignmentDisplayOption::ShowBaseModifications]);
    let mut buf = Buffer::empty(a);
    render_alignment(&a, &mut buf, &st, &view, &p).unwrap();
    assert_eq!(symbols(&buf), "--- - --    ");
    assert_eq!(buf.cell((0, 0)).unwrap().bg, Color::Gray);
    assert_eq!(buf.cell((1, 0)).unwrap().bg, Color::Indexed(12));
    assert_eq!(buf.cell((2, 0)).unwrap().bg, Color::Gray);

    // An area without rows is left alone.
    let mut buf = Buffer::empty(a);
    render_alignment(&area(6, 0), &mut buf, &st, &view, &p).unwrap();
    assert_eq!(symbols(&buf), "            ");
}

#[test]
fn test_render_alignment_in_pairs() {
    let p = palette();
    let view = AlignmentView { left: 100, top: 0 };
    let a = area(6, 2);

    let mut st = state(vec![
        AlignmentDisplayOption::ShowBaseModifications,
        AlignmentDisplayOption::ViewAsPairs,
    ]);
    let mut buf = Buffer::empty(a);
    let before = buf.clone();
    assert!(matches!(
        render_alignment(&a, &mut buf, &st, &view, &p),
        Err(TGVError::StateError(_))
    ));
    assert_eq!(buf, before);
    // Without rows there is nothing to draw and nothing is missed.
    assert_eq!(render_alignment(&area(6, 0), &mut buf, &st, &view, &p), Ok(()));

    st.alignment.read_pairs = Some(vec![
        ReadPair {
            read_1_index: 0,
            rendering_contexts: vec![context(RenderingContextKind::Match, 100, 101, vec![])],
        },
        ReadPair {
            read_1_index: 2,
            rendering_contexts: vec![context(RenderingContextKind::PairGap, 102, 103, vec![])],
        },
        ReadPair {
            read_1_index: 2,
            rendering_contexts: vec![context(RenderingContextKind::Match, 105, 105, vec![])],
        },
    ]);
    // The pairs alone are not enough.
    assert!(matches!(
        render_alignment(&a, &mut buf, &st, &view, &p),
        Err(TGVError::StateError(_))
    ));
    st.alignment.show_pairs = Some(vec![true, false, true]);
    assert!(st.alignment.is_well_formed());
    render_alignment(&a, &mut buf, &st, &view, &p).unwrap();
    assert_eq!(symbols(&buf), "--         -");
    // No colours of calls in pairs.
    assert_eq!(buf.cell((1, 0)).unwrap().bg, Color::Gray);

    st.alignment.read_pairs.as_mut().unwrap()[0].read_1_index = 3;
    assert!(!st.alignment.is_well_formed());
    st.alignment.read_pairs = None;
    st.alignment.ys_index[1].push(3);
    assert!(!st.alignment.is_well_formed());
}

#[test]
fn test_render_alignment_stops_at_the_first_error() {
    let p = palette();
    let view = AlignmentView { left: 100, top: 0 };
    let a = area(6, 2);
    let mut st = state(vec![]);
    st.alignment.reads[1].rendering_contexts[0].kind = RenderingContextKind::SoftClip(200);
    let mut buf = Buffer::empty(a);
    assert_eq!(
        render_alignment(&a, &mut buf, &st, &view, &p),
        Err(TGVError::Utf8Error(200))
    );
    // What came before the failing segment is drawn, what comes after is not.
    assert_eq!(symbols(&buf), "---         ");
}

#[test]
fn test_what_falls_outside_the_buffer_is_not_drawn() {
    let p = palette();
    let view = AlignmentView { left: 100, top: 0 };
    let ctx = context(RenderingContextKind::Match, 100, 103, vec![]);
    // The buffer covers columns 5 to 8 of rows 2 and 3 of the screen.
    let mut buf = Buffer::empty(Rect::new(5, 2, 4, 2));
    let before = buf.clone();
    // An area above the buffer, one below it and one that starts left of it.
    for outer in [Rect::new(5, 0, 4, 2), Rect::new(5, 4, 4, 2), Rect::new(3, 2, 4, 2)] {
        render_contexts(&ctx, 0, &mut buf, &view, &outer, &p, None).unwrap();
        assert_eq!(buf, before);
    }
    // An area that reaches past the right edge of the buffer is cut there.
    render_contexts(&ctx, 1, &mut buf, &view, &Rect::new(7, 2, 4, 2), &p, None).unwrap();
    assert_eq!(symbols(&buf), "      --");
    // An area at the far corner of the screen.
    let far = Rect::new(u16::MAX - 1, u16::MAX - 1, 4, 4);
    render_contexts(&ctx, 3, &mut buf, &view, &far, &p, None).unwrap();
    assert_eq!(symbols(&buf), "      --");
}

#[test]
fn test_a_segment_changes_its_own_row_only() {
    let p = palette();
    let view = AlignmentView { left: 100, top: 0 };
    let a = area(6, 3);
    let mut buf = Buffer::empty(a);
    buf.set_string(0, 0, "abcdef", ratatui::style::Style::default());
    buf.set_string(0, 2, "uvwxyz", ratatui::style::Style::default());
    let ctx = context(
        RenderingContextKind::Deletion,
        90,
        200,
        vec![RenderingContextModifier::Mismatch(102, b'G')],
    );
    render_contexts(&ctx, 1, &mut buf, &view, &a, &p, None).unwrap();
    assert_eq!(symbols(&buf), "abcdef--G---uvwxyz");
}
