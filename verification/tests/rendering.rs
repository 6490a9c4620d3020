use sequencer::diagram::Diagram;
use sequencer::example::get_text;
use sequencer::model::{Config, Interaction, InteractionType, Participant, Rect, Size, Source};
use sequencer::parsing::document::DocumentParser;
use sequencer::parsing::participant::ParticipantParser;
use sequencer::rendering::render_context::{RenderingConstants, RenderingContext};
use sequencer::rendering::text::{measure_string, rgb_to_u32, GlyphBox};
use sequencer::theme::Theme;

fn boxed(w: usize, h: usize) -> Participant {
    Participant {
        name: "P".to_string(),
        index: 0,
        active_from: 0,
        active_to: 0,
        rect: Rect { x: 0, y: 0, w, h },
    }
}

fn arrows(n: usize) -> Vec<Interaction> {
    (0..n)
        .map(|index| Interaction {
            index,
            from_participant: 0,
            to_participant: 0,
            interaction_type: InteractionType::SelfRef,
            message: None,
        })
        .collect()
}

#[test]
fn packs_colour_channels() {
    assert_eq!(0xFF00_0000, rgb_to_u32(0, 0, 0, 255));
    assert_eq!(0x0403_0201 - 0x0300_0000 + 0x0300_0000, rgb_to_u32(3, 2, 1, 4));
    assert_eq!(0x0A01_0203, rgb_to_u32(1, 2, 3, 10));
    assert_eq!(0, rgb_to_u32(0, 0, 0, 0));
}

#[test]
fn cuts_channels_off_at_255() {
    assert_eq!(0xFFFF_FFFF, rgb_to_u32(256, 1000, usize::MAX, 300));
    assert_eq!(0x00FF_00FF, rgb_to_u32(255, 0, 999, 0));
}

#[test]
fn constants_have_their_defaults() {
    assert_eq!(10, RenderingConstants::DiagramPadding.value());
    assert_eq!(15, RenderingConstants::DiagramMargin.value());
    assert_eq!(25, RenderingConstants::ParticipantHGap.value());
    assert_eq!(10, RenderingConstants::ParticipantPadding.value());
    assert_eq!(25, RenderingConstants::GapBetweenInteractions.value());
}

#[test]
fn width_follows_the_formula() {
    // 2*10 + 2*15 + (30 + 50 + 7) + 2*25 + 3*2*10
    let row = vec![boxed(30, 14), boxed(50, 14), boxed(7, 14)];
    assert_eq!(Some(247), RenderingContext::calculate_diagram_width(&row));
    // 2*10 + 2*15 + 30 + 0*25 + 1*2*10
    assert_eq!(Some(100), RenderingContext::calculate_diagram_width(&[boxed(30, 14)]));
    // 2*10 + 2*15 + 0 - 25 + 0
    assert_eq!(Some(25), RenderingContext::calculate_diagram_width(&[]));
}

#[test]
fn height_follows_the_formula() {
    // 2*10 + 2*15 + 14 + 4*25
    let row = vec![boxed(30, 14), boxed(50, 14)];
    assert_eq!(Some(164), RenderingContext::calculate_diagram_height(&arrows(4), &row));
    assert_eq!(Some(64), RenderingContext::calculate_diagram_height(&[], &row));
    assert_eq!(Some(50), RenderingContext::calculate_diagram_height(&[], &[]));
    // the row is as high as its tallest participant
    let uneven = vec![boxed(1, 3), boxed(1, 9), boxed(1, 5)];
    assert_eq!(Some(84), RenderingContext::calculate_diagram_height(&arrows(1), &uneven));
}

#[test]
fn width_grows_with_label_width_and_with_count() {
    let narrow = RenderingContext::calculate_diagram_width(&[boxed(30, 1), boxed(40, 1)]).unwrap();
    let wider = RenderingContext::calculate_diagram_width(&[boxed(30, 1), boxed(41, 1)]).unwrap();
    let more =
        RenderingContext::calculate_diagram_width(&[boxed(30, 1), boxed(40, 1), boxed(0, 1)])
            .unwrap();
    assert!(narrow < wider);
    assert!(narrow < more);
}

#[test]
fn height_grows_with_interaction_count() {
    let row = vec![boxed(1, 1)];
    let mut last = RenderingContext::calculate_diagram_height(&arrows(0), &row).unwrap();
    for n in 1..5 {
        let next = RenderingContext::calculate_diagram_height(&arrows(n), &row).unwrap();
        assert!(last < next);
        last = next;
    }
}

#[test]
fn a_canvas_beyond_usize_is_none() {
    assert_eq!(None, RenderingContext::calculate_diagram_width(&[boxed(usize::MAX - 69, 1)]));
    assert_eq!(
        Some(usize::MAX),
        RenderingContext::calculate_diagram_width(&[boxed(usize::MAX - 70, 1)])
    );
    assert_eq!(
        None,
        RenderingContext::calculate_diagram_width(&[boxed(usize::MAX, 1), boxed(usize::MAX, 1)])
    );
    assert_eq!(
        None,
        RenderingContext::calculate_diagram_height(&arrows(1), &[boxed(1, usize::MAX - 70)])
    );
    assert_eq!(
        Some(usize::MAX),
        RenderingContext::calculate_diagram_height(&arrows(1), &[boxed(1, usize::MAX - 75)])
    );
    assert_eq!(None, RenderingContext::create(&[], &[boxed(usize::MAX, 1)], Theme::default()));
}

#[test]
fn context_holds_the_canvas_size() {
    let row = vec![boxed(30, 14), boxed(50, 14), boxed(7, 14)];
    let context = RenderingContext::create(&arrows(2), &row, Theme::default()).unwrap();
    assert_eq!(247, context.diagram_width);
    assert_eq!(114, context.diagram_height);
    assert_eq!(Theme::default(), context.theme);
}

#[test]
fn theme_has_its_defaults() {
    let theme = Theme::default();
    assert_eq!(30, theme.title_font_px);
    assert_eq!(30, theme.partic_font_px);
    assert_eq!(16, theme.message_font_px);
    assert_eq!(10, theme.document_border_width);
    assert_eq!(5, theme.partic_padding);
    assert_eq!(20, theme.partic_h_gap);
}

#[test]
fn example_text_has_its_lines() {
    let lines = get_text();
    assert_eq!(13, lines.len());
    assert_eq!(":theme Default", lines[0]);
    assert_eq!("     :date", lines[3]);
    assert_eq!("    ", lines[4]);
    assert_eq!("     Client -> Server: Request", lines[6]);
    assert_eq!("     # {AMPS} -> Client: ", lines[12]);
}

#[test]
fn example_text_becomes_a_diagram() {
    let config = Config { input_source: Source::Example, output_path: "out.png".to_string() };
    let document = DocumentParser::parse(&get_text(), config);
    let names = ParticipantParser::names(&document.lines);
    assert_eq!(vec!["Client", "Server", "Service", "Left", "Right"], names);
    let sizes: Vec<Option<Size>> =
        names.iter().map(|n| Some(Size { width: 10 * n.len(), height: 20 })).collect();
    let diagram = Diagram::parse(document, Theme::default(), &sizes).unwrap();
    assert_eq!(6, diagram.interactions.len());
    assert_eq!(InteractionType::SelfRef, diagram.interactions[1].interaction_type);
    assert_eq!(InteractionType::R2L, diagram.interactions[3].interaction_type);
    // 50 + (60 + 60 + 70 + 40 + 50) + 4*25 + 5*20
    assert_eq!(530, diagram.canvas_width);
    // 50 + 20 + 6*25
    assert_eq!(220, diagram.canvas_height);
    assert_eq!(Size { width: 530, height: 220 }, diagram.size());
    assert_eq!("out.png", diagram.config.output_path);
}

#[test]
fn text_test_measure_text() {
    let a = GlyphBox { x: 0, y: 5, width: 12, height: 15 };
    let size = measure_string(&[a]).unwrap();
    assert_eq!(0, size.x);
    assert_eq!(5, size.y);
    assert_eq!(12, size.w);
    assert_eq!(15, size.h);

    let second = GlyphBox { x: 12, y: 5, width: 12, height: 15 };
    let size = measure_string(&[a, second]).unwrap();
    assert_eq!(0, size.x);
    assert_eq!(5, size.y);
    assert_eq!(24, size.w);
    assert_eq!(15, size.h);
}

#[test]
fn measures_by_first_last_highest_and_tallest_glyph() {
    let glyphs = [
        GlyphBox { x: 2, y: 7, width: 9, height: 11 },
        GlyphBox { x: 13, y: 3, width: 8, height: 19 },
        GlyphBox { x: 22, y: 9, width: 6, height: 4 },
    ];
    assert_eq!(Some(Rect { x: 2, y: 3, w: 30, h: 19 }), measure_string(&glyphs));
}

#[test]
fn a_text_without_glyphs_cannot_be_measured() {
    assert_eq!(None, measure_string(&[]));
    let far = GlyphBox { x: usize::MAX - 3, y: 0, width: 4, height: 1 };
    assert_eq!(None, measure_string(&[far]));
    let first = GlyphBox { x: 1, y: 0, width: 1, height: 1 };
    let last = GlyphBox { x: usize::MAX - 4, y: 0, width: 4, height: 1 };
    assert_eq!(None, measure_string(&[first, last]));
    let last = GlyphBox { x: usize::MAX - 5, y: 0, width: 4, height: 1 };
    assert_eq!(Some(Rect { x: 1, y: 0, w: usize::MAX, h: 1 }), measure_string(&[first, last]));
}
