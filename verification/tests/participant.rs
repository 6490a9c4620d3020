use sequencer::diagram::Diagram;
use sequencer::model::resolve_input_source;
use sequencer::model::{
    Config, FromParticipant, InteractionMessage, InteractionType, Line, LineContents, Message,
    ParseError, Participant, Rect, Size, Source, ToParticipant,
};
use sequencer::parsing::document::{str_to_vec, Document, DocumentParser};
use sequencer::parsing::interaction::InteractionParser;
use sequencer::parsing::participant::ParticipantParser;
use sequencer::theme::Theme;

fn config() -> Config {
    Config { input_source: Source::Example, output_path: "".to_string() }
}

fn sizes(n: usize) -> Vec<Option<Size>> {
    vec![Some(Size { width: 40, height: 12 }); n]
}

fn participants(document: &[Line]) -> Vec<Participant> {
    let n = ParticipantParser::names(document).len();
    ParticipantParser::parse(document, &Theme::default(), &sizes(n)).unwrap()
}

fn diagram(text: &str) -> Diagram {
    let document = DocumentParser::parse(&str_to_vec(text), config());
    let n = ParticipantParser::names(&document.lines).len();
    Diagram::parse(document, Theme::default(), &sizes(n)).unwrap()
}

fn three_lines() -> Vec<Line> {
    vec![
        Line {
            line_contents: LineContents::Empty,
            line_data: "".to_string(),
            line_number: 0,
        },
        Line {
            line_contents: LineContents::InteractionWithMessage(
                FromParticipant("Client".to_string()),
                ToParticipant("Server".to_string()),
                InteractionMessage("Message".to_string()),
            ),
            line_data: "Client -> Server: Message".to_string(),
            line_number: 1,
        },
        Line {
            line_contents: LineContents::InteractionWithMessage(
                FromParticipant("Server".to_string()),
                ToParticipant("Database".to_string()),
                InteractionMessage("Query".to_string()),
            ),
            line_data: "Server -> Database: Query".to_string(),
            line_number: 2,
        },
        Line {
            line_contents: LineContents::Interaction(
                FromParticipant("Server".to_string()),
                ToParticipant("Client".to_string()),
            ),
            line_data: "Client -> Server".to_string(),
            line_number: 1,
        },
    ]
}

#[test]
fn parsing_test_parse_participant_names() {
    let document = vec![Line {
        line_contents: LineContents::InteractionWithMessage(
            FromParticipant("Client".to_string()),
            ToParticipant("Server".to_string()),
            InteractionMessage("Message".to_string()),
        ),
        line_data: "Client -> Server: Message".to_string(),
        line_number: 0,
    }];
    let data = participants(&document);
    assert_eq!(2, data.len());
    assert_eq!(0, data.iter().find(|p| p.name == "Client").unwrap().index);
    assert_eq!(1, data.iter().find(|p| p.name == "Server").unwrap().index);
    assert_eq!(1, data.iter().filter(|p| p.name == "Client").count());
    assert_eq!(1, data.iter().filter(|p| p.name == "Server").count());
}

#[test]
fn participant_test_parse_participant_names() {
    let document = vec![Line {
        line_contents: LineContents::InteractionWithMessage(
            FromParticipant("Client".to_string()),
            ToParticipant("Server".to_string()),
            InteractionMessage("Message".to_string()),
        ),
        line_data: "Client -> Server: Message".to_string(),
        line_number: 0,
    }];
    let data = participants(&document);
    assert_eq!(2, data.len());
    assert_eq!(0, data.iter().find(|p| p.name == "Client").unwrap().index);
    assert_eq!(1, data.iter().find(|p| p.name == "Server").unwrap().index);
}

#[test]
fn parsing_test_parse_participants() {
    let document = three_lines();
    let data = participants(&document);
    assert_eq!(3, data.len());
    assert_eq!(0, data.iter().find(|p| p.name == "Client").unwrap().index);
    assert_eq!(1, data.iter().find(|p| p.name == "Server").unwrap().index);
    assert_eq!(2, data.iter().find(|p| p.name == "Database").unwrap().index);

    data.iter().for_each(|partic| {
        if partic.name == "Client" || partic.name == "Server" {
            assert_eq!(0, partic.active_from);
            assert_eq!(2, partic.active_to);
        } else if partic.name == "Database" {
            assert_eq!(1, partic.active_from);
            assert_eq!(1, partic.active_to);
        } else {
            assert!(false)
        }
    });
}

#[test]
fn participant_test_parse_participants() {
    let document = three_lines();
    let data = participants(&document);
    assert_eq!(3, data.len());
    assert_eq!(1, data.iter().filter(|p| p.name == "Client").count());
    assert_eq!(1, data.iter().filter(|p| p.name == "Server").count());
    assert_eq!(1, data.iter().filter(|p| p.name == "Database").count());
    assert_eq!(0, data.iter().find(|p| p.name == "Client").unwrap().index);
    assert_eq!(1, data.iter().find(|p| p.name == "Server").unwrap().index);
    assert_eq!(2, data.iter().find(|p| p.name == "Database").unwrap().index);

    data.iter().for_each(|partic| {
        if partic.name == "Client" || partic.name == "Server" {
            assert_eq!(0, partic.active_from);
            assert_eq!(2, partic.active_to);
        } else if partic.name == "Database" {
            assert_eq!(1, partic.active_from);
            assert_eq!(1, partic.active_to);
        } else {
            assert!(false)
        }
    });
}

#[test]
fn parsing_test_participant_parser() {
    let document = three_lines();
    let data = participants(&document);
    assert_eq!(3, data.len());

    data.iter().for_each(|p| {
        if p.name == "Client" {
            assert_eq!(0, p.index);
            assert_eq!(0, p.active_from);
            assert_eq!(2, p.active_to);
        } else if p.name == "Server" {
            assert_eq!(1, p.index);
            assert_eq!(0, p.active_from);
            assert_eq!(2, p.active_to);
        } else if p.name == "Database" {
            assert_eq!(2, p.index);
            assert_eq!(1, p.active_from);
            assert_eq!(1, p.active_to);
        } else {
            assert!(false);
        }
    });
}

#[test]
fn participant_test_participant_parser() {
    let document = three_lines();
    let data = participants(&document);
    assert_eq!(3, data.len());

    data.iter().for_each(|p| {
        if p.name == "Client" {
            assert_eq!(0, p.index);
            assert_eq!(0, p.active_from);
            assert_eq!(2, p.active_to);
        } else if p.name == "Server" {
            assert_eq!(1, p.index);
            assert_eq!(0, p.active_from);
            assert_eq!(2, p.active_to);
        } else if p.name == "Database" {
            assert_eq!(2, p.index);
            assert_eq!(1, p.active_from);
            assert_eq!(1, p.active_to);
        } else {
            assert!(false);
        }
    });
}

#[test]
fn test_interaction_parser() {
    let document = vec![Line {
        line_contents: LineContents::Interaction(
            FromParticipant("Client".to_owned()),
            ToParticipant("Server".to_owned()),
        ),
        line_data: "Client -> Server".to_owned(),
        line_number: 0,
    }];
    let zero = Rect { x: 0, y: 0, w: 0, h: 0 };
    let participants = vec![
        Participant {
            index: 0,
            name: "Client".to_string(),
            active_from: 0,
            active_to: 0,
            rect: zero,
        },
        Participant {
            index: 1,
            name: "Server".to_string(),
            active_from: 0,
            active_to: 0,
            rect: zero,
        },
    ];

    let inters = InteractionParser::parse(&document, &participants).unwrap();
    assert_eq!(1, inters.len());
    let interaction = inters.first().unwrap();
    assert_eq!(0, interaction.index);
    assert_eq!("Client", participants[interaction.from_participant].name);
    assert_eq!("Server", participants[interaction.to_participant].name);
    assert_eq!(None, interaction.message);
    assert_eq!(InteractionType::L2R, interaction.interaction_type);
}

#[test]
fn test() {
    let d = diagram("Client -> Server");
    let result = &d.interactions;
    assert_eq!(1, result.len());
    assert_eq!("Client", d.participants[result.first().unwrap().from_participant].name);
    assert_eq!("Server", d.participants[result.first().unwrap().to_participant].name);
    assert_eq!(None, result.first().unwrap().message);

    let d = diagram("Client -> Server: Message\nServer -> Database: Response");
    let result = &d.interactions;
    assert_eq!(2, result.len());
    assert_eq!("Client", d.participants[result.first().unwrap().from_participant].name);
    assert_eq!("Server", d.participants[result.first().unwrap().to_participant].name);
    assert_eq!("Message", result.first().unwrap().message.as_ref().unwrap().0);
    assert_eq!("Server", d.participants[result.get(1).unwrap().from_participant].name);
    assert_eq!("Database", d.participants[result.get(1).unwrap().to_participant].name);
    assert_eq!("Response", result.get(1).unwrap().message.as_ref().unwrap().0);
}

#[test]
fn test_diagram() {
    let input = "
    Client -> Server : Request
    Server -> Database: Query
    Database -> Server
    Server --> Client: Response
    ";
    let diagram = diagram(input);
    assert_eq!(4, diagram.interactions.len());
    assert_eq!(
        "Client",
        diagram.participants[diagram.interactions.first().unwrap().from_participant].name
    );
    assert_eq!(
        "Server",
        diagram.participants[diagram.interactions.first().unwrap().to_participant].name
    );
    assert_eq!(
        "Request",
        diagram.interactions.first().unwrap().message.as_ref().unwrap().0
    );

    assert_eq!(3, diagram.participants.len());
}

#[test]
fn test_parse_diagram() {
    let lines: Vec<Line> = vec![Line {
        line_number: 0,
        line_contents: LineContents::Invalid,
        line_data: "Test".to_string(),
    }];
    let document = Document { config: config(), lines, is_valid: true };
    let diagram = Diagram::parse(document, Theme::default(), &[]).unwrap();
    assert!(diagram.participants.is_empty());
    assert!(diagram.interactions.is_empty());
}

#[test]
fn first_mention_orders_participants() {
    let d = diagram("A -> B\nB -> C");
    let names: Vec<&str> = d.participants.iter().map(|p| p.name.as_str()).collect();
    assert_eq!(vec!["A", "B", "C"], names);
    let indices: Vec<usize> = d.participants.iter().map(|p| p.index).collect();
    assert_eq!(vec![0, 1, 2], indices);
}

#[test]
fn to_name_comes_after_from_name_of_the_same_line() {
    let d = diagram("B -> A\nA -> B");
    let names: Vec<&str> = d.participants.iter().map(|p| p.name.as_str()).collect();
    assert_eq!(vec!["B", "A"], names);
}

#[test]
fn span_runs_from_first_to_last_mention() {
    let d = diagram("A -> B\nB -> C\nC -> A\n# A -> Z\nnonsense\nC -> B");
    let a = &d.participants[0];
    assert_eq!(("A", 0, 2), (a.name.as_str(), a.active_from, a.active_to));
    let b = &d.participants[1];
    assert_eq!(("B", 0, 3), (b.name.as_str(), b.active_from, b.active_to));
    let c = &d.participants[2];
    assert_eq!(("C", 1, 3), (c.name.as_str(), c.active_from, c.active_to));
    assert_eq!(3, d.participants.len());
}

#[test]
fn span_of_interactions_zero_and_two() {
    let d = diagram("A -> B\nB -> C\nC -> A");
    let a = &d.participants[0];
    assert_eq!((0, 2), (a.active_from, a.active_to));
}

#[test]
fn client_server_database() {
    let d = diagram("Client -> Server: Message\nServer -> Database: Query\nServer -> Client");
    let got: Vec<(&str, usize, usize, usize)> = d
        .participants
        .iter()
        .map(|p| (p.name.as_str(), p.index, p.active_from, p.active_to))
        .collect();
    assert_eq!(vec![("Client", 0, 0, 2), ("Server", 1, 0, 2), ("Database", 2, 1, 1)], got);
    let got: Vec<(usize, usize, usize, InteractionType, Option<&str>)> = d
        .interactions
        .iter()
        .map(|i| {
            (
                i.index,
                i.from_participant,
                i.to_participant,
                i.interaction_type,
                i.message.as_ref().map(|m| m.0.as_str()),
            )
        })
        .collect();
    assert_eq!(
        vec![
            (0, 0, 1, InteractionType::L2R, Some("Message")),
            (1, 1, 2, InteractionType::L2R, Some("Query")),
            (2, 1, 0, InteractionType::R2L, None),
        ],
        got
    );
}

#[test]
fn self_reference() {
    let d = diagram("A -> A: Ping");
    assert_eq!(1, d.participants.len());
    assert_eq!(("A", 0), (d.participants[0].name.as_str(), d.participants[0].index));
    assert_eq!(1, d.interactions.len());
    assert_eq!(InteractionType::SelfRef, d.interactions[0].interaction_type);
    assert_eq!(Some(Message("Ping".to_string())), d.interactions[0].message);
}

#[test]
fn places_participants_side_by_side() {
    let document = DocumentParser::parse(&str_to_vec("A -> B\nB -> C"), config());
    let theme = Theme::default();
    let measured = vec![
        Some(Size { width: 30, height: 10 }),
        Some(Size { width: 50, height: 14 }),
        Some(Size { width: 7, height: 12 }),
    ];
    let placed = ParticipantParser::parse(&document.lines, &theme, &measured).unwrap();
    let rects: Vec<Rect> = placed.iter().map(|p| p.rect).collect();
    assert_eq!(
        vec![
            Rect { x: 10, y: 10, w: 30, h: 14 },
            Rect { x: 60, y: 10, w: 50, h: 14 },
            Rect { x: 130, y: 10, w: 7, h: 14 },
        ],
        rects
    );
}

#[test]
fn names_lists_labels_to_measure() {
    let document = DocumentParser::parse(&str_to_vec("x\nB -> A: hi\n:title T\nA -> C"), config());
    assert_eq!(
        vec!["B".to_string(), "A".to_string(), "C".to_string()],
        ParticipantParser::names(&document.lines)
    );
}

#[test]
fn missing_size_fails_the_parse() {
    let document = DocumentParser::parse(&str_to_vec("A -> B\nB -> C"), config());
    let theme = Theme::default();
    let some = Some(Size { width: 1, height: 1 });
    assert_eq!(
        Err(ParseError::MeasureFail { name: "B".to_string() }),
        ParticipantParser::parse(&document.lines, &theme, &[some, None, None])
    );
    assert_eq!(
        Err(ParseError::MeasureFail { name: "C".to_string() }),
        ParticipantParser::parse(&document.lines, &theme, &[some, some])
    );
    assert_eq!(
        Err(ParseError::MeasureFail { name: "A".to_string() }),
        Diagram::parse(document, theme, &[]).map(|d| d.participants)
    );
}

#[test]
fn too_wide_a_row_fails_the_parse() {
    let document = DocumentParser::parse(&str_to_vec("A -> B"), config());
    let theme = Theme::default();
    let huge = Some(Size { width: usize::MAX - 40, height: 1 });
    let small = Some(Size { width: 1, height: 1 });
    assert_eq!(
        Err(ParseError::LayoutOverflow),
        ParticipantParser::parse(&document.lines, &theme, &[huge, small])
    );
    let fitting = Some(Size { width: usize::MAX - 80, height: 1 });
    assert!(ParticipantParser::parse(&document.lines, &theme, &[fitting, small]).is_ok());
    assert_eq!(
        Err(ParseError::LayoutOverflow),
        Diagram::parse(document, theme, &[fitting, small]).map(|d| d.participants)
    );
}

#[test]
fn unknown_participant_is_a_structured_error() {
    let document = DocumentParser::parse(
        &str_to_vec("# c\nClient -> Server\nServer -> Database: Query\nGhost -> Nobody"),
        config(),
    );
    let zero = Rect { x: 0, y: 0, w: 0, h: 0 };
    let known = |name: &str, index: usize| Participant {
        name: name.to_string(),
        index,
        active_from: 0,
        active_to: 0,
        rect: zero,
    };
    let participants = vec![known("Client", 0), known("Server", 1)];
    assert_eq!(
        Err(ParseError::InteractionParseFail { line_number: 2, name: "Database".to_string() }),
        InteractionParser::parse(&document.lines, &participants)
    );
    let participants = vec![known("Client", 0), known("Server", 1), known("Database", 2)];
    assert_eq!(
        Err(ParseError::InteractionParseFail { line_number: 3, name: "Ghost".to_string() }),
        InteractionParser::parse(&document.lines, &participants)
    );
    let participants =
        vec![known("Client", 0), known("Server", 1), known("Database", 2), known("Ghost", 3)];
    assert_eq!(
        Err(ParseError::InteractionParseFail { line_number: 3, name: "Nobody".to_string() }),
        InteractionParser::parse(&document.lines, &participants)
    );
}

#[test]
fn direction_goes_by_index() {
    let zero = Rect { x: 0, y: 0, w: 0, h: 0 };
    let at = |index: usize| Participant {
        name: "P".to_string(),
        index,
        active_from: 0,
        active_to: 0,
        rect: zero,
    };
    assert_eq!(InteractionType::L2R, InteractionParser::interaction_type(&at(1), &at(2)));
    assert_eq!(InteractionType::R2L, InteractionParser::interaction_type(&at(2), &at(1)));
    assert_eq!(InteractionType::SelfRef, InteractionParser::interaction_type(&at(2), &at(2)));
}

#[test]
fn same_input_gives_the_same_diagram() {
    let text = "A -> B: x\nB -> A\n:title T\nC -> A: y";
    let one = diagram(text);
    let two = diagram(text);
    assert_eq!(one.participants, two.participants);
    assert_eq!(one.interactions, two.interactions);
    assert_eq!((one.canvas_width, one.canvas_height), (two.canvas_width, two.canvas_height));
}

#[test]
fn new_participant_is_named_only() {
    let p = Participant::new("Client", 3);
    assert_eq!("Client", p.name);
    assert_eq!(3, p.index);
    assert_eq!((0, 0), (p.active_from, p.active_to));
    assert_eq!(Rect { x: 0, y: 0, w: 0, h: 0 }, p.rect);
}

#[test]
fn input_source_prefers_example_then_file() {
    assert!(matches!(resolve_input_source(true, None), Source::Example));
    assert!(matches!(resolve_input_source(true, Some("a.seq".to_string())), Source::Example));
    assert!(matches!(
        resolve_input_source(false, Some("a.seq".to_string())),
        Source::File(name) if name == "a.seq"
    ));
    assert!(matches!(resolve_input_source(false, None), Source::StdIn));
}

#[test]
fn refused_lines_are_reported() {
    let document = DocumentParser::parse(
        &str_to_vec("A -> B\nnonsense\n:title T\n:colour red\n\n-> B\n# c"),
        config(),
    );
    assert_eq!(vec![1, 3, 5], document.refused_lines());
    let document = DocumentParser::parse(&str_to_vec("A -> B"), config());
    assert_eq!(Vec::<usize>::new(), document.refused_lines());
}
