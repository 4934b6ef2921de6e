use gilt::ansi::SgrAction;
use gilt::ansi_decode::{decode, decode_line, DecodeState, DecodedSpan};
use gilt::color::Color;
use gilt::color_triplet::ColorTriplet;

fn span(text: &str, style: Option<DecodeState>) -> DecodedSpan {
    DecodedSpan { text: text.to_string(), style }
}

fn layers(l: Vec<SgrAction>) -> Option<DecodeState> {
    Some(DecodeState { layers: l, link: None })
}

#[test]
fn decode_plain_and_bold() {
    let mut st = DecodeState::new();
    assert_eq!(decode_line(&mut st, "plain text").unwrap(), vec![span("plain text", None)]);
    let spans = decode_line(&mut st, "\x1b[1mBold\x1b[0m normal").unwrap();
    assert_eq!(spans, vec![span("Bold", layers(vec![SgrAction::Style("bold")])), span(" normal", None)]);
    assert_eq!(st, DecodeState::new());
}

#[test]
fn decode_extended_colors() {
    let mut st = DecodeState::new();
    let spans = decode_line(&mut st, "\x1b[38;5;100mX\x1b[48;2;1;2;3mY").unwrap();
    assert_eq!(
        spans,
        vec![
            span("X", layers(vec![SgrAction::Foreground(Color::EightBit(100))])),
            span(
                "Y",
                layers(vec![
                    SgrAction::Foreground(Color::EightBit(100)),
                    SgrAction::Background(Color::TrueColor(ColorTriplet::new(1, 2, 3))),
                ])
            ),
        ]
    );
}

#[test]
fn decode_carriage_return_and_empty_sgr() {
    let mut st = DecodeState::new();
    assert_eq!(decode_line(&mut st, "abc\rdef").unwrap(), vec![span("def", None)]);
    assert_eq!(decode_line(&mut st, "\x1b[31m\x1b[mX").unwrap(), vec![span("X", None)]);
}

#[test]
fn decode_hyperlink() {
    let mut st = DecodeState::new();
    let spans = decode_line(&mut st, "\x1b]8;;http://x\x1b\\link\x1b]8;;\x1b\\ after").unwrap();
    assert_eq!(
        spans,
        vec![
            span("link", Some(DecodeState { layers: vec![], link: Some("http://x".to_string()) })),
            span(" after", None),
        ]
    );
}

#[test]
fn decode_style_persists_across_lines() {
    let mut st = DecodeState::new();
    let lines = decode(&mut st, "a\n\x1b[31mb\r\nc").unwrap();
    let red = layers(vec![SgrAction::Style("color(1)")]);
    assert_eq!(lines, vec![vec![span("a", None)], vec![span("b", red.clone())], vec![span("c", red)]]);
    assert_eq!(decode(&mut DecodeState::new(), "").unwrap().len(), 0);
    assert_eq!(decode(&mut DecodeState::new(), "x\n").unwrap().len(), 1);
}

#[test]
fn decode_cut_character() {
    let mut st = DecodeState::new();
    assert!(decode_line(&mut st, "x\x1b(é").is_none());
    assert_eq!(st, DecodeState::new());
}
