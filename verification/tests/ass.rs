use muxfin::codec::ass::{codec_private_from_script, encode_block_payload, parse_dialogue_events};

const SCRIPT: &str = "[Script Info]\nTitle: test\nScriptType: v4.00+\n\n[V4+ Styles]\nFormat: Name, Fontname\nStyle: Default,Arial\n\n[Events]\nFormat: Layer, Start, End, Style, Name, MarginL, MarginR, MarginV, Effect, Text\nDialogue: 0,0:00:01.00,0:00:02.00,Default,,0,0,0,,{\\b1}Hi\\Nthere\n";

#[test]
fn codec_private_keeps_info_and_styles() {
    let private = codec_private_from_script(SCRIPT).expect("styles present");
    let text = String::from_utf8(private).unwrap();
    assert!(text.contains("[Script Info]"));
    assert!(text.contains("[V4+ Styles]"));
    assert!(!text.contains("[Events]"));
    assert!(!text.contains("Dialogue:"));
}

#[test]
fn codec_private_none_without_styles() {
    assert_eq!(codec_private_from_script("[Script Info]\nTitle: x\n"), None);
}

#[test]
fn dialogue_parse_and_block_layout() {
    let events = parse_dialogue_events(SCRIPT);
    assert_eq!(events.len(), 1);
    let payload = encode_block_payload(1, &events[0]);
    assert_eq!(payload, b"1,0,Default,,0,0,0,,{\\b1}Hi\\Nthere");
}
