use corvus::{clean_name, normalize};

#[test]
fn normalize_lowercases_strips_and_replaces() {
    assert_eq!("living_room_ab12", normalize("Living Room-AB:12"));
    assert_eq!("aa:bb", "aa:bb");
    assert_eq!("aabbcc", clean_name("AA:BB:CC"));
    assert_eq!("", normalize(""));
}

#[test]
fn normalize_is_idempotent_on_examples() {
    for s in ["Living Room-AB:12", "Kitchen", "a - b : c", "ÄÖ Ü-x", "__x__", "::"] {
        let once = normalize(s);
        assert_eq!(once, normalize(&once));
    }
}

#[test]
fn normalize_uses_unicode_lowercase() {
    assert_eq!("äö_ü", normalize("ÄÖ Ü"));
}

#[test]
fn cleaning_step_alone_keeps_case() {
    assert_eq!(corvus::clean_lowered("Living Room-AB:12"), "Living_Room_AB12");
    assert_eq!(corvus::clean_lowered("a::b"), "ab");
    assert_eq!(corvus::clean_lowered(""), "");
}
