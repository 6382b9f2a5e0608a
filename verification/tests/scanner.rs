use movie_gen::generate;
use movie_gen::keyword::{keyword_text, Keyword};
use movie_gen::scan::scan_sections;
use movie_gen::search::find_first;
use movie_gen::table::table_of;

fn gen_ok(spec: &str) -> String {
    let out = generate(spec.as_bytes()).expect("spec should generate");
    String::from_utf8(out).expect("generated text is valid UTF-8")
}

#[test]
fn find_first_returns_the_leftmost_occurrence() {
    assert_eq!(find_first(b"hello", b"ll"), Some(2));
    assert_eq!(find_first(b"ababab", b"ab"), Some(0));
    assert_eq!(find_first(b"ababab", b"ba"), Some(1));
    assert_eq!(find_first(b"hello", b"xyz"), None);
    assert_eq!(find_first(b"hi", b"longer than text"), None);
    assert_eq!(find_first(b"anything", b""), Some(0));
}

#[test]
fn space_colon_space_variant_is_located() {
    let out = gen_ok("A input : Ping , on_message : Ping => () ,");
    assert!(out.contains("pub enum Input {\n    Ping ,\n}"));
}

#[test]
fn newline_separators_are_located() {
    let out = gen_ok("WS\ninput :\nPing ,\non_message :\nPing => () ,");
    assert!(out.starts_with("\nmod WS {"));
    assert!(out.contains("pub enum Input {\n    Ping ,\n}"));
}

#[test]
fn newline_before_colon_is_located() {
    let out = gen_ok("V input\n: Ping , on_message\n: Ping => () ,");
    assert!(out.starts_with("\nmod V {"));
    assert!(out.contains("pub enum Input {\n    Ping ,\n}"));
}

#[test]
fn mixed_separator_variants_are_located() {
    let out = gen_ok("M\ninput : Ping ,\non_message : Ping => () ,\ntick_interval :\n42 ,");
    assert!(out.starts_with("\nmod M {"));
    assert!(out.contains("pub enum Input {\n    Ping ,\n}"));
    assert!(out.contains("from_millis(42 ,"));
}

#[test]
fn locations_are_sorted_by_offset_with_name_first() {
    let text = "O on_message : A => () , input : A ,".as_bytes();
    let locs = scan_sections(text);
    assert_eq!(locs[0].offset, 0);
    assert_eq!(locs[0].keyword, Keyword::Name);
    assert_eq!(locs[0].payload_start, 0);
    for w in locs.windows(2) {
        assert!(w[0].offset <= w[1].offset);
        assert!(w[0].payload_start >= w[0].offset);
    }
    assert_eq!(locs[1].keyword, Keyword::OnMessage);
    assert_eq!(locs[2].keyword, Keyword::Input);
}

#[test]
fn payloads_are_sliced_between_consecutive_sections() {
    let t = table_of("N input : A , on_message : A => () ,".as_bytes());
    assert_eq!(t.get(Keyword::Name).unwrap().as_slice(), b"N");
    assert_eq!(t.get(Keyword::Input).unwrap().as_slice(), b"A ,");
    assert_eq!(t.get(Keyword::OnMessage).unwrap().as_slice(), b"A => () ,");
    assert!(t.get(Keyword::Data).is_none());
}

#[test]
fn a_keyword_without_label_shape_is_not_a_section() {
    let t = table_of("N input : A , data, on_message : A => () ,".as_bytes());
    assert!(t.get(Keyword::Data).is_none());
    assert_eq!(t.get(Keyword::Input).unwrap().as_slice(), b"A , data,");
}

#[test]
fn keyword_text_spells_each_keyword() {
    assert_eq!(keyword_text(Keyword::Name), "name");
    assert_eq!(keyword_text(Keyword::Input), "input");
    assert_eq!(keyword_text(Keyword::Gets), "gets");
    assert_eq!(keyword_text(Keyword::Sends), "sends");
    assert_eq!(keyword_text(Keyword::OnMessage), "on_message");
    assert_eq!(keyword_text(Keyword::TickInterval), "tick_interval");
    assert_eq!(keyword_text(Keyword::TickRate), "tick_rate");
    assert_eq!(keyword_text(Keyword::CustomCode), "custom_code");
}
