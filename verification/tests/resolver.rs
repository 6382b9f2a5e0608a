use movie_gen::generate_parts;
use movie_gen::keyword::Keyword;
use movie_gen::resolve::{rate_to_interval, u64_to_decimal};
use movie_gen::table::AttributeTable;

fn resolved_of(spec: &str) -> AttributeTable {
    let (t, _, _) = generate_parts(spec.as_bytes()).expect("spec should generate");
    t
}

fn payload(t: &AttributeTable, kw: Keyword) -> String {
    let p = t.get(kw).expect("keyword should be present after resolution");
    String::from_utf8(p.clone()).expect("payload is valid UTF-8")
}

#[test]
fn present_optional_payloads_round_trip_unchanged() {
    let t = resolved_of(
        "Full input : A , data : count: u32 , on_init : i() , on_message : A => () , \
         tick_interval : 250 , on_tick : t() , on_stop : s() , input_derive : Debug , \
         spawner : sp , custom_code : cc ,",
    );
    assert_eq!(payload(&t, Keyword::Name), "Full");
    assert_eq!(payload(&t, Keyword::Input), "A ,");
    assert_eq!(payload(&t, Keyword::Data), "count: u32 ,");
    assert_eq!(payload(&t, Keyword::OnInit), "i() ,");
    assert_eq!(payload(&t, Keyword::OnMessage), "A => () ,");
    assert_eq!(payload(&t, Keyword::TickInterval), "250 ,");
    assert_eq!(payload(&t, Keyword::OnTick), "t() ,");
    assert_eq!(payload(&t, Keyword::OnStop), "s() ,");
    assert_eq!(payload(&t, Keyword::InputDerive), "Debug ,");
    assert_eq!(payload(&t, Keyword::Spawner), "sp ,");
    assert_eq!(payload(&t, Keyword::CustomCode), "cc ,");
}

#[test]
fn omitted_optionals_get_the_documented_defaults() {
    let t = resolved_of("Min input : A , on_message : A => () ,");
    assert_eq!(payload(&t, Keyword::Data), "");
    assert_eq!(payload(&t, Keyword::OnInit), "");
    assert_eq!(payload(&t, Keyword::OnTick), "");
    assert_eq!(payload(&t, Keyword::OnStop), "");
    assert_eq!(payload(&t, Keyword::CustomCode), "");
    assert_eq!(payload(&t, Keyword::Spawner), "std::thread::spawn");
    assert_eq!(payload(&t, Keyword::TickInterval), "100");
    assert!(t.get(Keyword::InputDerive).is_none());
    assert!(t.get(Keyword::Sends).is_none());
}

#[test]
fn gets_alias_is_carried_over_as_input() {
    let t = resolved_of("G gets : A , on_message : A => () ,");
    assert_eq!(payload(&t, Keyword::Input), "A ,");
    assert_eq!(payload(&t, Keyword::Gets), "A ,");
}

#[test]
fn tick_rate_converts_to_milliseconds() {
    let t = resolved_of("R input : A , on_message : A => () , tick_rate : 20 ,");
    assert_eq!(payload(&t, Keyword::TickInterval), "50");
}

#[test]
fn tick_rate_of_ten_matches_the_default_interval() {
    let t = resolved_of("R input : A , on_message : A => () , tick_rate : 10 ,");
    assert_eq!(payload(&t, Keyword::TickInterval), "100");
}

#[test]
fn explicit_interval_wins_over_rate() {
    let t =
        resolved_of("R input : A , on_message : A => () , tick_interval : 7 , tick_rate : 20 ,");
    assert_eq!(payload(&t, Keyword::TickInterval), "7 ,");
}

#[test]
fn rate_conversion_rounds_down() {
    assert_eq!(rate_to_interval(b" 3 ,"), b"333".to_vec());
    assert_eq!(rate_to_interval(b" 7"), b"142".to_vec());
}

#[test]
fn rate_zero_falls_back_to_default() {
    assert_eq!(rate_to_interval(b" 0 ,"), b"100".to_vec());
}

#[test]
fn rate_without_digits_falls_back_to_default() {
    assert_eq!(rate_to_interval(b" fast ,"), b"100".to_vec());
    assert_eq!(rate_to_interval(b""), b"100".to_vec());
}

#[test]
fn rate_above_thousand_gives_zero_interval() {
    assert_eq!(rate_to_interval(b" 2000 ,"), b"0".to_vec());
    assert_eq!(rate_to_interval(b" 99999999999999999999999 ,"), b"0".to_vec());
}

#[test]
fn rate_of_one_gives_a_full_second() {
    assert_eq!(rate_to_interval(b"1"), b"1000".to_vec());
}

#[test]
fn decimal_rendering_is_exact() {
    assert_eq!(u64_to_decimal(0), b"0".to_vec());
    assert_eq!(u64_to_decimal(7), b"7".to_vec());
    assert_eq!(u64_to_decimal(100), b"100".to_vec());
    assert_eq!(u64_to_decimal(1000), b"1000".to_vec());
    assert_eq!(u64_to_decimal(90210), b"90210".to_vec());
}
