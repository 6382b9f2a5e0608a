use movie_gen::classify::Topology;
use movie_gen::generate;
use movie_gen::generate_parts;
use movie_gen::keyword::Keyword;
use movie_gen::table::table_of;
use movie_gen::validate::{validate, GenError};

fn gen_ok(spec: &str) -> String {
    let out = generate(spec.as_bytes()).expect("spec should generate");
    String::from_utf8(out).expect("generated text is valid UTF-8")
}

fn gen_err(spec: &str) -> GenError {
    generate(spec.as_bytes()).expect_err("spec should be rejected")
}

#[test]
fn missing_input_fails_naming_input() {
    let e = gen_err("Foo on_message : X => Y ,");
    assert_eq!(e, GenError::MissingRequiredSection { keyword: Keyword::Input });
}

#[test]
fn missing_on_message_fails_naming_on_message() {
    let e = gen_err("Foo input : Ping ,");
    assert_eq!(e, GenError::MissingRequiredSection { keyword: Keyword::OnMessage });
}

#[test]
fn empty_spec_fails_naming_input() {
    let e = gen_err("");
    assert_eq!(e, GenError::MissingRequiredSection { keyword: Keyword::Input });
}

#[test]
fn name_only_spec_fails_naming_input() {
    let e = gen_err("Solo");
    assert_eq!(e, GenError::MissingRequiredSection { keyword: Keyword::Input });
}

#[test]
fn missing_sends_fails_for_request_reply_topology() {
    let t = table_of("Foo gets : A , on_message : A => B ,".as_bytes());
    let r = validate(&t, Topology::RequestReply);
    assert_eq!(
        r.expect_err("sends is mandatory in request/reply topology"),
        GenError::MissingRequiredSection { keyword: Keyword::Sends }
    );
    assert!(validate(&t, Topology::InputOnly).is_ok());
}

#[test]
fn describe_names_the_failure() {
    let e = gen_err("Foo");
    assert_eq!(
        e.describe(),
        "Actor must accept some input (consider accepting Tick or Stop) - define enum types in `input`"
    );
    let e = gen_err("Foo input : Ping ,");
    assert_eq!(e.describe(), "Actor must have on_message handler");
}

#[test]
fn generate_is_deterministic() {
    let spec = "Echo input : Ping , on_message : Ping => println(\"pong\") ,";
    let a = generate(spec.as_bytes()).unwrap();
    let b = generate(spec.as_bytes()).unwrap();
    assert_eq!(a, b);
}

#[test]
fn echo_example_generates_input_only_module() {
    let out = gen_ok("Echo input : Ping , on_message : Ping => println(\"pong\") ,");
    assert!(out.starts_with("\nmod Echo {"));
    assert!(out.contains("pub enum Input {\n    Ping ,\n}"));
    assert!(out.contains("pub struct Actor {\n    \n}"));
    assert!(out.contains("sleep(Duration::from_millis(100));"));
    assert!(out.contains("Ping => println(\"pong\") ,"));
    assert!(out.contains("let (tx_kill, rx_kill)"));
    assert!(out.contains("kill: tx_kill,"));
    assert!(!out.contains("#[derive("));
    assert!(!out.contains("pub enum Output"));
    assert!(!out.contains("tx_ato"));
}

#[test]
fn adder_example_generates_request_reply_module() {
    let out = gen_ok("Adder gets : Add(i32) , sends : Sum(i32) , on_message : Add(n) => Sum(n) ,");
    assert!(out.starts_with("\nmod Adder {"));
    assert!(out.contains("pub enum Input {\n    Add(i32) ,\n}"));
    assert!(out.contains("pub enum Output {\n    Sum(i32) ,\n}"));
    assert!(out.contains("let reply = match message {"));
    assert!(out.contains("Add(n) => Sum(n) ,"));
    assert!(out.contains("tx_ato.send(reply).unwrap();"));
    assert!(out.contains("rx: rx_ato,"));
    assert!(!out.contains("tx_kill"));
    assert!(!out.contains("kill:"));
}

#[test]
fn request_reply_topology_comes_from_sends() {
    let (_, f, _) =
        generate_parts("A gets : X , sends : Y , on_message : X => Y ,".as_bytes()).unwrap();
    assert_eq!(f.topology, Topology::RequestReply);
    let (_, f, _) = generate_parts("A gets : X , on_message : X => () ,".as_bytes()).unwrap();
    assert_eq!(f.topology, Topology::InputOnly);
}

#[test]
fn tick_variant_dispatches_through_handler_input_only() {
    let out = gen_ok("T input : Ping , Tick , on_message : Ping => () , Tick => () ,");
    assert!(out.contains("match Tick {"));
    assert!(!out.contains("let reply = match Tick"));
}

#[test]
fn tick_variant_dispatches_one_reply_per_iteration_request_reply() {
    let out = gen_ok(
        "T gets : Ping , Tick , sends : Pong , on_message : Ping => Pong , Tick => Pong ,",
    );
    assert!(out.contains("let reply = match Tick {"));
    assert_eq!(out.matches("let reply = match Tick {").count(), 1);
    assert_eq!(out.matches("sleep(Duration::from_millis(").count(), 1);
}

#[test]
fn without_tick_variant_the_on_tick_body_runs() {
    let (_, f, out) = generate_parts(
        "T input : Ping , on_message : Ping => () , on_tick : tock() ,".as_bytes(),
    )
    .unwrap();
    assert!(!f.accepts_tick);
    let out = String::from_utf8(out).unwrap();
    assert!(out.contains("tock() ,"));
    assert!(!out.contains("match Tick"));
}

#[test]
fn tick_marker_requires_comma_delimited_element() {
    let (_, f, _) =
        generate_parts("T input : Ping , Tick , on_message : Ping => () ,".as_bytes()).unwrap();
    assert!(f.accepts_tick);
    let (_, f, _) =
        generate_parts("T input : Ticker , on_message : Ticker => () ,".as_bytes()).unwrap();
    assert!(!f.accepts_tick);
}

#[test]
fn explicit_data_makes_start_consume_the_state() {
    let out = gen_ok("D input : A , data : count: u32, , on_message : A => () ,");
    assert!(out.contains("pub fn start(mut self)"));
    assert!(out.contains("count: u32,"));
    assert!(!out.contains("let mut _actor"));
}

#[test]
fn without_data_start_takes_nothing() {
    let out = gen_ok("D input : A , on_message : A => () ,");
    assert!(out.contains("pub fn start()"));
    assert!(out.contains("let mut _actor = Actor {};"));
}

#[test]
fn input_derive_emits_the_attribute() {
    let out = gen_ok("D input : A , input_derive : Debug, PartialEq , on_message : A => () ,");
    assert!(out.contains("#[derive(Debug, PartialEq ,)]"));
    assert!(out.contains("pub enum Input {"));
}

#[test]
fn custom_spawner_replaces_the_thread_primitive() {
    let out = gen_ok("S input : A , spawner : my_spawn , on_message : A => () ,");
    assert!(out.contains("let handle = my_spawn ,(move || {"));
    assert!(!out.contains("std::thread::spawn"));
}

#[test]
fn default_spawner_is_the_platform_thread_primitive() {
    let out = gen_ok("S input : A , on_message : A => () ,");
    assert!(out.contains("let handle = std::thread::spawn(move || {"));
}

#[test]
fn custom_code_is_inserted_at_module_scope() {
    let out = gen_ok("C input : A , custom_code : fn helper() {} , on_message : A => () ,");
    let module_start = out.find("mod C {").unwrap();
    let code_at = out.find("fn helper() {}").unwrap();
    let struct_at = out.find("pub struct Actor").unwrap();
    assert!(module_start < code_at && code_at < struct_at);
}

#[test]
fn on_init_and_on_stop_bodies_are_placed() {
    let out = gen_ok(
        "L input : A , on_init : setup() ; , on_message : A => () , on_stop : teardown() ; ,",
    );
    let init_at = out.find("setup() ;").unwrap();
    let loop_at = out.find("while running").unwrap();
    let stop_at = out.find("teardown() ;").unwrap();
    assert!(init_at < loop_at);
    assert!(out[..stop_at].contains("running = false;"));
}

#[test]
fn loop_phases_come_in_drain_stop_tick_sleep_order() {
    let out = gen_ok("P input : A , on_message : A => () , on_tick : tock() , on_stop : bye() ,");
    let drain_at = out.find("while let Ok(message) = rx_ota.try_recv()").unwrap();
    let stop_at = out.find("rx_kill.try_recv()").unwrap();
    let tick_at = out.find("tock()").unwrap();
    let sleep_at = out.find("sleep(Duration::from_millis(").unwrap();
    assert!(drain_at < stop_at);
    assert!(stop_at < tick_at);
    assert!(tick_at < sleep_at);
}

#[test]
fn on_init_runs_before_the_loop_with_no_queue_drained() {
    let out = gen_ok("I input : A , on_init : ready() , on_message : A => () ,");
    let init_at = out.find("ready()").unwrap();
    let loop_at = out.find("while running").unwrap();
    let drain_at = out.find("rx_ota.try_recv()").unwrap();
    assert!(init_at < loop_at);
    assert!(loop_at < drain_at);
}

#[test]
fn whitespace_variants_yield_the_same_payloads() {
    let a = gen_ok("W input : Ping , on_message : Ping => () ,");
    let b = gen_ok("W\ninput :\nPing ,\non_message :\nPing => () ,");
    assert_eq!(a, b);
}

#[test]
fn sections_may_come_in_any_order() {
    let a = gen_ok("O on_message : A => () , input : A ,");
    assert!(a.starts_with("\nmod O {"));
    assert!(a.contains("pub enum Input {\n    A ,\n}"));
    assert!(a.contains("A => () ,"));
}
