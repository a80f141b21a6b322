use estatus::clock::Moment;
use estatus::gauge::{draw_order, gauge_style, Layer, Tint, ARC_SAMPLES, ARC_START, FULL_TURN};
use estatus::input::{ActivationEvent, KeySnapshot};
use estatus::loading::{parse_abilities, parse_party, AbilityEntry};
use estatus::gauge::GaugeReading;
use estatus::session::{ConfigError, Session, MAX_PARTY};
use std::collections::HashMap;

fn row(name: &str, variants: &[(u32, u32)]) -> AbilityEntry {
    (name.to_string(), "skill".to_string(), variants.iter().cloned().collect::<HashMap<u32, u32>>())
}

fn names(party: &[&str]) -> Vec<String> {
    party.iter().map(|n| n.to_string()).collect()
}

fn two_characters() -> Session {
    let rows = vec![row("A", &[(1000, 5)]), row("B", &[(100, 4), (500, 10), (2000, 20)])];
    Session::new(&rows, names(&["A", "B"])).unwrap()
}

fn down() -> KeySnapshot {
    KeySnapshot { activation: true, ..KeySnapshot::none() }
}

fn shown(session: &Session, slot: usize) -> (u128, f32) {
    let reading = session.reading(slot).unwrap();
    assert_eq!(reading.ready_in, reading.ratio.remaining());
    (reading.ready_in, reading.ratio.remaining() as f32 / reading.ratio.total() as f32)
}

#[test]
fn new_session_starts_ready_on_slot_zero() {
    let session = two_characters();
    assert_eq!(session.party(), &names(&["A", "B"]));
    assert_eq!(session.active_slot(), 0);
    assert_eq!(session.key_down_since(), None);
    assert!(session.hud_visible());
    assert_eq!(shown(&session, 0), (0, 0.0));
    assert_eq!(shown(&session, 1), (0, 0.0));
    assert!(session.reading(2).is_none());
    assert_eq!(session.reading(1).unwrap().ratio.total(), 4_000);
}

#[test]
fn empty_party_is_a_session() {
    let mut session = Session::new(&Vec::new(), Vec::new()).unwrap();
    assert!(session.reading(0).is_none());
    assert_eq!(session.tick(&down(), Moment::from_millis(0)), None);
    let all = KeySnapshot { select: [true; 4], ..KeySnapshot::none() };
    let event = session.tick(&all, Moment::from_millis(700));
    assert_eq!(event, Some(ActivationEvent { slot: 0, held_ms: 700 }));
    assert_eq!(session.active_slot(), 0);
    assert!(session.reading(0).is_none());
}

#[test]
fn party_of_five_is_refused() {
    assert_eq!(MAX_PARTY, 4);
    let rows = vec![row("A", &[(0, 5)])];
    let made = Session::new(&rows, names(&["A", "A", "A", "A", "A"]));
    assert_eq!(made.err(), Some(ConfigError::TooManyCharacters));
    assert!(Session::new(&rows, names(&["A", "A", "A", "A"])).is_ok());
}

#[test]
fn character_without_a_row_is_refused() {
    let rows = vec![row("A", &[(0, 5)])];
    let made = Session::new(&rows, names(&["A", "B"]));
    assert_eq!(made.err(), Some(ConfigError::UnknownCharacter { slot: 1 }));
}

#[test]
fn character_without_variants_is_refused() {
    let rows = vec![row("A", &[])];
    let made = Session::new(&rows, names(&["A"]));
    assert_eq!(made.err(), Some(ConfigError::NoVariants { slot: 0 }));
}

#[test]
fn zero_cooldown_is_refused() {
    let rows = vec![row("A", &[(0, 5)]), row("B", &[(0, 3), (500, 0)])];
    let made = Session::new(&rows, names(&["A", "B"]));
    assert_eq!(made.err(), Some(ConfigError::ZeroCooldown { slot: 1 }));
}

#[test]
fn first_faulty_slot_is_named() {
    let rows = vec![row("A", &[(0, 5)]), row("B", &[(0, 0)]), row("C", &[])];
    let made = Session::new(&rows, names(&["A", "C", "B", "D"]));
    assert_eq!(made.err(), Some(ConfigError::NoVariants { slot: 1 }));
    let other = Session::new(&rows, names(&["D", "C", "B"]));
    assert_eq!(other.err(), Some(ConfigError::UnknownCharacter { slot: 0 }));
}

#[test]
fn later_row_overrides_an_earlier_one() {
    let rows = vec![row("A", &[(0, 9)]), row("A", &[(0, 6)])];
    let session = Session::new(&rows, names(&["A"])).unwrap();
    assert_eq!(session.reading(0).unwrap().ratio.total(), 6_000);
}

#[test]
fn slot_keys_move_the_active_slot() {
    let mut session = two_characters();
    let second = KeySnapshot { select: [false, true, false, false], ..KeySnapshot::none() };
    assert_eq!(session.sample_input(&second, Moment::from_millis(0)), None);
    assert_eq!(session.active_slot(), 1);
    assert_eq!(session.sample_input(&KeySnapshot::none(), Moment::from_millis(1)), None);
    assert_eq!(session.active_slot(), 1);
}

#[test]
fn selecting_slot_beyond_party_is_no_op() {
    let mut session = two_characters();
    let second = KeySnapshot { select: [false, true, false, false], ..KeySnapshot::none() };
    session.tick(&second, Moment::from_millis(0));
    assert_eq!(session.active_slot(), 1);
    let third = KeySnapshot { select: [false, false, true, false], ..KeySnapshot::none() };
    session.tick(&third, Moment::from_millis(16));
    assert_eq!(session.active_slot(), 1);
    let fourth = KeySnapshot { select: [false, false, false, true], ..KeySnapshot::none() };
    session.tick(&fourth, Moment::from_millis(32));
    assert_eq!(session.active_slot(), 1);
    let first_and_fourth = KeySnapshot { select: [true, false, false, true], ..KeySnapshot::none() };
    session.tick(&first_and_fourth, Moment::from_millis(48));
    assert_eq!(session.active_slot(), 0);
}

#[test]
fn show_and_hide_keys_act_while_held() {
    let mut session = two_characters();
    let hide = KeySnapshot { hide: true, ..KeySnapshot::none() };
    let show = KeySnapshot { show: true, ..KeySnapshot::none() };
    session.tick(&hide, Moment::from_millis(0));
    assert!(!session.hud_visible());
    session.tick(&KeySnapshot::none(), Moment::from_millis(1));
    assert!(!session.hud_visible());
    session.tick(&show, Moment::from_millis(2));
    assert!(session.hud_visible());
    session.tick(&KeySnapshot { hide: true, show: true, ..KeySnapshot::none() }, Moment::from_millis(3));
    assert!(!session.hud_visible());
}

#[test]
fn end_to_end_hold_then_cooldown() {
    let rows = vec![row("A", &[(1000, 5)]), row("B", &[(0, 3)])];
    let mut session = Session::new(&rows, names(&["A", "B"])).unwrap();
    let origin: u64 = 10_000;

    assert_eq!(session.tick(&down(), Moment::from_millis(origin - 1_200)), None);
    assert_eq!(session.key_down_since(), Some(Moment::from_millis(origin - 1_200)));
    assert_eq!(session.tick(&down(), Moment::from_millis(origin - 600)), None);
    assert_eq!(session.key_down_since(), Some(Moment::from_millis(origin - 1_200)));
    assert_eq!(shown(&session, 0), (0, 0.0));

    let event = session.tick(&KeySnapshot::none(), Moment::from_millis(origin));
    assert_eq!(event, Some(ActivationEvent { slot: 0, held_ms: 1_200 }));
    assert_eq!(session.key_down_since(), None);
    assert_eq!(shown(&session, 0), (5_000, 1.0));
    assert_eq!(shown(&session, 1), (0, 0.0));

    assert_eq!(session.tick(&KeySnapshot::none(), Moment::from_millis(origin + 2_500)), None);
    assert_eq!(shown(&session, 0), (2_500, 0.5));

    session.tick(&KeySnapshot::none(), Moment::from_millis(origin + 5_000));
    assert_eq!(shown(&session, 0), (0, 0.0));

    session.tick(&KeySnapshot::none(), Moment::from_millis(origin + 60_000));
    assert_eq!(shown(&session, 0), (0, 0.0));
    assert_eq!(shown(&session, 1), (0, 0.0));
}

#[test]
fn activation_goes_to_the_slot_selected_in_the_same_tick() {
    let mut session = two_characters();
    session.tick(&down(), Moment::from_millis(0));
    let release_on_second = KeySnapshot { select: [false, true, false, false], ..KeySnapshot::none() };
    let event = session.tick(&release_on_second, Moment::from_millis(600));
    assert_eq!(event, Some(ActivationEvent { slot: 1, held_ms: 600 }));
    assert_eq!(shown(&session, 0), (0, 0.0));
    assert_eq!(shown(&session, 1), (10_000, 1.0));
}

#[test]
fn too_short_hold_restarts_the_variant_in_force() {
    let rows = vec![row("B", &[(100, 4), (500, 10), (2000, 20)])];
    let mut session = Session::new(&rows, names(&["B"])).unwrap();
    session.apply_activation(ActivationEvent { slot: 0, held_ms: 600 }, Moment::from_millis(0));
    assert_eq!(shown(&session, 0), (10_000, 1.0));
    session.refresh(Moment::from_millis(9_000));
    assert_eq!(shown(&session, 0), (1_000, 0.1));
    session.apply_activation(ActivationEvent { slot: 0, held_ms: 50 }, Moment::from_millis(9_000));
    assert_eq!(shown(&session, 0), (10_000, 1.0));
}

#[test]
fn activation_for_a_missing_slot_changes_nothing() {
    let mut session = two_characters();
    session.apply_activation(ActivationEvent { slot: 2, held_ms: 5_000 }, Moment::from_millis(0));
    session.apply_activation(ActivationEvent { slot: usize::MAX, held_ms: 5_000 }, Moment::from_millis(0));
    assert_eq!(shown(&session, 0), (0, 0.0));
    assert_eq!(shown(&session, 1), (0, 0.0));
}

#[test]
fn slots_of_one_name_share_one_record() {
    let rows = vec![row("A", &[(0, 8)]), row("B", &[(0, 2)])];
    let mut session = Session::new(&rows, names(&["A", "B", "A"])).unwrap();
    let third = KeySnapshot { select: [false, false, true, false], ..KeySnapshot::none() };
    session.tick(&KeySnapshot { activation: true, ..third }, Moment::from_millis(0));
    assert_eq!(session.active_slot(), 2);
    let event = session.tick(&KeySnapshot::none(), Moment::from_millis(10));
    assert_eq!(event, Some(ActivationEvent { slot: 2, held_ms: 10 }));
    assert_eq!(shown(&session, 0), (8_000, 1.0));
    assert_eq!(shown(&session, 2), (8_000, 1.0));
    assert_eq!(shown(&session, 1), (0, 0.0));
    session.refresh(Moment::from_millis(4_010));
    assert_eq!(shown(&session, 0), (4_000, 0.5));
    assert_eq!(shown(&session, 2), (4_000, 0.5));
}

#[test]
fn session_from_yaml_text() {
    let party = parse_party(b"- A\n- B\n").unwrap();
    let rows = parse_abilities(b"- [A, Art, {1000: 5}]\n- [B, Burst, {0: 3, 800: 6}]\n").unwrap();
    let mut session = Session::new(&rows, party).unwrap();
    session.apply_activation(ActivationEvent { slot: 1, held_ms: 900 }, Moment::from_millis(0));
    assert_eq!(shown(&session, 1), (6_000, 1.0));
    assert_eq!(shown(&session, 0), (0, 0.0));
}

#[test]
fn cooldown_of_a_slot_is_its_record() {
    let mut session = two_characters();
    assert_eq!(session.cooldown(1).unwrap().current(), 100);
    session.apply_activation(ActivationEvent { slot: 1, held_ms: 600 }, Moment::from_millis(5));
    let record = session.cooldown(1).unwrap();
    assert_eq!(record.current(), 500);
    assert_eq!(record.last_used(), Some(Moment::from_millis(5)));
    assert_eq!(record.ready_in(), 10_000);
    assert_eq!(session.cooldown(0).unwrap().last_used(), None);
    assert!(session.cooldown(2).is_none());
}

#[test]
fn reading_is_taken_from_the_record() {
    let mut session = two_characters();
    session.apply_activation(ActivationEvent { slot: 0, held_ms: 1_000 }, Moment::from_millis(0));
    session.refresh(Moment::from_millis(4_000));
    let reading = GaugeReading::of(session.cooldown(0).unwrap());
    assert_eq!(reading.ready_in, 1_000);
    assert_eq!((reading.ratio.remaining(), reading.ratio.total()), (1_000, 5_000));
}

#[test]
fn gauge_of_a_ready_ability() {
    let session = two_characters();
    let style = gauge_style(&session.reading(0).unwrap());
    assert_eq!(style.icon, Tint { r: 255, g: 255, b: 255, a: 255 });
    assert_eq!(style.backdrop, Tint { r: 85, g: 255, b: 0, a: 10 });
    assert_eq!(style.ring, Tint { r: 85, g: 255, b: 0, a: 30 });
    assert_eq!(style.span, FULL_TURN);
    assert_eq!(style.fill.remaining(), style.fill.total());
    assert_eq!(style.label_ms, None);
}

#[test]
fn gauge_of_an_ability_on_cooldown() {
    let mut session = two_characters();
    session.apply_activation(ActivationEvent { slot: 0, held_ms: 1_000 }, Moment::from_millis(0));
    session.refresh(Moment::from_millis(1_250));
    let reading: GaugeReading = session.reading(0).unwrap();
    let style = gauge_style(&reading);
    assert_eq!(style.icon, Tint { r: 255, g: 255, b: 255, a: 30 });
    assert_eq!(style.backdrop, Tint { r: 0, g: 0, b: 0, a: 50 });
    assert_eq!(style.ring, Tint { r: 255, g: 255, b: 255, a: 30 });
    assert_eq!(style.span, FULL_TURN);
    assert_eq!((style.fill.remaining(), style.fill.total()), (3_750, 5_000));
    assert_eq!(style.label_ms, Some(3_750));
}

#[test]
fn ring_right_after_activation_is_closed() {
    let mut session = two_characters();
    session.apply_activation(ActivationEvent { slot: 0, held_ms: 1_000 }, Moment::from_millis(0));
    let style = gauge_style(&session.reading(0).unwrap());
    assert_eq!(style.fill.remaining(), style.fill.total());
    let sweep = style.fill.remaining() as f32 / style.fill.total() as f32 * style.span as f32;
    assert_eq!(sweep, 365.0);
    assert_eq!(sweep, FULL_TURN as f32);
}

#[test]
fn ring_at_half_the_cooldown_is_half_a_turn() {
    let mut session = two_characters();
    session.apply_activation(ActivationEvent { slot: 0, held_ms: 1_000 }, Moment::from_millis(0));
    session.refresh(Moment::from_millis(2_500));
    let style = gauge_style(&session.reading(0).unwrap());
    let sweep = style.fill.remaining() as f32 / style.fill.total() as f32 * style.span as f32;
    assert_eq!(sweep, 182.5);
}

#[test]
fn ring_constants() {
    assert_eq!((ARC_START, FULL_TURN, ARC_SAMPLES), (90, 365, 50));
}

#[test]
fn layers_are_drawn_icon_first_ring_last() {
    assert_eq!(draw_order(), [Layer::Icon, Layer::Backdrop, Layer::Label, Layer::Ring]);
}
