use geniter::{
    bind, bind_ignore, bind_items, void, Counter, Doubler, GenState, Generator, Ignore, Inputs,
    Line, LineReader, Recorder, Returns, Source,
};

fn ready(text: &str) -> Line {
    Line::Ready(text.chars().collect())
}

#[test]
fn doubled_inputs_come_out_in_order() {
    let mut d = bind_items(vec![1i32, 2, 3], Doubler, Recorder::<()>::new());
    assert_eq!(d.next(), Some(2i64));
    assert_eq!(d.next(), Some(4i64));
    assert_eq!(d.next(), Some(6i64));
    assert_eq!(d.next(), None);
}

#[test]
fn doubled_inputs_drain_and_no_final_value() {
    let mut d = bind_items(vec![1i32, 2, 3], Doubler, Recorder::<()>::new());
    assert_eq!(d.drain(), vec![2i64, 4, 6]);
    assert_eq!(d.handler_ref().count(), 0);
}

#[test]
fn lines_are_gathered_until_the_sentinel() {
    let chars = vec!['a', 'b', '\n', 'c', '\0'];
    let mut d = bind_items(chars, LineReader::new(), Recorder::<()>::new());
    let out = d.drain();
    assert_eq!(
        out,
        vec![Line::Pending, Line::Pending, ready("ab"), Line::Pending, ready("c")]
    );
    assert_eq!(d.handler_ref().count(), 0);
}

#[test]
fn line_reader_completes_after_the_sentinel() {
    let text: Vec<char> = "first line\nsecond line\nthird line\0\0".chars().collect();
    let mut d = bind_items(text, LineReader::new(), Recorder::<()>::new());
    let lines: Vec<Line> = d
        .drain()
        .into_iter()
        .filter(|l| *l != Line::Pending)
        .collect();
    assert_eq!(lines, vec![ready("first line"), ready("second line"), ready("third line")]);
    assert_eq!(d.handler_ref().count(), 1);
}

#[test]
fn empty_inputs_give_nothing_and_never_finish() {
    let mut d = bind_items(Vec::<i32>::new(), Returns::new("done"), Recorder::<&str>::new());
    assert_eq!(d.drain(), Vec::<()>::new());
    assert_eq!(d.handler_ref().count(), 0);
    assert_eq!(d.next(), None);
    assert_eq!(d.handler_ref().count(), 0);
}

#[test]
fn immediate_completion_reaches_the_handler_once() {
    let mut d = bind_items(vec![0i32], Returns::new("done"), Recorder::<&str>::new());
    assert_eq!(d.next(), None);
    assert_eq!(d.handler_ref().values(), &vec!["done"]);
    assert_eq!(d.next(), None);
    assert_eq!(d.next(), None);
    assert_eq!(d.handler_ref().values(), &vec!["done"]);
}

#[test]
fn completion_after_some_yields_with_inputs_left() {
    // three yields, then completion on the fourth input; the fifth is never used
    let mut d = bind_items(vec![(); 5], Counter::new(0, 3), Recorder::<()>::new());
    assert_eq!(d.drain(), vec![0, 1, 2]);
    assert_eq!(d.handler_ref().count(), 1);
    assert_eq!(d.next(), None);
    assert_eq!(d.handler_ref().count(), 1);
}

#[test]
fn inputs_run_out_before_completion() {
    let mut d = bind_items(vec![(); 3], Counter::new(0, 3), Recorder::<()>::new());
    assert_eq!(d.drain(), vec![0, 1, 2]);
    assert_eq!(d.handler_ref().count(), 0);
}

#[test]
fn endless_units_drive_a_counter_to_its_end() {
    let mut d = bind_ignore(void(), Counter::new(0, 10));
    let mut seen = Vec::new();
    while let Some(v) = d.next() {
        seen.push(v);
    }
    assert_eq!(seen, (0..10).collect::<Vec<i32>>());
    assert_eq!(d.next(), None);
}

#[test]
fn bind_keeps_the_given_handler() {
    let mut d = bind(Inputs::from_vec(vec![5i32]), Returns::new(9u8), Recorder::<u8>::new());
    assert_eq!(d.next(), None);
    assert_eq!(d.handler_ref().values(), &vec![9u8]);
}

#[test]
fn ignore_handler_drops_the_final_value() {
    let mut d = bind(Inputs::from_vec(vec![1i32, 2]), Returns::new(4u8), Ignore);
    assert_eq!(d.next(), None);
    assert_eq!(d.next(), None);
}

#[test]
fn void_never_runs_out() {
    let mut v = void();
    for _ in 0..100 {
        assert_eq!(v.pull(), Some(()));
    }
}

#[test]
fn inputs_hand_out_values_front_first() {
    let mut s = Inputs::from_vec(vec![7u8, 8, 9]);
    assert_eq!(s.len(), 3);
    assert_eq!(s.pull(), Some(7));
    assert_eq!(s.pull(), Some(8));
    assert_eq!(s.pull(), Some(9));
    assert_eq!(s.pull(), None);
    assert_eq!(s.len(), 0);
}

#[test]
fn doubler_handles_the_extremes() {
    let mut g = Doubler;
    assert!(matches!(g.resume(i32::MAX), GenState::Yielded(v) if v == 2 * (i32::MAX as i64)));
    assert!(matches!(g.resume(i32::MIN), GenState::Yielded(v) if v == 2 * (i32::MIN as i64)));
}

#[test]
fn line_reader_resets_after_each_newline() {
    let mut g = LineReader::new();
    assert!(matches!(g.resume('\n'), GenState::Yielded(Line::Ready(ref t)) if t.is_empty()));
    assert!(matches!(g.resume('x'), GenState::Yielded(Line::Pending)));
    assert!(matches!(g.resume('\n'), GenState::Yielded(Line::Ready(ref t)) if *t == vec!['x']));
    assert!(matches!(g.resume('\0'), GenState::Yielded(Line::Ready(ref t)) if t.is_empty()));
    assert!(matches!(g.resume('y'), GenState::Complete(())));
}

#[test]
fn driver_reports_when_it_has_stopped() {
    let mut d = bind_items(vec![1i32], Doubler, Ignore);
    assert!(!d.finished());
    assert_eq!(d.next(), Some(2));
    assert!(!d.finished());
    assert_eq!(d.next(), None);
    assert!(d.finished());
}
