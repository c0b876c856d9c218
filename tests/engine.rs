use std::cell::RefCell;
use std::rc::Rc;

use rust_graphics_window::buttons::translate_mouse_button;
use rust_graphics_window::event::{
    Button, ButtonAction, Data, Event, EventIds, Keyboard, Mouse, Move, Ratio, Touch, TouchAction,
    Window, WindowAspects, WindowSizeChange,
};
use rust_graphics_window::registry::{ListenerHandle, Registry};
use rust_graphics_window::state::{EngineState, Pointer};
use rust_graphics_window::worker::{Worker, POLL_INTERVAL_MS};

fn size_change(e: &Event) -> WindowSizeChange {
    match e.get_data() {
        Data::Window(Window::SizeChange(c)) => *c,
        _ => panic!("not a resize"),
    }
}

#[test]
fn event_ids_strictly_increase() {
    let mut ids = EventIds::new();
    let a = Event::new(&mut ids, Data::Quit);
    let b = Event::new(&mut ids, Data::Window(Window::Focus));
    let c = Event::new(&mut ids, Data::Quit);
    assert_eq!(a.get_id(), 1);
    assert!(a.get_id() < b.get_id());
    assert!(b.get_id() < c.get_id());
    assert!(matches!(b.get_data(), Data::Window(Window::Focus)));
}

#[test]
fn fresh_id_source_can_issue() {
    let mut ids = EventIds::new();
    assert!(ids.can_issue());
    let e = Event::new(&mut ids, Data::Quit);
    assert!(e.get_id() >= 1);
    assert_eq!(e.get_time(), e.get_time());
}

#[test]
fn ratio_difference() {
    let a = Ratio { num: 3, den: 4 };
    let b = Ratio { num: 1, den: 4 };
    assert_eq!(a.minus(&b), Some(Ratio { num: 2, den: 4 }));
    let c = Ratio { num: 1, den: 3 };
    assert_eq!(a.minus(&c), Some(Ratio { num: 5, den: 12 }));
    let big = Ratio { num: i128::MAX, den: 2 };
    let neg = Ratio { num: i128::MIN, den: 3 };
    assert_eq!(big.minus(&neg), None);
    assert_eq!(big.minus(&Ratio { num: -1, den: 2 }), None);
}

#[test]
fn delta_across_resize_uses_both_scales() {
    let mut ids = EventIds::new();
    let mut s = EngineState::new(false);
    s.init_window_aspects(100, 100);
    s.init_mouse_position((50, 50));
    s.window_size_changed(&mut ids, 200, 300).unwrap();
    let e = s.set_mouse_position(&mut ids, (200, 300)).unwrap();
    match e.get_data() {
        Data::Move(Move::Mouse { normalized_delta, .. }) => {
            // 0/200 - (-50/100) = 50*200 / (200*100)
            assert_eq!(normalized_delta.0, Some(Ratio { num: 10000, den: 20000 }));
            assert_eq!(normalized_delta.1, Some(Ratio { num: 10000, den: 20000 }));
        }
        _ => panic!("expected a mouse move"),
    }
}

#[test]
fn fresh_mouse_pointer_at_origin() {
    let s = EngineState::new(false);
    match &s.pointer {
        Pointer::Mouse(m) => {
            assert_eq!(m.position, (0, 0));
            assert_eq!(m.normalized_position, (Ratio { num: 0, den: 1 }, Ratio { num: 0, den: 1 }));
        }
        Pointer::Touch(_) => panic!("mouse target expected"),
    }
}

#[test]
fn window_aspects_derived_values() {
    let a = WindowAspects::new(1920, 1080);
    assert_eq!(a.smallest, 1080);
    assert_eq!(a.ratio(), Ratio { num: 1920, den: 1080 });
    assert_eq!(a.normalized_width(), Ratio { num: 1920, den: 1080 });
    assert_eq!(a.normalized_height(), Ratio { num: 1080, den: 1080 });
    let b = WindowAspects::new(300, 700);
    assert_eq!(b.smallest, 300);
}

#[test]
fn normalize_at_extent_is_origin() {
    let a = WindowAspects::new(1920, 1080);
    let (x, y) = a.normalize(1920, 1080);
    assert_eq!(x, Ratio { num: 0, den: 1080 });
    assert_eq!(y, Ratio { num: 0, den: 1080 });
}

#[test]
fn normalize_formula() {
    let a = WindowAspects::new(1920, 1080);
    let (x, y) = a.normalize(0, 540);
    assert_eq!(x, Ratio { num: -1920, den: 1080 });
    assert_eq!(y, Ratio { num: -540, den: 1080 });
    assert_eq!(a.normalize(0, 540), a.normalize(0, 540));
}

#[test]
fn non_positive_size_is_ignored() {
    let mut ids = EventIds::new();
    let mut s = EngineState::new(false);
    s.init_window_aspects(800, 600);
    assert!(s.window_size_changed(&mut ids, 0, 600).is_none());
    assert!(s.window_size_changed(&mut ids, 800, 0).is_none());
    assert!(s.window_size_changed(&mut ids, -5, 10).is_none());
    assert_eq!(s.aspects, WindowAspects::new(800, 600));
    assert_eq!(Event::new(&mut ids, Data::Quit).get_id(), 1);
}

#[test]
fn same_size_twice_emits_once() {
    let mut ids = EventIds::new();
    let mut s = EngineState::new(false);
    let first = s.window_size_changed(&mut ids, 1920, 1080);
    let second = s.window_size_changed(&mut ids, 1920, 1080);
    let c = size_change(&first.unwrap());
    assert!(second.is_none());
    assert_eq!(c.current, WindowAspects::new(1920, 1080));
    assert_eq!(c.previous, WindowAspects { width: 0, height: 0, smallest: 0 });
    assert_eq!(c.delta.width, 1920);
    assert_eq!(c.delta.height, 1080);
    assert_eq!(c.delta.smallest, 1080);
    assert_eq!(s.aspects, WindowAspects::new(1920, 1080));
}

#[test]
fn resize_reports_previous_and_delta() {
    let mut ids = EventIds::new();
    let mut s = EngineState::new(false);
    s.init_window_aspects(1000, 500);
    let c = size_change(&s.window_size_changed(&mut ids, 800, 900).unwrap());
    assert_eq!(c.previous, WindowAspects::new(1000, 500));
    assert_eq!(c.current, WindowAspects::new(800, 900));
    assert_eq!((c.delta.width, c.delta.height, c.delta.smallest), (-200, 400, 300));
}

#[test]
fn finger_lifecycle() {
    let mut ids = EventIds::new();
    let mut s = EngineState::new(true);
    s.init_window_aspects(100, 200);
    let down = s.finger_down(&mut ids, 10, 20, 5).unwrap();
    match down.get_data() {
        Data::Touch(Touch::Raw { index, action, point, normalized_point }) => {
            assert_eq!(*index, 5);
            assert!(matches!(action, TouchAction::Press));
            assert_eq!(*point, (10, 20));
            assert_eq!(normalized_point.0, Ratio { num: -90, den: 100 });
            assert_eq!(normalized_point.1, Ratio { num: -180, den: 100 });
        }
        _ => panic!("expected a press"),
    }
    let up = s.finger_up(&mut ids, 10, 20, 5).unwrap();
    assert!(matches!(up.get_data(), Data::Touch(Touch::Raw { action: TouchAction::Release, .. })));
    match &s.pointer {
        Pointer::Touch(fingers) => assert!(fingers.is_empty()),
        Pointer::Mouse(_) => panic!("touch target expected"),
    }
    assert!(s.finger_move(&mut ids, 11, 21, 5).is_none());
    let moved = s.finger_move(&mut ids, 13, 24, 5).unwrap();
    match moved.get_data() {
        Data::Move(Move::Touch { index, previous, current, delta, normalized_delta, .. }) => {
            assert_eq!(normalized_delta.0, Some(Ratio { num: 2, den: 100 }));
            assert_eq!(normalized_delta.1, Some(Ratio { num: 3, den: 100 }));
            assert_eq!(*index, 5);
            assert_eq!(*previous, (11, 21));
            assert_eq!(*current, (13, 24));
            assert_eq!(*delta, (2, 3));
        }
        _ => panic!("expected a touch move"),
    }
}

#[test]
fn mouse_target_has_no_fingers() {
    let mut ids = EventIds::new();
    let mut s = EngineState::new(false);
    assert!(s.finger_down(&mut ids, 1, 2, 0).is_none());
    assert!(s.finger_move(&mut ids, 1, 2, 0).is_none());
    assert!(s.finger_up(&mut ids, 1, 2, 0).is_none());
}

#[test]
fn mouse_move_reports_delta() {
    let mut ids = EventIds::new();
    let mut s = EngineState::new(false);
    s.init_window_aspects(400, 200);
    s.init_mouse_position((10, 10));
    let e = s.set_mouse_position(&mut ids, (15, 7)).unwrap();
    match e.get_data() {
        Data::Move(Move::Mouse {
            previous,
            current,
            delta,
            normalized_previous,
            normalized_current,
            normalized_delta,
        }) => {
            assert_eq!(*previous, (10, 10));
            assert_eq!(*current, (15, 7));
            assert_eq!(*delta, (5, -3));
            assert_eq!(normalized_previous.0, Ratio { num: -390, den: 200 });
            assert_eq!(normalized_current.1, Ratio { num: -193, den: 200 });
            assert_eq!(normalized_delta.0, Some(Ratio { num: 5, den: 200 }));
            assert_eq!(normalized_delta.1, Some(Ratio { num: -3, den: 200 }));
        }
        _ => panic!("expected a mouse move"),
    }
    let mut touch = EngineState::new(true);
    assert!(touch.set_mouse_position(&mut ids, (1, 1)).is_none());
}

#[test]
fn buttons_press_and_release() {
    let mut ids = EventIds::new();
    let mut s = EngineState::new(false);
    let a = Button::Keyboard(Keyboard::A);
    let left = Button::Mouse(Mouse::Left);
    let e = s.button_pressed(&mut ids, a);
    assert!(matches!(e.get_data(), Data::Button { action: ButtonAction::Press, .. }));
    s.button_pressed(&mut ids, a);
    s.button_pressed(&mut ids, left);
    assert_eq!(s.pressed_buttons, vec![a, left]);
    let r = s.button_released(&mut ids, a);
    assert!(matches!(r.get_data(), Data::Button { button: Button::Keyboard(Keyboard::A), action: ButtonAction::Release }));
    assert_eq!(s.pressed_buttons, vec![left]);
    s.button_released(&mut ids, a);
    assert_eq!(s.pressed_buttons, vec![left]);
}

#[test]
fn focus_and_quit_signals() {
    let mut ids = EventIds::new();
    let s = EngineState::new(false);
    assert!(matches!(s.window_focus(&mut ids).get_data(), Data::Window(Window::Focus)));
    assert!(matches!(s.window_unfocus(&mut ids).get_data(), Data::Window(Window::Unfocus)));
    assert!(matches!(s.quit(&mut ids).get_data(), Data::Quit));
}

struct Probe {
    name: u32,
    consume: bool,
    alive: bool,
    log: Rc<RefCell<Vec<u32>>>,
}

impl ListenerHandle for Probe {
    fn reports(&self, _event: Event, r: Option<bool>) -> bool {
        r == if self.alive { Some(self.consume) } else { None }
    }

    fn is_live(&self) -> bool {
        self.alive
    }

    fn deliver(&self, _event: &Event) -> Option<bool> {
        if !self.alive {
            return None;
        }
        self.log.borrow_mut().push(self.name);
        Some(self.consume)
    }
}

fn probe(name: u32, consume: bool, alive: bool, log: &Rc<RefCell<Vec<u32>>>) -> Probe {
    Probe { name, consume, alive, log: log.clone() }
}

#[test]
fn consumed_event_stops_delivery() {
    let log = Rc::new(RefCell::new(Vec::new()));
    let mut ids = EventIds::new();
    let mut reg = Registry::new();
    reg.add(1, probe(1, false, true, &log));
    reg.add(0, probe(0, true, true, &log));
    let e = Event::new(&mut ids, Data::Quit);
    let outcomes = reg.dispatch(&e);
    assert_eq!(outcomes, vec![Some(true)]);
    assert_eq!(*log.borrow(), vec![0]);
}

#[test]
fn unconsumed_event_reaches_next_priority() {
    let log = Rc::new(RefCell::new(Vec::new()));
    let mut ids = EventIds::new();
    let mut reg = Registry::new();
    reg.add(1, probe(1, false, true, &log));
    reg.add(0, probe(0, false, true, &log));
    let e = Event::new(&mut ids, Data::Quit);
    assert_eq!(reg.dispatch(&e), vec![Some(false), Some(false)]);
    assert_eq!(*log.borrow(), vec![0, 1]);
}

#[test]
fn quit_reaches_live_listeners_in_order() {
    let log = Rc::new(RefCell::new(Vec::new()));
    let mut ids = EventIds::new();
    let s = EngineState::new(false);
    let mut reg = Registry::new();
    reg.add(5, probe(50, false, true, &log));
    reg.add(-1, probe(10, false, true, &log));
    reg.add(5, probe(51, false, true, &log));
    reg.add(2, probe(20, false, false, &log));
    reg.add(2, probe(21, true, true, &log));
    reg.add(9, probe(90, false, true, &log));
    let mut worker = Worker::new();
    let q = s.quit(&mut ids);
    let step = worker.step(&mut ids, Some(q));
    assert!(!step.stop);
    assert_eq!(step.deliver.len(), 1);
    for e in &step.deliver {
        assert!(matches!(e.get_data(), Data::Quit));
        let outcomes = reg.dispatch(e);
        assert_eq!(outcomes, vec![Some(false), None, Some(true)]);
    }
    assert_eq!(*log.borrow(), vec![10, 21]);
}

#[test]
fn clean_drops_dead_entries_only() {
    let log = Rc::new(RefCell::new(Vec::new()));
    let mut ids = EventIds::new();
    let mut reg = Registry::new();
    reg.add(0, probe(1, false, false, &log));
    reg.add(0, probe(2, false, true, &log));
    reg.add(3, probe(3, false, false, &log));
    let e = Event::new(&mut ids, Data::Quit);
    assert_eq!(reg.dispatch(&e), vec![None, Some(false), None]);
    reg.clean();
    assert_eq!(reg.dispatch(&e), vec![Some(false)]);
    assert_eq!(*log.borrow(), vec![2, 2]);
}

#[test]
fn retain_marked_keeps_flagged() {
    let log = Rc::new(RefCell::new(Vec::new()));
    let mut ids = EventIds::new();
    let mut reg = Registry::new();
    reg.add(0, probe(1, false, true, &log));
    reg.add(1, probe(2, false, true, &log));
    reg.add(2, probe(3, false, true, &log));
    reg.retain_marked(&vec![true, false, true]);
    let e = Event::new(&mut ids, Data::Quit);
    reg.dispatch(&e);
    assert_eq!(*log.borrow(), vec![1, 3]);
}

#[test]
fn resize_burst_coalesces() {
    let mut ids = EventIds::new();
    let mut s = EngineState::new(false);
    s.init_window_aspects(100, 100);
    let mut worker = Worker::new();
    for (w, h) in [(200, 150), (300, 250), (640, 480)] {
        let e = s.window_size_changed(&mut ids, w, h).unwrap();
        let step = worker.step(&mut ids, Some(e));
        assert!(step.deliver.is_empty());
        assert!(!step.stop);
    }
    let step = worker.step(&mut ids, None);
    assert_eq!(step.deliver.len(), 1);
    let c = size_change(&step.deliver[0]);
    assert_eq!(c.previous, WindowAspects::new(100, 100));
    assert_eq!(c.current, WindowAspects::new(640, 480));
    assert_eq!((c.delta.width, c.delta.height, c.delta.smallest), (540, 380, 380));
    assert_eq!(step.deliver[0].get_id(), 4);
    assert!(worker.step(&mut ids, None).deliver.is_empty());
}

#[test]
fn other_event_flushes_pending_resize_first() {
    let mut ids = EventIds::new();
    let mut s = EngineState::new(false);
    let mut worker = Worker::new();
    let r = s.window_size_changed(&mut ids, 50, 60).unwrap();
    assert!(worker.step(&mut ids, Some(r)).deliver.is_empty());
    let q = s.quit(&mut ids);
    let step = worker.step(&mut ids, Some(q));
    assert_eq!(step.deliver.len(), 2);
    assert_eq!(size_change(&step.deliver[0]).current, WindowAspects::new(50, 60));
    assert!(matches!(step.deliver[1].get_data(), Data::Quit));
    assert_eq!(step.deliver[1].get_id(), 2);
}

#[test]
fn teardown_drains_queue() {
    let mut ids = EventIds::new();
    let mut s = EngineState::new(false);
    let mut worker = Worker::new();
    let mut queue = Vec::new();
    queue.push(s.window_focus(&mut ids));
    queue.push(s.window_size_changed(&mut ids, 10, 20).unwrap());
    queue.push(s.window_size_changed(&mut ids, 30, 40).unwrap());
    queue.push(Event::new(&mut ids, Data::Terminate));
    queue.push(s.quit(&mut ids));
    let mut delivered = Vec::new();
    let mut stopped = false;
    for e in queue {
        let step = worker.step(&mut ids, Some(e));
        delivered.extend(step.deliver);
        if step.stop {
            stopped = true;
            break;
        }
    }
    assert!(stopped);
    assert_eq!(delivered.len(), 2);
    assert!(matches!(delivered[0].get_data(), Data::Window(Window::Focus)));
    let c = size_change(&delivered[1]);
    assert_eq!(c.previous, WindowAspects { width: 0, height: 0, smallest: 0 });
    assert_eq!(c.current, WindowAspects::new(30, 40));
}

#[test]
fn terminate_alone_stops_without_delivery() {
    let mut ids = EventIds::new();
    let mut worker = Worker::new();
    let t = Event::new(&mut ids, Data::Terminate);
    let step = worker.step(&mut ids, Some(t));
    assert!(step.stop);
    assert!(step.deliver.is_empty());
    assert_eq!(POLL_INTERVAL_MS, 100);
}

#[test]
fn x11_mouse_buttons() {
    assert_eq!(translate_mouse_button(1), Button::Mouse(Mouse::Left));
    assert_eq!(translate_mouse_button(2), Button::Mouse(Mouse::Middle));
    assert_eq!(translate_mouse_button(3), Button::Mouse(Mouse::Right));
    assert_eq!(translate_mouse_button(8), Button::Mouse(Mouse::Unknown(8)));
}
