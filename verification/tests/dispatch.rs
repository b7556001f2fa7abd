use std::cell::RefCell;
use std::rc::Rc;

use ardeck_plugin::messages::{SwitchInfo, SwitchType};
use ardeck_plugin::registry::{Handler, Registry};

struct Recorder {
    name: &'static str,
    succeeds: bool,
    log: Rc<RefCell<Vec<&'static str>>>,
}

impl Handler for Recorder {
    type Payload = SwitchInfo;

    fn handle(&self, _data: &SwitchInfo) -> bool {
        self.log.borrow_mut().push(self.name);
        self.succeeds
    }
}

fn info() -> SwitchInfo {
    SwitchInfo {
        switch_type: SwitchType::Digital,
        switch_id: 1,
        switch_state: 1,
        timestamp: 0,
    }
}

fn recorder(name: &'static str, succeeds: bool, log: &Rc<RefCell<Vec<&'static str>>>) -> Recorder {
    Recorder {
        name,
        succeeds,
        log: Rc::clone(log),
    }
}

#[test]
fn matching_handlers_run_in_registration_order() {
    let log = Rc::new(RefCell::new(Vec::new()));
    let mut reg: Registry<Recorder> = Registry::new();
    reg.register("A".to_string(), recorder("a1", true, &log));
    reg.register("A".to_string(), recorder("a2", true, &log));
    reg.register("B".to_string(), recorder("b", true, &log));

    let outcome = reg.dispatch("A", &info());

    assert_eq!(log.borrow().as_slice(), ["a1", "a2"]);
    assert_eq!(outcome, vec![(0, true), (1, true)]);
}

#[test]
fn unmatched_key_invokes_nothing() {
    let log = Rc::new(RefCell::new(Vec::new()));
    let mut reg: Registry<Recorder> = Registry::new();
    reg.register("A".to_string(), recorder("a", true, &log));

    let outcome = reg.dispatch("missing", &info());

    assert!(log.borrow().is_empty());
    assert!(outcome.is_empty());
}

#[test]
fn dispatch_on_empty_registry_is_harmless() {
    let reg: Registry<Recorder> = Registry::new();
    assert!(reg.dispatch("anything", &info()).is_empty());
}

#[test]
fn failing_handler_does_not_stop_siblings() {
    let log = Rc::new(RefCell::new(Vec::new()));
    let mut reg: Registry<Recorder> = Registry::new();
    reg.register("A".to_string(), recorder("fails", false, &log));
    reg.register("A".to_string(), recorder("sibling", true, &log));

    let outcome = reg.dispatch("A", &info());

    assert_eq!(log.borrow().as_slice(), ["fails", "sibling"]);
    assert_eq!(outcome, vec![(0, false), (1, true)]);
}

#[test]
fn keys_are_matched_exactly() {
    let log = Rc::new(RefCell::new(Vec::new()));
    let mut reg: Registry<Recorder> = Registry::new();
    reg.register("ping".to_string(), recorder("ping", true, &log));
    reg.register("pin".to_string(), recorder("pin", true, &log));
    reg.register("pings".to_string(), recorder("pings", true, &log));

    let outcome = reg.dispatch("ping", &info());

    assert_eq!(log.borrow().as_slice(), ["ping"]);
    assert_eq!(outcome, vec![(0, true)]);
}

#[test]
fn registry_reports_its_size() {
    let log = Rc::new(RefCell::new(Vec::new()));
    let mut reg: Registry<Recorder> = Registry::new();
    assert_eq!(reg.len(), 0);
    reg.register("A".to_string(), recorder("a", true, &log));
    reg.register("A".to_string(), recorder("b", true, &log));
    assert_eq!(reg.len(), 2);
}
