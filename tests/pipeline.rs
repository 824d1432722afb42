use std::collections::HashMap;

use plugin_chain::payload::{to_plain, to_tagged, Payload, Tag, Tagged};
use plugin_chain::pipeline::{Execution, Outcome, Pipeline, PipelineError, Step, UnitKind, UnitRunner};
use vstd::seq::Seq;

/// A unit that appends its suffix to the text, and records each run.
struct Appender {
    suffix: &'static str,
    fails: bool,
    runs: usize,
}

/// Runs appenders: a plain payload stays plain, a tagged one keeps its tag.
struct Appenders {
    units: Vec<Appender>,
}

impl Appenders {
    fn new(suffixes: &[&'static str]) -> Appenders {
        Appenders {
            units: suffixes
                .iter()
                .map(|s| Appender { suffix: s, fails: false, runs: 0 })
                .collect(),
        }
    }
}

impl UnitRunner for Appenders {
    fn executed(&self) -> Seq<Execution> {
        unreachable!("the record of executions exists only in proofs")
    }

    fn execute(&mut self, index: usize, input: Payload) -> Outcome {
        let unit = &mut self.units[index];
        unit.runs += 1;
        if unit.fails {
            return Outcome::Failed(format!("unit at position {} refused its input", index));
        }
        match input {
            Payload::Plain(s) => Outcome::Completed(Payload::Plain(format!("{}{}", s, unit.suffix))),
            Payload::Tagged(t) => Outcome::Completed(Payload::Tagged(Tagged {
                tag: t.tag,
                text: format!("{}{}", t.text, unit.suffix),
            })),
        }
    }
}

#[test]
fn empty_pipeline_returns_its_input() {
    let pipeline = Pipeline::new(vec![]);
    let mut runner = Appenders::new(&[]);
    for text in ["", "abc", "Döe; 9'999.00\n"] {
        assert_eq!(pipeline.process(&mut runner, text.to_string()).unwrap(), text);
        match pipeline.next_step(pipeline.start(text.to_string())) {
            Step::Done(t) => assert_eq!(t, text),
            Step::Execute { .. } => panic!("an empty pipeline has nothing to execute"),
        }
    }
}

#[test]
fn units_run_in_declared_order() {
    let pipeline = Pipeline::new(vec![UnitKind::Plain, UnitKind::Plain]);
    let mut ab = Appenders::new(&["a", "b"]);
    assert_eq!(pipeline.process(&mut ab, String::new()).unwrap(), "ab");
    let mut ba = Appenders::new(&["b", "a"]);
    assert_eq!(pipeline.process(&mut ba, String::new()).unwrap(), "ba");
}

#[test]
fn order_holds_across_representations() {
    let pipeline = Pipeline::new(vec![UnitKind::Plain, UnitKind::Tagged(Tag::External)]);
    let mut ab = Appenders::new(&["a", "b"]);
    assert_eq!(pipeline.process(&mut ab, String::new()).unwrap(), "ab");
    let swapped = Pipeline::new(vec![UnitKind::Tagged(Tag::Internal), UnitKind::Plain]);
    let mut ba = Appenders::new(&["b", "a"]);
    assert_eq!(swapped.process(&mut ba, String::new()).unwrap(), "ba");
}

#[test]
fn failure_stops_the_run() {
    let pipeline = Pipeline::new(vec![UnitKind::Plain, UnitKind::Plain, UnitKind::Plain]);
    let mut runner = Appenders::new(&["a", "b", "c"]);
    runner.units[1].fails = true;
    match pipeline.process(&mut runner, String::new()) {
        Err(e) => {
            assert_eq!(e.index(), 2);
            assert_eq!(e.message(), "unit at position 1 refused its input");
            match e {
                PipelineError::Unit { index, cause } => {
                    assert_eq!(index, 2);
                    assert_eq!(cause, "unit at position 1 refused its input");
                }
                _ => panic!("a failing unit gives a unit error"),
            }
        }
        _ => panic!("the second unit must fail the run"),
    }
    assert_eq!(runner.units[0].runs, 1);
    assert_eq!(runner.units[1].runs, 1);
    assert_eq!(runner.units[2].runs, 0);
}

#[test]
fn lock_failure_names_the_unit() {
    let pipeline = Pipeline::new(vec![UnitKind::Plain, UnitKind::Plain]);
    let e = pipeline.advance(1, Outcome::LockFailed).err().unwrap();
    assert!(matches!(e, PipelineError::Lock { index: 2 }));
    assert_eq!(e.index(), 2);
    assert_eq!(e.message(), "could not acquire the mutex lock");
    let first = pipeline.advance(0, Outcome::Failed("no".to_string())).err().unwrap();
    assert!(matches!(first, PipelineError::Unit { index: 1, .. }));
    let conversion = PipelineError::Conversion { index: 1 };
    assert_eq!(conversion.message(), "could not convert the payload to the unit's representation");
}

#[test]
fn steps_bridge_to_each_units_representation() {
    let pipeline = Pipeline::new(vec![UnitKind::Tagged(Tag::External), UnitKind::Plain]);
    let run = pipeline.start("x".to_string());
    let (index, input) = match pipeline.next_step(run) {
        Step::Execute { index, input } => (index, input),
        Step::Done(_) => panic!("the first unit must run"),
    };
    assert_eq!(index, 0);
    match &input {
        Payload::Tagged(t) => {
            assert_eq!(t.tag, Tag::External);
            assert_eq!(t.text, "x");
        }
        Payload::Plain(_) => panic!("a tagged unit takes a tagged payload"),
    }
    let out = Payload::Tagged(Tagged { tag: Tag::Internal, text: "xy".to_string() });
    let run = pipeline.advance(index, Outcome::Completed(out)).ok().unwrap();
    match pipeline.next_step(run) {
        Step::Execute { index, input: Payload::Plain(s) } => {
            assert_eq!(index, 1);
            assert_eq!(s, "xy");
        }
        _ => panic!("a plain unit takes a plain payload"),
    }
    let run = pipeline
        .advance(1, Outcome::Completed(Payload::Tagged(Tagged { tag: Tag::Internal, text: "z".to_string() })))
        .ok()
        .unwrap();
    match pipeline.next_step(run) {
        Step::Done(t) => assert_eq!(t, "z"),
        Step::Execute { .. } => panic!("every unit has run"),
    }
}

#[test]
fn bridging_round_trip_keeps_the_text() {
    for text in ["", "plain", "Nü Mexico ; 9'999.00"] {
        for tag in [Tag::Internal, Tag::External] {
            let tagged = to_tagged(text.to_string(), tag);
            assert_eq!(tagged.tag, tag);
            assert_eq!(to_plain(tagged), text);
        }
    }
    let p = Payload::Tagged(to_tagged("t".to_string(), Tag::Internal));
    assert!(p.is_tagged());
    assert_eq!(p.into_text(), "t");
    assert!(!Payload::Plain(String::new()).is_tagged());
}

/// A unit that appends its run count modulo ten.
struct CountingForwarder(usize);

impl CountingForwarder {
    fn run(&mut self, input: String) -> String {
        self.0 += 1;
        format!("{}{}", input, self.0 % 10)
    }
}

/// Counting forwarders; a tagged unit answers under its own tag.
struct Forwarders {
    kinds: Vec<UnitKind>,
    units: Vec<CountingForwarder>,
}

impl UnitRunner for Forwarders {
    fn executed(&self) -> Seq<Execution> {
        unreachable!("the record of executions exists only in proofs")
    }

    fn execute(&mut self, index: usize, input: Payload) -> Outcome {
        let out = self.units[index].run(input.into_text());
        match self.kinds[index] {
            UnitKind::Plain => Outcome::Completed(Payload::Plain(out)),
            UnitKind::Tagged(tag) => Outcome::Completed(Payload::Tagged(to_tagged(out, tag))),
        }
    }
}

/// A unit that counts its runs and hands its input on unchanged.
struct CountingPassThrough(usize);

impl UnitRunner for CountingPassThrough {
    fn executed(&self) -> Seq<Execution> {
        unreachable!("the record of executions exists only in proofs")
    }

    fn execute(&mut self, _index: usize, input: Payload) -> Outcome {
        self.0 += 1;
        Outcome::Completed(input)
    }
}

#[test]
fn minimal_test_process() {
    let pipeline = Pipeline::new(vec![UnitKind::Plain]);
    let mut runner = CountingPassThrough(0);
    for _ in 0..10 {
        let result = pipeline.process(&mut runner, "please work :-)".to_string()).expect("work failed");
        assert_eq!(result, "please work :-)");
    }
    assert_eq!(runner.0, 10);
}

/// A plugin that counts its runs and marks each run number in a table.
struct TestInternalPlugin {
    counter: usize,
    dict: HashMap<usize, bool>,
}

struct Plugins {
    plugins: Vec<TestInternalPlugin>,
}

impl UnitRunner for Plugins {
    fn executed(&self) -> Seq<Execution> {
        unreachable!("the record of executions exists only in proofs")
    }

    fn execute(&mut self, index: usize, input: Payload) -> Outcome {
        let plugin = &mut self.plugins[index];
        plugin.counter += 1;
        plugin.dict.insert(plugin.counter, true);
        Outcome::Completed(input)
    }
}

#[test]
fn process_plugins_with_state() {
    let initial_io = String::new();
    let pipeline = Pipeline::new(vec![UnitKind::Plain]);
    let mut runner = Plugins {
        plugins: vec![TestInternalPlugin { counter: Default::default(), dict: Default::default() }],
    };
    let runs: usize = 10;
    for _ in 0..runs {
        let out = pipeline.process(&mut runner, initial_io.clone()).expect("plugin processing failed");
        assert_eq!(out, initial_io);
    }
    assert_eq!(runs, runner.plugins[0].counter);
    assert!(*runner.plugins[0].dict.get(&runs).unwrap());
}

fn four_forwarders(kinds: Vec<UnitKind>) {
    let pipeline = Pipeline::new(kinds.clone());
    let mut runner = Forwarders {
        kinds: kinds.clone(),
        units: (0..4).map(|_| CountingForwarder(0)).collect(),
    };
    for _ in 0..10 {
        let result: String = pipeline.process(&mut runner, "".to_string()).expect("work failed");
        assert_eq!(result.len(), kinds.len());
    }
}

#[test]
fn wrapped_test_process() {
    four_forwarders(vec![
        UnitKind::Plain,
        UnitKind::Tagged(Tag::External),
        UnitKind::Plain,
        UnitKind::Tagged(Tag::External),
    ]);
}

#[test]
fn wrapped_enum_test_process() {
    four_forwarders(vec![
        UnitKind::Tagged(Tag::Internal),
        UnitKind::Tagged(Tag::External),
        UnitKind::Tagged(Tag::Internal),
        UnitKind::Tagged(Tag::External),
    ]);
}
