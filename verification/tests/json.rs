use comp_graph::json::{graph_from_entries, take_header, LoadError};
use comp_graph::{
    Attributes, CellAddr, ComputationalNode, ComputationalNodeMaker, DeclaredNode, ErrorKind,
    Frame, Input, InputAttributes, InputMaker, InputStruct, Output, OutputAttributes,
    OutputStruct, TypeToken,
};
use serde_json::Value;

const NUMBER: TypeToken = TypeToken { id: 1 };

fn object(text: &str) -> serde_json::Map<String, Value> {
    serde_json::from_str(text).unwrap()
}

fn entries(text: &str) -> Vec<serde_json::Map<String, Value>> {
    serde_json::from_str(text).unwrap()
}

fn keys(object: &serde_json::Map<String, Value>) -> Vec<String> {
    object.keys().cloned().collect()
}

struct Nothing;

impl InputStruct for Nothing {
    fn new(_maker: InputMaker) -> Self {
        Nothing
    }

    fn declare_inputs(&mut self, _inputs: &mut InputAttributes) {}
}

impl OutputStruct<f64> for Nothing {
    fn declare_outputs(&mut self, _outputs: &mut OutputAttributes<f64>) {}
}

/// Adds its step to `x` in every tick.
struct Counter {
    step: f64,
}

struct CounterOutputs {
    x: Output<f64>,
}

impl OutputStruct<f64> for CounterOutputs {
    fn declare_outputs(&mut self, outputs: &mut OutputAttributes<f64>) {
        outputs.add("x", &mut self.x);
    }
}

impl ComputationalNode for Counter {
    type Value = f64;
    type Outputs = CounterOutputs;
    type Inputs = Nothing;
    type InitInfo = f64;

    fn make(init_info: f64, _attrs: &mut Attributes) -> (Self, CounterOutputs) {
        (Counter { step: init_info }, CounterOutputs { x: Output::new(NUMBER, 0.0) })
    }

    fn evaluate(&mut self, _inputs: &Nothing, outputs: &CounterOutputs, frame: &mut Frame<'_, f64>) {
        let x = *frame.get(&outputs.x).unwrap();
        frame.set(&outputs.x, x + self.step).unwrap();
    }
}

/// Keeps the double of what it reads in `twice`.
struct Doubler;

struct DoublerInputs {
    input: Input<f64>,
}

impl InputStruct for DoublerInputs {
    fn new(maker: InputMaker) -> Self {
        DoublerInputs { input: Input::new(maker, NUMBER) }
    }

    fn declare_inputs(&mut self, inputs: &mut InputAttributes) {
        inputs.add("input", &mut self.input);
    }
}

struct DoublerOutputs {
    twice: Output<f64>,
}

impl OutputStruct<f64> for DoublerOutputs {
    fn declare_outputs(&mut self, outputs: &mut OutputAttributes<f64>) {
        outputs.add("twice", &mut self.twice);
    }
}

impl ComputationalNode for Doubler {
    type Value = f64;
    type Outputs = DoublerOutputs;
    type Inputs = DoublerInputs;
    type InitInfo = String;

    fn make(init_info: String, attrs: &mut Attributes) -> (Self, DoublerOutputs) {
        attrs.inputs.rename("input", &init_info);
        (Doubler, DoublerOutputs { twice: Output::new(NUMBER, 0.0) })
    }

    fn evaluate(
        &mut self,
        inputs: &DoublerInputs,
        outputs: &DoublerOutputs,
        frame: &mut Frame<'_, f64>,
    ) {
        let value = *frame.read(&inputs.input).unwrap();
        frame.set(&outputs.twice, 2.0 * value).unwrap();
    }
}

fn factory(type_key: &String, rest: serde_json::Map<String, Value>) -> Option<DeclaredNode<f64>> {
    match type_key.as_str() {
        "Counter" => Counter::declare(rest.get("step")?.as_f64()?).ok(),
        "Doubler" => Doubler::declare(rest.get("input_name")?.as_str()?.to_string()).ok(),
        _ => None,
    }
}

#[test]
fn the_header_leaves_the_description() {
    let mut entry = object(r#"{"__type__": "Counter", "step": 2, "__name__": "start"}"#);
    let header = take_header(&mut entry).unwrap();
    assert_eq!(header.type_key, "Counter");
    assert_eq!(header.name, "start");
    assert_eq!(keys(&entry), vec!["step"]);
    assert_eq!(entry.get("step"), Some(&Value::from(2)));

    let mut bare = object(r#"{"__name__": "", "__type__": ""}"#);
    let header = take_header(&mut bare).unwrap();
    assert_eq!(header.type_key, "");
    assert_eq!(header.name, "");
    assert!(bare.is_empty());
}

#[test]
fn a_header_needs_both_strings() {
    let mut no_name = object(r#"{"__type__": "Counter", "step": 2}"#);
    assert!(take_header(&mut no_name).is_none());
    assert_eq!(keys(&no_name), vec!["step"]);

    let mut no_type = object(r#"{"__name__": "start", "kept": null}"#);
    assert!(take_header(&mut no_type).is_none());
    assert_eq!(keys(&no_type), vec!["kept"]);

    let mut number = object(r#"{"__type__": 5, "__name__": "start"}"#);
    assert!(take_header(&mut number).is_none());
    assert!(number.is_empty());

    let mut nested = object(r#"{"__type__": "Counter", "__name__": {"__name__": "start"}}"#);
    assert!(take_header(&mut nested).is_none());
    assert!(nested.is_empty());

    let mut empty = serde_json::Map::new();
    assert!(take_header(&mut empty).is_none());
    assert!(empty.is_empty());
}

#[test]
fn a_description_gives_its_graph() {
    let description = entries(
        r#"[
            {"__type__": "Counter", "__name__": "start", "step": 1.5},
            {"__type__": "Doubler", "__name__": "double", "input_name": "start.x"},
            {"__type__": "Doubler", "__name__": "again", "input_name": "double.twice"}
        ]"#,
    );
    let mut graph = graph_from_entries(description, factory).unwrap();
    assert_eq!(graph.len(), 3);
    assert_eq!(graph.find("start.x"), Some(CellAddr { node: 0, slot: 0 }));
    assert_eq!(graph.find("again.twice"), Some(CellAddr { node: 2, slot: 0 }));
    assert_eq!(graph.source(1, 0), Some(CellAddr { node: 0, slot: 0 }));
    assert_eq!(graph.source(2, 0), Some(CellAddr { node: 1, slot: 0 }));
    graph.evaluate();
    assert_eq!(graph.value(CellAddr { node: 2, slot: 0 }), Some(&6.0));
    graph.evaluate();
    assert_eq!(graph.value(CellAddr { node: 0, slot: 0 }), Some(&3.0));
    assert_eq!(graph.value(CellAddr { node: 1, slot: 0 }), Some(&6.0));
    assert_eq!(graph.value(CellAddr { node: 2, slot: 0 }), Some(&12.0));
}

#[test]
fn an_empty_description_gives_the_empty_graph() {
    let mut graph = graph_from_entries::<f64, _>(Vec::new(), factory).unwrap();
    graph.evaluate();
    assert_eq!(graph.len(), 0);
}

#[test]
fn the_first_entry_without_a_header_is_reported() {
    let description = entries(
        r#"[
            {"__type__": "Counter", "__name__": "start", "step": 1},
            {"__type__": "Counter", "step": 1},
            {"__name__": "late", "step": 1}
        ]"#,
    );
    assert_eq!(graph_from_entries(description, factory).err(), Some(LoadError::Header(1)));

    let description = entries(r#"[{"__type__": "Unknown"}, {"__type__": "Counter"}]"#);
    assert_eq!(graph_from_entries(description, factory).err(), Some(LoadError::Header(0)));
}

#[test]
fn an_entry_the_factory_refuses_is_reported() {
    let description = entries(
        r#"[
            {"__type__": "Counter", "__name__": "start", "step": 1},
            {"__type__": "Counter", "__name__": "next", "step": 1},
            {"__type__": "Printer", "__name__": "print"},
            {"__name__": "late"}
        ]"#,
    );
    assert_eq!(graph_from_entries(description, factory).err(), Some(LoadError::Factory(2)));

    let description = entries(r#"[{"__type__": "Counter", "__name__": "start", "step": "one"}]"#);
    assert_eq!(graph_from_entries(description, factory).err(), Some(LoadError::Factory(0)));
}

#[test]
fn what_the_builder_refuses_is_reported() {
    let description = entries(
        r#"[
            {"__type__": "Counter", "__name__": "start", "step": 1},
            {"__type__": "Counter", "__name__": "start", "step": 2}
        ]"#,
    );
    match graph_from_entries(description, factory).err() {
        Some(LoadError::Graph(error)) => {
            assert_eq!(error.kind, ErrorKind::DuplicateQualifiedOutput);
            assert_eq!(error.subject, "start.x");
        },
        other => panic!("{:?}", other),
    }

    let description = entries(
        r#"[
            {"__type__": "Counter", "__name__": "start", "step": 1},
            {"__type__": "Doubler", "__name__": "double", "input_name": "ghost.z"}
        ]"#,
    );
    match graph_from_entries(description, factory).err() {
        Some(LoadError::Graph(error)) => {
            assert_eq!(error.kind, ErrorKind::UnresolvedInput);
            assert_eq!(error.message(), "no output for input ghost.z");
        },
        other => panic!("{:?}", other),
    }
}

#[test]
fn every_entry_is_made_before_the_nodes_are_put_together() {
    let description = entries(
        r#"[
            {"__type__": "Counter", "__name__": "start", "step": 1},
            {"__type__": "Counter", "__name__": "start", "step": 2},
            {"__type__": "Counter", "step": 3}
        ]"#,
    );
    assert_eq!(graph_from_entries(description, factory).err(), Some(LoadError::Header(2)));
}
