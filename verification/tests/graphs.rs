use comp_graph::{
    Attributes, CellAddr, ComputationalNode, ComputationalNodeMaker, ErrorKind, Frame, Graph,
    GraphBuilder, Input, InputAttributes, InputMaker, InputStruct, Output, OutputAttributes,
    OutputStruct, TypeToken,
};
use std::cell::RefCell;
use std::rc::Rc;

const F64: TypeToken = TypeToken { id: 1 };
const I64: TypeToken = TypeToken { id: 2 };

type Log = Rc<RefCell<Vec<String>>>;

fn new_log() -> Log {
    Rc::new(RefCell::new(Vec::new()))
}

fn lines(log: &Log) -> Vec<String> {
    log.borrow().clone()
}

struct NoInputs;

impl InputStruct for NoInputs {
    fn new(_maker: InputMaker) -> Self {
        NoInputs
    }

    fn declare_inputs(&mut self, _inputs: &mut InputAttributes) {}
}

struct NoOutputs;

impl OutputStruct<f64> for NoOutputs {
    fn declare_outputs(&mut self, _outputs: &mut OutputAttributes<f64>) {}
}

/// Counts `x` up by one and `y` up by two in every tick.
struct Node1;

struct Node1Outputs {
    x: Output<f64>,
    y: Output<f64>,
}

impl OutputStruct<f64> for Node1Outputs {
    fn declare_outputs(&mut self, outputs: &mut OutputAttributes<f64>) {
        outputs.add("x", &mut self.x);
        outputs.add("y", &mut self.y);
    }
}

impl ComputationalNode for Node1 {
    type Value = f64;
    type Outputs = Node1Outputs;
    type Inputs = NoInputs;
    type InitInfo = ();

    fn make(_init_info: (), _attrs: &mut Attributes) -> (Self, Node1Outputs) {
        (Node1, Node1Outputs { x: Output::new(F64, 0.0), y: Output::new(F64, 0.0) })
    }

    fn evaluate(&mut self, _inputs: &NoInputs, outputs: &Node1Outputs, frame: &mut Frame<'_, f64>) {
        let x = *frame.get(&outputs.x).unwrap();
        frame.set(&outputs.x, x + 1.0).unwrap();
        let y = *frame.get(&outputs.y).unwrap();
        frame.set(&outputs.y, y + 2.0).unwrap();
    }
}

/// Records one line per tick: its prefix and the value it reads.
struct Printer {
    print_prefix: String,
    log: Log,
}

struct PrinterInitInfo {
    print_prefix: String,
    input_name: String,
    log: Log,
}

struct PrinterInputs {
    input: Input<f64>,
}

impl InputStruct for PrinterInputs {
    fn new(maker: InputMaker) -> Self {
        PrinterInputs { input: Input::new(maker, F64) }
    }

    fn declare_inputs(&mut self, inputs: &mut InputAttributes) {
        inputs.add("input", &mut self.input);
    }
}

impl ComputationalNode for Printer {
    type Value = f64;
    type Outputs = NoOutputs;
    type Inputs = PrinterInputs;
    type InitInfo = PrinterInitInfo;

    fn make(init_info: PrinterInitInfo, attrs: &mut Attributes) -> (Self, NoOutputs) {
        attrs.inputs.rename("input", &init_info.input_name);
        (Printer { print_prefix: init_info.print_prefix, log: init_info.log }, NoOutputs)
    }

    fn evaluate(&mut self, inputs: &PrinterInputs, _outputs: &NoOutputs, frame: &mut Frame<'_, f64>) {
        let value = *frame.read(&inputs.input).unwrap();
        self.log.borrow_mut().push(format!("Printing: {}, input: {}", self.print_prefix, value));
    }
}

/// Writes the product of its two inputs.
struct Multiplier;

struct MultiplierInitInfo {
    input1_name: String,
    input2_name: String,
}

struct MultiplierInputs {
    input1: Input<f64>,
    input2: Input<f64>,
}

impl InputStruct for MultiplierInputs {
    fn new(maker: InputMaker) -> Self {
        MultiplierInputs { input1: Input::new(maker, F64), input2: Input::new(maker, F64) }
    }

    fn declare_inputs(&mut self, inputs: &mut InputAttributes) {
        inputs.add("input1", &mut self.input1);
        inputs.add("input2", &mut self.input2);
    }
}

struct MultiplierOutputs {
    product: Output<f64>,
}

impl OutputStruct<f64> for MultiplierOutputs {
    fn declare_outputs(&mut self, outputs: &mut OutputAttributes<f64>) {
        outputs.add("product", &mut self.product);
    }
}

impl ComputationalNode for Multiplier {
    type Value = f64;
    type Outputs = MultiplierOutputs;
    type Inputs = MultiplierInputs;
    type InitInfo = MultiplierInitInfo;

    fn make(init_info: MultiplierInitInfo, attrs: &mut Attributes) -> (Self, MultiplierOutputs) {
        attrs.inputs.rename("input1", &init_info.input1_name);
        attrs.inputs.rename("input2", &init_info.input2_name);
        (Multiplier, MultiplierOutputs { product: Output::new(F64, 0.0) })
    }

    fn evaluate(
        &mut self,
        inputs: &MultiplierInputs,
        outputs: &MultiplierOutputs,
        frame: &mut Frame<'_, f64>,
    ) {
        let product = *frame.read(&inputs.input1).unwrap() * *frame.read(&inputs.input2).unwrap();
        frame.set(&outputs.product, product).unwrap();
    }
}

/// Expects a whole number where the producers of these tests give `f64`.
struct WholeReader;

struct WholeInputs {
    input: Input<f64>,
}

impl InputStruct for WholeInputs {
    fn new(maker: InputMaker) -> Self {
        WholeInputs { input: Input::new(maker, I64) }
    }

    fn declare_inputs(&mut self, inputs: &mut InputAttributes) {
        inputs.add("start.x", &mut self.input);
    }
}

impl ComputationalNode for WholeReader {
    type Value = f64;
    type Outputs = NoOutputs;
    type Inputs = WholeInputs;
    type InitInfo = ();

    fn make(_init_info: (), _attrs: &mut Attributes) -> (Self, NoOutputs) {
        (WholeReader, NoOutputs)
    }

    fn evaluate(&mut self, _inputs: &WholeInputs, _outputs: &NoOutputs, _frame: &mut Frame<'_, f64>) {}
}

/// Has neither inputs nor outputs; counts its runs.
struct Bare {
    runs: Rc<RefCell<u32>>,
}

impl ComputationalNode for Bare {
    type Value = f64;
    type Outputs = NoOutputs;
    type Inputs = NoInputs;
    type InitInfo = Rc<RefCell<u32>>;

    fn make(init_info: Rc<RefCell<u32>>, _attrs: &mut Attributes) -> (Self, NoOutputs) {
        (Bare { runs: init_info }, NoOutputs)
    }

    fn evaluate(&mut self, _inputs: &NoInputs, _outputs: &NoOutputs, _frame: &mut Frame<'_, f64>) {
        *self.runs.borrow_mut() += 1;
    }
}

fn printer(prefix: &str, input_name: &str, log: &Log) -> PrinterInitInfo {
    PrinterInitInfo {
        print_prefix: prefix.to_string(),
        input_name: input_name.to_string(),
        log: log.clone(),
    }
}

fn graph_from_code(log: &Log) -> Graph<f64> {
    let mut builder = GraphBuilder::new();
    builder.add("start", Node1::declare(()).unwrap());
    builder.add("print_x", Printer::declare(printer("x", "start.x", log)).unwrap());
    builder.add("print_y", Printer::declare(printer("y", "start.y", log)).unwrap());
    builder.add(
        "product",
        Multiplier::declare(MultiplierInitInfo {
            input1_name: "start.x".to_string(),
            input2_name: "start.y".to_string(),
        })
        .unwrap(),
    );
    builder.add("print_product", Printer::declare(printer("product", "product.product", log)).unwrap());
    builder.build()
}

#[test]
fn counter_and_printer_print_one_two_three() {
    let log = new_log();
    let mut builder = GraphBuilder::new();
    builder.add("start", Node1::declare(()).unwrap());
    builder.add("print_x", Printer::declare(printer("x", "start.x", &log)).unwrap());
    let mut graph = builder.build();
    graph.evaluate();
    graph.evaluate();
    graph.evaluate();
    assert_eq!(
        lines(&log),
        vec![
            "Printing: x, input: 1".to_string(),
            "Printing: x, input: 2".to_string(),
            "Printing: x, input: 3".to_string(),
        ]
    );
}

#[test]
fn two_outputs_two_printers_and_a_multiplier() {
    let log = new_log();
    let mut graph = graph_from_code(&log);
    graph.evaluate();
    assert_eq!(
        lines(&log),
        vec![
            "Printing: x, input: 1".to_string(),
            "Printing: y, input: 2".to_string(),
            "Printing: product, input: 2".to_string(),
        ]
    );
    graph.evaluate();
    assert_eq!(
        lines(&log)[3..],
        [
            "Printing: x, input: 2".to_string(),
            "Printing: y, input: 4".to_string(),
            "Printing: product, input: 8".to_string(),
        ]
    );
    graph.evaluate();
    assert_eq!(
        lines(&log)[6..],
        [
            "Printing: x, input: 3".to_string(),
            "Printing: y, input: 6".to_string(),
            "Printing: product, input: 18".to_string(),
        ]
    );
    assert_eq!(graph.value(graph.find("product.product").unwrap()), Some(&18.0));
}

#[test]
fn type_mismatch_names_the_reference() {
    let mut builder = GraphBuilder::new();
    builder.try_add("start", Node1::declare(()).unwrap()).unwrap();
    builder.try_add("whole", WholeReader::declare(()).unwrap()).unwrap();
    let error = builder.try_build().err().unwrap();
    assert_eq!(error.kind, ErrorKind::TypeMismatch);
    assert_eq!(error.subject, "start.x");
    assert_eq!(error.message(), "input and output types mismatch at start.x");
    assert!(error.message().contains("start.x"));
}

#[test]
fn unresolved_input_names_the_reference() {
    let log = new_log();
    let mut builder = GraphBuilder::new();
    builder.try_add("start", Node1::declare(()).unwrap()).unwrap();
    builder.try_add("lost", Printer::declare(printer("z", "ghost.z", &log)).unwrap()).unwrap();
    let error = builder.try_build().err().unwrap();
    assert_eq!(error.kind, ErrorKind::UnresolvedInput);
    assert_eq!(error.subject, "ghost.z");
    assert_eq!(error.message(), "no output for input ghost.z");
}

#[test]
fn duplicate_qualified_output_names_the_output() {
    let mut builder = GraphBuilder::new();
    builder.try_add("start", Node1::declare(()).unwrap()).unwrap();
    let error = builder.try_add("start", Node1::declare(()).unwrap()).err().unwrap();
    assert_eq!(error.kind, ErrorKind::DuplicateQualifiedOutput);
    assert_eq!(error.subject, "start.x");
    assert!(error.message().contains("start.x"));
    assert_eq!(builder.len(), 1);
    let graph = builder.try_build().unwrap();
    assert_eq!(graph.len(), 1);
    assert_eq!(graph.find("start.y"), Some(CellAddr { node: 0, slot: 1 }));
}

#[test]
fn rename_makes_the_reference_the_key() {
    let log = new_log();
    let declared = Printer::declare(printer("x", "start.x", &log)).unwrap();
    let (_node, attrs) = declared.into_parts();
    let (inputs, outputs) = attrs.into_parts();
    assert_eq!(inputs.len(), 1);
    assert_eq!(inputs[0].name, "start.x");
    assert_eq!(inputs[0].token, F64);
    assert!(outputs.is_empty());

    let mut builder = GraphBuilder::new();
    builder.try_add("start", Node1::declare(()).unwrap()).unwrap();
    builder.try_add("print_x", Printer::declare(printer("x", "start.x", &log)).unwrap()).unwrap();
    let graph = builder.try_build().unwrap();
    assert_eq!(graph.input_port(1, 0).unwrap().name, "start.x");
    assert_eq!(graph.source(1, 0), Some(CellAddr { node: 0, slot: 0 }));
    assert_eq!(graph.source(1, 0), graph.find("start.x"));
}

#[test]
fn empty_graph_builds_and_evaluates() {
    let builder: GraphBuilder<f64> = GraphBuilder::new();
    assert_eq!(builder.len(), 0);
    let mut graph = builder.try_build().unwrap();
    graph.evaluate();
    graph.evaluate();
    assert_eq!(graph.len(), 0);
    assert_eq!(graph.find("start.x"), None);
    assert_eq!(graph.value(CellAddr { node: 0, slot: 0 }), None);
}

#[test]
fn single_node_without_ports_builds_and_evaluates() {
    let runs = Rc::new(RefCell::new(0));
    let mut builder = GraphBuilder::new();
    builder.try_add("alone", Bare::declare(runs.clone()).unwrap()).unwrap();
    let mut graph = builder.try_build().unwrap();
    graph.evaluate();
    graph.evaluate();
    assert_eq!(*runs.borrow(), 2);
    assert_eq!(graph.len(), 1);
    assert_eq!(graph.source(0, 0), None);
    assert_eq!(graph.value(CellAddr { node: 0, slot: 0 }), None);
}

#[test]
fn fan_out_readers_see_the_same_value() {
    let log = new_log();
    let mut builder = GraphBuilder::new();
    builder.try_add("start", Node1::declare(()).unwrap()).unwrap();
    for k in 0..5 {
        let prefix = format!("reader{}", k);
        builder
            .try_add(&prefix, Printer::declare(printer(&prefix, "start.y", &log)).unwrap())
            .unwrap();
    }
    let mut graph = builder.try_build().unwrap();
    for k in 1..6 {
        assert_eq!(graph.source(k, 0), Some(CellAddr { node: 0, slot: 1 }));
    }
    graph.evaluate();
    graph.evaluate();
    let seen = lines(&log);
    assert_eq!(seen.len(), 10);
    for k in 0..5 {
        assert_eq!(seen[k], format!("Printing: reader{}, input: 2", k));
        assert_eq!(seen[5 + k], format!("Printing: reader{}, input: 4", k));
    }
}

#[test]
fn an_output_without_readers_is_legal() {
    let mut builder = GraphBuilder::new();
    builder.try_add("start", Node1::declare(()).unwrap()).unwrap();
    let mut graph = builder.try_build().unwrap();
    graph.evaluate();
    assert_eq!(graph.value(CellAddr { node: 0, slot: 0 }), Some(&1.0));
    assert_eq!(graph.value(CellAddr { node: 0, slot: 1 }), Some(&2.0));
    assert_eq!(graph.value(CellAddr { node: 0, slot: 2 }), None);
    assert_eq!(graph.value(CellAddr { node: 1, slot: 0 }), None);
}

#[test]
fn a_reader_added_before_its_producer_reads_the_last_tick() {
    let log = new_log();
    let mut builder = GraphBuilder::new();
    builder.try_add("early", Printer::declare(printer("early", "start.x", &log)).unwrap()).unwrap();
    builder.try_add("start", Node1::declare(()).unwrap()).unwrap();
    builder.try_add("late", Printer::declare(printer("late", "start.x", &log)).unwrap()).unwrap();
    let mut graph = builder.try_build().unwrap();
    assert_eq!(graph.source(0, 0), Some(CellAddr { node: 1, slot: 0 }));
    graph.evaluate();
    graph.evaluate();
    assert_eq!(
        lines(&log),
        vec![
            "Printing: early, input: 0".to_string(),
            "Printing: late, input: 1".to_string(),
            "Printing: early, input: 1".to_string(),
            "Printing: late, input: 2".to_string(),
        ]
    );
}

#[test]
fn nodes_run_in_insertion_order_every_tick() {
    let log = new_log();
    let mut graph = graph_from_code(&log);
    for _ in 0..4 {
        graph.evaluate();
    }
    let seen = lines(&log);
    assert_eq!(seen.len(), 12);
    for tick in 0..4 {
        assert!(seen[3 * tick].starts_with("Printing: x,"));
        assert!(seen[3 * tick + 1].starts_with("Printing: y,"));
        assert!(seen[3 * tick + 2].starts_with("Printing: product,"));
    }
}

#[test]
fn wiring_is_the_same_after_every_tick() {
    let log = new_log();
    let mut graph = graph_from_code(&log);
    let wiring = |graph: &Graph<f64>| -> Vec<Option<CellAddr>> {
        vec![
            graph.source(1, 0),
            graph.source(2, 0),
            graph.source(3, 0),
            graph.source(3, 1),
            graph.source(4, 0),
        ]
    };
    let built = wiring(&graph);
    assert_eq!(
        built,
        vec![
            Some(CellAddr { node: 0, slot: 0 }),
            Some(CellAddr { node: 0, slot: 1 }),
            Some(CellAddr { node: 0, slot: 0 }),
            Some(CellAddr { node: 0, slot: 1 }),
            Some(CellAddr { node: 3, slot: 0 }),
        ]
    );
    for _ in 0..3 {
        graph.evaluate();
        assert_eq!(wiring(&graph), built);
        assert_eq!(graph.len(), 5);
    }
}

#[test]
fn wired_pairs_have_the_same_element_type() {
    let log = new_log();
    let graph = graph_from_code(&log);
    for node in 0..graph.len() {
        let mut input = 0;
        while let Some(source) = graph.source(node, input) {
            let reader = graph.input_port(node, input).unwrap();
            let read = graph.output_port(source).unwrap();
            assert_eq!(reader.token, read.token);
            assert_eq!(reader.name, read.name);
            input += 1;
        }
    }
    assert_eq!(graph.output_port(CellAddr { node: 3, slot: 0 }).unwrap().name, "product.product");
    assert_eq!(graph.output_port(CellAddr { node: 3, slot: 0 }).unwrap().token, F64);
    assert!(graph.output_port(CellAddr { node: 3, slot: 1 }).is_none());
    assert!(graph.input_port(0, 0).is_none());
}

#[test]
fn no_two_outputs_share_a_qualified_name() {
    let log = new_log();
    let graph = graph_from_code(&log);
    let mut names = Vec::new();
    for node in 0..graph.len() {
        let mut slot = 0;
        while let Some(port) = graph.output_port(CellAddr { node, slot }) {
            names.push(port.name.clone());
            slot += 1;
        }
    }
    assert_eq!(names, vec!["start.x", "start.y", "product.product"]);
    for name in &names {
        let addr = graph.find(name).unwrap();
        assert_eq!(&graph.output_port(addr).unwrap().name, name);
    }
}

#[test]
fn the_same_declarations_give_the_same_graph() {
    let first_log = new_log();
    let second_log = new_log();
    let mut first = graph_from_code(&first_log);
    let mut second = graph_from_code(&second_log);
    for node in 0..5 {
        for input in 0..3 {
            assert_eq!(first.source(node, input), second.source(node, input));
        }
    }
    for _ in 0..3 {
        first.evaluate();
        second.evaluate();
    }
    assert_eq!(lines(&first_log), lines(&second_log));
    assert_eq!(lines(&first_log).len(), 9);
}

#[test]
fn the_first_input_that_fails_is_reported() {
    let log = new_log();
    let mut builder = GraphBuilder::new();
    builder.try_add("start", Node1::declare(()).unwrap()).unwrap();
    builder
        .try_add(
            "product",
            Multiplier::declare(MultiplierInitInfo {
                input1_name: "start.x".to_string(),
                input2_name: "nowhere.y".to_string(),
            })
            .unwrap(),
        )
        .unwrap();
    builder.try_add("whole", WholeReader::declare(()).unwrap()).unwrap();
    builder.try_add("lost", Printer::declare(printer("z", "ghost.z", &log)).unwrap()).unwrap();
    let error = builder.try_build().err().unwrap();
    assert_eq!(error.kind, ErrorKind::UnresolvedInput);
    assert_eq!(error.subject, "nowhere.y");
}

/// Holds `x` and `y` at what it was made with.
struct Constant;

impl ComputationalNode for Constant {
    type Value = f64;
    type Outputs = Node1Outputs;
    type Inputs = NoInputs;
    type InitInfo = (f64, f64);

    fn make(init_info: (f64, f64), _attrs: &mut Attributes) -> (Self, Node1Outputs) {
        (Constant, Node1Outputs { x: Output::new(F64, init_info.0), y: Output::new(F64, init_info.1) })
    }

    fn evaluate(&mut self, _inputs: &NoInputs, _outputs: &Node1Outputs, _frame: &mut Frame<'_, f64>) {}
}

#[test]
fn a_pure_node_repeats_itself_on_the_same_inputs() {
    let mut builder = GraphBuilder::new();
    builder.try_add("start", Constant::declare((3.0, 4.0)).unwrap()).unwrap();
    builder
        .try_add(
            "product",
            Multiplier::declare(MultiplierInitInfo {
                input1_name: "start.x".to_string(),
                input2_name: "start.y".to_string(),
            })
            .unwrap(),
        )
        .unwrap();
    let mut graph = builder.try_build().unwrap();
    let product = graph.find("product.product").unwrap();
    assert_eq!(graph.value(product), Some(&0.0));
    graph.evaluate();
    assert_eq!(graph.value(product), Some(&12.0));
    graph.evaluate();
    assert_eq!(graph.value(product), Some(&12.0));
}

#[test]
fn named_nodes_give_their_graph() {
    let log = new_log();
    let named = vec![
        ("start".to_string(), Node1::declare(()).unwrap()),
        ("print_y".to_string(), Printer::declare(printer("y", "start.y", &log)).unwrap()),
    ];
    let mut graph = comp_graph::builder::graph_from_nodes(named).unwrap();
    assert_eq!(graph.len(), 2);
    assert_eq!(graph.source(1, 0), Some(CellAddr { node: 0, slot: 1 }));
    assert_eq!(graph.output_port(CellAddr { node: 0, slot: 0 }).unwrap().name, "start.x");
    graph.evaluate();
    assert_eq!(lines(&log), vec!["Printing: y, input: 2".to_string()]);

    let empty = comp_graph::builder::graph_from_nodes::<f64>(Vec::new()).unwrap();
    assert_eq!(empty.len(), 0);
}

#[test]
fn named_nodes_at_fault_give_the_first_fault() {
    let log = new_log();
    let named = vec![
        ("lost".to_string(), Printer::declare(printer("z", "ghost.z", &log)).unwrap()),
        ("start".to_string(), Node1::declare(()).unwrap()),
        ("start".to_string(), Node1::declare(()).unwrap()),
    ];
    let error = comp_graph::builder::graph_from_nodes(named).err().unwrap();
    assert_eq!(error.kind, ErrorKind::DuplicateQualifiedOutput);
    assert_eq!(error.subject, "start.x");

    let named = vec![
        ("lost".to_string(), Printer::declare(printer("z", "ghost.z", &log)).unwrap()),
        ("whole".to_string(), WholeReader::declare(()).unwrap()),
        ("start".to_string(), Node1::declare(()).unwrap()),
    ];
    let error = comp_graph::builder::graph_from_nodes(named).err().unwrap();
    assert_eq!(error.kind, ErrorKind::UnresolvedInput);
    assert_eq!(error.subject, "ghost.z");

    let named = vec![
        ("whole".to_string(), WholeReader::declare(()).unwrap()),
        ("start".to_string(), Node1::declare(()).unwrap()),
    ];
    let error = comp_graph::builder::graph_from_nodes(named).err().unwrap();
    assert_eq!(error.kind, ErrorKind::TypeMismatch);
    assert_eq!(error.message(), "input and output types mismatch at start.x");
}
