use skald_compiler::artifacts::{dependency_graph, instruction_symbol, retain_reachable};
use skald_compiler::identity::{ClassId, StaticFieldId};
use skald_compiler::machine::{
    AssemblyDispatchTable, AssemblyFunction, AssemblyLiteralBacking, AssemblyPanicMessage,
    AssemblyProgram, AssemblyRuntimeTraceMetadata, AssemblyStaticSlot, AssemblyTraceByteString,
    AssemblyTraceContext, AssemblyTraceLocation, Instruction, Register,
};

fn fixture_program(functions: Vec<AssemblyFunction>) -> AssemblyProgram {
    AssemblyProgram {
        functions,
        static_slots: vec![AssemblyStaticSlot {
            field: StaticFieldId::new(ClassId::new(0), 0),
            symbol: "slot".to_owned(),
            size: 8,
            alignment_power: 3,
        }],
        dispatch_tables: vec![
            AssemblyDispatchTable {
                symbol: "table".to_owned(),
                entries: vec![Some("witness".to_owned()), Some("finalizer".to_owned())],
            },
            AssemblyDispatchTable {
                symbol: "metadata".to_owned(),
                entries: vec![Some("finalizer".to_owned())],
            },
        ],
        literal_backings: vec![AssemblyLiteralBacking {
            symbol: "literal".to_owned(),
            metadata_symbol: "metadata".to_owned(),
            bytes: vec![1],
        }],
        panic_messages: vec![AssemblyPanicMessage {
            symbol: "panic".to_owned(),
            bytes: b"panic".to_vec(),
        }],
        runtime_trace: AssemblyRuntimeTraceMetadata {
            strings: vec![trace_string("name"), trace_string("path")],
            contexts: vec![AssemblyTraceContext {
                symbol: "context".to_owned(),
                name_symbol: "name".to_owned(),
                name_length: 4,
                path_symbol: "path".to_owned(),
                path_length: 4,
            }],
            locations: vec![AssemblyTraceLocation {
                symbol: "location".to_owned(),
                context_symbol: "context".to_owned(),
                line: 1,
                column: 1,
            }],
        },
    }
}

fn function(symbol: &str, exported: bool, instructions: Vec<Instruction>) -> AssemblyFunction {
    AssemblyFunction {
        symbol: symbol.to_owned(),
        exported,
        instructions,
    }
}

fn load(symbol: &str) -> Instruction {
    Instruction::LoadSymbolAddress {
        symbol: symbol.to_owned(),
        destination: Register::Rax,
    }
}

fn trace_string(symbol: &str) -> AssemblyTraceByteString {
    AssemblyTraceByteString {
        symbol: symbol.to_owned(),
        bytes: symbol.as_bytes().to_vec(),
    }
}

#[test]
fn prunes_unreachable_artifacts_from_every_section() {
    let mut program = fixture_program(vec![function("main", true, vec![])]);
    program.functions.push(function("dead", false, vec![]));

    retain_reachable(&mut program);

    let symbols: Vec<&str> = program.functions.iter().map(|f| f.symbol.as_str()).collect();
    assert_eq!(symbols, ["main"]);
    assert!(program.static_slots.is_empty());
    assert!(program.dispatch_tables.is_empty());
    assert!(program.literal_backings.is_empty());
    assert!(program.panic_messages.is_empty());
    assert!(program.runtime_trace.is_empty());
}

#[test]
fn retains_transitive_function_and_data_dependencies() {
    let mut program = fixture_program(vec![
        function("main", true, vec![Instruction::Call("worker".to_owned())]),
        function(
            "worker",
            false,
            vec![
                load("slot"),
                load("table"),
                load("literal"),
                load("panic"),
                Instruction::LoadRuntimeTraceLocationAddress {
                    symbol: "location".to_owned(),
                    destination: Register::Rax,
                },
            ],
        ),
        function("witness", false, vec![]),
        function("finalizer", false, vec![]),
    ]);

    retain_reachable(&mut program);

    assert_eq!(program.functions.len(), 4);
    assert_eq!(program.static_slots.len(), 1);
    assert_eq!(program.dispatch_tables.len(), 2);
    assert_eq!(program.literal_backings.len(), 1);
    assert_eq!(program.panic_messages.len(), 1);
    assert_eq!(program.runtime_trace.strings.len(), 2);
    assert_eq!(program.runtime_trace.contexts.len(), 1);
    assert_eq!(program.runtime_trace.locations.len(), 1);
}

#[test]
fn keeps_section_order_and_drops_only_unreferenced_entries() {
    let mut program = fixture_program(vec![
        function("alpha", false, vec![]),
        function("main", true, vec![load("literal"), Instruction::Call("omega".to_owned())]),
        function("omega", false, vec![]),
    ]);

    retain_reachable(&mut program);

    let symbols: Vec<&str> = program.functions.iter().map(|f| f.symbol.as_str()).collect();
    assert_eq!(symbols, ["main", "omega"]);
    let tables: Vec<&str> = program.dispatch_tables.iter().map(|t| t.symbol.as_str()).collect();
    assert_eq!(tables, ["metadata"]);
    assert_eq!(program.literal_backings.len(), 1);
    assert!(program.static_slots.is_empty());
    assert!(program.runtime_trace.is_empty());
}

#[test]
fn dependency_graph_lists_sections_in_order() {
    let program = fixture_program(vec![function("main", true, vec![load("slot")])]);
    let graph = dependency_graph(&program);
    let symbols: Vec<&str> = graph.iter().map(|node| node.symbol.as_str()).collect();
    assert_eq!(
        symbols,
        ["main", "slot", "table", "metadata", "literal", "panic", "name", "path", "context", "location"]
    );
    assert_eq!(graph[0].dependencies, vec!["slot".to_owned()]);
    assert_eq!(graph[2].dependencies, vec!["witness".to_owned(), "finalizer".to_owned()]);
    assert_eq!(graph[8].dependencies, vec!["name".to_owned(), "path".to_owned()]);
}

#[test]
fn instruction_symbol_reads_referencing_instructions_only() {
    assert_eq!(instruction_symbol(&Instruction::Call("callee".to_owned())), Some("callee"));
    assert_eq!(instruction_symbol(&load("data")), Some("data"));
    assert_eq!(instruction_symbol(&Instruction::Return), None);
}

#[test]
fn pruning_a_pruned_program_changes_nothing() {
    let mut program = fixture_program(vec![
        function("alpha", false, vec![]),
        function("main", true, vec![load("literal"), Instruction::Call("omega".to_owned())]),
        function("omega", false, vec![]),
    ]);
    retain_reachable(&mut program);
    let once = program.clone();
    retain_reachable(&mut program);
    assert_eq!(program, once);
}
