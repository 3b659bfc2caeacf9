//! Closed-world retention for target-generated functions and data.
//!
//! Once the program has been lowered, the machine program contains explicit
//! symbols for every dependency that can survive into assembly. Walking
//! those references from the exported functions lets textual emission omit
//! every artifact that nothing reachable refers to.

use vstd::prelude::*;

use crate::machine::{AssemblyProgram, Instruction};

verus! {

/// One artifact of the assembly program and the symbols it refers to.
pub struct ArtifactNode {
    pub symbol: String,
    pub dependencies: Vec<String>,
}

pub open spec fn strings_view(strings: Seq<String>) -> Seq<Seq<char>> {
    strings.map_values(|string: String| string@)
}

pub open spec fn node_view(node: ArtifactNode) -> (Seq<char>, Seq<Seq<char>>) {
    (node.symbol@, strings_view(node.dependencies@))
}

pub open spec fn graph_view(graph: Seq<ArtifactNode>) -> Seq<(Seq<char>, Seq<Seq<char>>)> {
    graph.map_values(|node: ArtifactNode| node_view(node))
}

/// The symbol an instruction refers to, if any.
pub open spec fn spec_instruction_symbol(instruction: Instruction) -> Option<Seq<char>> {
    match instruction {
        Instruction::LoadSymbolAddress { symbol, .. } => Some(symbol@),
        Instruction::LoadRuntimeTraceLocationAddress { symbol, .. } => Some(symbol@),
        Instruction::Call(symbol) => Some(symbol@),
        _ => None,
    }
}

pub fn instruction_symbol(instruction: &Instruction) -> (r: Option<&str>)
    ensures
        match spec_instruction_symbol(*instruction) {
            Some(symbol) => r matches Some(text) && text@ == symbol,
            None => r is None,
        },
{
    match instruction {
        Instruction::LoadSymbolAddress { symbol, .. } => Some(symbol.as_str()),
        Instruction::LoadRuntimeTraceLocationAddress { symbol, .. } => Some(symbol.as_str()),
        Instruction::Call(symbol) => Some(symbol.as_str()),
        _ => None,
    }
}

/// Every symbol the instructions refer to, in order.
pub open spec fn spec_instruction_symbols(instructions: Seq<Instruction>) -> Seq<Seq<char>>
    decreases instructions.len(),
{
    if instructions.len() == 0 {
        Seq::empty()
    } else {
        let rest = spec_instruction_symbols(instructions.drop_last());
        match spec_instruction_symbol(instructions.last()) {
            Some(symbol) => rest.push(symbol),
            None => rest,
        }
    }
}

/// The present entries of a dispatch table.
pub open spec fn spec_present_entries(entries: Seq<Option<String>>) -> Seq<Seq<char>>
    decreases entries.len(),
{
    if entries.len() == 0 {
        Seq::empty()
    } else {
        let rest = spec_present_entries(entries.drop_last());
        match entries.last() {
            Some(symbol) => rest.push(symbol@),
            None => rest,
        }
    }
}

pub open spec fn function_nodes(program: &AssemblyProgram) -> Seq<(Seq<char>, Seq<Seq<char>>)> {
    program.functions@.map_values(
        |function: crate::machine::AssemblyFunction|
            (function.symbol@, spec_instruction_symbols(function.instructions@)),
    )
}

pub open spec fn slot_nodes(program: &AssemblyProgram) -> Seq<(Seq<char>, Seq<Seq<char>>)> {
    program.static_slots@.map_values(
        |slot: crate::machine::AssemblyStaticSlot| (slot.symbol@, Seq::<Seq<char>>::empty()),
    )
}

pub open spec fn table_nodes(program: &AssemblyProgram) -> Seq<(Seq<char>, Seq<Seq<char>>)> {
    program.dispatch_tables@.map_values(
        |table: crate::machine::AssemblyDispatchTable|
            (table.symbol@, spec_present_entries(table.entries@)),
    )
}

pub open spec fn backing_nodes(program: &AssemblyProgram) -> Seq<(Seq<char>, Seq<Seq<char>>)> {
    program.literal_backings@.map_values(
        |backing: crate::machine::AssemblyLiteralBacking|
            (backing.symbol@, seq![backing.metadata_symbol@]),
    )
}

pub open spec fn message_nodes(program: &AssemblyProgram) -> Seq<(Seq<char>, Seq<Seq<char>>)> {
    program.panic_messages@.map_values(
        |message: crate::machine::AssemblyPanicMessage| (message.symbol@, Seq::<Seq<char>>::empty()),
    )
}

pub open spec fn string_nodes(program: &AssemblyProgram) -> Seq<(Seq<char>, Seq<Seq<char>>)> {
    program.runtime_trace.strings@.map_values(
        |string: crate::machine::AssemblyTraceByteString| (string.symbol@, Seq::<Seq<char>>::empty()),
    )
}

pub open spec fn context_nodes(program: &AssemblyProgram) -> Seq<(Seq<char>, Seq<Seq<char>>)> {
    program.runtime_trace.contexts@.map_values(
        |context: crate::machine::AssemblyTraceContext|
            (context.symbol@, seq![context.name_symbol@, context.path_symbol@]),
    )
}

pub open spec fn location_nodes(program: &AssemblyProgram) -> Seq<(Seq<char>, Seq<Seq<char>>)> {
    program.runtime_trace.locations@.map_values(
        |location: crate::machine::AssemblyTraceLocation|
            (location.symbol@, seq![location.context_symbol@]),
    )
}

/// The artifacts of every section in emission order, with their
/// references.
pub open spec fn spec_dependency_graph(program: &AssemblyProgram) -> Seq<
    (Seq<char>, Seq<Seq<char>>),
> {
    function_nodes(program) + slot_nodes(program) + table_nodes(program) + backing_nodes(program)
        + message_nodes(program) + string_nodes(program) + context_nodes(program) + location_nodes(
        program,
    )
}

/// Records one artifact and its references.
pub fn insert_artifact(graph: &mut Vec<ArtifactNode>, symbol: &str, dependencies: Vec<String>)
    ensures
        graph_view(final(graph)@) == graph_view(old(graph)@).push(
            (symbol@, strings_view(dependencies@)),
        ),
{
    let ghost before = graph@;
    graph.push(ArtifactNode { symbol: String::from_str(symbol), dependencies });
    assert(graph_view(graph@) =~= graph_view(before).push((symbol@, strings_view(dependencies@))));
}

fn instruction_dependencies(instructions: &Vec<Instruction>) -> (r: Vec<String>)
    ensures
        strings_view(r@) == spec_instruction_symbols(instructions@),
{
    let mut dependencies: Vec<String> = Vec::new();
    let mut i: usize = 0;
    while i < instructions.len()
        invariant
            i <= instructions@.len(),
            strings_view(dependencies@) == spec_instruction_symbols(instructions@.take(i as int)),
        decreases instructions@.len() - i,
    {
        assert(instructions@.take((i + 1) as int).drop_last() =~= instructions@.take(i as int));
        assert(instructions@.take((i + 1) as int).last() == instructions@[i as int]);
        let ghost before = dependencies@;
        match instruction_symbol(&instructions[i]) {
            Some(symbol) => {
                dependencies.push(String::from_str(symbol));
                assert(strings_view(dependencies@) =~= strings_view(before).push(symbol@));
            },
            None => {},
        }
        i = i + 1;
    }
    assert(instructions@.take(instructions@.len() as int) =~= instructions@);
    dependencies
}

fn present_entries(entries: &Vec<Option<String>>) -> (r: Vec<String>)
    ensures
        strings_view(r@) == spec_present_entries(entries@),
{
    let mut present: Vec<String> = Vec::new();
    let mut i: usize = 0;
    while i < entries.len()
        invariant
            i <= entries@.len(),
            strings_view(present@) == spec_present_entries(entries@.take(i as int)),
        decreases entries@.len() - i,
    {
        assert(entries@.take((i + 1) as int).drop_last() =~= entries@.take(i as int));
        assert(entries@.take((i + 1) as int).last() == entries@[i as int]);
        let ghost before = present@;
        match &entries[i] {
            Some(symbol) => {
                present.push(symbol.clone());
                assert(strings_view(present@) =~= strings_view(before).push(symbol@));
            },
            None => {},
        }
        i = i + 1;
    }
    assert(entries@.take(entries@.len() as int) =~= entries@);
    present
}

/// The artifacts of the program in section order, with the symbols each
/// one refers to.
pub fn dependency_graph(program: &AssemblyProgram) -> (r: Vec<ArtifactNode>)
    ensures
        graph_view(r@) == spec_dependency_graph(program),
{
    let mut graph: Vec<ArtifactNode> = Vec::new();
    let ghost mut done: Seq<(Seq<char>, Seq<Seq<char>>)> = Seq::empty();
    let mut i: usize = 0;
    while i < program.functions.len()
        invariant
            i <= program.functions@.len(),
            graph_view(graph@) == function_nodes(program).subrange(0, i as int),
        decreases program.functions@.len() - i,
    {
        let function = &program.functions[i];
        let dependencies = instruction_dependencies(&function.instructions);
        insert_artifact(&mut graph, function.symbol.as_str(), dependencies);
        assert(function_nodes(program).subrange(0, i + 1) =~= function_nodes(program).subrange(
            0,
            i as int,
        ).push(function_nodes(program)[i as int]));
        i = i + 1;
    }
    proof {
        assert(function_nodes(program).subrange(0, program.functions@.len() as int) =~= function_nodes(program));
        done = function_nodes(program);
    }
    let mut i: usize = 0;
    while i < program.static_slots.len()
        invariant
            i <= program.static_slots@.len(),
            graph_view(graph@) == done + slot_nodes(program).subrange(0, i as int),
        decreases program.static_slots@.len() - i,
    {
        let slot = &program.static_slots[i];
        insert_artifact(&mut graph, slot.symbol.as_str(), Vec::new());
        assert(strings_view(Seq::<String>::empty()) =~= Seq::<Seq<char>>::empty());
        assert(slot_nodes(program).subrange(0, i + 1) =~= slot_nodes(program).subrange(
            0,
            i as int,
        ).push(slot_nodes(program)[i as int]));
        assert(done + slot_nodes(program).subrange(0, i + 1) =~= (done + slot_nodes(
            program,
        ).subrange(0, i as int)).push(slot_nodes(program)[i as int]));
        i = i + 1;
    }
    proof {
        assert(slot_nodes(program).subrange(0, program.static_slots@.len() as int) =~= slot_nodes(program));
        done = done + slot_nodes(program);
    }
    let mut i: usize = 0;
    while i < program.dispatch_tables.len()
        invariant
            i <= program.dispatch_tables@.len(),
            graph_view(graph@) == done + table_nodes(program).subrange(0, i as int),
        decreases program.dispatch_tables@.len() - i,
    {
        let table = &program.dispatch_tables[i];
        let dependencies = present_entries(&table.entries);
        insert_artifact(&mut graph, table.symbol.as_str(), dependencies);
        assert(table_nodes(program).subrange(0, i + 1) =~= table_nodes(program).subrange(
            0,
            i as int,
        ).push(table_nodes(program)[i as int]));
        assert(done + table_nodes(program).subrange(0, i + 1) =~= (done + table_nodes(
            program,
        ).subrange(0, i as int)).push(table_nodes(program)[i as int]));
        i = i + 1;
    }
    proof {
        assert(table_nodes(program).subrange(0, program.dispatch_tables@.len() as int) =~= table_nodes(program));
        done = done + table_nodes(program);
    }
    let mut i: usize = 0;
    while i < program.literal_backings.len()
        invariant
            i <= program.literal_backings@.len(),
            graph_view(graph@) == done + backing_nodes(program).subrange(0, i as int),
        decreases program.literal_backings@.len() - i,
    {
        let backing = &program.literal_backings[i];
        let mut dependencies: Vec<String> = Vec::new();
        dependencies.push(backing.metadata_symbol.clone());
        assert(strings_view(dependencies@) =~= seq![backing.metadata_symbol@]);
        insert_artifact(&mut graph, backing.symbol.as_str(), dependencies);
        assert(backing_nodes(program).subrange(0, i + 1) =~= backing_nodes(program).subrange(
            0,
            i as int,
        ).push(backing_nodes(program)[i as int]));
        assert(done + backing_nodes(program).subrange(0, i + 1) =~= (done + backing_nodes(
            program,
        ).subrange(0, i as int)).push(backing_nodes(program)[i as int]));
        i = i + 1;
    }
    proof {
        assert(backing_nodes(program).subrange(0, program.literal_backings@.len() as int) =~= backing_nodes(program));
        done = done + backing_nodes(program);
    }
    let mut i: usize = 0;
    while i < program.panic_messages.len()
        invariant
            i <= program.panic_messages@.len(),
            graph_view(graph@) == done + message_nodes(program).subrange(0, i as int),
        decreases program.panic_messages@.len() - i,
    {
        let message = &program.panic_messages[i];
        insert_artifact(&mut graph, message.symbol.as_str(), Vec::new());
        assert(strings_view(Seq::<String>::empty()) =~= Seq::<Seq<char>>::empty());
        assert(message_nodes(program).subrange(0, i + 1) =~= message_nodes(program).subrange(
            0,
            i as int,
        ).push(message_nodes(program)[i as int]));
        assert(done + message_nodes(program).subrange(0, i + 1) =~= (done + message_nodes(
            program,
        ).subrange(0, i as int)).push(message_nodes(program)[i as int]));
        i = i + 1;
    }
    proof {
        assert(message_nodes(program).subrange(0, program.panic_messages@.len() as int) =~= message_nodes(program));
        done = done + message_nodes(program);
    }
    let mut i: usize = 0;
    while i < program.runtime_trace.strings.len()
        invariant
            i <= program.runtime_trace.strings@.len(),
            graph_view(graph@) == done + string_nodes(program).subrange(0, i as int),
        decreases program.runtime_trace.strings@.len() - i,
    {
        let string = &program.runtime_trace.strings[i];
        insert_artifact(&mut graph, string.symbol.as_str(), Vec::new());
        assert(strings_view(Seq::<String>::empty()) =~= Seq::<Seq<char>>::empty());
        assert(string_nodes(program).subrange(0, i + 1) =~= string_nodes(program).subrange(
            0,
            i as int,
        ).push(string_nodes(program)[i as int]));
        assert(done + string_nodes(program).subrange(0, i + 1) =~= (done + string_nodes(
            program,
        ).subrange(0, i as int)).push(string_nodes(program)[i as int]));
        i = i + 1;
    }
    proof {
        assert(string_nodes(program).subrange(0, program.runtime_trace.strings@.len() as int) =~= string_nodes(program));
        done = done + string_nodes(program);
    }
    let mut i: usize = 0;
    while i < program.runtime_trace.contexts.len()
        invariant
            i <= program.runtime_trace.contexts@.len(),
            graph_view(graph@) == done + context_nodes(program).subrange(0, i as int),
        decreases program.runtime_trace.contexts@.len() - i,
    {
        let context = &program.runtime_trace.contexts[i];
        let mut dependencies: Vec<String> = Vec::new();
        dependencies.push(context.name_symbol.clone());
        dependencies.push(context.path_symbol.clone());
        assert(strings_view(dependencies@) =~= seq![context.name_symbol@, context.path_symbol@]);
        insert_artifact(&mut graph, context.symbol.as_str(), dependencies);
        assert(context_nodes(program).subrange(0, i + 1) =~= context_nodes(program).subrange(
            0,
            i as int,
        ).push(context_nodes(program)[i as int]));
        assert(done + context_nodes(program).subrange(0, i + 1) =~= (done + context_nodes(
            program,
        ).subrange(0, i as int)).push(context_nodes(program)[i as int]));
        i = i + 1;
    }
    proof {
        assert(context_nodes(program).subrange(0, program.runtime_trace.contexts@.len() as int) =~= context_nodes(program));
        done = done + context_nodes(program);
    }
    let mut i: usize = 0;
    while i < program.runtime_trace.locations.len()
        invariant
            i <= program.runtime_trace.locations@.len(),
            graph_view(graph@) == done + location_nodes(program).subrange(0, i as int),
        decreases program.runtime_trace.locations@.len() - i,
    {
        let location = &program.runtime_trace.locations[i];
        let mut dependencies: Vec<String> = Vec::new();
        dependencies.push(location.context_symbol.clone());
        assert(strings_view(dependencies@) =~= seq![location.context_symbol@]);
        insert_artifact(&mut graph, location.symbol.as_str(), dependencies);
        assert(location_nodes(program).subrange(0, i + 1) =~= location_nodes(program).subrange(
            0,
            i as int,
        ).push(location_nodes(program)[i as int]));
        assert(done + location_nodes(program).subrange(0, i + 1) =~= (done + location_nodes(
            program,
        ).subrange(0, i as int)).push(location_nodes(program)[i as int]));
        i = i + 1;
    }
    proof {
        assert(location_nodes(program).subrange(0, program.runtime_trace.locations@.len() as int) =~= location_nodes(program));
    }
    graph
}


/// The symbols reached from the roots by following references at most
/// `steps` times.
pub open spec fn reached_within(
    graph: Seq<(Seq<char>, Seq<Seq<char>>)>,
    roots: Seq<Seq<char>>,
    steps: nat,
) -> Set<Seq<char>>
    decreases steps,
{
    if steps == 0 {
        roots.to_set()
    } else {
        let previous = reached_within(graph, roots, (steps - 1) as nat);
        previous.union(
            Set::new(
                |symbol: Seq<char>|
                    exists|k: int, j: int|
                        0 <= k < graph.len() && previous.contains(graph[k].0) && 0 <= j
                            < graph[k].1.len() && graph[k].1[j] == symbol,
            ),
        )
    }
}

/// A symbol is reachable when some chain of references leads to it from a
/// root.
pub open spec fn is_reachable(
    graph: Seq<(Seq<char>, Seq<Seq<char>>)>,
    roots: Seq<Seq<char>>,
    symbol: Seq<char>,
) -> bool {
    exists|steps: nat| #[trigger] reached_within(graph, roots, steps).contains(symbol)
}

/// No two artifacts share a symbol.
pub open spec fn symbols_distinct(graph: Seq<(Seq<char>, Seq<Seq<char>>)>) -> bool {
    forall|a: int, b: int|
        0 <= a < graph.len() && 0 <= b < graph.len() && a != b ==> graph[a].0 != graph[b].0
}

/// The symbols of the exported functions, in order.
pub open spec fn spec_exported(functions: Seq<crate::machine::AssemblyFunction>) -> Seq<Seq<char>>
    decreases functions.len(),
{
    if functions.len() == 0 {
        Seq::empty()
    } else {
        let rest = spec_exported(functions.drop_last());
        if functions.last().exported {
            rest.push(functions.last().symbol@)
        } else {
            rest
        }
    }
}

/// For each artifact of the program, in section order, whether an
/// exported function reaches it.
pub open spec fn spec_retained(program: &AssemblyProgram) -> Seq<bool> {
    let graph = spec_dependency_graph(program);
    let roots = spec_exported(program.functions@);
    Seq::new(graph.len(), |k: int| is_reachable(graph, roots, graph[k].0))
}

/// The items whose flag is set, in order.
pub open spec fn kept<T>(items: Seq<T>, flags: Seq<bool>) -> Seq<T>
    decreases items.len(),
{
    if items.len() == 0 {
        Seq::empty()
    } else {
        let rest = kept(items.drop_last(), flags);
        if flags[items.len() - 1] {
            rest.push(items.last())
        } else {
            rest
        }
    }
}

/// Every root is reachable, and whatever a reachable artifact refers to is
/// reachable too.
pub proof fn lemma_reachability_closed(
    graph: Seq<(Seq<char>, Seq<Seq<char>>)>,
    roots: Seq<Seq<char>>,
    k: int,
    j: int,
)
    requires
        0 <= k < graph.len(),
        0 <= j < graph[k].1.len(),
    ensures
        forall|r: int| 0 <= r < roots.len() ==> is_reachable(graph, roots, #[trigger] roots[r]),
        is_reachable(graph, roots, graph[k].0) ==> is_reachable(graph, roots, graph[k].1[j]),
{
    lemma_roots_reachable(graph, roots);
    if is_reachable(graph, roots, graph[k].0) {
        let steps = choose|steps: nat| #[trigger]
            reached_within(graph, roots, steps).contains(graph[k].0);
        assert(reached_within(graph, roots, steps + 1).contains(graph[k].1[j]));
    }
}

/// Every root is reachable.
pub proof fn lemma_roots_reachable(
    graph: Seq<(Seq<char>, Seq<Seq<char>>)>,
    roots: Seq<Seq<char>>,
)
    ensures
        forall|r: int| 0 <= r < roots.len() ==> is_reachable(graph, roots, #[trigger] roots[r]),
{
    assert forall|r: int| 0 <= r < roots.len() implies is_reachable(
        graph,
        roots,
        #[trigger] roots[r],
    ) by {
        assert(reached_within(graph, roots, 0).contains(roots[r]));
    }
}

/// The number of unset flags.
pub open spec fn unmarked(flags: Seq<bool>) -> nat
    decreases flags.len(),
{
    if flags.len() == 0 {
        0
    } else {
        unmarked(flags.drop_last()) + if flags.last() {
            0nat
        } else {
            1nat
        }
    }
}

/// Setting an unset flag leaves one fewer unset.
pub proof fn lemma_mark_decreases(flags: Seq<bool>, k: int)
    requires
        0 <= k < flags.len(),
        !flags[k],
    ensures
        unmarked(flags.update(k, true)) + 1 == unmarked(flags),
    decreases flags.len(),
{
    let updated = flags.update(k, true);
    if k == flags.len() - 1 {
        assert(updated.drop_last() =~= flags.drop_last());
    } else {
        assert(updated.drop_last() =~= flags.drop_last().update(k, true));
        lemma_mark_decreases(flags.drop_last(), k);
    }
}

/// Keeps the items whose flag, read from `offset` on, is set.
fn retain_flagged<T>(items: &mut Vec<T>, flags: &Vec<bool>, offset: usize)
    requires
        offset + old(items)@.len() <= flags@.len(),
    ensures
        final(items)@ == kept(
            old(items)@,
            flags@.subrange(offset as int, offset + old(items)@.len()),
        ),
{
    let mut taken: Vec<T> = Vec::new();
    std::mem::swap(items, &mut taken);
    let ghost taken_items = taken@;
    let ghost window = flags@.subrange(offset as int, offset + taken_items.len());
    let mut index: usize = offset;
    let mut position: usize = 0;
    let length = taken.len();
    let total = flags.len();
    for item in iter: taken.into_iter()
        invariant
            iter.seq() == taken_items,
            length == taken_items.len(),
            position == iter.index(),
            index == offset + position,
            offset + taken_items.len() <= flags@.len(),
            total == flags@.len(),
            window == flags@.subrange(offset as int, offset + taken_items.len()),
            items@ == kept(taken_items.take(position as int), window),
    {
        assert(taken_items.take(position + 1).drop_last() =~= taken_items.take(position as int));
        assert(taken_items.take(position + 1).last() == item);
        proof {
            lemma_kept_prefix(taken_items.take(position as int), window, taken_items.take(position + 1));
        }
        if flags[index] {
            items.push(item);
        }
        index = index + 1;
        position = position + 1;
    }
    assert(taken_items.take(taken_items.len() as int) =~= taken_items);
}

proof fn lemma_kept_prefix<T>(prefix: Seq<T>, flags: Seq<bool>, extended: Seq<T>)
    requires
        extended.len() == prefix.len() + 1,
        extended.drop_last() == prefix,
    ensures
        kept(extended, flags) == if flags[prefix.len() as int] {
            kept(prefix, flags).push(extended.last())
        } else {
            kept(prefix, flags)
        },
{
}

/// Finds the artifact with the given symbol.
fn find_artifact(graph: &Vec<ArtifactNode>, symbol: &String) -> (r: Option<usize>)
    ensures
        match r {
            Some(k) => k < graph@.len() && graph@[k as int].symbol@ == symbol@,
            None => forall|k: int| 0 <= k < graph@.len() ==> graph@[k].symbol@ != symbol@,
        },
{
    let mut k: usize = 0;
    while k < graph.len()
        invariant
            k <= graph@.len(),
            forall|m: int| 0 <= m < k ==> graph@[m].symbol@ != symbol@,
        decreases graph@.len() - k,
    {
        if graph[k].symbol == *symbol {
            return Some(k);
        }
        k = k + 1;
    }
    None
}

/// The symbols of the exported functions, in order.
fn exported_symbols(functions: &Vec<crate::machine::AssemblyFunction>) -> (r: Vec<String>)
    ensures
        strings_view(r@) == spec_exported(functions@),
{
    let mut roots: Vec<String> = Vec::new();
    let mut i: usize = 0;
    while i < functions.len()
        invariant
            i <= functions@.len(),
            strings_view(roots@) == spec_exported(functions@.take(i as int)),
        decreases functions@.len() - i,
    {
        assert(functions@.take((i + 1) as int).drop_last() =~= functions@.take(i as int));
        assert(functions@.take((i + 1) as int).last() == functions@[i as int]);
        let ghost before = roots@;
        if functions[i].exported {
            roots.push(functions[i].symbol.clone());
            assert(strings_view(roots@) =~= strings_view(before).push(functions@[i as int].symbol@));
        }
        i = i + 1;
    }
    assert(functions@.take(functions@.len() as int) =~= functions@);
    roots
}

proof fn lemma_reached_in_pending(
    graph: Seq<(Seq<char>, Seq<Seq<char>>)>,
    roots: Seq<Seq<char>>,
    pending: Seq<Seq<char>>,
    marked: Seq<bool>,
    steps: nat,
)
    requires
        marked.len() == graph.len(),
        forall|r: int| 0 <= r < roots.len() ==> pending.contains(#[trigger] roots[r]),
        forall|i: int, k: int|
            0 <= i < pending.len() && 0 <= k < graph.len() && graph[k].0 == #[trigger] pending[i]
                ==> #[trigger] marked[k],
        forall|k: int, j: int|
            0 <= k < graph.len() && marked[k] && 0 <= j < graph[k].1.len() ==> pending.contains(
                #[trigger] graph[k].1[j],
            ),
    ensures
        forall|symbol: Seq<char>|
            reached_within(graph, roots, steps).contains(symbol) ==> pending.contains(symbol),
    decreases steps,
{
    if steps == 0 {
        assert forall|symbol: Seq<char>|
            reached_within(graph, roots, steps).contains(symbol) implies pending.contains(
            symbol,
        ) by {
            let r = choose|r: int| 0 <= r < roots.len() && roots[r] == symbol;
        }
    } else {
        lemma_reached_in_pending(graph, roots, pending, marked, (steps - 1) as nat);
        let previous = reached_within(graph, roots, (steps - 1) as nat);
        assert forall|symbol: Seq<char>|
            reached_within(graph, roots, steps).contains(symbol) implies pending.contains(
            symbol,
        ) by {
            if !previous.contains(symbol) {
                let (k, j) = choose|k: int, j: int|
                    0 <= k < graph.len() && previous.contains(graph[k].0) && 0 <= j
                        < graph[k].1.len() && graph[k].1[j] == symbol;
                assert(previous.contains(graph[k].0));
                assert(pending.contains(graph[k].0));
                let i = choose|i: int| 0 <= i < pending.len() && pending[i] == graph[k].0;
                assert(marked[k]);
            }
        }
    }
}

/// `next` holds, section by section and in order, exactly the artifacts of
/// `program` that an exported function reaches.
pub open spec fn pruned(program: &AssemblyProgram, next: &AssemblyProgram) -> bool {
    let flags = spec_retained(program);
    let f = program.functions@.len() as int;
    let s = f + program.static_slots@.len();
    let t = s + program.dispatch_tables@.len();
    let b = t + program.literal_backings@.len();
    let m = b + program.panic_messages@.len();
    let g = m + program.runtime_trace.strings@.len();
    let c = g + program.runtime_trace.contexts@.len();
    let l = c + program.runtime_trace.locations@.len();
    &&& next.functions@ == kept(program.functions@, flags.subrange(0, f))
    &&& next.static_slots@ == kept(program.static_slots@, flags.subrange(f, s))
    &&& next.dispatch_tables@ == kept(
        program.dispatch_tables@,
        flags.subrange(s, t),
    )
    &&& next.literal_backings@ == kept(
        program.literal_backings@,
        flags.subrange(t, b),
    )
    &&& next.panic_messages@ == kept(
        program.panic_messages@,
        flags.subrange(b, m),
    )
    &&& next.runtime_trace.strings@ == kept(
        program.runtime_trace.strings@,
        flags.subrange(m, g),
    )
    &&& next.runtime_trace.contexts@ == kept(
        program.runtime_trace.contexts@,
        flags.subrange(g, c),
    )
    &&& next.runtime_trace.locations@ == kept(
        program.runtime_trace.locations@,
        flags.subrange(c, l),
    )
}

/// Removes every artifact that no chain of references reaches from an
/// exported function, keeping the order of each section.
pub fn retain_reachable(program: &mut AssemblyProgram)
    requires
        symbols_distinct(spec_dependency_graph(old(program))),
    ensures
        pruned(old(program), final(program)),
        symbols_distinct(spec_dependency_graph(final(program))),
        pruned(final(program), final(program)),
{
    let graph = dependency_graph(program);
    let ghost g = spec_dependency_graph(program);
    let mut pending = exported_symbols(&program.functions);
    let ghost roots = spec_exported(program.functions@);
    let mut marked: Vec<bool> = Vec::new();
    while marked.len() < graph.len()
        invariant
            marked@.len() <= graph@.len(),
            forall|k: int| 0 <= k < marked@.len() ==> !marked@[k],
        decreases graph@.len() - marked@.len(),
    {
        marked.push(false);
    }
    assert(graph_view(graph@).len() == graph@.len());
    proof {
        lemma_roots_reachable(g, roots);
        assert forall|i: int| 0 <= i < pending@.len() implies is_reachable(
            g,
            roots,
            #[trigger] pending@[i]@,
        ) by {
            assert(strings_view(pending@)[i] == roots[i]);
        }
        assert(strings_view(pending@).take(roots.len() as int) =~= roots);
    }
    let mut head: usize = 0;
    while head < pending.len()
        invariant
            graph_view(graph@) == g,
            symbols_distinct(g),
            marked@.len() == g.len(),
            head <= pending@.len(),
            strings_view(pending@).take(roots.len() as int) == roots,
            roots.len() <= pending@.len(),
            forall|i: int|
                0 <= i < pending@.len() ==> is_reachable(g, roots, #[trigger] pending@[i]@),
            forall|k: int| 0 <= k < g.len() && #[trigger] marked@[k] ==> is_reachable(g, roots, g[k].0),
            forall|i: int, k: int|
                0 <= i < head && 0 <= k < g.len() && g[k].0 == #[trigger] pending@[i]@
                    ==> #[trigger] marked@[k],
            forall|k: int, j: int|
                0 <= k < g.len() && marked@[k] && 0 <= j < g[k].1.len() ==> strings_view(
                    pending@,
                ).contains(#[trigger] g[k].1[j]),
        decreases unmarked(marked@), pending@.len() - head,
    {
        assert(graph_view(graph@).len() == graph@.len());
        let ghost marked_before = marked@;
        let ghost pending_before = pending@;
        let found = find_artifact(&graph, &pending[head]);
        match found {
            Some(k) => {
                assert(g[k as int] == node_view(graph@[k as int]));
                if !marked[k] {
                    proof {
                        lemma_mark_decreases(marked@, k as int);
                    }
                    marked.set(k, true);
                    let ghost before = pending@;
                    let ghost source = pending@[head as int]@;
                    let dependencies = &graph[k].dependencies;
                    let mut j: usize = 0;
                    while j < dependencies.len()
                        invariant
                            j <= dependencies@.len(),
                            k < g.len(),
                            g[k as int].1 == strings_view(dependencies@),
                            g[k as int].0 == source,
                            is_reachable(g, roots, source),
                            pending@.len() == before.len() + j,
                            forall|i: int| 0 <= i < before.len() ==> pending@[i] == before[i],
                            forall|i: int|
                                0 <= i < j ==> pending@[before.len() + i]@ == g[k as int].1[i],
                            forall|i: int|
                                0 <= i < pending@.len() ==> is_reachable(
                                    g,
                                    roots,
                                    #[trigger] pending@[i]@,
                                ),
                            forall|i: int|
                                0 <= i < before.len() ==> is_reachable(
                                    g,
                                    roots,
                                    #[trigger] before[i]@,
                                ),
                        decreases dependencies@.len() - j,
                    {
                        proof {
                            lemma_reachability_closed(g, roots, k as int, j as int);
                        }
                        pending.push(dependencies[j].clone());
                        j = j + 1;
                    }
                    proof {
                        assert forall|i: int| 0 <= i < before.len() implies #[trigger] strings_view(
                            pending@,
                        )[i] == strings_view(before)[i] by {}
                        assert(strings_view(pending@).take(roots.len() as int) =~= strings_view(
                            before,
                        ).take(roots.len() as int));
                        assert forall|kk: int, jj: int|
                            0 <= kk < g.len() && marked@[kk] && 0 <= jj < g[kk].1.len()
                                implies strings_view(pending@).contains(#[trigger] g[kk].1[jj]) by {
                            if kk == k {
                                assert(strings_view(pending@)[before.len() + jj] == g[kk].1[jj]);
                            } else {
                                let i = choose|i: int|
                                    0 <= i < strings_view(before).len() && strings_view(before)[i]
                                        == g[kk].1[jj];
                                assert(strings_view(pending@)[i] == g[kk].1[jj]);
                            }
                        }
                    }
                }
            },
            None => {},
        }
        proof {
            assert forall|kk: int| 0 <= kk < g.len() && marked_before[kk] implies marked@[kk] by {}
            assert forall|i: int| 0 <= i < pending_before.len() implies pending@[i]
                == pending_before[i] by {}
            assert forall|i: int, kk: int|
                0 <= i < head + 1 && 0 <= kk < g.len() && g[kk].0
                    == #[trigger] pending@[i]@ implies #[trigger] marked@[kk] by {
                if i < head {
                    assert(pending@[i] == pending_before[i]);
                    assert(marked_before[kk]);
                } else {
                    assert(g[kk] == node_view(graph@[kk]));
                    match found {
                        Some(k) => {
                            assert(g[k as int] == node_view(graph@[k as int]));
                            assert(kk == k);
                        },
                        None => {},
                    }
                }
            }
        }
        head = head + 1;
    }
    proof {
        assert forall|r: int| 0 <= r < roots.len() implies strings_view(pending@).contains(
            #[trigger] roots[r],
        ) by {
            assert(strings_view(pending@)[r] == roots[r]);
        }
        lemma_marked_iff_reachable(g, roots, strings_view(pending@), marked@);
    }
    let f = program.functions.len();
    let s = f + program.static_slots.len();
    let t = s + program.dispatch_tables.len();
    let b = t + program.literal_backings.len();
    let m = b + program.panic_messages.len();
    let gs = m + program.runtime_trace.strings.len();
    let c = gs + program.runtime_trace.contexts.len();
    proof {
        lemma_section_lengths(program);
    }
    retain_flagged(&mut program.functions, &marked, 0);
    retain_flagged(&mut program.static_slots, &marked, f);
    retain_flagged(&mut program.dispatch_tables, &marked, s);
    retain_flagged(&mut program.literal_backings, &marked, t);
    retain_flagged(&mut program.panic_messages, &marked, b);
    retain_flagged(&mut program.runtime_trace.strings, &marked, m);
    retain_flagged(&mut program.runtime_trace.contexts, &marked, gs);
    retain_flagged(&mut program.runtime_trace.locations, &marked, c);
    proof {
        lemma_pruned_fixed(&*old(program), &*program);
    }
}

proof fn lemma_section_lengths(program: &AssemblyProgram)
    ensures
        spec_dependency_graph(program).len() == program.functions@.len()
            + program.static_slots@.len() + program.dispatch_tables@.len()
            + program.literal_backings@.len() + program.panic_messages@.len()
            + program.runtime_trace.strings@.len() + program.runtime_trace.contexts@.len()
            + program.runtime_trace.locations@.len(),
{
}

proof fn lemma_marked_iff_reachable(
    g: Seq<(Seq<char>, Seq<Seq<char>>)>,
    roots: Seq<Seq<char>>,
    pending: Seq<Seq<char>>,
    marked: Seq<bool>,
)
    requires
        marked.len() == g.len(),
        forall|r: int| 0 <= r < roots.len() ==> pending.contains(#[trigger] roots[r]),
        forall|k: int| 0 <= k < g.len() && #[trigger] marked[k] ==> is_reachable(g, roots, g[k].0),
        forall|i: int, k: int|
            0 <= i < pending.len() && 0 <= k < g.len() && g[k].0 == #[trigger] pending[i]
                ==> #[trigger] marked[k],
        forall|k: int, j: int|
            0 <= k < g.len() && marked[k] && 0 <= j < g[k].1.len() ==> pending.contains(
                #[trigger] g[k].1[j],
            ),
    ensures
        marked == Seq::new(g.len(), |k: int| is_reachable(g, roots, g[k].0)),
{
    assert forall|k: int| 0 <= k < g.len() implies marked[k] == is_reachable(
        g,
        roots,
        g[k].0,
    ) by {
        if is_reachable(g, roots, g[k].0) {
            let steps = choose|steps: nat| #[trigger]
                reached_within(g, roots, steps).contains(g[k].0);
            lemma_reached_in_pending(g, roots, pending, marked, steps);
            assert(pending.contains(g[k].0));
            let i = choose|i: int| 0 <= i < pending.len() && pending[i] == g[k].0;
        }
    }
    assert(marked =~= Seq::new(g.len(), |k: int| is_reachable(g, roots, g[k].0)));
}

/// Keeping only reads the flags of the items' own positions.
proof fn lemma_kept_flags<T>(items: Seq<T>, a: Seq<bool>, b: Seq<bool>)
    requires
        forall|i: int| 0 <= i < items.len() ==> a[i] == b[i],
    ensures
        kept(items, a) == kept(items, b),
    decreases items.len(),
{
    if items.len() > 0 {
        lemma_kept_flags(items.drop_last(), a, b);
    }
}

/// Keeping with every flag set keeps every item.
proof fn lemma_kept_all<T>(items: Seq<T>, flags: Seq<bool>)
    requires
        forall|i: int| 0 <= i < items.len() ==> #[trigger] flags[i],
    ensures
        kept(items, flags) == items,
    decreases items.len(),
{
    if items.len() > 0 {
        lemma_kept_all(items.drop_last(), flags);
        assert(items.drop_last().push(items.last()) =~= items);
    }
}

/// Keeping commutes with mapping the items.
proof fn lemma_kept_map<T, U>(items: Seq<T>, flags: Seq<bool>, f: spec_fn(T) -> U)
    ensures
        kept(items, flags).map_values(f) == kept(items.map_values(f), flags),
    decreases items.len(),
{
    if items.len() > 0 {
        lemma_kept_map(items.drop_last(), flags, f);
        assert(items.map_values(f).drop_last() =~= items.drop_last().map_values(f));
        let rest = kept(items.drop_last(), flags);
        assert(rest.push(items.last()).map_values(f) =~= rest.map_values(f).push(f(items.last())));
    }
}

/// Keeping two sections one after the other keeps their concatenation.
proof fn lemma_kept_concat<T>(a: Seq<T>, fa: Seq<bool>, b: Seq<T>, fb: Seq<bool>)
    requires
        fa.len() == a.len(),
        fb.len() >= b.len(),
    ensures
        kept(a + b, fa + fb) == kept(a, fa) + kept(b, fb),
    decreases b.len(),
{
    if b.len() == 0 {
        assert(a + b =~= a);
        lemma_kept_flags(a, fa + fb, fa);
        assert(kept(a, fa) + kept(b, fb) =~= kept(a, fa));
    } else {
        lemma_kept_concat(a, fa, b.drop_last(), fb);
        assert((a + b).drop_last() =~= a + b.drop_last());
        assert((fa + fb)[(a + b).len() - 1] == fb[b.len() - 1]);
        let rest = kept(b.drop_last(), fb);
        assert((kept(a, fa) + rest).push(b.last()) =~= kept(a, fa) + rest.push(b.last()));
    }
}

/// Every kept item is a flagged item, and every flagged item is kept.
/// The flagged item at position `k` is kept.
pub open spec fn kept_target<T>(items: Seq<T>, flags: Seq<bool>, k: int) -> bool {
    exists|i: int| 0 <= i < kept(items, flags).len() && #[trigger] kept(items, flags)[i] == items[k]
}

/// Position `i` of the kept items holds a flagged item.
pub open spec fn kept_source<T>(items: Seq<T>, flags: Seq<bool>, i: int) -> bool {
    exists|k: int| 0 <= k < items.len() && flags[k] && #[trigger] items[k] == kept(items, flags)[i]
}

proof fn lemma_kept_members<T>(items: Seq<T>, flags: Seq<bool>)
    ensures
        forall|i: int| 0 <= i < kept(items, flags).len() ==> #[trigger] kept_source(items, flags, i),
        forall|k: int| 0 <= k < items.len() && flags[k] ==> #[trigger] kept_target(items, flags, k),
        kept(items, flags).len() <= items.len(),
    decreases items.len(),
{
    if items.len() > 0 {
        let earlier = items.drop_last();
        let rest = kept(earlier, flags);
        lemma_kept_members(earlier, flags);
        let last = items.len() - 1;
        assert forall|i: int| 0 <= i < kept(items, flags).len() implies #[trigger] kept_source(items, flags, i) by {
            if i < rest.len() {
                assert(kept(items, flags)[i] == rest[i]);
                assert(kept_source(earlier, flags, i));
                let k = choose|k: int| 0 <= k < earlier.len() && flags[k] && #[trigger] earlier[k] == kept(earlier, flags)[i];
                assert(earlier[k] == items[k]);
            } else {
                assert(kept(items, flags)[i] == items[last]);
            }
        }
        assert forall|k: int| 0 <= k < items.len() && flags[k] implies #[trigger] kept_target(items, flags, k) by {
            if k < last {
                assert(earlier[k] == items[k]);
                assert(kept_target(earlier, flags, k));
                let i = choose|i: int| 0 <= i < kept(earlier, flags).len() && #[trigger] kept(earlier, flags)[i] == earlier[k];
                assert(kept(items, flags)[i] == rest[i]);
            } else {
                assert(kept(items, flags)[rest.len() as int] == items[k]);
            }
        }
        assert(kept(items, flags).len() <= items.len());
    } else {
        assert(kept(items, flags).len() == 0);
    }
}

/// Keeping some artifacts of a graph with distinct symbols leaves the
/// symbols distinct.
proof fn lemma_kept_distinct(graph: Seq<(Seq<char>, Seq<Seq<char>>)>, flags: Seq<bool>)
    requires
        symbols_distinct(graph),
    ensures
        symbols_distinct(kept(graph, flags)),
    decreases graph.len(),
{
    if graph.len() > 0 {
        let earlier = graph.drop_last();
        assert(symbols_distinct(earlier)) by {
            assert forall|a: int, b: int|
                0 <= a < earlier.len() && 0 <= b < earlier.len() && a != b implies earlier[a].0
                != earlier[b].0 by {
                assert(earlier[a] == graph[a] && earlier[b] == graph[b]);
            }
        }
        lemma_kept_distinct(earlier, flags);
        lemma_kept_members(earlier, flags);
        let rest = kept(earlier, flags);
        let last = graph.len() - 1;
        if flags[last] {
            let all = rest.push(graph[last]);
            assert forall|a: int, b: int|
                0 <= a < all.len() && 0 <= b < all.len() && a != b implies all[a].0 != all[b].0 by {
                if a < rest.len() && b < rest.len() {
                    assert(all[a] == rest[a] && all[b] == rest[b]);
                } else if a < rest.len() {
                    assert(kept_source(earlier, flags, a));
                    let k = choose|k: int| 0 <= k < earlier.len() && flags[k] && #[trigger] earlier[k] == kept(earlier, flags)[a];
                    assert(earlier[k] == graph[k]);
                } else if b < rest.len() {
                    assert(kept_source(earlier, flags, b));
                    let k = choose|k: int| 0 <= k < earlier.len() && flags[k] && #[trigger] earlier[k] == kept(earlier, flags)[b];
                    assert(earlier[k] == graph[k]);
                }
            }
        }
    }
}

/// An exported function's symbol is a root.
proof fn lemma_exported_root(functions: Seq<crate::machine::AssemblyFunction>, k: int)
    requires
        0 <= k < functions.len(),
        functions[k].exported,
    ensures
        spec_exported(functions).contains(functions[k].symbol@),
    decreases functions.len(),
{
    let rest = spec_exported(functions.drop_last());
    if k < functions.len() - 1 {
        lemma_exported_root(functions.drop_last(), k);
        assert(functions.drop_last()[k] == functions[k]);
        if functions.last().exported {
            let i = choose|i: int| 0 <= i < rest.len() && rest[i] == functions[k].symbol@;
            assert(rest.push(functions.last().symbol@)[i] == rest[i]);
        }
    } else {
        assert(rest.push(functions.last().symbol@)[rest.len() as int] == functions[k].symbol@);
    }
}

/// Keeping every exported function keeps the roots.
proof fn lemma_kept_roots(functions: Seq<crate::machine::AssemblyFunction>, flags: Seq<bool>)
    requires
        forall|k: int| 0 <= k < functions.len() && (#[trigger] functions[k]).exported ==> flags[k],
    ensures
        spec_exported(kept(functions, flags)) == spec_exported(functions),
    decreases functions.len(),
{
    if functions.len() > 0 {
        let earlier = functions.drop_last();
        assert forall|k: int| 0 <= k < earlier.len() && (#[trigger] earlier[k]).exported implies flags[k] by {
            assert(earlier[k] == functions[k]);
        }
        lemma_kept_roots(earlier, flags);
        let rest = kept(earlier, flags);
        if flags[functions.len() - 1] {
            assert(rest.push(functions.last()).drop_last() =~= rest);
        }
    }
}

/// What a graph reaches, a graph that holds every reachable artifact of it
/// reaches too.
proof fn lemma_reached_transfer(
    graph: Seq<(Seq<char>, Seq<Seq<char>>)>,
    other: Seq<(Seq<char>, Seq<Seq<char>>)>,
    roots: Seq<Seq<char>>,
    steps: nat,
)
    requires
        forall|k: int|
            0 <= k < graph.len() && is_reachable(graph, roots, #[trigger] graph[k].0) ==> exists|o: int|
                0 <= o < other.len() && other[o] == graph[k],
    ensures
        reached_within(graph, roots, steps).subset_of(reached_within(other, roots, steps)),
    decreases steps,
{
    if steps > 0 {
        let previous = reached_within(graph, roots, (steps - 1) as nat);
        let mirrored = reached_within(other, roots, (steps - 1) as nat);
        lemma_reached_transfer(graph, other, roots, (steps - 1) as nat);
        assert forall|symbol: Seq<char>| #[trigger] reached_within(graph, roots, steps).contains(
            symbol,
        ) implies reached_within(other, roots, steps).contains(symbol) by {
            if !previous.contains(symbol) {
                let (k, j) = choose|k: int, j: int|
                    0 <= k < graph.len() && previous.contains(graph[k].0) && 0 <= j
                        < graph[k].1.len() && graph[k].1[j] == symbol;
                assert(is_reachable(graph, roots, graph[k].0));
                let o = choose|o: int| 0 <= o < other.len() && other[o] == graph[k];
                assert(mirrored.contains(other[o].0));
                assert(other[o].1[j] == symbol);
            }
        }
    }
}

/// The dependency graph of a pruned program is the flagged part of the
/// original graph, with the same roots.
proof fn lemma_pruned_graph(program: &AssemblyProgram, next: &AssemblyProgram)
    requires
        pruned(program, next),
    ensures
        spec_dependency_graph(next) == kept(spec_dependency_graph(program), spec_retained(program)),
        spec_exported(next.functions@) == spec_exported(program.functions@),
{
    let flags = spec_retained(program);
    let g = spec_dependency_graph(program);
    lemma_section_lengths(program);
    let f = program.functions@.len() as int;
    let s = f + program.static_slots@.len();
    let t = s + program.dispatch_tables@.len();
    let b = t + program.literal_backings@.len();
    let m = b + program.panic_messages@.len();
    let gs = m + program.runtime_trace.strings@.len();
    let c = gs + program.runtime_trace.contexts@.len();
    let l = c + program.runtime_trace.locations@.len();
    let nf = |function: crate::machine::AssemblyFunction|
        (function.symbol@, spec_instruction_symbols(function.instructions@));
    let ns = |slot: crate::machine::AssemblyStaticSlot| (slot.symbol@, Seq::<Seq<char>>::empty());
    let nt = |table: crate::machine::AssemblyDispatchTable|
        (table.symbol@, spec_present_entries(table.entries@));
    let nb = |backing: crate::machine::AssemblyLiteralBacking|
        (backing.symbol@, seq![backing.metadata_symbol@]);
    let nm = |message: crate::machine::AssemblyPanicMessage|
        (message.symbol@, Seq::<Seq<char>>::empty());
    let nstr = |string: crate::machine::AssemblyTraceByteString|
        (string.symbol@, Seq::<Seq<char>>::empty());
    let nc = |context: crate::machine::AssemblyTraceContext|
        (context.symbol@, seq![context.name_symbol@, context.path_symbol@]);
    let nl = |location: crate::machine::AssemblyTraceLocation|
        (location.symbol@, seq![location.context_symbol@]);
    let ff = flags.subrange(0, f);
    let fs = flags.subrange(f, s);
    let ft = flags.subrange(s, t);
    let fb = flags.subrange(t, b);
    let fm = flags.subrange(b, m);
    let fg = flags.subrange(m, gs);
    let fc = flags.subrange(gs, c);
    let fl = flags.subrange(c, l);
    lemma_kept_map(program.functions@, ff, nf);
    lemma_kept_map(program.static_slots@, fs, ns);
    lemma_kept_map(program.dispatch_tables@, ft, nt);
    lemma_kept_map(program.literal_backings@, fb, nb);
    lemma_kept_map(program.panic_messages@, fm, nm);
    lemma_kept_map(program.runtime_trace.strings@, fg, nstr);
    lemma_kept_map(program.runtime_trace.contexts@, fc, nc);
    lemma_kept_map(program.runtime_trace.locations@, fl, nl);
    assert(function_nodes(next) =~= kept(function_nodes(program), ff));
    assert(slot_nodes(next) =~= kept(slot_nodes(program), fs));
    assert(table_nodes(next) =~= kept(table_nodes(program), ft));
    assert(backing_nodes(next) =~= kept(backing_nodes(program), fb));
    assert(message_nodes(next) =~= kept(message_nodes(program), fm));
    assert(string_nodes(next) =~= kept(string_nodes(program), fg));
    assert(context_nodes(next) =~= kept(context_nodes(program), fc));
    assert(location_nodes(next) =~= kept(location_nodes(program), fl));
    let p1 = function_nodes(program);
    let p2 = p1 + slot_nodes(program);
    let p3 = p2 + table_nodes(program);
    let p4 = p3 + backing_nodes(program);
    let p5 = p4 + message_nodes(program);
    let p6 = p5 + string_nodes(program);
    let p7 = p6 + context_nodes(program);
    lemma_kept_concat(p1, ff, slot_nodes(program), fs);
    lemma_kept_concat(p2, ff + fs, table_nodes(program), ft);
    lemma_kept_concat(p3, ff + fs + ft, backing_nodes(program), fb);
    lemma_kept_concat(p4, ff + fs + ft + fb, message_nodes(program), fm);
    lemma_kept_concat(p5, ff + fs + ft + fb + fm, string_nodes(program), fg);
    lemma_kept_concat(p6, ff + fs + ft + fb + fm + fg, context_nodes(program), fc);
    lemma_kept_concat(p7, ff + fs + ft + fb + fm + fg + fc, location_nodes(program), fl);
    assert(ff + fs + ft + fb + fm + fg + fc + fl =~= flags);
    assert forall|k: int| 0 <= k < program.functions@.len() && (
    #[trigger] program.functions@[k]).exported implies ff[k] by {
        lemma_exported_root(program.functions@, k);
        let roots = spec_exported(program.functions@);
        let r = choose|r: int| 0 <= r < roots.len() && roots[r] == program.functions@[k].symbol@;
        lemma_roots_reachable(g, roots);
        assert(is_reachable(g, roots, roots[r]));
        assert(g[k] == p1[k]);
    }
    lemma_kept_roots(program.functions@, ff);
}

/// A pruned program is its own pruning: every artifact that survives is
/// reachable from the exported functions of the result, and the symbols
/// stay distinct.
pub proof fn lemma_pruned_fixed(program: &AssemblyProgram, once: &AssemblyProgram)
    requires
        symbols_distinct(spec_dependency_graph(program)),
        pruned(program, once),
    ensures
        symbols_distinct(spec_dependency_graph(once)),
        pruned(once, once),
{
    let g = spec_dependency_graph(program);
    let flags = spec_retained(program);
    let roots = spec_exported(program.functions@);
    lemma_pruned_graph(program, once);
    let h = spec_dependency_graph(once);
    lemma_kept_distinct(g, flags);
    lemma_kept_members(g, flags);
    assert forall|k: int| 0 <= k < g.len() && is_reachable(g, roots, #[trigger] g[k].0) implies exists|o: int|
        0 <= o < h.len() && h[o] == g[k] by {
        assert(flags[k]);
        assert(kept_target(g, flags, k));
        let i = choose|i: int| 0 <= i < kept(g, flags).len() && #[trigger] kept(g, flags)[i] == g[k];
        assert(h[i] == g[k]);
    }
    let again = spec_retained(once);
    assert forall|o: int| 0 <= o < again.len() implies #[trigger] again[o] by {
        assert(kept_source(g, flags, o));
        let k = choose|k: int| 0 <= k < g.len() && flags[k] && #[trigger] g[k] == kept(g, flags)[o];
        assert(is_reachable(g, roots, g[k].0));
        let steps = choose|steps: nat| #[trigger] reached_within(g, roots, steps).contains(g[k].0);
        lemma_reached_transfer(g, h, roots, steps);
        assert(reached_within(h, roots, steps).contains(h[o].0));
    }
    lemma_section_lengths(once);
    let f = once.functions@.len() as int;
    let s = f + once.static_slots@.len();
    let t = s + once.dispatch_tables@.len();
    let b = t + once.literal_backings@.len();
    let m = b + once.panic_messages@.len();
    let gs = m + once.runtime_trace.strings@.len();
    let c = gs + once.runtime_trace.contexts@.len();
    let l = c + once.runtime_trace.locations@.len();
    lemma_kept_all(once.functions@, again.subrange(0, f));
    lemma_kept_all(once.static_slots@, again.subrange(f, s));
    lemma_kept_all(once.dispatch_tables@, again.subrange(s, t));
    lemma_kept_all(once.literal_backings@, again.subrange(t, b));
    lemma_kept_all(once.panic_messages@, again.subrange(b, m));
    lemma_kept_all(once.runtime_trace.strings@, again.subrange(m, gs));
    lemma_kept_all(once.runtime_trace.contexts@, again.subrange(gs, c));
    lemma_kept_all(once.runtime_trace.locations@, again.subrange(c, l));
}


/// Pruning a pruned program changes nothing: a second pruning keeps each
/// section as it is.
pub proof fn lemma_pruning_idempotent(
    program: &AssemblyProgram,
    once: &AssemblyProgram,
    twice: &AssemblyProgram,
)
    requires
        symbols_distinct(spec_dependency_graph(program)),
        pruned(program, once),
        pruned(once, twice),
    ensures
        symbols_distinct(spec_dependency_graph(once)),
        twice.functions@ == once.functions@,
        twice.static_slots@ == once.static_slots@,
        twice.dispatch_tables@ == once.dispatch_tables@,
        twice.literal_backings@ == once.literal_backings@,
        twice.panic_messages@ == once.panic_messages@,
        twice.runtime_trace.strings@ == once.runtime_trace.strings@,
        twice.runtime_trace.contexts@ == once.runtime_trace.contexts@,
        twice.runtime_trace.locations@ == once.runtime_trace.locations@,
{
    lemma_pruned_fixed(program, once);
}

} // verus!
