//! From the flat list of an intent to a CSG tree.
//!
//! The list is read twice. The first reading enters every primitive into a
//! table under its id. The second resolves every operation: it looks up the
//! target and the operand in the table and enters the combined node under
//! the operation's own id, so that later operations can refer to it. The
//! tree of the intent is the table's entry for the last item of the list.

use vstd::prelude::*;
use vstd::string::*;
use crate::compiler::csg_tree::{
    intersect_node, primitive_node, subtract_node, union_node, CsgNode, CsgTree,
};
use crate::errors::{join3, ErrorCode, Fault, KernelError, KernelResult};
use crate::string_map::StringMap;
use crate::types::{GeometryIR, Intent, OperationIntent, OperationType, PrimitiveIntent};

verus! {

/// Why an intent has no tree.
pub enum ParseFault {
    /// The intent lists nothing.
    NoOperations,
    /// An operation names a target that is not in the table.
    TargetMissing { target: Seq<char>, operation: Seq<char> },
    /// A boolean operation names no operand.
    OperandMissing { kind: OperationType, operation: Seq<char> },
    /// A boolean operation names an operand that is not in the table.
    OperandUnknown { kind: OperationType, operand: Seq<char>, operation: Seq<char> },
}

/// The name of a boolean operation at the start of a sentence.
pub open spec fn capital_name(kind: OperationType) -> Seq<char> {
    match kind {
        OperationType::Union => "Union"@,
        OperationType::Subtract => "Subtract"@,
        _ => "Intersect"@,
    }
}

/// The words for an operand that was not found.
pub open spec fn operand_words(kind: OperationType) -> (Seq<char>, Seq<char>) {
    match kind {
        OperationType::Union => ("Operand '"@, "' not found in union operation '"@),
        OperationType::Subtract => ("Tool '"@, "' not found in subtract operation '"@),
        _ => ("Operand '"@, "' not found in intersect operation '"@),
    }
}

impl ParseFault {
    /// What the error says.
    pub open spec fn message(self) -> Seq<char> {
        match self {
            ParseFault::NoOperations => "No operations in intent"@,
            ParseFault::TargetMissing { target, operation } => "Target '"@ + target
                + "' not found in operation '"@ + operation + "'"@,
            ParseFault::OperandMissing { kind, operation } => capital_name(kind)
                + " operation '"@ + operation + "' missing operand"@,
            ParseFault::OperandUnknown { kind, operand, operation } => operand_words(kind).0
                + operand + operand_words(kind).1 + operation + "'"@,
        }
    }
}

impl ParseFault {
    /// The fault as an error reports it: an invalid intent.
    pub open spec fn fault(self) -> Fault {
        Fault { code: ErrorCode::InvalidIntent, message: self.message() }
    }
}

/// The node that a primitive intent asks for.
pub open spec fn primitive_tree(primitive: PrimitiveIntent) -> CsgTree {
    CsgTree::Primitive {
        id: primitive.id@,
        type_: primitive.type_,
        params: primitive.parameters@,
        transform: primitive.transform,
    }
}

/// The table after the first reading: every primitive under its id, a
/// later one in place of an earlier one of the same id.
pub open spec fn primitives_table(operations: Seq<Intent>) -> Map<Seq<char>, CsgTree>
    decreases operations.len(),
{
    if operations.len() == 0 {
        Map::empty()
    } else {
        let table = primitives_table(operations.drop_last());
        match operations.last() {
            Intent::Primitive(primitive) => table.insert(primitive.id@, primitive_tree(primitive)),
            Intent::Operation(_) => table,
        }
    }
}

/// Whether the operation combines two solids.
pub open spec fn is_boolean(kind: OperationType) -> bool {
    kind == OperationType::Union || kind == OperationType::Subtract || kind
        == OperationType::Intersect
}

/// The node that an operation stands for, given the table so far. Fillet,
/// hole and chamfer pass their target through as it is.
pub open spec fn resolve(table: Map<Seq<char>, CsgTree>, operation: OperationIntent) -> Result<
    CsgTree,
    ParseFault,
> {
    if !table.contains_key(operation.target@) {
        Err(ParseFault::TargetMissing { target: operation.target@, operation: operation.id@ })
    } else if !is_boolean(operation.type_) {
        Ok(table[operation.target@])
    } else {
        match operation.operand {
            None => Err(
                ParseFault::OperandMissing { kind: operation.type_, operation: operation.id@ },
            ),
            Some(operand) => if !table.contains_key(operand@) {
                Err(
                    ParseFault::OperandUnknown {
                        kind: operation.type_,
                        operand: operand@,
                        operation: operation.id@,
                    },
                )
            } else {
                let first = Box::new(table[operation.target@]);
                let second = Box::new(table[operand@]);
                Ok(
                    match operation.type_ {
                        OperationType::Union => CsgTree::Union { left: first, right: second },
                        OperationType::Subtract => CsgTree::Subtract { target: first, tool: second },
                        _ => CsgTree::Intersect { left: first, right: second },
                    },
                )
            },
        }
    }
}

/// The table after the second reading has come past the first `n` items,
/// or the fault at which it stopped.
pub open spec fn table_after(operations: Seq<Intent>, n: nat) -> Result<
    Map<Seq<char>, CsgTree>,
    ParseFault,
>
    decreases n,
{
    if n == 0 {
        Ok(primitives_table(operations))
    } else {
        match table_after(operations, (n - 1) as nat) {
            Err(fault) => Err(fault),
            Ok(table) => match operations[n - 1] {
                Intent::Primitive(_) => Ok(table),
                Intent::Operation(operation) => match resolve(table, operation) {
                    Err(fault) => Err(fault),
                    Ok(tree) => Ok(table.insert(operation.id@, tree)),
                },
            },
        }
    }
}

/// The id of an item.
pub open spec fn intent_id(intent: Intent) -> Seq<char> {
    match intent {
        Intent::Primitive(primitive) => primitive.id@,
        Intent::Operation(operation) => operation.id@,
    }
}

/// The tree of an intent, or why it has none.
pub open spec fn parsed(operations: Seq<Intent>) -> Result<CsgTree, ParseFault> {
    if operations.len() == 0 {
        Err(ParseFault::NoOperations)
    } else {
        match table_after(operations, operations.len()) {
            Err(fault) => Err(fault),
            Ok(table) => Ok(table[intent_id(operations.last())]),
        }
    }
}

/// The table of nodes stands for the table of trees.
pub open spec fn represents(nodes: Map<Seq<char>, CsgNode>, trees: Map<Seq<char>, CsgTree>) -> bool {
    &&& nodes.dom() == trees.dom()
    &&& forall|key: Seq<char>| #[trigger] nodes.contains_key(key) ==> nodes[key]@ == trees[key]
}

proof fn lemma_primitives_entered(operations: Seq<Intent>, i: int)
    requires
        0 <= i < operations.len(),
        operations[i] is Primitive,
    ensures
        primitives_table(operations).contains_key(intent_id(operations[i])),
    decreases operations.len(),
{
    if i < operations.len() - 1 {
        lemma_primitives_entered(operations.drop_last(), i);
    }
}

proof fn lemma_table_grows(operations: Seq<Intent>, n: nat, key: Seq<char>)
    requires
        table_after(operations, n) is Ok,
        primitives_table(operations).contains_key(key),
    ensures
        table_after(operations, n)->Ok_0.contains_key(key),
    decreases n,
{
    if n > 0 {
        lemma_table_grows(operations, (n - 1) as nat, key);
    }
}

proof fn lemma_operations_entered(operations: Seq<Intent>, n: nat, i: int)
    requires
        table_after(operations, n) is Ok,
        0 <= i < n,
        operations[i] is Operation,
    ensures
        table_after(operations, n)->Ok_0.contains_key(intent_id(operations[i])),
    decreases n,
{
    if i < n - 1 {
        lemma_operations_entered(operations, (n - 1) as nat, i);
    }
}

proof fn lemma_fault_stays(operations: Seq<Intent>, n: nat, m: nat)
    requires
        table_after(operations, n) is Err,
        n <= m,
    ensures
        table_after(operations, m) == table_after(operations, n),
    decreases m,
{
    if n < m {
        lemma_fault_stays(operations, n, (m - 1) as nat);
    }
}

/// Reads intents into CSG trees.
#[derive(Debug)]
pub struct IntentParser {
    node_map: StringMap<CsgNode>,
}

impl IntentParser {
    /// The nodes that the parser holds, under their ids.
    pub closed spec fn table(&self) -> Map<Seq<char>, CsgNode> {
        self.node_map@
    }

    /// A parser that holds no node yet.
    pub fn new() -> (parser: Self)
        ensures
            parser.table() == Map::<Seq<char>, CsgNode>::empty(),
    {
        IntentParser { node_map: StringMap::new() }
    }

    /// The tree of an intent. Every fault is an invalid intent.
    pub fn parse(&mut self, ir: &GeometryIR) -> (r: KernelResult<CsgNode>)
        ensures
            match r {
                Ok(node) => parsed(ir.operations@) == Ok::<CsgTree, ParseFault>(node@),
                Err(e) => parsed(ir.operations@) matches Err(fault) && e.is_plain(
                    ErrorCode::InvalidIntent,
                    fault.message(),
                ),
            },
    {
        self.node_map.clear();
        let ghost operations = ir.operations@;
        let n = ir.operations.len();
        if n == 0 {
            return Err(KernelError::invalid_intent("No operations in intent"));
        }
        let mut i: usize = 0;
        assert(operations.take(0) =~= Seq::<Intent>::empty());
        while i < n
            invariant
                n == operations.len(),
                operations == ir.operations@,
                i <= n,
                represents(self.node_map@, primitives_table(operations.take(i as int))),
            decreases n - i,
        {
            proof {
                assert(operations.take(i + 1).drop_last() == operations.take(i as int));
                assert(operations.take(i + 1).last() == operations[i as int]);
            }
            match &ir.operations[i] {
                Intent::Primitive(primitive) => {
                    self.parse_primitive(
                        primitive,
                        Ghost(primitives_table(operations.take(i as int))),
                    );
                },
                Intent::Operation(_) => {},
            }
            i += 1;
        }
        assert(operations.take(n as int) == operations);
        let mut k: usize = 0;
        while k < n
            invariant
                n == operations.len(),
                operations == ir.operations@,
                k <= n,
                table_after(operations, k as nat) matches Ok(table) && represents(
                    self.node_map@,
                    table,
                ),
            decreases n - k,
        {
            match &ir.operations[k] {
                Intent::Primitive(_) => {},
                Intent::Operation(operation) => {
                    let ghost table = table_after(operations, k as nat)->Ok_0;
                    match self.parse_operation(operation, Ghost(table)) {
                        Ok(()) => {},
                        Err(e) => {
                            proof {
                                lemma_fault_stays(operations, (k + 1) as nat, n as nat);
                            }
                            return Err(e);
                        },
                    }
                },
            }
            k += 1;
        }
        let last = &ir.operations[n - 1];
        let id = match last {
            Intent::Primitive(primitive) => primitive.id.as_str(),
            Intent::Operation(operation) => operation.id.as_str(),
        };
        proof {
            if last is Primitive {
                lemma_primitives_entered(operations, n - 1);
                lemma_table_grows(operations, n as nat, intent_id(operations[n - 1]));
            } else {
                lemma_operations_entered(operations, n as nat, n - 1);
            }
        }
        match self.node_map.get(id) {
            Some(node) => Ok(node.clone()),
            None => Err(KernelError::internal("Failed to find the last operation")),
        }
    }

    /// Enters a primitive into the table.
    fn parse_primitive(
        &mut self,
        primitive: &PrimitiveIntent,
        Ghost(table): Ghost<Map<Seq<char>, CsgTree>>,
    )
        requires
            represents(old(self).node_map@, table),
        ensures
            represents(
                final(self).node_map@,
                table.insert(primitive.id@, primitive_tree(*primitive)),
            ),
    {
        let params = primitive.parameters.clone();
        assert(params@ =~= primitive.parameters@);
        let node = primitive_node(
            primitive.id.clone(),
            primitive.type_,
            params,
            primitive.transform,
        );
        self.node_map.insert(primitive.id.clone(), node);
        assert(self.node_map@.dom() =~= table.insert(
            primitive.id@,
            primitive_tree(*primitive),
        ).dom());
    }

    /// Resolves an operation and enters its node into the table.
    fn parse_operation(
        &mut self,
        operation: &OperationIntent,
        Ghost(table): Ghost<Map<Seq<char>, CsgTree>>,
    ) -> (r: KernelResult<()>)
        requires
            represents(old(self).node_map@, table),
        ensures
            match r {
                Ok(()) => resolve(table, *operation) matches Ok(tree) && represents(
                    final(self).node_map@,
                    table.insert(operation.id@, tree),
                ),
                Err(e) => resolve(table, *operation) matches Err(fault) && e.is_plain(
                    ErrorCode::InvalidIntent,
                    fault.message(),
                ),
            },
    {
        let target = match self.node_map.get(operation.target.as_str()) {
            Some(target) => target.clone(),
            None => {
                let mut what = join3(
                    "Target '",
                    operation.target.as_str(),
                    "' not found in operation '",
                );
                what.append(operation.id.as_str());
                what.append("'");
                return Err(KernelError::invalid_intent(what.as_str()));
            },
        };
        let node = match operation.type_ {
            OperationType::Fillet | OperationType::Hole | OperationType::Chamfer => target,
            kind => {
                let operand_id = match &operation.operand {
                    Some(operand_id) => operand_id,
                    None => {
                        let name = match kind {
                            OperationType::Union => "Union",
                            OperationType::Subtract => "Subtract",
                            _ => "Intersect",
                        };
                        let mut what = join3(name, " operation '", operation.id.as_str());
                        what.append("' missing operand");
                        return Err(KernelError::invalid_intent(what.as_str()));
                    },
                };
                let operand = match self.node_map.get(operand_id.as_str()) {
                    Some(operand) => operand.clone(),
                    None => {
                        let (lead, middle) = match kind {
                            OperationType::Union => (
                                "Operand '",
                                "' not found in union operation '",
                            ),
                            OperationType::Subtract => (
                                "Tool '",
                                "' not found in subtract operation '",
                            ),
                            _ => ("Operand '", "' not found in intersect operation '"),
                        };
                        let mut what = join3(lead, operand_id.as_str(), middle);
                        what.append(operation.id.as_str());
                        what.append("'");
                        return Err(KernelError::invalid_intent(what.as_str()));
                    },
                };
                match kind {
                    OperationType::Union => union_node(target, operand),
                    OperationType::Subtract => subtract_node(target, operand),
                    _ => intersect_node(target, operand),
                }
            },
        };
        self.node_map.insert(operation.id.clone(), node);
        assert(self.node_map@.dom() =~= table.insert(
            operation.id@,
            resolve(table, *operation)->Ok_0,
        ).dom());
        Ok(())
    }
}

} // verus!
