use vstd::prelude::*;

verus! {

broadcast use vstd::std_specs::vec::group_vec_axioms;

/// A node of the syntax tree that parsing produces.
///
/// The node shapes are a fixed contract with downstream consumers: the parser
/// only assembles them and performs no semantic checks.  `Unit` is the
/// degraded result that the entry points return on a parse failure.
#[derive(Debug, PartialEq, Eq)]
pub enum Node {
    Unit,
    ForthProgram { forms: Vec<Node> },
    ProcedureDef { name: String, body: Vec<Node> },
    VarDecl { name: String, is_constant: bool, value: Option<i64> },
    ForthCreate { name: String, size: i64 },
    IntegerLiteral { value: i64 },
    WordCall { name: String },
    Conditional { consequent: Vec<Node>, alternate: Option<Vec<Node>> },
    PostTestLoop { body: Vec<Node> },
    CountedLoop { body: Vec<Node> },
}

/// The mathematical model of a syntax-tree node: names are character
/// sequences, numbers are unbounded integers, children are sequences.
pub enum SpecNode {
    Unit,
    ForthProgram { forms: Seq<SpecNode> },
    ProcedureDef { name: Seq<char>, body: Seq<SpecNode> },
    VarDecl { name: Seq<char>, is_constant: bool, value: Option<int> },
    ForthCreate { name: Seq<char>, size: int },
    IntegerLiteral { value: int },
    WordCall { name: Seq<char> },
    Conditional { consequent: Seq<SpecNode>, alternate: Option<Seq<SpecNode>> },
    PostTestLoop { body: Seq<SpecNode> },
    CountedLoop { body: Seq<SpecNode> },
}

pub open spec fn dv_node(n: Node) -> SpecNode
    decreases n,
{
    match n {
        Node::Unit => SpecNode::Unit,
        Node::ForthProgram { forms } => SpecNode::ForthProgram { forms: dv_node_seq(forms@) },
        Node::ProcedureDef { name, body } => SpecNode::ProcedureDef {
            name: name@,
            body: dv_node_seq(body@),
        },
        Node::VarDecl { name, is_constant, value } => SpecNode::VarDecl {
            name: name@,
            is_constant,
            value: match value {
                Some(v) => Some(v as int),
                None => None,
            },
        },
        Node::ForthCreate { name, size } => SpecNode::ForthCreate { name: name@, size: size as int },
        Node::IntegerLiteral { value } => SpecNode::IntegerLiteral { value: value as int },
        Node::WordCall { name } => SpecNode::WordCall { name: name@ },
        Node::Conditional { consequent, alternate } => SpecNode::Conditional {
            consequent: dv_node_seq(consequent@),
            alternate: match alternate {
                Some(v) => Some(dv_node_seq(v@)),
                None => None,
            },
        },
        Node::PostTestLoop { body } => SpecNode::PostTestLoop { body: dv_node_seq(body@) },
        Node::CountedLoop { body } => SpecNode::CountedLoop { body: dv_node_seq(body@) },
    }
}

pub open spec fn dv_node_seq(s: Seq<Node>) -> Seq<SpecNode>
    decreases s,
{
    if s.len() == 0 {
        Seq::empty()
    } else {
        seq![dv_node(s[0])] + dv_node_seq(s.subrange(1, s.len() as int))
    }
}

impl DeepView for Node {
    type V = SpecNode;

    open spec fn deep_view(&self) -> SpecNode {
        dv_node(*self)
    }
}

/// Consing a node onto a vector conses its model onto the vector's model.
pub proof fn lemma_dv_node_seq_cons(s: Seq<Node>, n: Node)
    ensures
        dv_node_seq(s.insert(0, n)) == seq![dv_node(n)] + dv_node_seq(s),
{
    let s2 = s.insert(0, n);
    assert(s2.len() == s.len() + 1);
    assert(s2[0] == n);
    assert(s2.subrange(1, s2.len() as int) =~= s);
}

/// The kind of a failure that the grammar reports.
#[derive(Debug, Clone, Copy, PartialEq, Eq)]
pub enum ErrorKind {
    /// A specific token was expected at this position and something else,
    /// possibly the end of input, stood there.
    UnexpectedToken,
    /// A structural opener was never matched by its required closer before
    /// the end of input.
    UnterminatedConstruct,
    /// The tokens match none of the recognized definition shapes.
    UnknownTopLevelForm,
}

/// A diagnostic for a failed parse: what went wrong and where.  For a
/// grammar failure `pos` is the index of the offending token in the token
/// sequence; for an unterminated comment, the only lexical failure, it is
/// the character position of the opening `(`.
#[derive(Debug, Clone, Copy, PartialEq, Eq)]
pub struct ParseError {
    pub kind: ErrorKind,
    pub pos: usize,
}

/// The mathematical model of a parse failure.
pub struct SpecErr {
    pub kind: ErrorKind,
    pub pos: int,
}

impl DeepView for ParseError {
    type V = SpecErr;

    open spec fn deep_view(&self) -> SpecErr {
        SpecErr { kind: self.kind, pos: self.pos as int }
    }
}

} // verus!
