//! The program model: the parser's output and a simulator's future input.
//! All values are plain data, immutable once the parser has built them.

use vstd::prelude::*;
use vstd::string::StrSliceExecFns;

verus! {

/// Which primitive gate a component instantiates, or which named
/// subcircuit it calls; the name is a non-owning reference into the
/// program's subcircuit table, resolved by a later elaboration stage.
#[derive(Debug, PartialEq)]
pub enum GateType {
    And,
    Or,
    Not,
    Nand,
    Nor,
    Xor,
    Xnor,
    Subcircuit(String),
}

/// The mathematical image of a [`GateType`].
pub enum SpecGateType {
    And,
    Or,
    Not,
    Nand,
    Nor,
    Xor,
    Xnor,
    Subcircuit(Seq<char>),
}

impl View for GateType {
    type V = SpecGateType;

    open spec fn view(&self) -> SpecGateType {
        match self {
            GateType::And => SpecGateType::And,
            GateType::Or => SpecGateType::Or,
            GateType::Not => SpecGateType::Not,
            GateType::Nand => SpecGateType::Nand,
            GateType::Nor => SpecGateType::Nor,
            GateType::Xor => SpecGateType::Xor,
            GateType::Xnor => SpecGateType::Xnor,
            GateType::Subcircuit(name) => SpecGateType::Subcircuit(name@),
        }
    }
}

/// The views of a list of signal names.
pub open spec fn strings_view(v: Seq<String>) -> Seq<Seq<char>> {
    v.map_values(|s: String| s@)
}

/// One instantiation statement: a gate or subcircuit call wiring named
/// input signals to named output signals. The identifier is empty for a
/// subcircuit call, whose grammar carries no instance name.
#[derive(Debug, PartialEq)]
pub struct Component {
    pub gate_type: GateType,
    pub identifier: String,
    pub inputs: Vec<String>,
    pub outputs: Vec<String>,
}

/// The mathematical image of a [`Component`].
pub struct SpecComponent {
    pub gate_type: SpecGateType,
    pub identifier: Seq<char>,
    pub inputs: Seq<Seq<char>>,
    pub outputs: Seq<Seq<char>>,
}

impl View for Component {
    type V = SpecComponent;

    open spec fn view(&self) -> SpecComponent {
        SpecComponent {
            gate_type: self.gate_type@,
            identifier: self.identifier@,
            inputs: strings_view(self.inputs@),
            outputs: strings_view(self.outputs@),
        }
    }
}

/// The views of a list of components.
pub open spec fn components_view(v: Seq<Component>) -> Seq<SpecComponent> {
    v.map_values(|c: Component| c@)
}

/// A named, reusable circuit definition: ordered input and output ports
/// and a component list of the same shape as the top level.
#[derive(Debug, PartialEq)]
pub struct Subcircuit {
    pub name: String,
    pub inputs: Vec<String>,
    pub outputs: Vec<String>,
    pub components: Vec<Component>,
}

/// The mathematical image of a [`Subcircuit`].
pub struct SpecSubcircuit {
    pub name: Seq<char>,
    pub inputs: Seq<Seq<char>>,
    pub outputs: Seq<Seq<char>>,
    pub components: Seq<SpecComponent>,
}

impl View for Subcircuit {
    type V = SpecSubcircuit;

    open spec fn view(&self) -> SpecSubcircuit {
        SpecSubcircuit {
            name: self.name@,
            inputs: strings_view(self.inputs@),
            outputs: strings_view(self.outputs@),
            components: components_view(self.components@),
        }
    }
}

/// The mapping a list of subcircuit definitions stands for: keyed by
/// name, a later definition silently overwriting an earlier one.
pub open spec fn table_view(s: Seq<Subcircuit>) -> Map<Seq<char>, SpecSubcircuit>
    decreases s.len(),
{
    if s.len() == 0 {
        Map::empty()
    } else {
        table_view(s.drop_last()).insert(s.last().name@, s.last()@)
    }
}

/// The parse result: the top-level interface and netlist, and the table
/// of named subcircuit definitions, in the order the source defined them.
#[derive(Debug, PartialEq)]
pub struct Program {
    pub subcircuits: Vec<Subcircuit>,
    pub inputs: Vec<String>,
    pub outputs: Vec<String>,
    pub components: Vec<Component>,
}

/// The mathematical image of a [`Program`]: the subcircuit list is read
/// as the name-to-definition mapping it stands for.
pub struct SpecProgram {
    pub subcircuits: Map<Seq<char>, SpecSubcircuit>,
    pub inputs: Seq<Seq<char>>,
    pub outputs: Seq<Seq<char>>,
    pub components: Seq<SpecComponent>,
}

impl View for Program {
    type V = SpecProgram;

    open spec fn view(&self) -> SpecProgram {
        SpecProgram {
            subcircuits: table_view(self.subcircuits@),
            inputs: strings_view(self.inputs@),
            outputs: strings_view(self.outputs@),
            components: components_view(self.components@),
        }
    }
}

/// A name held by none of the definitions is not in the table.
proof fn lemma_table_view_absent(s: Seq<Subcircuit>, k: Seq<char>)
    requires
        forall|j: int| 0 <= j < s.len() ==> s[j].name@ != k,
    ensures
        !table_view(s).contains_key(k),
    decreases s.len(),
{
    if s.len() > 0 {
        lemma_table_view_absent(s.drop_last(), k);
    }
}

/// The table holds, under each defined name, the last definition of it.
proof fn lemma_table_view_found(s: Seq<Subcircuit>, k: Seq<char>, i: int)
    requires
        0 <= i < s.len(),
        s[i].name@ == k,
        forall|j: int| i < j < s.len() ==> s[j].name@ != k,
    ensures
        table_view(s).contains_key(k),
        table_view(s)[k] == s[i]@,
    decreases s.len(),
{
    if i == s.len() - 1 {
    } else {
        lemma_table_view_found(s.drop_last(), k, i);
    }
}

/// Decides whether two texts hold the same characters.
pub fn str_eq(a: &str, b: &str) -> (r: bool)
    ensures
        r == (a@ == b@),
{
    let n = a.unicode_len();
    let m = b.unicode_len();
    if n != m {
        return false;
    }
    let mut i: usize = 0;
    while i < n
        invariant
            n == a@.len(),
            n == b@.len(),
            i <= n,
            forall|j: int| 0 <= j < i ==> a@[j] == b@[j],
        decreases n - i,
    {
        if a.get_char(i) != b.get_char(i) {
            return false;
        }
        i = i + 1;
    }
    proof {
        assert(a@ =~= b@);
    }
    true
}

impl Program {
    /// Looks a subcircuit definition up by name. With several definitions
    /// of one name the last one wins, the overwrite-on-duplicate rule of
    /// the table the list stands for.
    pub fn get_subcircuit(&self, name: &str) -> (r: Option<&Subcircuit>)
        ensures
            match r {
                Some(sc) => self@.subcircuits.contains_key(name@) && sc@
                    == self@.subcircuits[name@],
                None => !self@.subcircuits.contains_key(name@),
            },
    {
        let n = self.subcircuits.len();
        let mut i: usize = n;
        while i > 0
            invariant
                i <= n,
                n == self.subcircuits.len(),
                forall|j: int| i <= j < n ==> self.subcircuits@[j].name@ != name@,
            decreases i,
    {
            i = i - 1;
            if str_eq(self.subcircuits[i].name.as_str(), name) {
                proof {
                    lemma_table_view_found(self.subcircuits@, name@, i as int);
                }
                return Some(&self.subcircuits[i]);
            }
        }
        proof {
            lemma_table_view_absent(self.subcircuits@, name@);
        }
        None
    }
}

} // verus!
