use vstd::prelude::*;

verus! {

/// A parameter type that a plugin function declares it accepts.
/// Advisory only: dispatch does not validate arguments against it.
#[derive(Debug, Clone, PartialEq, Eq, Structural)]
pub enum Type {
    String,
    Path,
    Number,
}

/// A literal argument to a macro call.
#[derive(Debug, PartialEq)]
pub enum Value {
    String(String),
    Path(String),
    Number(i64),
}

/// The mathematical model of a [`Value`]: its payload as a sequence of
/// characters, or as an unbounded integer.
pub enum ValueSpec {
    String(Seq<char>),
    Path(Seq<char>),
    Number(int),
}

impl View for Value {
    type V = ValueSpec;

    open spec fn view(&self) -> ValueSpec {
        match self {
            Value::String(s) => ValueSpec::String(s@),
            Value::Path(p) => ValueSpec::Path(p@),
            Value::Number(n) => ValueSpec::Number(*n as int),
        }
    }
}

impl DeepView for Value {
    type V = ValueSpec;

    open spec fn deep_view(&self) -> ValueSpec {
        self.view()
    }
}

impl Value {
    /// An explicit deep copy whose contract states that the copy has the
    /// same model as the original.
    pub fn duplicate(&self) -> (r: Value)
        ensures
            r@ == self@,
    {
        match self {
            Value::String(s) => Value::String(s.clone()),
            Value::Path(p) => Value::Path(p.clone()),
            Value::Number(n) => Value::Number(*n),
        }
    }
}

/// An explicit deep copy of an argument list, with the same model.
pub fn duplicate_values(vs: &Vec<Value>) -> (r: Vec<Value>)
    ensures
        r.deep_view() == vs.deep_view(),
{
    let mut r: Vec<Value> = Vec::new();
    let mut i: usize = 0;
    proof {
        assert(r.deep_view() =~= vs.deep_view().take(0));
    }
    #[verifier::loop_isolation(false)]
    while i < vs.len()
        invariant
            i <= vs@.len(),
            r.deep_view() == vs.deep_view().take(i as int),
        decreases vs@.len() - i,
    {
        let ghost pre = r.deep_view();
        r.push(vs[i].duplicate());
        proof {
            assert(r.deep_view() =~= pre.push(vs@[i as int]@));
            assert(vs.deep_view().take(i + 1) =~= vs.deep_view().take(i as int).push(
                vs.deep_view()[i as int],
            ));
        }
        i = i + 1;
    }
    proof {
        assert(vs.deep_view().take(vs@.len() as int) =~= vs.deep_view());
    }
    r
}

/// A function a plugin exposes: its callable name and the argument-type
/// tuples it documents as acceptable.
#[derive(Debug, PartialEq)]
pub struct Function {
    pub name: String,
    pub signatures: Vec<Vec<Type>>,
}

/// One node of a document: either literal text, or an unresolved macro call.
/// `source` records the file the node came from; it is the basis for
/// resolving relative path arguments at any nesting depth.
#[derive(Debug, PartialEq)]
pub enum MarkdownPart {
    Text { content: String, source: String },
    Call { function: String, arguments: Vec<Value>, source: String },
}

/// The mathematical model of a [`MarkdownPart`].
pub enum PartSpec {
    Text { content: Seq<char>, source: Seq<char> },
    Call { function: Seq<char>, arguments: Seq<ValueSpec>, source: Seq<char> },
}

impl View for MarkdownPart {
    type V = PartSpec;

    open spec fn view(&self) -> PartSpec {
        match self {
            MarkdownPart::Text { content, source } => PartSpec::Text {
                content: content@,
                source: source@,
            },
            MarkdownPart::Call { function, arguments, source } => PartSpec::Call {
                function: function@,
                arguments: arguments.deep_view(),
                source: source@,
            },
        }
    }
}

impl DeepView for MarkdownPart {
    type V = PartSpec;

    open spec fn deep_view(&self) -> PartSpec {
        self.view()
    }
}

} // verus!
