use vstd::prelude::*;

verus! {

/// How one argument of an operation is passed.
#[derive(Debug, Copy, Clone, PartialEq, Eq, Structural)]
pub enum ArgConstraint {
    /// Must alias the same storage as argument `i`; the callee mutates it.
    Arg(usize),
    /// The result's lifetime is tied to this argument.
    Return,
    /// Passed and consumed by value.
    Default,
}

/// The descriptor of a built-in operation.
#[derive(Debug, Clone)]
pub struct Intrinsic {
    pub arg_constraints: Vec<ArgConstraint>,
    pub returns: bool,
}

/// The unary numeric functions; the host computes them.
#[derive(Debug, Copy, Clone, PartialEq, Eq, Structural)]
pub enum MathFn {
    Sqrt,
    Sin,
    Asin,
    Cos,
    Acos,
    Tan,
    Atan,
    Exp,
    Ln,
    Log2,
    Log10,
    Round,
}

/// The operations of the standard catalog.
#[derive(Debug, Copy, Clone, PartialEq, Eq, Structural)]
pub enum Op {
    Println,
    Print,
    DeepClone,
    DebugDump,
    Backtrace,
    Sleep,
    Random,
    ReadNumber,
    ReadLine,
    Len,
    Push,
    TrimRight,
    ToText,
    TypeOf,
    Math(MathFn),
    Load,
    LoadSourceImports,
    CallFn,
}

pub open spec fn math_name(f: MathFn) -> Seq<char> {
    match f {
        MathFn::Sqrt => "sqrt"@,
        MathFn::Sin => "sin"@,
        MathFn::Asin => "asin"@,
        MathFn::Cos => "cos"@,
        MathFn::Acos => "acos"@,
        MathFn::Tan => "tan"@,
        MathFn::Atan => "atan"@,
        MathFn::Exp => "exp"@,
        MathFn::Ln => "ln"@,
        MathFn::Log2 => "log2"@,
        MathFn::Log10 => "log10"@,
        MathFn::Round => "round"@,
    }
}

/// The script-level name of each operation.
pub open spec fn op_name(op: Op) -> Seq<char> {
    match op {
        Op::Println => "println"@,
        Op::Print => "print"@,
        Op::DeepClone => "clone"@,
        Op::DebugDump => "debug"@,
        Op::Backtrace => "backtrace"@,
        Op::Sleep => "sleep"@,
        Op::Random => "random"@,
        Op::ReadNumber => "read_number"@,
        Op::ReadLine => "read_line"@,
        Op::Len => "len"@,
        Op::Push => "push"@,
        Op::TrimRight => "trim_right"@,
        Op::ToText => "to_string"@,
        Op::TypeOf => "typeof"@,
        Op::Math(f) => math_name(f),
        Op::Load => "load"@,
        Op::LoadSourceImports => "load_source_imports"@,
        Op::CallFn => "call"@,
    }
}

/// How many values an operation takes off the stack.
pub open spec fn arity(op: Op) -> nat {
    match op {
        Op::DebugDump | Op::Backtrace | Op::Random | Op::ReadLine => 0,
        Op::Push | Op::LoadSourceImports => 2,
        Op::CallFn => 3,
        _ => 1,
    }
}

/// Whether an operation leaves a result on the stack.
pub open spec fn gives_result(op: Op) -> bool {
    match op {
        Op::Println | Op::Print | Op::DebugDump | Op::Backtrace | Op::Sleep | Op::Push
        | Op::CallFn => false,
        _ => true,
    }
}

/// The passing mode of each argument, in source order.
pub open spec fn constraints(op: Op) -> Seq<ArgConstraint> {
    if op == Op::Push {
        seq![ArgConstraint::Default, ArgConstraint::Arg(0)]
    } else {
        Seq::new(arity(op), |i: int| ArgConstraint::Default)
    }
}

/// The first operation of `ops` named `name`.
pub open spec fn op_for(ops: Seq<Op>, name: Seq<char>) -> Option<Op>
    decreases ops.len(),
{
    if ops.len() == 0 {
        None
    } else if op_name(ops[0]) == name {
        Some(ops[0])
    } else {
        op_for(ops.drop_first(), name)
    }
}

/// The catalog in registration order.
pub open spec fn catalog() -> Seq<Op> {
    seq![
        Op::Println, Op::Print, Op::DeepClone, Op::DebugDump, Op::Backtrace, Op::Sleep,
        Op::Math(MathFn::Round), Op::Random, Op::ReadNumber, Op::ReadLine, Op::Len, Op::Push,
        Op::TrimRight, Op::ToText, Op::TypeOf, Op::Math(MathFn::Sqrt), Op::Math(MathFn::Sin),
        Op::Math(MathFn::Asin), Op::Math(MathFn::Cos), Op::Math(MathFn::Acos),
        Op::Math(MathFn::Tan), Op::Math(MathFn::Atan), Op::Math(MathFn::Exp),
        Op::Math(MathFn::Ln), Op::Math(MathFn::Log2), Op::Math(MathFn::Log10), Op::Load,
        Op::LoadSourceImports, Op::CallFn,
    ]
}

impl MathFn {
    pub fn name(self) -> (r: &'static str)
        ensures
            r@ == math_name(self),
    {
        match self {
            MathFn::Sqrt => "sqrt",
            MathFn::Sin => "sin",
            MathFn::Asin => "asin",
            MathFn::Cos => "cos",
            MathFn::Acos => "acos",
            MathFn::Tan => "tan",
            MathFn::Atan => "atan",
            MathFn::Exp => "exp",
            MathFn::Ln => "ln",
            MathFn::Log2 => "log2",
            MathFn::Log10 => "log10",
            MathFn::Round => "round",
        }
    }
}

/// `name` equals the text `lit`.
fn is_named(name: &String, lit: &str) -> (r: bool)
    ensures
        r == (name@ == lit@),
{
    let l: String = lit.to_owned();
    *name == l
}

impl Op {
    pub fn name(self) -> (r: &'static str)
        ensures
            r@ == op_name(self),
    {
        match self {
            Op::Println => "println",
            Op::Print => "print",
            Op::DeepClone => "clone",
            Op::DebugDump => "debug",
            Op::Backtrace => "backtrace",
            Op::Sleep => "sleep",
            Op::Random => "random",
            Op::ReadNumber => "read_number",
            Op::ReadLine => "read_line",
            Op::Len => "len",
            Op::Push => "push",
            Op::TrimRight => "trim_right",
            Op::ToText => "to_string",
            Op::TypeOf => "typeof",
            Op::Math(f) => f.name(),
            Op::Load => "load",
            Op::LoadSourceImports => "load_source_imports",
            Op::CallFn => "call",
        }
    }

    /// The operation of the catalog named `name`, if there is one.
    pub fn lookup(name: &String) -> (r: Option<Op>)
        ensures
            r == op_for(catalog(), name@),
            r matches Some(op) ==> op_name(op) == name@,
            r is None ==> forall|op: Op| op_name(op) != name@,
    {
        let ops = catalog_ops();
        let mut k: usize = 0;
        assert(catalog().subrange(0, catalog().len() as int) =~= catalog());
        while k < ops.len()
            invariant
                ops@ == catalog(),
                k <= ops@.len(),
                forall|i: int| 0 <= i < k ==> op_name(#[trigger] catalog()[i]) != name@,
                op_for(catalog(), name@) == op_for(catalog().subrange(k as int, catalog().len() as int), name@),
            decreases ops@.len() - k,
        {
            assert(catalog().subrange(k as int, catalog().len() as int).drop_first()
                =~= catalog().subrange(k + 1, catalog().len() as int));
            if is_named(name, ops[k].name()) {
                return Some(ops[k]);
            }
            k = k + 1;
        }
        proof {
            assert forall|op: Op| op_name(op) != name@ by {
                lemma_catalog_complete(op);
            }
        }
        None
    }

    /// The descriptor of this operation.
    pub fn descriptor(self) -> (r: Intrinsic)
        ensures
            r.arg_constraints@ == constraints(self),
            r.returns == gives_result(self),
    {
        let mut c: Vec<ArgConstraint> = Vec::new();
        match self {
            Op::Push => {
                c.push(ArgConstraint::Default);
                c.push(ArgConstraint::Arg(0));
                assert(c@ =~= constraints(self));
            },
            Op::DebugDump | Op::Backtrace | Op::Random | Op::ReadLine => {
                assert(c@ =~= constraints(self));
            },
            Op::LoadSourceImports => {
                c.push(ArgConstraint::Default);
                c.push(ArgConstraint::Default);
                assert(c@ =~= constraints(self));
            },
            Op::CallFn => {
                c.push(ArgConstraint::Default);
                c.push(ArgConstraint::Default);
                c.push(ArgConstraint::Default);
                assert(c@ =~= constraints(self));
            },
            _ => {
                c.push(ArgConstraint::Default);
                assert(c@ =~= constraints(self));
            },
        }
        let ret = match self {
            Op::Println | Op::Print | Op::DebugDump | Op::Backtrace | Op::Sleep | Op::Push
            | Op::CallFn => false,
            _ => true,
        };
        Intrinsic { arg_constraints: c, returns: ret }
    }
}

/// Every operation is in the catalog.
pub proof fn lemma_catalog_complete(op: Op)
    ensures
        exists|i: int| 0 <= i < catalog().len() && #[trigger] catalog()[i] == op,
{
    let c = catalog();
    let i: int = match op {
        Op::Println => 0,
        Op::Print => 1,
        Op::DeepClone => 2,
        Op::DebugDump => 3,
        Op::Backtrace => 4,
        Op::Sleep => 5,
        Op::Math(MathFn::Round) => 6,
        Op::Random => 7,
        Op::ReadNumber => 8,
        Op::ReadLine => 9,
        Op::Len => 10,
        Op::Push => 11,
        Op::TrimRight => 12,
        Op::ToText => 13,
        Op::TypeOf => 14,
        Op::Math(MathFn::Sqrt) => 15,
        Op::Math(MathFn::Sin) => 16,
        Op::Math(MathFn::Asin) => 17,
        Op::Math(MathFn::Cos) => 18,
        Op::Math(MathFn::Acos) => 19,
        Op::Math(MathFn::Tan) => 20,
        Op::Math(MathFn::Atan) => 21,
        Op::Math(MathFn::Exp) => 22,
        Op::Math(MathFn::Ln) => 23,
        Op::Math(MathFn::Log2) => 24,
        Op::Math(MathFn::Log10) => 25,
        Op::Load => 26,
        Op::LoadSourceImports => 27,
        Op::CallFn => 28,
    };
    assert(c[i] == op);
}

/// The catalog's operations, in registration order.
fn catalog_ops() -> (r: Vec<Op>)
    ensures
        r@ == catalog(),
{
    let r = vec![
        Op::Println, Op::Print, Op::DeepClone, Op::DebugDump, Op::Backtrace, Op::Sleep,
        Op::Math(MathFn::Round), Op::Random, Op::ReadNumber, Op::ReadLine, Op::Len, Op::Push,
        Op::TrimRight, Op::ToText, Op::TypeOf, Op::Math(MathFn::Sqrt), Op::Math(MathFn::Sin),
        Op::Math(MathFn::Asin), Op::Math(MathFn::Cos), Op::Math(MathFn::Acos),
        Op::Math(MathFn::Tan), Op::Math(MathFn::Atan), Op::Math(MathFn::Exp),
        Op::Math(MathFn::Ln), Op::Math(MathFn::Log2), Op::Math(MathFn::Log10), Op::Load,
        Op::LoadSourceImports, Op::CallFn,
    ];
    assert(r@ =~= catalog());
    r
}

/// The registration table of the standard catalog: each operation's name
/// with its descriptor, in registration order.
pub fn standard() -> (r: Vec<(String, Intrinsic)>)
    ensures
        r@.len() == catalog().len(),
        forall|k: int|
            0 <= k < r@.len() ==> (#[trigger] r@[k]).0@ == op_name(catalog()[k])
                && r@[k].1.arg_constraints@ == constraints(catalog()[k]) && r@[k].1.returns
                == gives_result(catalog()[k]),
{
    let ops = catalog_ops();
    let mut r: Vec<(String, Intrinsic)> = Vec::new();
    let mut k: usize = 0;
    while k < ops.len()
        invariant
            ops@ == catalog(),
            k <= ops@.len(),
            r@.len() == k,
            forall|i: int|
                0 <= i < k ==> (#[trigger] r@[i]).0@ == op_name(catalog()[i])
                    && r@[i].1.arg_constraints@ == constraints(catalog()[i]) && r@[i].1.returns
                    == gives_result(catalog()[i]),
        decreases ops@.len() - k,
    {
        let op = ops[k];
        r.push((op.name().to_owned(), op.descriptor()));
        k = k + 1;
    }
    r
}

} // verus!
