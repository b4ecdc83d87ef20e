use vstd::prelude::*;
use crate::ast::{Call, Expression};
use crate::bridge::CallRequest;
use crate::intrinsics::{MathFn, Op, arity, catalog, gives_result, op_for, op_name};
use crate::bridge::{call_fault, imports_ok};
use crate::number::float_bits_of_count;
use crate::ops::{check_refs_below, len_allowed, push_allowed, pushed, text_of};
use crate::text::trim_trailing;
use crate::render::{Piece, rendered, segs};
use crate::runtime::{RuntimeError, Runtime, clonable, clone_of, lemma_refs_below_mono, resolved};
use crate::variable::{Module, Variable, kind_name, refs_free, well_formed, check_well_formed, refs_below};

verus! {

/// Whether an operation left a value on the stack.
#[derive(Debug, Copy, Clone, PartialEq, Eq, Structural)]
pub enum Expect {
    Nothing,
    Something,
}

/// Whether evaluation goes on, or a non-local return is under way.
#[derive(Debug, Copy, Clone, PartialEq, Eq, Structural)]
pub enum Flow {
    Continue,
    Return,
}

/// Work that only the host can do, with the operation's arguments already
/// taken off the stack and checked. The operation's frame stays open until
/// `complete` is called with the answer.
#[derive(Debug)]
pub enum HostRequest {
    /// Write the pieces, then a line break if `newline`.
    Print { pieces: Vec<Piece>, newline: bool },
    /// Show the stack and the bindings.
    DebugDump,
    /// Show the call frames.
    Backtrace,
    /// Suspend for the number of seconds with these bits.
    Sleep(u64),
    /// A uniform number in [0, 1).
    Random,
    /// One line of input, as a text.
    ReadLine,
    /// Read until a line parses as a number, showing this text after each
    /// line that does not.
    ReadNumber(String),
    /// The function applied to the number with these bits.
    Math(MathFn, u64),
    /// The number with these bits, as a text.
    FormatNumber(u64),
    /// Load and check this source as a module.
    Load(String),
    /// Load and check `source` against the functions of `namespace`.
    LoadImports { source: String, namespace: Module },
    /// Run a function of a loaded module.
    Call(CallRequest),
}

/// The host's answer to a request.
#[derive(Debug)]
pub enum HostAnswer {
    Nothing,
    Value(Variable),
    Module(Module),
}

/// How far `dispatch` got.
#[derive(Debug)]
pub enum Step {
    /// The operation ran and its frame is closed.
    Done(Expect),
    /// The host has to do the rest.
    Host(HostRequest),
}

/// `answer` brings a stack of length `n` to the frame's length `floor`,
/// with a value valid on that stack.
pub open spec fn answer_fits(answer: HostAnswer, n: int, floor: int, m: int) -> bool {
    match answer {
        HostAnswer::Nothing => n == floor,
        HostAnswer::Value(v) => n + 1 == floor && refs_below(v, n, m) && well_formed(v),
        HostAnswer::Module(_) => n + 1 == floor,
    }
}

/// The number of results an operation leaves.
pub open spec fn result_count(op: Op) -> nat {
    if gives_result(op) {
        1
    } else {
        0
    }
}

/// The number of values an `Expect` stands for.
pub open spec fn count_of(e: Expect) -> nat {
    match e {
        Expect::Something => 1,
        Expect::Nothing => 0,
    }
}

/// Which step `op` may end in, on the stack `s` it started from: the
/// library's own operations finish, the others hand the host the checked
/// arguments.
pub open spec fn step_fits(op: Op, step: Step, s: Seq<Variable>) -> bool {
    let n = s.len() as int;
    match step {
        Step::Done(_) => match op {
            Op::DeepClone | Op::Len | Op::Push | Op::TrimRight | Op::TypeOf => true,
            Op::ToText => resolved(s.drop_last(), s.last()) is Text,
            _ => false,
        },
        Step::Host(req) => match req {
            HostRequest::Print { pieces, newline } => ((op == Op::Println && newline) || (op
                == Op::Print && !newline)) && segs(pieces@) == rendered(
                s.drop_last(),
                s.last(),
                (n - 1) as nat,
            )->Some_0,
            HostRequest::DebugDump => op == Op::DebugDump,
            HostRequest::Backtrace => op == Op::Backtrace,
            HostRequest::Random => op == Op::Random,
            HostRequest::ReadLine => op == Op::ReadLine,
            HostRequest::Sleep(b) => op == Op::Sleep && s.last() == Variable::Number(b),
            HostRequest::Math(f, b) => op == Op::Math(f) && s.last() == Variable::Number(b),
            HostRequest::ReadNumber(t) => op == Op::ReadNumber && s.last() is Text && t@ == text_of(
                s.last(),
            ),
            HostRequest::FormatNumber(b) => op == Op::ToText && resolved(s.drop_last(), s.last())
                == Variable::Number(b),
            HostRequest::Load(t) => op == Op::Load && t@ == text_of(resolved(s.drop_last(), s.last())),
            HostRequest::LoadImports { source, .. } => op == Op::LoadSourceImports && source@
                == text_of(resolved(s, s[n - 2])),
            HostRequest::Call(c) => op == Op::CallFn && c.fn_name@ == text_of(resolved(s, s[n - 2]))
                && resolved(s, s[n - 3]) == Variable::ForeignObject(c.module),
        },
    }
}

/// The arguments of `op` on top of stack `s` are what it needs: the
/// condition under which `dispatch` succeeds.
pub open spec fn op_ok(op: Op, s: Seq<Variable>, ms: Seq<Module>) -> bool {
    let n = s.len() as int;
    let top = resolved(s.drop_last(), s.last());
    &&& n >= arity(op)
    &&& match op {
        Op::DeepClone => clonable(s.drop_last(), s.last(), (n - 1) as nat),
        Op::Len => len_allowed(top),
        Op::Push => push_allowed(s, ms.len() as int),
        Op::TrimRight | Op::ReadNumber => s.last() is Text,
        Op::ToText => top is Text || top is Number,
        Op::Sleep | Op::Math(_) => s.last() is Number,
        Op::Println | Op::Print => rendered(s.drop_last(), s.last(), (n - 1) as nat) is Some,
        Op::Load => top is Text,
        Op::LoadSourceImports => imports_ok(s),
        Op::CallFn => call_fault(s, ms) is None,
        Op::TypeOf | Op::DebugDump | Op::Backtrace | Op::Random | Op::ReadLine => true,
    }
}

/// The library finishes `op` on stack `s` without the host.
pub open spec fn finishes(op: Op, s: Seq<Variable>) -> bool {
    match op {
        Op::DeepClone | Op::Len | Op::Push | Op::TrimRight | Op::TypeOf => true,
        Op::ToText => resolved(s.drop_last(), s.last()) is Text,
        _ => false,
    }
}

/// `t` is the stack after the library finished `op` on stack `s`.
pub open spec fn done_post(op: Op, s: Seq<Variable>, t: Seq<Variable>) -> bool {
    let n = s.len() as int;
    let top = resolved(s.drop_last(), s.last());
    match op {
        Op::Push => pushed(s, t),
        Op::Len => t == s.drop_last().push(
            Variable::Number(float_bits_of_count(top->Array_0.len() as nat) as u64),
        ),
        _ => {
            &&& t.len() == n
            &&& t.drop_last() == s.drop_last()
            &&& match op {
                Op::DeepClone => clone_of(s.drop_last(), s.last(), t.last(), (n - 1) as nat)
                    && refs_free(t.last()),
                Op::TrimRight => t.last() is Text && text_of(t.last()) == trim_trailing(
                    text_of(s.last()),
                ),
                Op::TypeOf => t.last() is Text && text_of(t.last()) == kind_name(top),
                Op::ToText => t.last() is Text && text_of(t.last()) == text_of(top),
                _ => false,
            }
        },
    }
}

impl Op {
    pub fn arity(self) -> (r: usize)
        ensures
            r == arity(self),
    {
        match self {
            Op::DebugDump | Op::Backtrace | Op::Random | Op::ReadLine => 0,
            Op::Push | Op::LoadSourceImports => 2,
            Op::CallFn => 3,
            _ => 1,
        }
    }

    pub fn gives_result(self) -> (r: bool)
        ensures
            r == gives_result(self),
    {
        match self {
            Op::Println | Op::Print | Op::DebugDump | Op::Backtrace | Op::Sleep | Op::Push
            | Op::CallFn => false,
            _ => true,
        }
    }
}

impl Runtime {
    /// Runs the body of `op` on its arguments, which are on top of the stack,
    /// inside a frame named after it. The frame's stack length is where the
    /// stack stands once the arguments are consumed and the result, if any,
    /// is pushed.
    pub fn dispatch(&mut self, op: Op, lc: usize) -> (r: Result<Step, RuntimeError>)
        requires
            old(self).wf(),
        ensures
            final(self).wf(),
            final(self).modules == old(self).modules,
            r is Ok <==> old(self).stack@.len() < usize::MAX && op_ok(op, old(self).stack@, old(self).modules@),
            r matches Err(e) ==> (old(self).stack@.len() < arity(op) ==> e is NoValueOnStack),
            r matches Ok(step) ==> step_fits(op, step, old(self).stack@),
            r is Ok ==> (r->Ok_0 is Done <==> finishes(op, old(self).stack@)),
            r matches Ok(Step::Done(_)) ==> done_post(op, old(self).stack@, final(self).stack@),
            r matches Ok(Step::Done(_)) ==> final(self).local_stack@ == old(self).local_stack@.take(
                vstd::math::min(lc as int, old(self).local_stack@.len() as int),
            ),
            r matches Ok(Step::Done(e)) ==> {
                &&& (e == Expect::Something <==> gives_result(op))
                &&& final(self).stack@.len() == old(self).stack@.len() - arity(op) + result_count(op)
                &&& final(self).call_stack@ == old(self).call_stack@
                &&& final(self).modules == old(self).modules
            },
            r matches Ok(Step::Host(_)) ==> {
                &&& final(self).stack@.len() == old(self).stack@.len() - arity(op)
                &&& final(self).call_stack@.drop_last() == old(self).call_stack@
                &&& final(self).call_stack@.len() == old(self).call_stack@.len() + 1
                &&& final(self).call_stack@.last().fn_name@ == op_name(op)
                &&& final(self).call_stack@.last().stack_len == old(self).stack@.len() - arity(op)
                    + result_count(op)
                &&& final(self).call_stack@.last().local_len == lc
                &&& final(self).modules == old(self).modules
            },
    {
        let ghost c0 = self.call_stack@;
        let name: String = op.name().to_owned();
        if self.stack.len() < op.arity() {
            return Err(RuntimeError::NoValueOnStack);
        }
        if self.stack.len() == usize::MAX {
            return Err(RuntimeError::StackOverflow);
        }
        let st = self.stack.len() - op.arity();
        let floor = if op.gives_result() { st + 1 } else { st };
        self.push_fn(name.clone(), floor, lc);
        let expect = match op {
            Op::DeepClone => {
                self.op_clone()?;
                Expect::Something
            },
            Op::Len => {
                self.op_len()?;
                Expect::Something
            },
            Op::Push => {
                self.op_push()?;
                Expect::Nothing
            },
            Op::TrimRight => {
                self.op_trim_right()?;
                Expect::Something
            },
            Op::TypeOf => {
                self.op_typeof()?;
                Expect::Something
            },
            Op::ToText => {
                match self.op_to_string()? {
                    None => Expect::Something,
                    Some(b) => {
                        return Ok(Step::Host(HostRequest::FormatNumber(b)));
                    },
                }
            },
            Op::Println | Op::Print => {
                let v = self.pop_arg()?;
                let pieces = self.render(&v)?;
                return Ok(Step::Host(HostRequest::Print { pieces, newline: op == Op::Println }));
            },
            Op::DebugDump => {
                return Ok(Step::Host(HostRequest::DebugDump));
            },
            Op::Backtrace => {
                return Ok(Step::Host(HostRequest::Backtrace));
            },
            Op::Random => {
                return Ok(Step::Host(HostRequest::Random));
            },
            Op::ReadLine => {
                return Ok(Step::Host(HostRequest::ReadLine));
            },
            Op::Sleep => {
                let b = self.pop_number()?;
                return Ok(Step::Host(HostRequest::Sleep(b)));
            },
            Op::Math(f) => {
                let b = self.pop_number()?;
                return Ok(Step::Host(HostRequest::Math(f, b)));
            },
            Op::ReadNumber => {
                let t = self.pop_text()?;
                return Ok(Step::Host(HostRequest::ReadNumber(t)));
            },
            Op::Load => {
                let t = self.pop_resolved_text()?;
                return Ok(Step::Host(HostRequest::Load(t)));
            },
            Op::LoadSourceImports => {
                let (source, hs) = self.pop_imports()?;
                let namespace = self.merge_imports(&hs);
                return Ok(Step::Host(HostRequest::LoadImports { source, namespace }));
            },
            Op::CallFn => {
                let c = self.prepare_call()?;
                return Ok(Step::Host(HostRequest::Call(c)));
            },
        };
        self.pop_fn(&name)?;
        assert(self.call_stack@ =~= c0);
        Ok(Step::Done(expect))
    }

    /// Finishes the operation of the innermost frame with the host's answer:
    /// a value is pushed, a module is added to the module table and a handle
    /// to it pushed; then the frame is closed. The answer must bring the
    /// stack to the frame's recorded length.
    pub fn complete(&mut self, answer: HostAnswer) -> (r: Result<Expect, RuntimeError>)
        requires
            old(self).wf(),
        ensures
            final(self).wf(),
            r matches Ok(e) ==> {
                &&& old(self).call_stack@.len() > 0
                &&& final(self).call_stack@ == old(self).call_stack@.drop_last()
                &&& final(self).stack@.len() == old(self).stack@.len() + count_of(e)
                &&& final(self).stack@.len() == old(self).call_stack@.last().stack_len
                &&& final(self).stack@.subrange(0, old(self).stack@.len() as int) == old(self).stack@
            },
            r matches Ok(Expect::Nothing) ==> answer is Nothing && final(self).modules == old(self).modules,
            r matches Ok(Expect::Something) ==> match answer {
                HostAnswer::Value(v) => final(self).stack@.last() == v && final(self).modules == old(self).modules,
                HostAnswer::Module(m) => final(self).modules@ == old(self).modules@.push(m)
                    && final(self).stack@.last() == Variable::ForeignObject(old(self).modules@.len() as usize),
                HostAnswer::Nothing => false,
            },
            r is Ok <==> old(self).call_stack@.len() > 0 && answer_fits(
                answer,
                old(self).stack@.len() as int,
                old(self).call_stack@.last().stack_len as int,
                old(self).modules@.len() as int,
            ),
            r is Ok ==> final(self).local_stack@ == old(self).local_stack@.take(
                vstd::math::min(old(self).call_stack@.last().local_len as int, old(self).local_stack@.len() as int),
            ),
            r matches Err(e) ==> e is FrameMismatch || e is DanglingReference || e is DuplicateKey,
    {
        let ghost s0 = self.stack@;
        let k = self.call_stack.len();
        if k == 0 {
            return Err(RuntimeError::FrameMismatch);
        }
        let name = self.call_stack[k - 1].fn_name.clone();
        let expected = self.call_stack[k - 1].stack_len;
        let len = self.stack.len();
        let e = match answer {
            HostAnswer::Nothing => {
                if len != expected {
                    return Err(RuntimeError::FrameMismatch);
                }
                Expect::Nothing
            },
            HostAnswer::Value(v) => {
                if expected == 0 || len != expected - 1 {
                    return Err(RuntimeError::FrameMismatch);
                }
                if !check_refs_below(&v, len, self.modules.len()) {
                    return Err(RuntimeError::DanglingReference);
                }
                if !check_well_formed(&v) {
                    return Err(RuntimeError::DuplicateKey);
                }
                self.push_value(v);
                Expect::Something
            },
            HostAnswer::Module(m) => {
                if expected == 0 || len != expected - 1 {
                    return Err(RuntimeError::FrameMismatch);
                }
                let h = self.modules.len();
                self.modules.push(m);
                proof {
                    assert forall|i: int| 0 <= i < self.stack@.len() implies refs_below(
                        #[trigger] self.stack@[i],
                        i,
                        self.modules.len() as int,
                    ) by {
                        lemma_refs_below_mono(self.stack@[i], i, h as int, i, self.modules.len() as int);
                    }
                }
                self.push_value(Variable::ForeignObject(h));
                Expect::Something
            },
        };
        self.pop_fn(&name)?;
        assert(self.stack@.subrange(0, s0.len() as int) =~= s0);
        Ok(e)
    }

    /// Evaluates one expression, leaving its value, if any, on the stack.
    pub fn expression(&mut self, e: Expression) -> (r: Result<(Expect, Flow), RuntimeError>)
        requires
            old(self).wf(),
        ensures
            final(self).wf(),
            final(self).modules == old(self).modules,
            r is Ok ==> final(self).call_stack@ == old(self).call_stack@,
            r is Ok ==> final(self).local_stack@ == old(self).local_stack@,
            r matches Ok((x, Flow::Continue)) ==> final(self).stack@.len() == old(self).stack@.len() + count_of(x),
            r matches Ok((x, Flow::Return)) ==> final(self).stack@.len() >= old(self).stack@.len() + count_of(x),
            e matches Expression::Variable(v) ==> (r is Ok <==> old(self).valid_value(v)),
            e matches Expression::Variable(v) ==> (r is Ok ==> r == Ok::<(Expect, Flow), RuntimeError>((Expect::Something, Flow::Continue))
                && final(self).stack@ == old(self).stack@.push(v)),
            e is Return ==> (r is Ok ==> r == Ok::<(Expect, Flow), RuntimeError>((Expect::Something, Flow::Return))),
        decreases e,
    {
        match e {
            Expression::Variable(v) => {
                if !check_refs_below(&v, self.stack.len(), self.modules.len()) {
                    return Err(RuntimeError::DanglingReference);
                }
                if !check_well_formed(&v) {
                    return Err(RuntimeError::DuplicateKey);
                }
                self.push_value(v);
                Ok((Expect::Something, Flow::Continue))
            },
            Expression::Call(c) => self.call_standard(c),
            Expression::Return(inner) => {
                match self.expression(*inner)? {
                    (Expect::Something, _) => Ok((Expect::Something, Flow::Return)),
                    _ => Err(RuntimeError::ExpectedValueFromArgument),
                }
            },
        }
    }

    /// Evaluates a call of a built-in operation: its arguments left to
    /// right, then the operation itself. A non-local return from an
    /// argument stops the call and is passed on, with the arguments
    /// evaluated so far left on the stack. Otherwise exactly the
    /// operation's result, if any, is left above the stack length at entry.
    /// Operations that need the host end in `HostOperation`: `dispatch` and
    /// `complete` run those.
    pub fn call_standard(&mut self, call: Call) -> (r: Result<(Expect, Flow), RuntimeError>)
        requires
            old(self).wf(),
        ensures
            final(self).wf(),
            final(self).modules == old(self).modules,
            r is Ok ==> final(self).call_stack@ == old(self).call_stack@,
            r is Ok ==> final(self).local_stack@ == old(self).local_stack@,
            r matches Ok((x, Flow::Continue)) ==> final(self).stack@.len() == old(self).stack@.len() + count_of(x),
            r matches Ok((x, Flow::Return)) ==> final(self).stack@.len() >= old(self).stack@.len() + count_of(x),
            r matches Ok((x, Flow::Continue)) ==> exists|op: Op|
                #[trigger] op_name(op) == call.name@ && arity(op) == call.args@.len() && (x
                    == Expect::Something <==> gives_result(op)),
            all_literal(call.args@) && lits_fit(old(self).stack@, lits(call.args@), old(self).modules@.len() as int)
                ==> literal_call(call, old(self).stack@ + lits(call.args@), old(self).modules@, r, final(self).stack@),
        decreases call,
    {
        let ghost s0 = self.stack@;
        let ghost c0 = self.call_stack@;
        let ghost l0 = self.local_stack@;
        let ghost all_args = call.args@;
        let st = self.stack.len();
        let lc = self.local_stack.len();
        let name = call.name;
        let mut args = call.args;
        let n_args = args.len();
        let mut k: usize = 0;
        while k < n_args
            invariant
                self.wf(),
                self.call_stack@ == c0,
                self.local_stack@ == l0,
                c0 == old(self).call_stack@,
                l0 == old(self).local_stack@,
                s0 == old(self).stack@,
                self.modules == old(self).modules,
                all_args == call.args@,
                n_args == all_args.len(),
                args@.len() == n_args,
                forall|i: int| k <= i < n_args ==> args@[i] == all_args[i],
                st == s0.len(),
                lc == l0.len(),
                k <= n_args,
                self.stack@.len() == st + k,
                all_literal(all_args) && lits_fit(s0, lits(all_args), old(self).modules@.len() as int)
                    ==> self.stack@ == s0 + lits(all_args).subrange(0, k as int),
            decreases n_args - k,
        {
            proof {
                vstd::std_specs::vec::axiom_vec_index_decreases(call.args, k as int);
                assert(decreases_to!(call => call.args));
            }
            let mut arg = Expression::Variable(Variable::Return);
            args.set_and_swap(k, &mut arg);
            proof {
                if all_literal(all_args) && lits_fit(s0, lits(all_args), old(self).modules@.len() as int) {
                    assert(arg == all_args[k as int]);
                    assert(all_args[k as int] is Variable);
                    assert(lits(all_args)[k as int] == arg->Variable_0);
                }
            }
            let res = self.expression(arg);
            match res {
                Err(e) => {
                    return Err(e);
                },
                Ok((x, Flow::Return)) => {
                    return Ok((x, Flow::Return));
                },
                Ok((Expect::Something, Flow::Continue)) => {},
                _ => {
                    return Err(RuntimeError::ExpectedValueFromArgument);
                },
            }
            proof {
                if all_literal(all_args) && lits_fit(s0, lits(all_args), old(self).modules@.len() as int) {
                    assert(self.stack@ =~= s0 + lits(all_args).subrange(0, k + 1));
                }
            }
            k = k + 1;
        }
        let op = match Op::lookup(&name) {
            Some(op) => op,
            None => {
                return Err(RuntimeError::UnknownFunction(name));
            },
        };
        if op.arity() != n_args {
            return Err(RuntimeError::ArityMismatch { expected: op.arity(), found: n_args });
        }
        proof {
            if all_literal(all_args) && lits_fit(s0, lits(all_args), old(self).modules@.len() as int) {
                assert(lits(all_args).subrange(0, n_args as int) =~= lits(all_args));
            }
        }
        let step = self.dispatch(op, lc);
        match step {
            Err(e) => Err(e),
            Ok(Step::Done(e)) => {
                assert(self.local_stack@ =~= l0);
                Ok((e, Flow::Continue))
            },
            Ok(Step::Host(_)) => Err(RuntimeError::HostOperation(name)),
        }
    }
}

/// Every argument is an evaluated value.
pub open spec fn all_literal(args: Seq<Expression>) -> bool {
    forall|i: int| 0 <= i < args.len() ==> #[trigger] args[i] is Variable
}

/// The values of literal arguments.
pub open spec fn lits(args: Seq<Expression>) -> Seq<Variable> {
    Seq::new(args.len(), |i: int| args[i]->Variable_0)
}

/// Pushed one by one onto `s`, each value is valid where it lands.
pub open spec fn lits_fit(s: Seq<Variable>, vals: Seq<Variable>, m: int) -> bool {
    forall|i: int|
        0 <= i < vals.len() ==> refs_below(#[trigger] vals[i], s.len() + i, m) && well_formed(vals[i])
}

/// `r` reports that the operation `name` needs the host.
pub open spec fn host_reported(r: Result<(Expect, Flow), RuntimeError>, name: Seq<char>) -> bool {
    match r {
        Err(RuntimeError::HostOperation(n)) => n@ == name,
        _ => false,
    }
}

/// The `Expect` of an operation.
pub open spec fn expect_of(op: Op) -> Expect {
    if gives_result(op) {
        Expect::Something
    } else {
        Expect::Nothing
    }
}

/// The outcome of a call whose arguments are all values, with `s` the stack
/// once they are pushed: an unknown name and a wrong number of arguments
/// are reported; otherwise the operation succeeds exactly where its
/// arguments suit it and the library finishes it, with its exact effect,
/// and an operation that needs the host is reported as such.
pub open spec fn literal_call(
    call: Call,
    s: Seq<Variable>,
    ms: Seq<Module>,
    r: Result<(Expect, Flow), RuntimeError>,
    t: Seq<Variable>,
) -> bool {
    match op_for(catalog(), call.name@) {
        None => match r {
            Err(RuntimeError::UnknownFunction(n)) => n@ == call.name@,
            _ => false,
        },
        Some(op) => if arity(op) != call.args@.len() {
            match r {
                Err(RuntimeError::ArityMismatch { expected, found }) => expected == arity(op) && found
                    == call.args@.len(),
                _ => false,
            }
        } else {
            &&& (r is Ok <==> s.len() < usize::MAX && op_ok(op, s, ms) && finishes(op, s))
            &&& (r is Ok ==> r == Ok::<(Expect, Flow), RuntimeError>((expect_of(op), Flow::Continue))
                && done_post(op, s, t))
            &&& (s.len() < usize::MAX && op_ok(op, s, ms) && !finishes(op, s) ==> host_reported(r, call.name@))
        },
    }
}

} // verus!
