//! Building and decomposing terms: the decisions around every native term
//! constructor.
//!
//! Every operator in the term language follows one construction pattern:
//! gather the operands' native handles, invoke the native constructor, check
//! the error channel, and reference-count the result.  The gathering and the
//! adoption of the result are decided here; the operator table names every
//! operator the surface offers, grouped by arity shape, so the layer that
//! crosses the C boundary holds a single dispatch per shape instead of one
//! hand-written binding per operator.

use vstd::prelude::*;
use crate::ledger::{RefLedger, RefEvent, apply_event, apply_acquires, count_of,
    lemma_headroom_acquires_ok};
use crate::outcome::{ErrorState, NativeError, FactoryOutcome};

verus! {

/// Operators of one term operand.
pub enum UnaryOp {
    Not,
    Minus,
    Int2Real,
    Real2Int,
    IsInt,
    BvNot,
    BvNeg,
    BvRedAnd,
    BvRedOr,
    SetComplement,
}

/// Operators of two term operands.
pub enum BinaryOp {
    Iff,
    Implies,
    Xor,
    Div,
    Rem,
    Modulo,
    Power,
    Lt,
    Le,
    TermEq,
    Ge,
    Gt,
    BvAnd,
    BvOr,
    BvXor,
    BvNand,
    BvNor,
    BvXnor,
    BvAdd,
    BvSub,
    BvMul,
    BvUdiv,
    BvSdiv,
    BvUrem,
    BvSrem,
    BvSmod,
    BvUlt,
    BvSlt,
    BvUle,
    BvSle,
    BvUge,
    BvSge,
    BvUgt,
    BvSgt,
    Concat,
    BvShl,
    BvLshr,
    BvAshr,
    Select,
    SetAdd,
    SetDel,
    SetMember,
    SetSubset,
}

/// Operators of three term operands.
pub enum TernaryOp {
    Ite,
    Store,
}

/// Operators of a non-empty list of term operands.
pub enum VariadicOp {
    Distinct,
    And,
    Or,
    Add,
    Sub,
    Mul,
    SetUnion,
    SetIntersect,
}

/// Adopts what a fallible native factory returned: classifies the raw
/// result against the error channel and, exactly when a handle was
/// produced, takes one reference on it.  On anything else the ledger is
/// untouched.
pub fn adopt_factory_result(ledger: &mut RefLedger, raw: u64, err: ErrorState) -> (r:
    FactoryOutcome)
    requires
        old(ledger).wf(),
        count_of(old(ledger)@, raw) < u64::MAX,
    ensures
        final(ledger).wf(),
        raw != 0 ==> r == FactoryOutcome::Produced(raw) && final(ledger)@ == apply_event(
            old(ledger)@,
            RefEvent::Acquire(raw),
        ),
        raw == 0 ==> final(ledger)@ == old(ledger)@,
        raw == 0 && err is Faulted ==> (r matches FactoryOutcome::Failed(e) && e.code
            == err->code && e.message == err->message),
        raw == 0 && err is Clear ==> r is Absent,
{
    if raw != 0 {
        ledger.acquire(raw);
        FactoryOutcome::Produced(raw)
    } else {
        match err {
            ErrorState::Clear => FactoryOutcome::Absent,
            ErrorState::Faulted { code, message } => {
                FactoryOutcome::Failed(NativeError { code, message })
            },
        }
    }
}

/// Gathers the receiver and the remaining operands of a variadic operator
/// into one operand vector, in order, refusing a list the native interface
/// could not take: the result is absent exactly when the count would not
/// fit the native 32-bit argument counter.  The vector is never empty.
pub fn gather_operands(first: u64, rest: &Vec<u64>) -> (r: Option<Vec<u64>>)
    ensures
        match r {
            Some(ops) => ops@ == seq![first] + rest@ && 1 <= ops@.len() <= u32::MAX,
            None => 1 + rest@.len() > u32::MAX,
        },
{
    if rest.len() > (u32::MAX - 1) as usize {
        return None;
    }
    let mut ops: Vec<u64> = Vec::new();
    ops.push(first);
    let n = rest.len();
    let mut i: usize = 0;
    while i < n
        invariant
            i <= n,
            n == rest@.len(),
            ops@ =~= seq![first] + rest@.take(i as int),
        decreases n - i,
    {
        ops.push(rest[i]);
        i = i + 1;
    }
    proof {
        assert(ops@ =~= seq![first] + rest@);
    }
    Some(ops)
}

/// An argument count converted for the native 32-bit counter; absent
/// exactly when the count does not fit.
pub fn checked_arg_count(n: usize) -> (r: Option<u32>)
    ensures
        match r {
            Some(k) => k == n,
            None => n > u32::MAX,
        },
{
    if n <= u32::MAX as usize {
        Some(n as u32)
    } else {
        None
    }
}

/// A term decomposed into its head declaration and its argument terms, each
/// of them reference-counted by the ledger.
pub struct Application {
    pub decl: u64,
    pub args: Vec<u64>,
}

impl Application {
    /// The members in the fixed order they are counted: the arguments
    /// first, then the head declaration.
    pub open spec fn members(self) -> Seq<u64> {
        self.args@ + seq![self.decl]
    }
}

/// Why a term could not be decomposed into an application.
pub enum DecomposeError {
    /// The term is not an application node at all.
    NotApplication,
    /// The term is an application of zero arguments; the decomposition
    /// refuses it rather than hand back an empty argument list.
    Nullary,
    /// A native accessor returned the null sentinel or the argument list
    /// does not match the declared count: the decomposition would be
    /// incomplete, so nothing was reference-counted.
    Incomplete,
}

/// Assembles a decomposed application from the native accessors' outputs,
/// counting every argument and the head declaration as one transaction.
/// `is_app` is the native answer to "is this an application node",
/// `declared_argc` the argument count the node reports, `decl_ast` the head
/// declaration seen as a term, and `args` the fetched arguments with the
/// null sentinel encoded as `0`.  On any failure the ledger is untouched.
#[verifier::loop_isolation(false)]
pub fn assemble_application(
    ledger: &mut RefLedger,
    is_app: bool,
    declared_argc: u32,
    decl_ast: u64,
    args: Vec<u64>,
    ) -> (r: Result<Application, DecomposeError>)
    requires
        old(ledger).wf(),
        count_of(old(ledger)@, decl_ast) + 1 + args@.len() <= u64::MAX,
        forall|i: int|
            0 <= i < args@.len() ==> count_of(old(ledger)@, #[trigger] args@[i]) + 1 + args@.len()
                <= u64::MAX,
    ensures
        final(ledger).wf(),
        !is_app ==> r == Result::<Application, DecomposeError>::Err(
            DecomposeError::NotApplication,
        ),
        is_app && declared_argc == 0 ==> r == Result::<Application, DecomposeError>::Err(
            DecomposeError::Nullary,
        ),
        match r {
            Ok(a) => is_app && declared_argc > 0 && a.decl == decl_ast && a.args@ == args@
                && decl_ast != 0 && args@.len() == declared_argc && (forall|i: int|
                0 <= i < args@.len() ==> args@[i] != 0) && final(ledger)@ == apply_acquires(
                old(ledger)@,
                a.members(),
            ),
            Err(_) => final(ledger)@ == old(ledger)@,
        },
        is_app && declared_argc > 0 && decl_ast != 0 && args@.len() == declared_argc && (
        forall|i: int| 0 <= i < args@.len() ==> args@[i] != 0) ==> r is Ok,
{
    if !is_app {
        return Err(DecomposeError::NotApplication);
    }
    if declared_argc == 0 {
        return Err(DecomposeError::Nullary);
    }
    if decl_ast == 0 || args.len() != declared_argc as usize {
        return Err(DecomposeError::Incomplete);
    }
    let n = args.len();
    let mut i: usize = 0;
    while i < n
        invariant
            i <= n,
            n == args@.len(),
            forall|j: int| 0 <= j < i ==> args@[j] != 0,
        decreases n - i,
    {
        if args[i] == 0 {
            return Err(DecomposeError::Incomplete);
        }
        i = i + 1;
    }
    let mut ids: Vec<u64> = Vec::new();
    let mut i: usize = 0;
    while i < n
        invariant
            i <= n,
            n == args@.len(),
            ids@ =~= args@.take(i as int),
        decreases n - i,
    {
        ids.push(args[i]);
        i = i + 1;
    }
    ids.push(decl_ast);
    let a = Application { decl: decl_ast, args };
    proof {
        assert(ids@ =~= a.members());
        lemma_headroom_acquires_ok(ledger@, ids@);
    }
    ledger.acquire_all(&ids);
    Ok(a)
}

} // verus!
