//! The conditions of a batch: under which outcome of earlier steps a step is
//! run, how such a condition is read from a request, and who may run what.

use vstd::prelude::*;

verus! {

/// A condition on the steps of a batch that were run before.
#[derive(Debug)]
pub enum Cond {
    /// The step succeeded.
    StepOk { step: usize },
    /// The step did not succeed: it failed or was not run.
    StepErr { step: usize },
    /// The condition does not hold.
    Not { cond: Box<Cond> },
    /// Every one of the conditions holds.
    And { conds: Vec<Cond> },
    /// One of the conditions holds.
    Or { conds: Vec<Cond> },
    /// The connection is outside a transaction.
    IsAutocommit,
}

/// A condition as a request carries it: its steps are signed numbers.
#[derive(Debug)]
pub enum BatchCond {
    StepOk { step: i32 },
    Error { step: i32 },
    Not { cond: Box<BatchCond> },
    And { conds: Vec<BatchCond> },
    Or { conds: Vec<BatchCond> },
}

/// A condition names a step that the batch does not hold before it.
#[derive(Debug, Clone, Copy, PartialEq, Eq, Structural)]
pub struct BatchCondBadStep;

/// A condition asks for the outcome of a step that was not run yet.
#[derive(Debug, Clone, Copy, PartialEq, Eq, Structural)]
pub struct InvalidBatchStep(pub usize);

/// Who a request comes from.
#[derive(Debug, Clone, Copy, PartialEq, Eq, Structural)]
pub enum Authenticated {
    Anonymous,
    Authorized(Authorized),
}

/// What a client that is known may do.
#[derive(Debug, Clone, Copy, PartialEq, Eq, Structural)]
pub struct Authorized {
    pub permission: Permission,
}

/// How much a client that is known may do.
#[derive(Debug, Clone, Copy, PartialEq, Eq, Structural)]
pub enum Permission {
    FullAccess,
    ReadOnly,
}

/// What a statement does, as far as access goes.
#[derive(Debug, Clone, Copy, PartialEq, Eq, Structural)]
pub enum StmtKind {
    TxnBegin,
    TxnEnd,
    Read,
    Write,
    Other,
}

/// Why a program is not run for a client.
#[derive(Debug, Clone, Copy, PartialEq, Eq, Structural)]
pub enum NotAuthorized {
    /// The client is not known.
    Anonymous,
    /// The client may not run the statement of the step with this number.
    Statement(usize),
}

/// What a condition comes to, given the outcomes of the steps that were run
/// and whether the connection is outside a transaction. A condition on a step
/// that was not run comes to an error. The conditions of a list are all
/// looked at, in order, so that the first error among them is the error of
/// the list.
pub open spec fn spec_eval_cond(cond: Cond, results: Seq<bool>, is_autocommit: bool) -> Result<
    bool,
    InvalidBatchStep,
>
    decreases cond, 0nat,
{
    match cond {
        Cond::StepOk { step } => if step < results.len() {
            Ok(results[step as int])
        } else {
            Err(InvalidBatchStep(step))
        },
        Cond::StepErr { step } => if step < results.len() {
            Ok(!results[step as int])
        } else {
            Err(InvalidBatchStep(step))
        },
        Cond::Not { cond } => match spec_eval_cond(*cond, results, is_autocommit) {
            Ok(b) => Ok(!b),
            Err(e) => Err(e),
        },
        Cond::And { conds } => spec_eval_list(conds@, conds@.len(), true, results, is_autocommit),
        Cond::Or { conds } => spec_eval_list(conds@, conds@.len(), false, results, is_autocommit),
        Cond::IsAutocommit => Ok(is_autocommit),
    }
}

/// What the first `n` conditions of a list come to together: whether all of
/// them hold, or, where `all` is not set, whether one of them holds.
pub open spec fn spec_eval_list(
    conds: Seq<Cond>,
    n: nat,
    all: bool,
    results: Seq<bool>,
    is_autocommit: bool,
) -> Result<bool, InvalidBatchStep>
    decreases conds, n,
{
    if n == 0 || n > conds.len() {
        Ok(all)
    } else {
        match spec_eval_list(conds, (n - 1) as nat, all, results, is_autocommit) {
            Err(e) => Err(e),
            Ok(x) => match spec_eval_cond(conds[n - 1], results, is_autocommit) {
                Err(e) => Err(e),
                Ok(y) => Ok(
                    if all {
                        x && y
                    } else {
                        x || y
                    },
                ),
            },
        }
    }
}

/// Evaluates a condition.
pub fn eval_cond(cond: &Cond, results: &[bool], is_autocommit: bool) -> (value: Result<
    bool,
    InvalidBatchStep,
>)
    ensures
        value == spec_eval_cond(*cond, results@, is_autocommit),
    decreases cond,
{
    match cond {
        Cond::StepOk { step } => {
            if *step < results.len() {
                Ok(results[*step])
            } else {
                Err(InvalidBatchStep(*step))
            }
        },
        Cond::StepErr { step } => {
            if *step < results.len() {
                Ok(!results[*step])
            } else {
                Err(InvalidBatchStep(*step))
            }
        },
        Cond::Not { cond } => match eval_cond(cond, results, is_autocommit) {
            Ok(b) => Ok(!b),
            Err(e) => Err(e),
        },
        Cond::And { conds } => eval_list(conds, true, results, is_autocommit),
        Cond::Or { conds } => eval_list(conds, false, results, is_autocommit),
        Cond::IsAutocommit => Ok(is_autocommit),
    }
}

fn eval_list(conds: &Vec<Cond>, all: bool, results: &[bool], is_autocommit: bool) -> (value: Result<
    bool,
    InvalidBatchStep,
>)
    ensures
        value == spec_eval_list(conds@, conds@.len(), all, results@, is_autocommit),
    decreases conds,
{
    let mut acc: bool = all;
    let mut i: usize = 0;
    while i < conds.len()
        invariant
            i <= conds@.len(),
            spec_eval_list(conds@, i as nat, all, results@, is_autocommit) == Ok::<
                bool,
                InvalidBatchStep,
            >(acc),
        decreases conds@.len() - i,
    {
        match eval_cond(&conds[i], results, is_autocommit) {
            Ok(y) => {
                acc = if all {
                    acc && y
                } else {
                    acc || y
                };
            },
            Err(e) => {
                proof {
                    lemma_list_error_stays(
                        conds@,
                        (i + 1) as nat,
                        conds@.len(),
                        all,
                        results@,
                        is_autocommit,
                    );
                }
                return Err(e);
            },
        }
        i += 1;
    }
    Ok(acc)
}

/// Once the first conditions of a list come to an error, the list does.
pub proof fn lemma_list_error_stays(
    conds: Seq<Cond>,
    n: nat,
    m: nat,
    all: bool,
    results: Seq<bool>,
    is_autocommit: bool,
)
    requires
        n <= m <= conds.len(),
        spec_eval_list(conds, n, all, results, is_autocommit) is Err,
    ensures
        spec_eval_list(conds, m, all, results, is_autocommit) == spec_eval_list(
            conds,
            n,
            all,
            results,
            is_autocommit,
        ),
    decreases m - n,
{
    if n < m {
        lemma_list_error_stays(conds, n, (m - 1) as nat, all, results, is_autocommit);
    }
}

/// Whether a condition of a request names only steps before step
/// `max_step_i`.
pub open spec fn spec_cond_in_range(cond: BatchCond, max_step_i: usize) -> bool
    decreases cond, 0nat,
{
    match cond {
        BatchCond::StepOk { step } => 0 <= step < max_step_i,
        BatchCond::Error { step } => 0 <= step < max_step_i,
        BatchCond::Not { cond } => spec_cond_in_range(*cond, max_step_i),
        BatchCond::And { conds } => spec_conds_in_range(conds@, conds@.len(), max_step_i),
        BatchCond::Or { conds } => spec_conds_in_range(conds@, conds@.len(), max_step_i),
    }
}

/// Whether the first `n` conditions of a list name only steps before step
/// `max_step_i`.
pub open spec fn spec_conds_in_range(conds: Seq<BatchCond>, n: nat, max_step_i: usize) -> bool
    decreases conds, n,
{
    if n == 0 || n > conds.len() {
        true
    } else {
        spec_conds_in_range(conds, (n - 1) as nat, max_step_i) && spec_cond_in_range(
            conds[n - 1],
            max_step_i,
        )
    }
}

/// Whether `cond` is the condition that the request's `proto` stands for.
pub open spec fn spec_cond_of(proto: BatchCond, cond: Cond) -> bool
    decreases proto, 0nat,
{
    match (proto, cond) {
        (BatchCond::StepOk { step: p }, Cond::StepOk { step }) => p == step,
        (BatchCond::Error { step: p }, Cond::StepErr { step }) => p == step,
        (BatchCond::Not { cond: p }, Cond::Not { cond }) => spec_cond_of(*p, *cond),
        (BatchCond::And { conds: p }, Cond::And { conds }) => spec_conds_of(
            p@,
            conds@,
            p@.len(),
        ),
        (BatchCond::Or { conds: p }, Cond::Or { conds }) => spec_conds_of(p@, conds@, p@.len()),
        _ => false,
    }
}

/// Whether the conditions `conds` are, one by one, what the first `n`
/// conditions of the request's `protos` stand for.
pub open spec fn spec_conds_of(protos: Seq<BatchCond>, conds: Seq<Cond>, n: nat) -> bool
    decreases protos, n,
{
    if n > protos.len() {
        false
    } else if n == 0 {
        conds.len() == 0
    } else {
        conds.len() == n && spec_conds_of(protos, conds.drop_last(), (n - 1) as nat)
            && spec_cond_of(protos[n - 1], conds.last())
    }
}

/// Reads the condition of a step from a request. The condition of step
/// `max_step_i` may name the steps before it and no others.
pub fn proto_cond_to_cond(cond: &BatchCond, max_step_i: usize) -> (read: Result<
    Cond,
    BatchCondBadStep,
>)
    ensures
        match read {
            Ok(c) => spec_cond_in_range(*cond, max_step_i) && spec_cond_of(*cond, c),
            Err(_) => !spec_cond_in_range(*cond, max_step_i),
        },
    decreases cond,
{
    match cond {
        BatchCond::StepOk { step } => match convert_step(*step, max_step_i) {
            Some(step) => Ok(Cond::StepOk { step }),
            None => Err(BatchCondBadStep),
        },
        BatchCond::Error { step } => match convert_step(*step, max_step_i) {
            Some(step) => Ok(Cond::StepErr { step }),
            None => Err(BatchCondBadStep),
        },
        BatchCond::Not { cond } => match proto_cond_to_cond(cond, max_step_i) {
            Ok(c) => Ok(Cond::Not { cond: Box::new(c) }),
            Err(e) => Err(e),
        },
        BatchCond::And { conds } => match proto_conds_to_conds(conds, max_step_i) {
            Ok(conds) => Ok(Cond::And { conds }),
            Err(e) => Err(e),
        },
        BatchCond::Or { conds } => match proto_conds_to_conds(conds, max_step_i) {
            Ok(conds) => Ok(Cond::Or { conds }),
            Err(e) => Err(e),
        },
    }
}

fn convert_step(step: i32, max_step_i: usize) -> (converted: Option<usize>)
    ensures
        converted == if 0 <= step < max_step_i {
            Some(step as usize)
        } else {
            None
        },
{
    if step < 0 {
        return None;
    }
    let step: usize = step as usize;
    if step >= max_step_i {
        None
    } else {
        Some(step)
    }
}

fn proto_conds_to_conds(protos: &Vec<BatchCond>, max_step_i: usize) -> (read: Result<
    Vec<Cond>,
    BatchCondBadStep,
>)
    ensures
        match read {
            Ok(conds) => spec_conds_in_range(protos@, protos@.len(), max_step_i) && spec_conds_of(
                protos@,
                conds@,
                protos@.len(),
            ),
            Err(_) => !spec_conds_in_range(protos@, protos@.len(), max_step_i),
        },
    decreases protos,
{
    let mut out: Vec<Cond> = Vec::new();
    let mut i: usize = 0;
    while i < protos.len()
        invariant
            i <= protos@.len(),
            spec_conds_in_range(protos@, i as nat, max_step_i),
            spec_conds_of(protos@, out@, i as nat),
        decreases protos@.len() - i,
    {
        match proto_cond_to_cond(&protos[i], max_step_i) {
            Ok(c) => {
                let ghost before = out@;
                out.push(c);
                assert(out@.drop_last() =~= before);
            },
            Err(e) => {
                proof {
                    lemma_out_of_range_stays(protos@, (i + 1) as nat, protos@.len(), max_step_i);
                }
                return Err(e);
            },
        }
        i += 1;
    }
    Ok(out)
}

/// Once the first conditions of a list name a step out of range, the list
/// does.
pub proof fn lemma_out_of_range_stays(conds: Seq<BatchCond>, n: nat, m: nat, max_step_i: usize)
    requires
        n <= m <= conds.len(),
        !spec_conds_in_range(conds, n, max_step_i),
    ensures
        !spec_conds_in_range(conds, m, max_step_i),
    decreases m - n,
{
    if n < m {
        lemma_out_of_range_stays(conds, n, (m - 1) as nat, max_step_i);
    }
}

/// The condition of a step in a sequence of statements: each statement but
/// the first is run where the one before it succeeded.
pub fn sequence_cond(step_i: usize) -> (cond: Option<Cond>)
    ensures
        match cond {
            None => step_i == 0,
            Some(c) => step_i > 0 && c == (Cond::StepOk { step: (step_i - 1) as usize }),
        },
{
    if step_i == 0 {
        None
    } else {
        Some(Cond::StepOk { step: step_i - 1 })
    }
}

/// Whether a client may run a statement of the given kind: a client with
/// full access may run every statement, one without may read, and begin and
/// end transactions.
pub open spec fn spec_statement_allowed(kind: StmtKind, who: Authorized) -> bool {
    kind == StmtKind::Read || kind == StmtKind::TxnBegin || kind == StmtKind::TxnEnd
        || who.permission == Permission::FullAccess
}

/// Checks that a client may run a program, given the kinds of the statements
/// of its steps. The first statement that the client may not run is the
/// error.
pub fn check_program_auth(auth: Authenticated, kinds: &[StmtKind]) -> (checked: Result<
    (),
    NotAuthorized,
>)
    ensures
        match checked {
            Ok(()) => kinds@.len() == 0 || match auth {
                Authenticated::Authorized(who) => forall|i: int|
                    0 <= i < kinds@.len() ==> spec_statement_allowed(#[trigger] kinds@[i], who),
                Authenticated::Anonymous => false,
            },
            Err(NotAuthorized::Anonymous) => kinds@.len() > 0 && auth == Authenticated::Anonymous,
            Err(NotAuthorized::Statement(at)) => match auth {
                Authenticated::Authorized(who) => {
                    &&& at < kinds@.len()
                    &&& !spec_statement_allowed(kinds@[at as int], who)
                    &&& forall|j: int|
                        0 <= j < at ==> spec_statement_allowed(#[trigger] kinds@[j], who)
                },
                Authenticated::Anonymous => false,
            },
        },
{
    if kinds.len() == 0 {
        return Ok(());
    }
    let who: Authorized = match auth {
        Authenticated::Anonymous => {
            return Err(NotAuthorized::Anonymous);
        },
        Authenticated::Authorized(who) => who,
    };
    let mut i: usize = 0;
    while i < kinds.len()
        invariant
            i <= kinds@.len(),
            auth == Authenticated::Authorized(who),
            forall|j: int| 0 <= j < i ==> spec_statement_allowed(#[trigger] kinds@[j], who),
        decreases kinds@.len() - i,
    {
        let allowed: bool = match kinds[i] {
            StmtKind::Read | StmtKind::TxnBegin | StmtKind::TxnEnd => true,
            _ => match who.permission {
                Permission::FullAccess => true,
                Permission::ReadOnly => false,
            },
        };
        if !allowed {
            return Err(NotAuthorized::Statement(i));
        }
        i += 1;
    }
    Ok(())
}

/// Checks that a client may have a statement described: every client that is
/// known may.
pub fn check_describe_auth(auth: Authenticated) -> (checked: Result<(), NotAuthorized>)
    ensures
        checked == match auth {
            Authenticated::Anonymous => Err::<(), NotAuthorized>(NotAuthorized::Anonymous),
            Authenticated::Authorized(_) => Ok::<(), NotAuthorized>(()),
        },
{
    match auth {
        Authenticated::Anonymous => Err(NotAuthorized::Anonymous),
        Authenticated::Authorized(_) => Ok(()),
    }
}

/// A statement as a request carries it, without its arguments.
#[derive(Debug)]
pub struct Stmt {
    pub sql: String,
    pub want_rows: bool,
}

/// A step of a batch as a request carries it.
#[derive(Debug)]
pub struct BatchStep {
    pub condition: Option<BatchCond>,
    pub stmt: Stmt,
}

/// A batch as a request carries it.
#[derive(Debug)]
pub struct Batch {
    pub steps: Vec<BatchStep>,
}

/// A statement to run.
#[derive(Debug)]
pub struct Query {
    pub sql: String,
    pub want_rows: bool,
}

/// A step of a program: a statement, and the condition under which it is
/// run.
#[derive(Debug)]
pub struct Step {
    pub cond: Option<Cond>,
    pub query: Query,
}

/// A program: steps that are run in turn.
#[derive(Debug)]
pub struct Program {
    pub steps: Vec<Step>,
}

/// Whether the condition of step `i` of a batch names only steps before it.
pub open spec fn spec_step_in_range(batch: Batch, i: int) -> bool {
    match batch.steps@[i].condition {
        Some(c) => spec_cond_in_range(c, i as usize),
        None => true,
    }
}

/// Whether `step` is what step `i` of a batch stands for: the same
/// statement, under the same condition, which names only steps before it.
pub open spec fn spec_step_of(batch: Batch, i: int, step: Step) -> bool {
    &&& spec_step_in_range(batch, i)
    &&& step.query.sql@ == batch.steps@[i].stmt.sql@
    &&& step.query.want_rows == batch.steps@[i].stmt.want_rows
    &&& match (batch.steps@[i].condition, step.cond) {
        (Some(p), Some(c)) => spec_cond_of(p, c),
        (None, None) => true,
        _ => false,
    }
}

/// Makes a program of a batch: step by step, each with its condition. A
/// batch in which a condition names a step that does not stand before its
/// own is refused.
pub fn proto_batch_to_program(batch: &Batch) -> (made: Result<Program, BatchCondBadStep>)
    ensures
        match made {
            Ok(pgm) => {
                &&& pgm.steps@.len() == batch.steps@.len()
                &&& forall|i: int|
                    0 <= i < batch.steps@.len() ==> spec_step_of(*batch, i, #[trigger] pgm.steps@[i])
            },
            Err(_) => exists|i: int|
                0 <= i < batch.steps@.len() && !#[trigger] spec_step_in_range(*batch, i),
        },
{
    let mut steps: Vec<Step> = Vec::new();
    let mut step_i: usize = 0;
    while step_i < batch.steps.len()
        invariant
            step_i <= batch.steps@.len(),
            steps@.len() == step_i,
            forall|i: int| 0 <= i < step_i ==> spec_step_of(*batch, i, #[trigger] steps@[i]),
        decreases batch.steps@.len() - step_i,
    {
        let step: &BatchStep = &batch.steps[step_i];
        let cond: Option<Cond> = match &step.condition {
            Some(c) => match proto_cond_to_cond(c, step_i) {
                Ok(c) => Some(c),
                Err(e) => {
                    assert(!spec_step_in_range(*batch, step_i as int));
                    return Err(e);
                },
            },
            None => None,
        };
        let query = Query { sql: step.stmt.sql.clone(), want_rows: step.stmt.want_rows };
        let ghost before = steps@;
        steps.push(Step { cond, query });
        assert forall|i: int| 0 <= i < step_i + 1 implies spec_step_of(
            *batch,
            i,
            #[trigger] steps@[i],
        ) by {
            if i < step_i {
                assert(steps@[i] == before[i]);
            }
        }
        step_i += 1;
    }
    Ok(Program { steps })
}

/// Makes a program of a sequence of statements: each statement but the
/// first is run where the one before it succeeded, and none of them hands
/// back rows.
pub fn proto_sequence_to_program(stmts: Vec<String>) -> (pgm: Program)
    ensures
        pgm.steps@.len() == stmts@.len(),
        forall|i: int|
            0 <= i < stmts@.len() ==> {
                &&& (#[trigger] pgm.steps@[i]).query.sql@ == stmts@[i]@
                &&& !pgm.steps@[i].query.want_rows
                &&& match pgm.steps@[i].cond {
                    None => i == 0,
                    Some(c) => i > 0 && c == (Cond::StepOk { step: (i - 1) as usize }),
                }
            },
{
    let mut steps: Vec<Step> = Vec::new();
    let mut step_i: usize = 0;
    while step_i < stmts.len()
        invariant
            step_i <= stmts@.len(),
            steps@.len() == step_i,
            forall|i: int|
                0 <= i < step_i ==> {
                    &&& (#[trigger] steps@[i]).query.sql@ == stmts@[i]@
                    &&& !steps@[i].query.want_rows
                    &&& match steps@[i].cond {
                        None => i == 0,
                        Some(c) => i > 0 && c == (Cond::StepOk { step: (i - 1) as usize }),
                    }
                },
        decreases stmts@.len() - step_i,
    {
        let query = Query { sql: stmts[step_i].clone(), want_rows: false };
        let ghost before = steps@;
        steps.push(Step { cond: sequence_cond(step_i), query });
        assert forall|i: int| 0 <= i < step_i + 1 implies {
            &&& (#[trigger] steps@[i]).query.sql@ == stmts@[i]@
            &&& !steps@[i].query.want_rows
            &&& match steps@[i].cond {
                None => i == 0,
                Some(c) => i > 0 && c == (Cond::StepOk { step: (i - 1) as usize }),
            }
        } by {
            if i < step_i {
                assert(steps@[i] == before[i]);
            }
        }
        step_i += 1;
    }
    Program { steps }
}

} // verus!
