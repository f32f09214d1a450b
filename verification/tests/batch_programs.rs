use bottomless::program::{
    check_describe_auth, check_program_auth, eval_cond, proto_batch_to_program,
    proto_cond_to_cond, proto_sequence_to_program, sequence_cond, Authenticated, Authorized,
    Batch, BatchCond, BatchCondBadStep, BatchStep, Cond, InvalidBatchStep, NotAuthorized,
    Permission, Stmt, StmtKind,
};

fn ok(step: usize) -> Cond {
    Cond::StepOk { step }
}

fn err(step: usize) -> Cond {
    Cond::StepErr { step }
}

fn not(cond: Cond) -> Cond {
    Cond::Not { cond: Box::new(cond) }
}

#[test]
fn conditions_on_steps() {
    let results = [true, false];
    assert_eq!(eval_cond(&ok(0), &results, false), Ok(true));
    assert_eq!(eval_cond(&ok(1), &results, false), Ok(false));
    assert_eq!(eval_cond(&err(0), &results, false), Ok(false));
    assert_eq!(eval_cond(&err(1), &results, false), Ok(true));
    assert_eq!(eval_cond(&ok(2), &results, false), Err(InvalidBatchStep(2)));
    assert_eq!(eval_cond(&err(usize::MAX), &results, false), Err(InvalidBatchStep(usize::MAX)));
    assert_eq!(eval_cond(&ok(0), &[], false), Err(InvalidBatchStep(0)));
}

#[test]
fn conditions_combined() {
    let results = [true, false];
    assert_eq!(eval_cond(&not(ok(0)), &results, false), Ok(false));
    assert_eq!(eval_cond(&not(not(ok(0))), &results, false), Ok(true));
    assert_eq!(eval_cond(&Cond::And { conds: vec![] }, &results, false), Ok(true));
    assert_eq!(eval_cond(&Cond::Or { conds: vec![] }, &results, false), Ok(false));
    assert_eq!(eval_cond(&Cond::And { conds: vec![ok(0), err(1)] }, &results, false), Ok(true));
    assert_eq!(eval_cond(&Cond::And { conds: vec![ok(0), ok(1)] }, &results, false), Ok(false));
    assert_eq!(eval_cond(&Cond::Or { conds: vec![ok(1), err(0)] }, &results, false), Ok(false));
    assert_eq!(eval_cond(&Cond::Or { conds: vec![ok(1), ok(0)] }, &results, false), Ok(true));
    assert_eq!(eval_cond(&Cond::IsAutocommit, &results, true), Ok(true));
    assert_eq!(eval_cond(&Cond::IsAutocommit, &results, false), Ok(false));
    assert_eq!(
        eval_cond(&Cond::And { conds: vec![Cond::IsAutocommit, not(ok(1))] }, &results, true),
        Ok(true)
    );
}

#[test]
fn lists_are_looked_through_for_errors() {
    let results = [true, false];
    // A list does not stop at the condition that settles it.
    assert_eq!(
        eval_cond(&Cond::And { conds: vec![ok(1), ok(5)] }, &results, false),
        Err(InvalidBatchStep(5))
    );
    assert_eq!(
        eval_cond(&Cond::Or { conds: vec![ok(0), ok(7)] }, &results, false),
        Err(InvalidBatchStep(7))
    );
    assert_eq!(
        eval_cond(&Cond::Or { conds: vec![ok(9), ok(7)] }, &results, false),
        Err(InvalidBatchStep(9))
    );
    assert_eq!(
        eval_cond(&not(Cond::And { conds: vec![ok(0), not(ok(3))] }), &results, false),
        Err(InvalidBatchStep(3))
    );
}

#[test]
fn conditions_of_a_request() {
    let c = proto_cond_to_cond(&BatchCond::StepOk { step: 1 }, 2).unwrap();
    assert!(matches!(c, Cond::StepOk { step: 1 }));
    let c = proto_cond_to_cond(&BatchCond::Error { step: 0 }, 1).unwrap();
    assert!(matches!(c, Cond::StepErr { step: 0 }));
    assert_eq!(proto_cond_to_cond(&BatchCond::StepOk { step: 2 }, 2).err(), Some(BatchCondBadStep));
    assert_eq!(proto_cond_to_cond(&BatchCond::StepOk { step: -1 }, 2).err(), Some(BatchCondBadStep));
    assert_eq!(proto_cond_to_cond(&BatchCond::StepOk { step: 0 }, 0).err(), Some(BatchCondBadStep));
    assert_eq!(
        proto_cond_to_cond(&BatchCond::Error { step: i32::MIN }, usize::MAX).err(),
        Some(BatchCondBadStep)
    );
    let nested = BatchCond::And {
        conds: vec![
            BatchCond::StepOk { step: 0 },
            BatchCond::Not {
                cond: Box::new(BatchCond::Or {
                    conds: vec![BatchCond::Error { step: 1 }, BatchCond::StepOk { step: 2 }],
                }),
            },
        ],
    };
    let c = proto_cond_to_cond(&nested, 3).unwrap();
    assert_eq!(eval_cond(&c, &[true, true, false], false), Ok(true));
    assert_eq!(eval_cond(&c, &[true, false, false], false), Ok(false));
    assert_eq!(proto_cond_to_cond(&nested, 2).err(), Some(BatchCondBadStep));
    assert!(proto_cond_to_cond(&BatchCond::And { conds: vec![] }, 0).is_ok());
}

fn step(sql: &str, condition: Option<BatchCond>) -> BatchStep {
    BatchStep { condition, stmt: Stmt { sql: sql.to_string(), want_rows: true } }
}

#[test]
fn program_of_a_batch() {
    let batch = Batch {
        steps: vec![
            step("begin", None),
            step("insert", Some(BatchCond::StepOk { step: 0 })),
            step("commit", Some(BatchCond::StepOk { step: 1 })),
            step("rollback", Some(BatchCond::Error { step: 1 })),
        ],
    };
    let pgm = proto_batch_to_program(&batch).unwrap();
    assert_eq!(pgm.steps.len(), 4);
    assert!(pgm.steps[0].cond.is_none());
    assert!(matches!(pgm.steps[1].cond, Some(Cond::StepOk { step: 0 })));
    assert!(matches!(pgm.steps[3].cond, Some(Cond::StepErr { step: 1 })));
    assert_eq!(pgm.steps[2].query.sql, "commit");
    assert!(pgm.steps[2].query.want_rows);
}

#[test]
fn batch_with_a_condition_on_a_later_step_is_refused() {
    let own = Batch { steps: vec![step("a", Some(BatchCond::StepOk { step: 0 }))] };
    assert_eq!(proto_batch_to_program(&own).err(), Some(BatchCondBadStep));
    let later = Batch {
        steps: vec![step("a", None), step("b", Some(BatchCond::StepOk { step: 1 }))],
    };
    assert_eq!(proto_batch_to_program(&later).err(), Some(BatchCondBadStep));
    assert_eq!(proto_batch_to_program(&Batch { steps: vec![] }).unwrap().steps.len(), 0);
}

#[test]
fn program_of_a_sequence() {
    let pgm = proto_sequence_to_program(vec!["a".to_string(), "b".to_string(), "c".to_string()]);
    assert_eq!(pgm.steps.len(), 3);
    assert!(pgm.steps[0].cond.is_none());
    assert!(matches!(pgm.steps[1].cond, Some(Cond::StepOk { step: 0 })));
    assert!(matches!(pgm.steps[2].cond, Some(Cond::StepOk { step: 1 })));
    assert_eq!(pgm.steps[1].query.sql, "b");
    assert!(!pgm.steps[1].query.want_rows);
    assert!(sequence_cond(0).is_none());
    assert!(matches!(sequence_cond(5), Some(Cond::StepOk { step: 4 })));
}

#[test]
fn who_may_run_what() {
    let full = Authenticated::Authorized(Authorized { permission: Permission::FullAccess });
    let read = Authenticated::Authorized(Authorized { permission: Permission::ReadOnly });
    let all = [StmtKind::TxnBegin, StmtKind::Read, StmtKind::Write, StmtKind::Other, StmtKind::TxnEnd];
    assert_eq!(check_program_auth(full, &all), Ok(()));
    assert_eq!(check_program_auth(read, &all), Err(NotAuthorized::Statement(2)));
    assert_eq!(
        check_program_auth(read, &[StmtKind::Read, StmtKind::Other]),
        Err(NotAuthorized::Statement(1))
    );
    assert_eq!(
        check_program_auth(read, &[StmtKind::TxnBegin, StmtKind::Read, StmtKind::TxnEnd]),
        Ok(())
    );
    assert_eq!(
        check_program_auth(Authenticated::Anonymous, &[StmtKind::Read]),
        Err(NotAuthorized::Anonymous)
    );
    assert_eq!(check_program_auth(Authenticated::Anonymous, &[]), Ok(()));
    assert_eq!(check_describe_auth(Authenticated::Anonymous), Err(NotAuthorized::Anonymous));
    assert_eq!(check_describe_auth(read), Ok(()));
    assert_eq!(check_describe_auth(full), Ok(()));
}
