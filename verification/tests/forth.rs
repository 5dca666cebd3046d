use devzat_forth::watchdog::RunOutcome;
use devzat_forth::{HostCall, Interpreter};

const FACTORIAL: &str = ": \u{1F955} dup 0> if 1 swap 0 do over * loop swap drop else 2drop 1 then ;\n";
const ALIAS: &str = ": :carrot: \u{1F955} ;\n";

fn evaluates(call: &HostCall, code: &str) -> bool {
    matches!(call, HostCall::Evaluate(c) if c == code)
}

#[test]
fn am_forth_starts_with_the_carrot_words() {
    let calls = Interpreter::AmForth.init();
    assert_eq!(calls.len(), 3);
    assert!(matches!(calls[0], HostCall::Init));
    assert!(evaluates(&calls[1], FACTORIAL));
    assert!(evaluates(&calls[2], ALIAS));
}

#[test]
fn se_forth_without_blocks_registers_no_block_file() {
    let se = Interpreter::SeForth { block_file: "blocks.fb".to_string(), number_fo_blocks: 0 };
    let calls = se.run_default_code();
    assert_eq!(calls.len(), 2);
    assert!(evaluates(&calls[0], FACTORIAL));
    assert!(evaluates(&calls[1], ALIAS));
}

#[test]
fn se_forth_with_blocks_registers_the_block_file() {
    let se = Interpreter::SeForth { block_file: "blocks.fb".to_string(), number_fo_blocks: 16 };
    let calls = se.init();
    assert_eq!(calls.len(), 4);
    assert!(matches!(calls[0], HostCall::Init));
    assert!(evaluates(&calls[1], FACTORIAL));
    assert!(evaluates(&calls[2], ALIAS));
    assert!(matches!(&calls[3], HostCall::RegisterBlockFile { file, blocks: 16 } if file == "blocks.fb"));
}

#[test]
fn only_se_forth_is_restarted_when_not_ready() {
    let se = Interpreter::SeForth { block_file: String::new(), number_fo_blocks: 0 };
    let calls = se.prepare(false);
    assert_eq!(calls.len(), 1);
    assert!(matches!(calls[0], HostCall::Restart));
    assert!(se.prepare(true).is_empty());
    assert!(Interpreter::AmForth.prepare(false).is_empty());
    assert!(Interpreter::AmForth.prepare(true).is_empty());
}

#[test]
fn am_forth_recovery_resets_without_default_code() {
    let calls = Interpreter::AmForth.recover();
    assert_eq!(calls.len(), 2);
    assert!(matches!(calls[0], HostCall::Init));
    assert!(matches!(calls[1], HostCall::ReportTimeout));
}

#[test]
fn se_forth_recovery_runs_the_default_code_again() {
    let se = Interpreter::SeForth { block_file: "b".to_string(), number_fo_blocks: -3 };
    let calls = se.recover();
    assert_eq!(calls.len(), 4);
    assert!(matches!(calls[0], HostCall::Init));
    assert!(evaluates(&calls[1], FACTORIAL));
    assert!(evaluates(&calls[2], ALIAS));
    assert!(matches!(calls[3], HostCall::ReportTimeout));
}

#[test]
fn nothing_follows_a_finished_evaluation() {
    assert!(Interpreter::AmForth.after_evaluation(RunOutcome::Finished).is_empty());
    let se = Interpreter::SeForth { block_file: "b".to_string(), number_fo_blocks: 2 };
    assert!(se.after_evaluation(RunOutcome::Finished).is_empty());
}

#[test]
fn a_timed_out_evaluation_is_followed_by_the_recovery() {
    let am = Interpreter::AmForth.after_evaluation(RunOutcome::TimedOut);
    assert_eq!(am.len(), 2);
    assert!(matches!(am[0], HostCall::Init));
    assert!(matches!(am[1], HostCall::ReportTimeout));
    let se = Interpreter::SeForth { block_file: "b".to_string(), number_fo_blocks: 2 };
    let calls = se.after_evaluation(RunOutcome::TimedOut);
    assert_eq!(calls.len(), 5);
    assert!(matches!(calls[0], HostCall::Init));
    assert!(evaluates(&calls[1], FACTORIAL));
    assert!(evaluates(&calls[2], ALIAS));
    assert!(matches!(&calls[3], HostCall::RegisterBlockFile { file, blocks: 2 } if file == "b"));
    assert!(matches!(calls[4], HostCall::ReportTimeout));
}
