use vstd::prelude::*;
use vstd::utf8::encode_utf8;

use crate::watchdog::RunOutcome;

verus! {

/// Forth source of the factorial word `🥕` that every interpreter knows from
/// the start.
pub open spec fn factorial_word_code() -> Seq<char> {
    ": \u{1F955} dup 0> if 1 swap 0 do over * loop swap drop else 2drop 1 then ;\n"@
}

/// Forth source of `:carrot:`, the chat-friendly name of the factorial word.
pub open spec fn carrot_alias_code() -> Seq<char> {
    ": :carrot: \u{1F955} ;\n"@
}

/// One call into a Forth interpreter that the plugin makes.
#[derive(Debug)]
pub enum HostCall {
    /// Create a fresh interpreter state, dropping all definitions.
    Init,
    /// Bring back an interpreter that is not ready to run (an earlier error
    /// left it in an unusable state); its definitions stay.
    Restart,
    /// Evaluate a piece of Forth source, under the watchdog.
    Evaluate(String),
    /// Give the interpreter a block file of the given number of blocks.
    RegisterBlockFile { file: String, blocks: isize },
    /// Write the notice that the evaluation timed out to the output.
    ReportTimeout,
}

/// `call` evaluates exactly `code`.
pub open spec fn evaluates(call: HostCall, code: Seq<char>) -> bool {
    call matches HostCall::Evaluate(c) && c@ == code
}

/// `calls` evaluates the two default definitions, in order, from position `at`.
pub open spec fn evaluates_default_code(calls: Seq<HostCall>, at: int) -> bool {
    &&& evaluates(calls[at], factorial_word_code())
    &&& evaluates(calls[at + 1], carrot_alias_code())
}

/// The Forth interpreter behind the plugin, with what the plugin needs to
/// know of it.
pub enum Interpreter {
    /// ASC miniForth: no readiness check, and a timeout only resets it.
    AmForth,
    /// SEForth: checked for readiness before each evaluation, with an
    /// optional block file, and given its default code again after a reset.
    SeForth { block_file: String, number_fo_blocks: isize },
}

impl Interpreter {
    /// The block file name goes through a C string when it is used, so it
    /// may hold no NUL byte then.
    pub open spec fn wf(&self) -> bool {
        match self {
            Interpreter::AmForth => true,
            Interpreter::SeForth { block_file, number_fo_blocks } => *number_fo_blocks > 0
                ==> !encode_utf8(block_file@).contains(0u8),
        }
    }

    /// Whether the interpreter is given a block file.
    pub open spec fn uses_block_file(&self) -> bool {
        self matches Interpreter::SeForth { number_fo_blocks, .. } && number_fo_blocks > 0
    }

    /// `call` registers this interpreter's block file.
    pub open spec fn registers_block_file(&self, call: HostCall) -> bool {
        match (self, call) {
            (
                Interpreter::SeForth { block_file, number_fo_blocks },
                HostCall::RegisterBlockFile { file, blocks },
            ) => file@ == block_file@ && blocks == *number_fo_blocks,
            _ => false,
        }
    }

    /// The code run on a fresh interpreter: the factorial word, its alias
    /// and, for SEForth with blocks, the block file.
    pub fn run_default_code(&self) -> (res: Vec<HostCall>)
        requires
            self.wf(),
        ensures
            res@.len() == if self.uses_block_file() { 3int } else { 2int },
            evaluates_default_code(res@, 0),
            self.uses_block_file() ==> self.registers_block_file(res@[2]),
    {
        let mut calls: Vec<HostCall> = Vec::new();
        let factorial = ": \u{1F955} dup 0> if 1 swap 0 do over * loop swap drop else 2drop 1 then ;\n";
        let alias = ": :carrot: \u{1F955} ;\n";
        calls.push(HostCall::Evaluate(factorial.to_owned()));
        calls.push(HostCall::Evaluate(alias.to_owned()));
        match self {
            Interpreter::AmForth => {},
            Interpreter::SeForth { block_file, number_fo_blocks } => {
                if *number_fo_blocks > 0 {
                    calls.push(
                        HostCall::RegisterBlockFile {
                            file: block_file.clone(),
                            blocks: *number_fo_blocks,
                        },
                    );
                }
            },
        }
        calls
    }

    /// The calls that bring up a new interpreter: a fresh state, then the
    /// default code.
    pub fn init(&self) -> (res: Vec<HostCall>)
        requires
            self.wf(),
        ensures
            res@.len() == if self.uses_block_file() { 4int } else { 3int },
            res@[0] is Init,
            evaluates_default_code(res@, 1),
            self.uses_block_file() ==> self.registers_block_file(res@[3]),
    {
        let mut calls: Vec<HostCall> = Vec::new();
        calls.push(HostCall::Init);
        let mut rest = self.run_default_code();
        calls.append(&mut rest);
        calls
    }

    /// The calls made before an evaluation, given whether the interpreter
    /// reported itself ready: SEForth is restarted when it is not ready;
    /// ASC miniForth is never asked.
    pub fn prepare(&self, ready: bool) -> (res: Vec<HostCall>)
        ensures
            res@.len() == if self is SeForth && !ready { 1int } else { 0int },
            res@.len() == 1 ==> res@[0] is Restart,
    {
        let mut calls: Vec<HostCall> = Vec::new();
        if let Interpreter::SeForth { .. } = self {
            if !ready {
                calls.push(HostCall::Restart);
            }
        }
        calls
    }

    /// `calls` reset this interpreter after a timeout: a fresh state and,
    /// for SEForth, the default code again, then the notice to the user.
    /// ASC miniForth loses its definitions.
    pub open spec fn is_recovery(&self, calls: Seq<HostCall>) -> bool {
        &&& calls.len() > 0
        &&& calls[0] is Init
        &&& calls.last() is ReportTimeout
        &&& self is AmForth ==> calls.len() == 2
        &&& self is SeForth ==> calls.len() == if self.uses_block_file() { 5int } else { 4int }
        &&& self is SeForth ==> evaluates_default_code(calls, 1)
        &&& self.uses_block_file() ==> self.registers_block_file(calls[3])
    }

    /// The calls made once an evaluation timed out (its thread cancelled).
    pub fn recover(&self) -> (res: Vec<HostCall>)
        requires
            self.wf(),
        ensures
            self.is_recovery(res@),
    {
        let mut calls: Vec<HostCall> = match self {
            Interpreter::AmForth => {
                let mut fresh: Vec<HostCall> = Vec::new();
                fresh.push(HostCall::Init);
                fresh
            },
            Interpreter::SeForth { .. } => self.init(),
        };
        calls.push(HostCall::ReportTimeout);
        calls
    }

    /// The calls made once an evaluation has ended, by the outcome of the
    /// final check: none when it finished, the recovery when it timed out.
    pub fn after_evaluation(&self, outcome: RunOutcome) -> (res: Vec<HostCall>)
        requires
            self.wf(),
        ensures
            outcome is Finished ==> res@.len() == 0,
            outcome is TimedOut ==> self.is_recovery(res@),
    {
        match outcome {
            RunOutcome::Finished => Vec::new(),
            RunOutcome::TimedOut => self.recover(),
        }
    }
}

/// A call evaluates exactly the code it carries.
pub proof fn lemma_evaluates_exactly(call: HostCall, code: Seq<char>)
    ensures
        evaluates(call, code) <==> (call is Evaluate && call->Evaluate_0@ == code),
{
}

/// ASC miniForth never uses a block file; SEForth uses one exactly when it
/// has a positive number of blocks, however many.
pub proof fn lemma_block_file_used_iff_blocks(block_file: String, number_fo_blocks: isize)
    ensures
        !Interpreter::AmForth.uses_block_file(),
        (Interpreter::SeForth { block_file, number_fo_blocks }).uses_block_file()
            <==> number_fo_blocks > 0,
{
}

/// A call registers SEForth's block file exactly when it gives the
/// interpreter's own file name with all of its blocks; nothing else, and
/// nothing for ASC miniForth, counts as registering it.
pub proof fn lemma_registered_block_file_is_the_own(
    block_file: String,
    number_fo_blocks: isize,
    call: HostCall,
)
    ensures
        (Interpreter::SeForth { block_file, number_fo_blocks }).registers_block_file(call) <==> (
        call is RegisterBlockFile && call->file@ == block_file@ && call->blocks
            == number_fo_blocks),
        !Interpreter::AmForth.registers_block_file(call),
{
}

/// The recovery of ASC miniForth is only a fresh state and the notice.
pub proof fn lemma_am_forth_recovery_only_resets(calls: Seq<HostCall>)
    requires
        Interpreter::AmForth.is_recovery(calls),
    ensures
        calls.len() == 2,
        calls[0] is Init,
        calls[1] is ReportTimeout,
{
}

/// The recovery of SEForth evaluates the two default definitions right
/// after the fresh state.
pub proof fn lemma_se_forth_recovery_runs_default_code(
    block_file: String,
    number_fo_blocks: isize,
    calls: Seq<HostCall>,
)
    requires
        (Interpreter::SeForth { block_file, number_fo_blocks }).is_recovery(calls),
    ensures
        calls[0] is Init,
        calls[1] is Evaluate && calls[1]->Evaluate_0@ == factorial_word_code(),
        calls[2] is Evaluate && calls[2]->Evaluate_0@ == carrot_alias_code(),
        calls.len() == if number_fo_blocks > 0 { 5int } else { 4int },
        calls.last() is ReportTimeout,
{
}

/// The recovery of an SEForth interpreter with blocks ends by registering
/// its own block file with all its blocks, just before the notice.
pub proof fn lemma_recovery_registers_all_blocks(
    block_file: String,
    number_fo_blocks: isize,
    calls: Seq<HostCall>,
)
    requires
        number_fo_blocks > 0,
        (Interpreter::SeForth { block_file, number_fo_blocks }).is_recovery(calls),
    ensures
        calls.len() == 5,
        calls[3] is RegisterBlockFile,
        calls[3]->file@ == block_file@,
        calls[3]->blocks == number_fo_blocks,
        calls[4] is ReportTimeout,
{
}

} // verus!
