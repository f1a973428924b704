//! What readings of the host mean: pid files, command lines, exit codes.
//!
//! The host does the reading. "Not there" is kept apart from "there and
//! unusable": the first is an answer, the second a failed observation.

use crate::condition::{ArgvReading, ArgvView, CheckError, CheckErrorCategory, CheckErrorView};
use crate::condition;
use crate::effects;
use crate::effects::{lossy, ExecOutcome};
use crate::exec::ExecError;
use crate::running;
use crate::running::pid_in;
use crate::text;
use crate::text::Text;
use vstd::prelude::*;
use vstd::slice::slice_subrange;

verus! {

/// Where running processes have their entries.
pub const PROC_ROOT: &'static str = "/proc";

/// What reading a file gave.
pub enum FileReading {
    /// There is no file.
    Absent,
    /// Its content.
    Content(String),
    /// The kind of the error the reading ended in.
    Failed(String),
}

/// What a launch's pid file says.
#[derive(Debug)]
pub enum PidFile {
    /// There is no pid file.
    Absent,
    /// The file holds this number.
    Pid(u32),
    /// There is a file, and it yields no number.
    Unusable(CheckError),
}

/// A failed reading of `path`: the kind of the error, and the path.
pub open spec fn unreadable(kind: Text, path: Text) -> CheckErrorView {
    CheckErrorView { category: CheckErrorCategory::Unobservable, detail: kind + ": "@ + path }
}

/// A failed reading of `path`.
pub fn unobservable(kind: &str, path: &str) -> (r: CheckError)
    ensures
        r@ == unreadable(kind@, path@),
{
    let mut detail = kind.to_owned();
    detail.append(": ");
    detail.append(path);
    CheckError::new(CheckErrorCategory::Unobservable, detail.as_str())
}

/// The model of a [`PidFile`]: nothing, a number, or why there is none.
pub open spec fn pid_file_view(file: PidFile) -> Option<Result<nat, CheckErrorView>> {
    match file {
        PidFile::Absent => None,
        PidFile::Pid(pid) => Some(Ok(pid as nat)),
        PidFile::Unusable(error) => Some(Err(error@)),
    }
}

/// What a pid file says, by what reading it gave.
pub open spec fn pid_file_read(path: Text, reading: FileReading) -> Option<
    Result<nat, CheckErrorView>,
> {
    match reading {
        FileReading::Absent => None,
        FileReading::Failed(kind) => Some(Err(unreadable(kind@, path))),
        FileReading::Content(content) => match running::pid_of(content@) {
            Some(pid) => Some(Ok(pid)),
            None => Some(
                Err(
                    CheckErrorView {
                        category: CheckErrorCategory::Unobservable,
                        detail: "no pid in "@ + path,
                    },
                ),
            ),
        },
    }
}

/// What a pid file says, by what reading it gave.
pub fn read_pid_file(path: &str, reading: FileReading) -> (r: PidFile)
    ensures
        pid_file_view(r) == pid_file_read(path@, reading),
        match reading {
            FileReading::Absent => r is Absent,
            FileReading::Failed(kind) => r matches PidFile::Unusable(error) && error@
                == unreadable(kind@, path@),
            FileReading::Content(content) => match running::pid_of(content@) {
                Some(pid) => r matches PidFile::Pid(found) && found == pid,
                None => r matches PidFile::Unusable(error) && error@ == (CheckErrorView {
                    category: CheckErrorCategory::Unobservable,
                    detail: "no pid in "@ + path@,
                }),
            },
        },
{
    match reading {
        FileReading::Absent => PidFile::Absent,
        FileReading::Failed(kind) => PidFile::Unusable(unobservable(kind.as_str(), path)),
        FileReading::Content(content) => match pid_in(content.as_str()) {
            Some(pid) => PidFile::Pid(pid),
            None => {
                let mut detail = "no pid in ".to_owned();
                detail.append(path);
                PidFile::Unusable(
                    CheckError::new(CheckErrorCategory::Unobservable, detail.as_str()),
                )
            },
        },
    }
}

/// Whether the process of a pid file is running: one that no file names
/// is not.
pub open spec fn alive_answered(
    file: Option<Result<nat, CheckErrorView>>,
    running: bool,
) -> Result<bool, CheckErrorView> {
    match file {
        None => Ok(false),
        Some(Ok(_)) => Ok(running),
        Some(Err(error)) => Err(error),
    }
}

/// Whether the process of a pid file is running, given a look at the one
/// it names.
pub fn process_alive(file: PidFile, running: bool) -> (r: Result<bool, CheckError>)
    ensures
        condition::flag_reading(r) == alive_answered(pid_file_view(file), running),
        match file {
            PidFile::Absent => r == Ok::<bool, CheckError>(false),
            PidFile::Pid(_) => r == Ok::<bool, CheckError>(running),
            PidFile::Unusable(error) => r == Err::<bool, CheckError>(error),
        },
{
    match file {
        PidFile::Absent => Ok(false),
        PidFile::Pid(_) => Ok(running),
        PidFile::Unusable(error) => Err(error),
    }
}

// ---------------------------------------------------------------------
// Command lines
// ---------------------------------------------------------------------

/// The fields of a list of bytes set apart by zero bytes.
pub open spec fn zero_fields(bytes: Seq<u8>) -> Seq<Seq<u8>>
    decreases bytes.len(),
{
    if bytes.len() == 0 {
        seq![Seq::empty()]
    } else if bytes.last() == 0 {
        zero_fields(bytes.drop_last()).push(Seq::empty())
    } else {
        let before = zero_fields(bytes.drop_last());
        before.drop_last().push(before.last().push(bytes.last()))
    }
}

/// There is always a field to go on with.
proof fn lemma_fields_not_empty(bytes: Seq<u8>)
    ensures
        zero_fields(bytes).len() > 0,
    decreases bytes.len(),
{
    if bytes.len() > 0 {
        lemma_fields_not_empty(bytes.drop_last());
    }
}

/// A command line without the one zero byte it ends in.
pub open spec fn without_end(bytes: Seq<u8>) -> Seq<u8> {
    if bytes.len() > 0 && bytes.last() == 0 {
        bytes.drop_last()
    } else {
        bytes
    }
}

/// The arguments of a command line. An argument that is empty counts; a
/// process without a command line has none.
pub open spec fn arguments(bytes: Seq<u8>) -> Seq<Text> {
    let body = without_end(bytes);
    if body.len() == 0 {
        Seq::empty()
    } else {
        let fields = zero_fields(body);
        Seq::new(fields.len(), |i: int| effects::lossy_text(fields[i]))
    }
}

/// The arguments of a command line.
pub fn split_cmdline(bytes: &[u8]) -> (r: Vec<String>)
    ensures
        text::texts(r@) == arguments(bytes@),
{
    let n = bytes.len();
    let end: usize = if n > 0 && bytes[n - 1] == 0 {
        n - 1
    } else {
        n
    };
    let ghost body = without_end(bytes@);
    assert(body =~= bytes@.take(end as int));
    let mut out: Vec<String> = Vec::new();
    if end == 0 {
        assert(text::texts(out@) =~= arguments(bytes@));
        return out;
    }
    let mut from: usize = 0;
    let mut i: usize = 0;
    proof {
        assert(body.take(0) =~= Seq::<u8>::empty());
        assert(body.subrange(0, 0) =~= Seq::<u8>::empty());
        assert(zero_fields(body.take(0)).drop_last() =~= Seq::<Seq<u8>>::empty());
    }
    while i < end
        invariant
            from <= i <= end <= n == bytes@.len(),
            body == bytes@.take(end as int),
            zero_fields(body.take(i as int)).len() == out@.len() + 1,
            zero_fields(body.take(i as int)).last() == body.subrange(from as int, i as int),
            forall|j: int|
                0 <= j < out@.len() ==> (#[trigger] out@[j])@ == effects::lossy_text(
                    zero_fields(body.take(i as int))[j],
                ),
        decreases end - i,
    {
        let ghost sofar = zero_fields(body.take(i as int));
        let ghost upto = body.take(i + 1);
        assert(upto.drop_last() =~= body.take(i as int));
        assert(upto.last() == body[i as int]);
        if bytes[i] == 0 {
            let field = slice_subrange(bytes, from, i);
            assert(field@ =~= body.subrange(from as int, i as int));
            out.push(lossy(field));
            from = i + 1;
            proof {
                let fields = zero_fields(upto);
                assert(fields == sofar.push(Seq::<u8>::empty()));
                assert(body.subrange(i + 1, i + 1) =~= Seq::<u8>::empty());
                assert(fields[out@.len() - 1] == sofar.last());
            }
        } else {
            proof {
                let fields = zero_fields(upto);
                assert(fields == sofar.drop_last().push(sofar.last().push(body[i as int])));
                assert(body.subrange(from as int, i + 1) =~= body.subrange(
                    from as int,
                    i as int,
                ).push(body[i as int]));
            }
        }
        i = i + 1;
    }
    let field = slice_subrange(bytes, from, end);
    assert(field@ =~= body.subrange(from as int, end as int));
    out.push(lossy(field));
    proof {
        assert(body.take(end as int) =~= body);
        let fields = zero_fields(body);
        assert(text::texts(out@) =~= Seq::new(
            fields.len(),
            |j: int| effects::lossy_text(fields[j]),
        ));
    }
    out
}

/// What reading a process's command line gave.
pub enum CmdlineReading {
    /// There is no such process.
    Absent,
    /// Its command line.
    Bytes(Vec<u8>),
    /// The reading failed.
    Failed(CheckError),
}

/// The model of the answer of a pid file and the command line of the
/// process it names.
pub open spec fn argv_answered(file: PidFile, cmdline: CmdlineReading) -> Result<
    ArgvView,
    CheckErrorView,
> {
    match file {
        PidFile::Absent => Ok(ArgvView::NoProcess),
        PidFile::Unusable(error) => Err(error@),
        PidFile::Pid(_) => match cmdline {
            CmdlineReading::Absent => Ok(ArgvView::NoProcess),
            CmdlineReading::Failed(error) => Err(error@),
            CmdlineReading::Bytes(bytes) => Ok(ArgvView::Argv(arguments(bytes@))),
        },
    }
}

/// What a pid file and the command line of the process it names say.
pub fn process_argv(file: PidFile, cmdline: CmdlineReading) -> (r: Result<ArgvReading, CheckError>)
    ensures
        condition::argv_reading(r) == argv_answered(file, cmdline),
{
    match file {
        PidFile::Absent => Ok(ArgvReading::NoProcess),
        PidFile::Unusable(error) => Err(error),
        PidFile::Pid(_) => match cmdline {
            CmdlineReading::Absent => Ok(ArgvReading::NoProcess),
            CmdlineReading::Failed(error) => Err(error),
            CmdlineReading::Bytes(bytes) => Ok(
                ArgvReading::Argv(split_cmdline(bytes.as_slice())),
            ),
        },
    }
}

/// What a command's run answers.
pub open spec fn status_answered(outcome: Result<ExecOutcome, ExecError>) -> Result<
    i32,
    CheckErrorView,
> {
    match outcome {
        Ok(outcome) => Ok(outcome.exit_code),
        Err(error) => Err(
            CheckErrorView {
                category: CheckErrorCategory::Unobservable,
                detail: error@.sentence(),
            },
        ),
    }
}

/// What a command's run answers: its exit code as it is, or why it could
/// not be started.
pub fn command_status(outcome: Result<ExecOutcome, ExecError>) -> (r: Result<i32, CheckError>)
    ensures
        condition::status_reading(r) == status_answered(outcome),
        condition::status_reading(r) == match outcome {
            Ok(outcome) => Ok(outcome.exit_code),
            Err(error) => Err(
                CheckErrorView {
                    category: CheckErrorCategory::Unobservable,
                    detail: error@.sentence(),
                },
            ),
        },
{
    match outcome {
        Ok(outcome) => Ok(outcome.exit_code),
        Err(error) => Err(
            CheckError::new(CheckErrorCategory::Unobservable, error.to_string().as_str()),
        ),
    }
}

/// Two command lines that differ in an empty argument are told apart:
/// a command line has as many arguments as it has zero bytes, one of
/// them at its end.
pub proof fn law_an_empty_argument_counts(bytes: Seq<u8>)
    ensures
        zero_fields(bytes.push(0)).len() == zero_fields(bytes).len() + 1,
        zero_fields(bytes.push(0)).last() == Seq::<u8>::empty(),
{
    lemma_fields_not_empty(bytes);
    assert(bytes.push(0).drop_last() =~= bytes);
}

/// A pid file that is not there is an answer, one that cannot be read or
/// holds no number is a failed observation; a number is read with white
/// space around it or not.
pub proof fn law_a_pid_file_holds_one_number(path: Text, reading: FileReading, pid: u32, around: Text)
    requires
        forall|i: int| 0 <= i < around.len() ==> text::is_space(#[trigger] around[i]),
    ensures
        reading is Absent ==> pid_file_read(path, reading) is None,
        reading matches FileReading::Failed(kind) ==> (pid_file_read(path, reading) matches Some(
            Err(error),
        ) && error.detail == kind@ + ": "@ + path),
        reading matches FileReading::Content(content) ==> {
            &&& content@ == around + text::decimal(pid as nat) + around ==> pid_file_read(
                path,
                reading,
            ) == Some(Ok::<nat, CheckErrorView>(pid as nat))
            &&& content@ == text::decimal(pid as nat) + "\n"@ ==> pid_file_read(path, reading)
                == Some(Ok::<nat, CheckErrorView>(pid as nat))
            &&& content@.len() == 0 ==> (pid_file_read(path, reading) matches Some(Err(error))
                && error.detail == "no pid in "@ + path)
        },
        running::pid_of(text::decimal(u32::MAX as nat + 1)) is None,
{
    reveal_strlit("\n");
    let digits = text::decimal(pid as nat);
    text::law_a_spelled_number_is_read_back(pid as nat, u32::MAX as nat);
    assert('0' <= digits[0] && digits[0] <= '9');
    assert('0' <= digits[digits.len() - 1] && digits[digits.len() - 1] <= '9');
    text::law_blanks_and_line_ends_are_space(digits[0]);
    text::law_blanks_and_line_ends_are_space(digits.last());
    text::law_space_is_taken_off_both_ends(around, digits, around);
    let none = Seq::<char>::empty();
    text::law_blanks_and_line_ends_are_space('\n');
    assert forall|i: int| 0 <= i < "\n"@.len() implies text::is_space(#[trigger] "\n"@[i]) by {
        assert("\n"@[i] == '\n');
    }
    text::law_space_is_taken_off_both_ends(none, digits, "\n"@);
    assert(none + digits + "\n"@ =~= digits + "\n"@);
    let over = text::decimal(u32::MAX as nat + 1);
    text::law_a_spelled_number_is_read_back(u32::MAX as nat + 1, u32::MAX as nat);
    assert('0' <= over[0] && over[0] <= '9');
    assert('0' <= over[over.len() - 1] && over[over.len() - 1] <= '9');
    text::law_blanks_and_line_ends_are_space(over[0]);
    text::law_blanks_and_line_ends_are_space(over.last());
    text::law_space_is_taken_off_both_ends(none, over, none);
    assert(none + over + none =~= over);
    text::law_nothing_but_digits_is_a_number(none, 0, u32::MAX as nat);
}

/// A process counts as running exactly where a pid file names it and a
/// look found it; a file that yields no number fails the question. Its
/// arguments are those of its command line, and a process that no file
/// names, or that is gone, has none.
pub proof fn law_a_process_is_named_by_its_pid_file(
    file: PidFile,
    running: bool,
    cmdline: CmdlineReading,
)
    ensures
        alive_answered(pid_file_view(file), running) == Ok::<bool, CheckErrorView>(true)
            <==> file is Pid && running,
        alive_answered(pid_file_view(file), running) is Err <==> file is Unusable,
        file is Absent ==> argv_answered(file, cmdline) == Ok::<ArgvView, CheckErrorView>(
            ArgvView::NoProcess,
        ),
        file matches PidFile::Unusable(error) ==> argv_answered(file, cmdline) == Err::<
            ArgvView,
            CheckErrorView,
        >(error@),
        file is Pid ==> {
            &&& cmdline is Absent ==> argv_answered(file, cmdline) == Ok::<
                ArgvView,
                CheckErrorView,
            >(ArgvView::NoProcess)
            &&& cmdline matches CmdlineReading::Failed(error) ==> argv_answered(file, cmdline)
                == Err::<ArgvView, CheckErrorView>(error@)
            &&& cmdline matches CmdlineReading::Bytes(bytes) ==> argv_answered(file, cmdline)
                == Ok::<ArgvView, CheckErrorView>(ArgvView::Argv(arguments(bytes@)))
        },
{
}

/// A command answers with its exit code, whatever it is, and fails the
/// question only where it could not be started, in the words of why.
pub proof fn law_a_command_answers_with_its_exit_code(ran: ExecOutcome, error: ExecError)
    ensures
        status_answered(Ok(ran)) == Ok::<i32, CheckErrorView>(ran.exit_code),
        status_answered(Err(error)) matches Err(failure) && failure.detail == error@.sentence(),
{
}

/// The arguments of a command line are what stands between its zero
/// bytes: a further argument behind a zero byte is one more, at the end.
pub proof fn law_arguments_stand_between_zero_bytes(bytes: Seq<u8>, argument: Seq<u8>)
    requires
        !argument.contains(0u8),
    ensures
        zero_fields(argument) == seq![argument],
        zero_fields(bytes.push(0) + argument) == zero_fields(bytes).push(argument),
        arguments(Seq::empty()).len() == 0,
        bytes.len() > 0 ==> arguments(bytes.push(0)).len() == zero_fields(bytes).len(),
        argument.len() > 0 ==> arguments(argument.push(0)) == seq![effects::lossy_text(argument)]
            && arguments(argument) == seq![effects::lossy_text(argument)],
    decreases argument.len(),
{
    lemma_fields_not_empty(bytes);
    assert(bytes.push(0).drop_last() =~= bytes);
    if argument.len() == 0 {
        assert(argument =~= Seq::<u8>::empty());
        assert(zero_fields(argument) =~= seq![argument]);
        assert(bytes.push(0) + argument =~= bytes.push(0));
    } else {
        let shorter = argument.drop_last();
        assert(argument.contains(argument.last()));
        assert(!shorter.contains(0u8)) by {
            if shorter.contains(0u8) {
                let i = shorter.index_of(0u8);
                assert(argument[i] == 0u8);
            }
        }
        law_arguments_stand_between_zero_bytes(bytes, shorter);
        let whole = bytes.push(0) + argument;
        assert(whole.drop_last() =~= bytes.push(0) + shorter);
        assert(whole.last() == argument.last());
        assert(shorter.push(argument.last()) =~= argument);
        assert(zero_fields(whole) =~= zero_fields(bytes).push(argument));
        assert(zero_fields(argument) =~= seq![argument]);
        assert(argument.push(0).drop_last() =~= argument);
        assert(arguments(argument.push(0)) =~= seq![effects::lossy_text(argument)]);
        assert(arguments(argument) =~= seq![effects::lossy_text(argument)]);
    }
}

/// Running processes have their entries below `/proc`, and a reading that
/// failed is told by its kind and the path.
pub proof fn law_a_failed_reading_names_its_path(kind: Text, path: Text)
    ensures
        PROC_ROOT@ == "/proc"@,
        unreadable(kind, path).detail == kind + ": "@ + path,
        unreadable(kind, path).category == CheckErrorCategory::Unobservable,
{
}

} // verus!
