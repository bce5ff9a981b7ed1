//! Running an operator that is written in Python.
//!
//! The runner decides what is done with the interpreter, and in which order. It is told what
//! came of each action and says what the next one is.

use vstd::prelude::*;

use crate::ids::DataId;
use crate::ordered::SortedMap;
use crate::text::{
    decimal, enclosed, i32_text, lemma_same_frame, lemma_same_start, no_texts, opt_text, push_text,
    same_frame, texts,
};

verus! {

/// A piece of a path, as far as it can be written as text.
pub enum PathText {
    Utf8(String),
    NotUtf8,
}

/// Where a Python module lies.
pub struct ModulePath {
    /// The path as it is shown in messages.
    pub shown: String,
    /// The directory that the module lies in, unless the path has none.
    pub parent: Option<PathText>,
    /// The file's name without its extension, unless the path ends in no name.
    pub file_stem: Option<PathText>,
}

/// Why an operator cannot be spawned.
pub enum SpawnError {
    NoPythonFile(String),
    NotFound { path: String, cause: String },
}

/// Data that arrived for an operator.
pub struct Input {
    pub id: DataId,
    pub data: Vec<u8>,
}

/// Why an operator ended with an error. The text is that of the interpreter.
pub enum RunError {
    ParentNotUtf8,
    ImportSys(String),
    NoSysPath(String),
    NoAppend(String),
    AppendPath(String),
    NoFileStem,
    StemNotUtf8,
    ImportModule(String),
    NoOperatorClass(String),
    Construct(String),
    OnInput(String),
    NoStatusValue(String),
    InvalidReturn(String),
    InvalidStatus(i32),
    LookForDrop(String),
    DropOperator(String),
}

/// The text of the refusal to spawn an operator.
pub open spec fn spawn_error_text(error: SpawnError) -> Seq<char> {
    match error {
        SpawnError::NoPythonFile(path) => "No python file exists at "@ + path@,
        SpawnError::NotFound { path, cause: _ } => "no file found at `"@ + path@ + "`"@,
    }
}

impl SpawnError {
    /// The text of the refusal.
    pub fn message(&self) -> (r: String)
        ensures
            r@ == spawn_error_text(*self),
    {
        match self {
            SpawnError::NoPythonFile(path) => {
                let mut r = "No python file exists at ".to_owned();
                r.append(path.as_str());
                r
            },
            SpawnError::NotFound { path, cause: _ } => enclosed(
                "no file found at `",
                path.as_str(),
                "`",
            ),
        }
    }
}

/// The text of an operator's error: what failed, or what the interpreter said of it.
pub open spec fn run_error_text(error: RunError) -> Seq<char> {
    match error {
        RunError::ParentNotUtf8 => "module path is not valid utf8"@,
        RunError::ImportSys(_) => "failed to import `sys` module"@,
        RunError::NoSysPath(_) => "failed to import `sys.path` module"@,
        RunError::NoAppend(_) => "`sys.path.append` was not found"@,
        RunError::AppendPath(_) => "failed to append module path to python search path"@,
        RunError::NoFileStem => "module path has no file stem"@,
        RunError::StemNotUtf8 => "module file stem is not valid utf8"@,
        RunError::ImportModule(text) => text@,
        RunError::NoOperatorClass(_) => "no `Operator` class found in module"@,
        RunError::Construct(text) => text@,
        RunError::OnInput(text) => text@,
        RunError::NoStatusValue(_) => "on_input must have enum return value"@,
        RunError::InvalidReturn(_) => "on_input has invalid return value"@,
        RunError::InvalidStatus(status) => "on_input returned invalid status "@ + decimal(
            status as int,
        ),
        RunError::LookForDrop(_) => "failed to look for drop_operator"@,
        RunError::DropOperator(text) => text@,
    }
}

impl RunError {
    /// The text of the error.
    pub fn message(&self) -> (r: String)
        ensures
            r@ == run_error_text(*self),
    {
        match self {
            RunError::ParentNotUtf8 => "module path is not valid utf8".to_owned(),
            RunError::ImportSys(_) => "failed to import `sys` module".to_owned(),
            RunError::NoSysPath(_) => "failed to import `sys.path` module".to_owned(),
            RunError::NoAppend(_) => "`sys.path.append` was not found".to_owned(),
            RunError::AppendPath(_) => {
                "failed to append module path to python search path".to_owned()
            },
            RunError::NoFileStem => "module path has no file stem".to_owned(),
            RunError::StemNotUtf8 => "module file stem is not valid utf8".to_owned(),
            RunError::ImportModule(text) => text.clone(),
            RunError::NoOperatorClass(_) => "no `Operator` class found in module".to_owned(),
            RunError::Construct(text) => text.clone(),
            RunError::OnInput(text) => text.clone(),
            RunError::NoStatusValue(_) => "on_input must have enum return value".to_owned(),
            RunError::InvalidReturn(_) => "on_input has invalid return value".to_owned(),
            RunError::InvalidStatus(status) => {
                let mut r = "on_input returned invalid status ".to_owned();
                r.append(i32_text(*status).as_str());
                r
            },
            RunError::LookForDrop(_) => "failed to look for drop_operator".to_owned(),
            RunError::DropOperator(text) => text.clone(),
        }
    }
}

/// Whether an error keeps the operator from being set up.
pub open spec fn is_setup_error(error: RunError) -> bool {
    match error {
        RunError::OnInput(_) => false,
        RunError::NoStatusValue(_) => false,
        RunError::InvalidReturn(_) => false,
        RunError::InvalidStatus(_) => false,
        RunError::LookForDrop(_) => false,
        RunError::DropOperator(_) => false,
        _ => true,
    }
}

/// What the interpreter said, where the error's own text does not say it.
pub open spec fn run_error_cause(error: RunError) -> Option<Seq<char>> {
    match error {
        RunError::ImportSys(cause) => Some(cause@),
        RunError::NoSysPath(cause) => Some(cause@),
        RunError::NoAppend(cause) => Some(cause@),
        RunError::AppendPath(cause) => Some(cause@),
        RunError::NoOperatorClass(cause) => Some(cause@),
        RunError::NoStatusValue(cause) => Some(cause@),
        RunError::InvalidReturn(cause) => Some(cause@),
        RunError::LookForDrop(cause) => Some(cause@),
        _ => None,
    }
}

/// The texts by which the error of the operator in the module at `path` is told, from the
/// outermost to the cause.
pub open spec fn run_error_chain(path: Seq<char>, error: RunError) -> Seq<Seq<char>> {
    let module = seq!["error in Python module at "@ + path];
    let inner = if is_setup_error(error) {
        module.push("failed to init python operator"@)
    } else {
        module
    };
    let own = inner.push(run_error_text(error));
    match run_error_cause(error) {
        Some(cause) => own.push(cause),
        None => own,
    }
}

impl RunError {
    /// Whether the error keeps the operator from being set up.
    fn in_setup(&self) -> (r: bool)
        ensures
            r == is_setup_error(*self),
    {
        match self {
            RunError::OnInput(_) => false,
            RunError::NoStatusValue(_) => false,
            RunError::InvalidReturn(_) => false,
            RunError::InvalidStatus(_) => false,
            RunError::LookForDrop(_) => false,
            RunError::DropOperator(_) => false,
            _ => true,
        }
    }

    /// What the interpreter said, where the error's own text does not say it.
    fn cause(&self) -> (r: Option<String>)
        ensures
            opt_text(r) == run_error_cause(*self),
    {
        match self {
            RunError::ImportSys(cause) => Some(cause.clone()),
            RunError::NoSysPath(cause) => Some(cause.clone()),
            RunError::NoAppend(cause) => Some(cause.clone()),
            RunError::AppendPath(cause) => Some(cause.clone()),
            RunError::NoOperatorClass(cause) => Some(cause.clone()),
            RunError::NoStatusValue(cause) => Some(cause.clone()),
            RunError::InvalidReturn(cause) => Some(cause.clone()),
            RunError::LookForDrop(cause) => Some(cause.clone()),
            _ => None,
        }
    }

    /// The texts by which the error of the operator in the module at `path` is told, from the
    /// outermost to the cause.
    pub fn chain(&self, path: &str) -> (r: Vec<String>)
        ensures
            texts(r@) == run_error_chain(path@, *self),
    {
        let mut r = no_texts();
        let mut module = "error in Python module at ".to_owned();
        module.append(path);
        push_text(&mut r, module);
        assert(texts(r@) =~= seq!["error in Python module at "@ + path@]);
        if self.in_setup() {
            push_text(&mut r, "failed to init python operator".to_owned());
        }
        push_text(&mut r, self.message());
        if let Some(cause) = self.cause() {
            push_text(&mut r, cause);
        }
        r
    }
}

/// What a spawned operator reports at its end.
pub enum OperatorEvent<P> {
    Finished,
    /// The module at the path failed.
    Error { path: String, error: RunError },
    /// The runner panicked.
    Panic(P),
}

/// Where a runner stands: what it waits for.
#[derive(Clone, Copy, Debug, PartialEq, Eq, Structural)]
pub enum Stage {
    Start,
    ImportingSys,
    ReadingSysPath,
    ReadingAppend,
    Appending,
    ImportingModule,
    ReadingClass,
    Constructing,
    Receiving,
    CallingOnInput,
    ReadingValue,
    ReadingStatus,
    LookingForDrop,
    Dropping,
    Ended,
}

/// What is to be done next.
pub enum Action {
    /// Import the module `sys`.
    ImportSys,
    /// Read `path` of the module.
    GetSysPath,
    /// Read `append` of the path.
    GetAppend,
    /// Call `append` with the directory.
    AppendPath(String),
    /// Import the operator's module.
    ImportModule(String),
    /// Read `Operator` of the module.
    GetOperatorClass,
    /// Call the class.
    Construct,
    /// Wait for an input.
    Receive,
    /// Call `on_input` with the input.
    CallOnInput(Input),
    /// Read `value` of what `on_input` returned.
    GetValue,
    /// Read the value as a number.
    ExtractStatus,
    /// Look whether the operator has `drop_operator`.
    LookForDrop,
    /// Call `drop_operator`.
    CallDrop,
    /// Nothing: the operator has ended.
    End(Result<(), RunError>),
}

/// What came of an action.
pub enum Event {
    /// The runner is to begin.
    Begin,
    /// The interpreter did what it was told, or raised an error.
    Done(Result<(), String>),
    /// An input arrived, or none will arrive any more.
    Received(Option<Input>),
    /// The status that `on_input` returned.
    Status(Result<i32, String>),
    /// Whether there is a `drop_operator`.
    HasDrop(Result<bool, String>),
}

/// Whether an event can come of the action that a runner waits for.
pub open spec fn fits(stage: Stage, event: Event) -> bool {
    match stage {
        Stage::Start => event is Begin,
        Stage::Receiving => event is Received,
        Stage::ReadingStatus => event is Status,
        Stage::LookingForDrop => event is HasDrop,
        Stage::Ended => false,
        _ => event is Done,
    }
}

/// How a run goes on with the operator's module itself.
pub open spec fn on_module(module: ModulePath) -> (Stage, Action) {
    match module.file_stem {
        None => (Stage::Ended, Action::End(Err(RunError::NoFileStem))),
        Some(PathText::NotUtf8) => (Stage::Ended, Action::End(Err(RunError::StemNotUtf8))),
        Some(PathText::Utf8(name)) => (Stage::ImportingModule, Action::ImportModule(name)),
    }
}

/// The error of an action that the interpreter failed at.
pub open spec fn failure(stage: Stage, text: String) -> RunError {
    match stage {
        Stage::ImportingSys => RunError::ImportSys(text),
        Stage::ReadingSysPath => RunError::NoSysPath(text),
        Stage::ReadingAppend => RunError::NoAppend(text),
        Stage::Appending => RunError::AppendPath(text),
        Stage::ImportingModule => RunError::ImportModule(text),
        Stage::ReadingClass => RunError::NoOperatorClass(text),
        Stage::Constructing => RunError::Construct(text),
        Stage::CallingOnInput => RunError::OnInput(text),
        Stage::ReadingValue => RunError::NoStatusValue(text),
        Stage::ReadingStatus => RunError::InvalidReturn(text),
        Stage::LookingForDrop => RunError::LookForDrop(text),
        _ => RunError::DropOperator(text),
    }
}

/// The directory of the module, where it is text.
pub open spec fn search_dir(module: ModulePath) -> String {
    module.parent->0->Utf8_0
}

/// How a run goes on after an event.
pub open spec fn next(module: ModulePath, stage: Stage, event: Event) -> (Stage, Action) {
    match event {
        Event::Begin => match module.parent {
            Some(PathText::Utf8(_)) => (Stage::ImportingSys, Action::ImportSys),
            Some(PathText::NotUtf8) => (Stage::Ended, Action::End(Err(RunError::ParentNotUtf8))),
            None => on_module(module),
        },
        Event::Done(Ok(_)) => match stage {
            Stage::ImportingSys => (Stage::ReadingSysPath, Action::GetSysPath),
            Stage::ReadingSysPath => (Stage::ReadingAppend, Action::GetAppend),
            Stage::ReadingAppend => (Stage::Appending, Action::AppendPath(search_dir(module))),
            Stage::Appending => on_module(module),
            Stage::ImportingModule => (Stage::ReadingClass, Action::GetOperatorClass),
            Stage::ReadingClass => (Stage::Constructing, Action::Construct),
            Stage::Constructing => (Stage::Receiving, Action::Receive),
            Stage::CallingOnInput => (Stage::ReadingValue, Action::GetValue),
            Stage::ReadingValue => (Stage::ReadingStatus, Action::ExtractStatus),
            _ => (Stage::Ended, Action::End(Ok(()))),
        },
        Event::Received(Some(input)) => (Stage::CallingOnInput, Action::CallOnInput(input)),
        Event::Received(None) => (Stage::LookingForDrop, Action::LookForDrop),
        Event::Status(Ok(status)) => if status == 0 {
            (Stage::Receiving, Action::Receive)
        } else if status == 1 {
            (Stage::LookingForDrop, Action::LookForDrop)
        } else {
            (Stage::Ended, Action::End(Err(RunError::InvalidStatus(status))))
        },
        Event::HasDrop(Ok(true)) => (Stage::Dropping, Action::CallDrop),
        Event::HasDrop(Ok(false)) => (Stage::Ended, Action::End(Ok(()))),
        Event::Done(Err(text)) => (Stage::Ended, Action::End(Err(failure(stage, text)))),
        Event::Status(Err(text)) => (Stage::Ended, Action::End(Err(failure(stage, text)))),
        Event::HasDrop(Err(text)) => (Stage::Ended, Action::End(Err(failure(stage, text)))),
    }
}

/// Whether a stage belongs to a module whose path can be used as the stage needs it.
pub open spec fn stage_ok(module: ModulePath, stage: Stage) -> bool {
    stage == Stage::ImportingSys || stage == Stage::ReadingSysPath || stage == Stage::ReadingAppend
        ==> module.parent matches Some(PathText::Utf8(_))
}

/// Runs one operator.
pub struct PythonRunner {
    pub module: ModulePath,
    pub stage: Stage,
}

/// Prepares the run of the operator in the file at `path`. `canonical` is where the file
/// really lies, or why that cannot be told.
pub fn spawn(path: String, exists: bool, canonical: Result<ModulePath, String>) -> (r: Result<
    PythonRunner,
    SpawnError,
>)
    ensures
        r == (if !exists {
            Err(SpawnError::NoPythonFile(path))
        } else {
            match canonical {
                Ok(module) => Ok(PythonRunner { module, stage: Stage::Start }),
                Err(cause) => Err(SpawnError::NotFound { path, cause }),
            }
        }),
        r is Ok ==> r->Ok_0.wf(),
{
    if !exists {
        return Err(SpawnError::NoPythonFile(path));
    }
    match canonical {
        Ok(module) => Ok(PythonRunner { module, stage: Stage::Start }),
        Err(cause) => Err(SpawnError::NotFound { path, cause }),
    }
}

impl PythonRunner {
    pub open spec fn wf(&self) -> bool {
        stage_ok(self.module, self.stage)
    }

    /// Goes on with the operator's module itself.
    fn import_module(&self) -> (r: (Stage, Action))
        ensures
            r == on_module(self.module),
    {
        match &self.module.file_stem {
            None => (Stage::Ended, Action::End(Err(RunError::NoFileStem))),
            Some(PathText::NotUtf8) => (Stage::Ended, Action::End(Err(RunError::StemNotUtf8))),
            Some(PathText::Utf8(name)) => {
                (Stage::ImportingModule, Action::ImportModule(name.clone()))
            },
        }
    }

    /// Ends the run because the interpreter failed.
    fn fail(&self, text: String) -> (r: (Stage, Action))
        ensures
            r == (Stage::Ended, Action::End(Err::<(), RunError>(failure(self.stage, text)))),
    {
        let error = match self.stage {
            Stage::ImportingSys => RunError::ImportSys(text),
            Stage::ReadingSysPath => RunError::NoSysPath(text),
            Stage::ReadingAppend => RunError::NoAppend(text),
            Stage::Appending => RunError::AppendPath(text),
            Stage::ImportingModule => RunError::ImportModule(text),
            Stage::ReadingClass => RunError::NoOperatorClass(text),
            Stage::Constructing => RunError::Construct(text),
            Stage::CallingOnInput => RunError::OnInput(text),
            Stage::ReadingValue => RunError::NoStatusValue(text),
            Stage::ReadingStatus => RunError::InvalidReturn(text),
            Stage::LookingForDrop => RunError::LookForDrop(text),
            _ => RunError::DropOperator(text),
        };
        (Stage::Ended, Action::End(Err(error)))
    }

    /// Goes on after an action of the interpreter that went well.
    fn advance(&self) -> (r: (Stage, Action))
        requires
            self.wf(),
            fits(self.stage, Event::Done(Ok(()))),
        ensures
            r == next(self.module, self.stage, Event::Done(Ok(()))),
    {
        match self.stage {
            Stage::ImportingSys => (Stage::ReadingSysPath, Action::GetSysPath),
            Stage::ReadingSysPath => (Stage::ReadingAppend, Action::GetAppend),
            Stage::ReadingAppend => match &self.module.parent {
                Some(PathText::Utf8(dir)) => (Stage::Appending, Action::AppendPath(dir.clone())),
                _ => self.import_module(),
            },
            Stage::Appending => self.import_module(),
            Stage::ImportingModule => (Stage::ReadingClass, Action::GetOperatorClass),
            Stage::ReadingClass => (Stage::Constructing, Action::Construct),
            Stage::Constructing => (Stage::Receiving, Action::Receive),
            Stage::CallingOnInput => (Stage::ReadingValue, Action::GetValue),
            Stage::ReadingValue => (Stage::ReadingStatus, Action::ExtractStatus),
            _ => (Stage::Ended, Action::End(Ok(()))),
        }
    }

    /// Takes in what came of the last action and says what is next.
    pub fn step(&mut self, event: Event) -> (r: Action)
        requires
            old(self).wf(),
            fits(old(self).stage, event),
        ensures
            final(self).wf(),
            final(self).module == old(self).module,
            (final(self).stage, r) == next(old(self).module, old(self).stage, event),
    {
        let (stage, action) = match event {
            Event::Begin => match &self.module.parent {
                Some(PathText::Utf8(_)) => (Stage::ImportingSys, Action::ImportSys),
                Some(PathText::NotUtf8) => {
                    (Stage::Ended, Action::End(Err(RunError::ParentNotUtf8)))
                },
                None => self.import_module(),
            },
            Event::Done(Ok(_)) => self.advance(),
            Event::Received(Some(input)) => (Stage::CallingOnInput, Action::CallOnInput(input)),
            Event::Received(None) => (Stage::LookingForDrop, Action::LookForDrop),
            Event::Status(Ok(status)) => if status == 0 {
                (Stage::Receiving, Action::Receive)
            } else if status == 1 {
                (Stage::LookingForDrop, Action::LookForDrop)
            } else {
                (Stage::Ended, Action::End(Err(RunError::InvalidStatus(status))))
            },
            Event::HasDrop(Ok(true)) => (Stage::Dropping, Action::CallDrop),
            Event::HasDrop(Ok(false)) => (Stage::Ended, Action::End(Ok(()))),
            Event::Done(Err(text)) => self.fail(text),
            Event::Status(Err(text)) => self.fail(text),
            Event::HasDrop(Err(text)) => self.fail(text),
        };
        self.stage = stage;
        action
    }
}

/// What an operator reports at its end: `outcome` is what the run came to, or what it
/// panicked with.
pub fn final_event<P>(path: String, outcome: Result<Result<(), RunError>, P>) -> (r: OperatorEvent<
    P,
>)
    ensures
        r == (match outcome {
            Ok(Ok(_)) => OperatorEvent::Finished,
            Ok(Err(error)) => OperatorEvent::Error { path, error },
            Err(panic) => OperatorEvent::Panic(panic),
        }),
{
    match outcome {
        Ok(Ok(_)) => OperatorEvent::Finished,
        Ok(Err(error)) => OperatorEvent::Error { path, error },
        Err(panic) => OperatorEvent::Panic(panic),
    }
}

/// One turn of a run: where it stands after an event, and the action that the event leads to.
#[verifier::opaque]
pub open spec fn turn(module: ModulePath, stage: Stage, event: Event) -> (Stage, Action) {
    next(module, stage, event)
}

/// Where a runner stands after events.
pub open spec fn stage_after(module: ModulePath, events: Seq<Event>) -> Stage
    decreases events.len(),
{
    if events.len() == 0 {
        Stage::Start
    } else {
        turn(module, stage_after(module, events.drop_last()), events.last()).0
    }
}

/// The action that the `i`-th event leads to.
pub open spec fn action_at(module: ModulePath, events: Seq<Event>, i: int) -> Action {
    turn(module, stage_after(module, events.take(i)), events[i]).1
}

/// Whether each of the events can come of the action before it.
pub open spec fn is_run(module: ModulePath, events: Seq<Event>) -> bool {
    forall|i: int|
        #![trigger events[i]]
        0 <= i < events.len() ==> fits(stage_after(module, events.take(i)), events[i])
}

/// How far a run has come: it sets the operator up, then hands it inputs, then lets it clean
/// up, and then is over.
pub open spec fn phase(stage: Stage) -> int {
    match stage {
        Stage::Receiving => 1,
        Stage::CallingOnInput => 1,
        Stage::ReadingValue => 1,
        Stage::ReadingStatus => 1,
        Stage::LookingForDrop => 2,
        Stage::Dropping => 2,
        Stage::Ended => 3,
        _ => 0,
    }
}

/// The phase that an action belongs to.
pub open spec fn action_phase(action: Action) -> int {
    match action {
        Action::Receive => 1,
        Action::CallOnInput(_) => 1,
        Action::GetValue => 1,
        Action::ExtractStatus => 1,
        Action::LookForDrop => 2,
        Action::CallDrop => 2,
        Action::End(_) => 3,
        _ => 0,
    }
}

/// A turn does not lead back to an earlier phase.
proof fn lemma_turn_ascends(module: ModulePath, stage: Stage, event: Event)
    requires
        fits(stage, event),
    ensures
        phase(stage) <= phase(turn(module, stage, event).0),
{
    reveal(turn);
}

/// The action of a turn belongs to the phase that the turn leads to.
proof fn lemma_turn_action(module: ModulePath, stage: Stage, event: Event)
    requires
        fits(stage, event),
    ensures
        action_phase(turn(module, stage, event).1) == phase(turn(module, stage, event).0),
{
    reveal(turn);
}

/// Whether an event ends the inputs: the operator asked to stop, or none can arrive any more.
pub open spec fn is_stop(event: Event) -> bool {
    event == Event::Status(Ok(1)) || event == Event::Received(None)
}

/// A turn leads to the clean-up when the inputs end.
proof fn lemma_turn_stop(module: ModulePath, stage: Stage, event: Event)
    requires
        is_stop(event),
    ensures
        phase(turn(module, stage, event).0) == 2,
{
    reveal(turn);
}

/// A turn looks for a clean-up only when the inputs end, and cleans up only after it looked.
proof fn lemma_turn_clean_up(module: ModulePath, stage: Stage, event: Event)
    requires
        fits(stage, event),
    ensures
        turn(module, stage, event).1 is LookForDrop ==> is_stop(event),
        turn(module, stage, event).1 is CallDrop ==> stage == Stage::LookingForDrop,
        turn(module, stage, event).0 == Stage::LookingForDrop <==> turn(module, stage, event).1
            is LookForDrop,
{
    reveal(turn);
}

/// A turn hands the operator just the input that arrived.
proof fn lemma_turn_input(module: ModulePath, stage: Stage, event: Event, input: Input)
    requires
        fits(stage, event),
    ensures
        turn(module, stage, event).1 == Action::CallOnInput(input) <==> event == Event::Received(
            Some(input),
        ),
{
    reveal(turn);
}

/// What one event of a run does.
proof fn lemma_step(module: ModulePath, events: Seq<Event>, i: int)
    requires
        is_run(module, events),
        0 <= i < events.len(),
    ensures
        fits(stage_after(module, events.take(i)), events[i]),
        stage_after(module, events.take(i + 1)) == turn(
            module,
            stage_after(module, events.take(i)),
            events[i],
        ).0,
{
    assert(fits(stage_after(module, events.take(i)), events[i]));
    assert(events.take(i + 1).drop_last() =~= events.take(i));
    assert(events.take(i + 1).last() == events[i]);
}

/// A run never goes back to an earlier phase.
proof fn lemma_phases_ascend(module: ModulePath, events: Seq<Event>, i: int, j: int)
    requires
        is_run(module, events),
        0 <= i <= j <= events.len(),
    ensures
        phase(stage_after(module, events.take(i))) <= phase(stage_after(module, events.take(j))),
    decreases j - i,
{
    if i < j {
        lemma_phases_ascend(module, events, i, j - 1);
        lemma_step(module, events, j - 1);
        lemma_turn_ascends(module, stage_after(module, events.take(j - 1)), events[j - 1]);
    }
}

/// A run ends once: nothing comes after the action that ends it.
pub proof fn law_run_ends_once(module: ModulePath, events: Seq<Event>, i: int)
    requires
        is_run(module, events),
        0 <= i < events.len(),
        action_at(module, events, i) is End,
    ensures
        i == events.len() - 1,
{
    lemma_step(module, events, i);
    lemma_turn_action(module, stage_after(module, events.take(i)), events[i]);
    if i < events.len() - 1 {
        lemma_step(module, events, i + 1);
    }
}

/// Once the operator asked to stop, or no input can arrive any more, none is awaited and none
/// is handed to it.
pub proof fn law_no_input_after_the_stop(module: ModulePath, events: Seq<Event>, i: int, j: int)
    requires
        is_run(module, events),
        0 <= i <= j < events.len(),
        is_stop(events[i]),
    ensures
        !(action_at(module, events, j) is Receive),
        !(action_at(module, events, j) is CallOnInput),
{
    lemma_step(module, events, i);
    lemma_turn_stop(module, stage_after(module, events.take(i)), events[i]);
    lemma_phases_ascend(module, events, i + 1, j + 1);
    lemma_step(module, events, j);
    lemma_turn_action(module, stage_after(module, events.take(j)), events[j]);
}

/// The operator is let clean up only after it asked to stop or no input could arrive any
/// more, not after an error.
pub proof fn law_clean_up_follows_a_stop(module: ModulePath, events: Seq<Event>, j: int) -> (i:
    int)
    requires
        is_run(module, events),
        0 <= j < events.len(),
        action_at(module, events, j) is CallDrop || action_at(module, events, j) is LookForDrop,
    ensures
        0 <= i <= j,
        is_stop(events[i]),
    decreases j,
{
    let stage = stage_after(module, events.take(j));
    lemma_step(module, events, j);
    lemma_turn_clean_up(module, stage, events[j]);
    if action_at(module, events, j) is LookForDrop {
        j
    } else {
        assert(stage == Stage::LookingForDrop);
        assert(events.take(0).len() == 0);
        lemma_step(module, events, j - 1);
        lemma_turn_clean_up(module, stage_after(module, events.take(j - 1)), events[j - 1]);
        law_clean_up_follows_a_stop(module, events, j - 1)
    }
}

/// Each input that arrives is handed to the operator, as it is and at once; nothing else is.
pub proof fn law_inputs_are_handed_on(module: ModulePath, events: Seq<Event>, i: int, input: Input)
    requires
        is_run(module, events),
        0 <= i < events.len(),
    ensures
        action_at(module, events, i) == Action::CallOnInput(input) <==> events[i]
            == Event::Received(Some(input)),
{
    lemma_step(module, events, i);
    lemma_turn_input(module, stage_after(module, events.take(i)), events[i], input);
}

/// In a run that ends without an error no action failed, and every status was a valid one.
pub proof fn law_success_means_no_failure(module: ModulePath, events: Seq<Event>, i: int)
    requires
        is_run(module, events),
        0 <= i < events.len(),
        action_at(module, events, events.len() - 1) == Action::End(Ok(())),
    ensures
        !(events[i] matches Event::Done(Err(_))),
        !(events[i] matches Event::Status(Err(_))),
        !(events[i] matches Event::HasDrop(Err(_))),
        events[i] matches Event::Status(Ok(status)) ==> status == 0 || status == 1,
{
    lemma_step(module, events, i);
    if is_failure(events[i]) {
        lemma_failure_ends(module, stage_after(module, events.take(i)), events[i]);
        law_run_ends_once(module, events, i);
    }
}

/// Whether an event tells of something that went wrong.
spec fn is_failure(event: Event) -> bool {
    match event {
        Event::Done(result) => result is Err,
        Event::Status(Ok(status)) => status != 0 && status != 1,
        Event::Status(Err(_)) => true,
        Event::HasDrop(result) => result is Err,
        _ => false,
    }
}

/// What goes wrong ends the run with an error.
proof fn lemma_failure_ends(module: ModulePath, stage: Stage, event: Event)
    requires
        is_failure(event),
    ensures
        turn(module, stage, event).1 matches Action::End(Err(_)),
{
    reveal(turn);
}

/// Why an operator's output was not sent.
pub enum SendError {
    UnexpectedOutput(String),
    PublishFailed(String),
}

/// The text of the refusal of an output.
pub open spec fn send_error_text(error: SendError) -> Seq<char> {
    match error {
        SendError::UnexpectedOutput(output) => "unexpected output "@ + output@
            + " (not defined in dataflow config)"@,
        SendError::PublishFailed(_) => "publish failed"@,
    }
}

impl SendError {
    /// The text of the refusal.
    pub fn message(&self) -> (r: String)
        ensures
            r@ == send_error_text(*self),
    {
        match self {
            SendError::UnexpectedOutput(output) => enclosed(
                "unexpected output ",
                output.as_str(),
                " (not defined in dataflow config)",
            ),
            SendError::PublishFailed(_) => "publish failed".to_owned(),
        }
    }
}

/// Sends the outputs of an operator. `P` publishes one output.
pub struct SendOutputCallback<P> {
    pub publishers: SortedMap<DataId, P>,
}

impl<P> SendOutputCallback<P> {
    pub open spec fn wf(&self) -> bool {
        self.publishers.wf()
    }

    /// Sends data as the given output, by `publish`, which can be called once.
    pub fn call<F: FnOnce(&P, &[u8]) -> Result<(), String>>(
        &self,
        output: &str,
        data: &[u8],
        publish: F,
    ) -> (r: Result<(), SendError>)
        requires
            self.wf(),
            self.publishers@.contains_key(output@) ==> call_requires(
                publish,
                (&self.publishers@[output@], data),
            ),
        ensures
            self.publishers@.contains_key(output@) ==> match r {
                Ok(done) => call_ensures(publish, (&self.publishers@[output@], data), Ok(done)),
                Err(SendError::PublishFailed(text)) => call_ensures(
                    publish,
                    (&self.publishers@[output@], data),
                    Err(text),
                ),
                Err(_) => false,
            },
            !self.publishers@.contains_key(output@) ==> (r matches Err(
                SendError::UnexpectedOutput(name),
            ) && name@ == output@),
    {
        let output = output.to_owned();
        match self.publishers.get(&output) {
            Some(publisher) => match publish(publisher, data) {
                Ok(done) => Ok(done),
                Err(text) => Err(SendError::PublishFailed(text)),
            },
            None => Err(SendError::UnexpectedOutput(output)),
        }
    }
}

/// Where a runner waits for what comes of an action.
spec fn awaiting(action: Action) -> Stage {
    match action {
        Action::ImportSys => Stage::ImportingSys,
        Action::GetSysPath => Stage::ReadingSysPath,
        Action::GetAppend => Stage::ReadingAppend,
        Action::AppendPath(_) => Stage::Appending,
        Action::ImportModule(_) => Stage::ImportingModule,
        Action::GetOperatorClass => Stage::ReadingClass,
        Action::Construct => Stage::Constructing,
        Action::Receive => Stage::Receiving,
        Action::CallOnInput(_) => Stage::CallingOnInput,
        Action::GetValue => Stage::ReadingValue,
        Action::ExtractStatus => Stage::ReadingStatus,
        Action::LookForDrop => Stage::LookingForDrop,
        Action::CallDrop => Stage::Dropping,
        Action::End(_) => Stage::Ended,
    }
}

/// After a turn a runner waits for what comes of the turn's action.
proof fn lemma_turn_awaits(module: ModulePath, stage: Stage, event: Event)
    ensures
        turn(module, stage, event).0 == awaiting(turn(module, stage, event).1),
{
    reveal(turn);
}

/// After an event of a run the runner waits for what comes of the action.
proof fn lemma_awaits(module: ModulePath, events: Seq<Event>, i: int)
    requires
        is_run(module, events),
        0 <= i < events.len(),
    ensures
        stage_after(module, events.take(i + 1)) == awaiting(action_at(module, events, i)),
{
    lemma_step(module, events, i);
    lemma_turn_awaits(module, stage_after(module, events.take(i)), events[i]);
}

/// Whether an event tells of the outcome of an action.
pub open spec fn is_outcome_of(action: Action, event: Event) -> bool {
    match action {
        Action::Receive => event is Received,
        Action::ExtractStatus => event is Status,
        Action::LookForDrop => event is HasDrop,
        Action::End(_) => false,
        _ => event is Done,
    }
}

/// An event fits where a runner waits for what comes of an action just when it tells of that.
proof fn lemma_outcome_fits(action: Action, event: Event)
    ensures
        fits(awaiting(action), event) <==> is_outcome_of(action, event),
{
}

/// What can come next of a run is the outcome of its last action; after its end nothing can.
pub proof fn law_events_answer_the_action(module: ModulePath, events: Seq<Event>, next: Event)
    requires
        is_run(module, events),
    ensures
        events.len() == 0 ==> (is_run(module, events.push(next)) <==> next is Begin),
        events.len() > 0 ==> (is_run(module, events.push(next)) <==> is_outcome_of(
            action_at(module, events, events.len() - 1),
            next,
        )),
{
    lemma_run_goes_on(module, events, next);
    let n = events.len() as int;
    if n > 0 {
        assert(events.take(n) =~= events);
        lemma_awaits(module, events, n - 1);
        lemma_outcome_fits(action_at(module, events, n - 1), next);
    }
}

/// A run can go on with an event just when the event fits where the run stands.
proof fn lemma_run_goes_on(module: ModulePath, events: Seq<Event>, next: Event)
    requires
        is_run(module, events),
    ensures
        is_run(module, events.push(next)) <==> fits(stage_after(module, events), next),
{
    let more = events.push(next);
    let n = events.len() as int;
    assert(more.take(n) =~= events);
    if is_run(module, more) {
        assert(more[n] == next);
        assert(fits(stage_after(module, more.take(n)), more[n]));
    }
    if fits(stage_after(module, events), next) {
        assert forall|i: int| #![trigger more[i]] 0 <= i < more.len() implies fits(
            stage_after(module, more.take(i)),
            more[i],
        ) by {
            if i < n {
                assert(more.take(i) =~= events.take(i));
                assert(more[i] == events[i]);
                assert(fits(stage_after(module, events.take(i)), events[i]));
            }
        }
    }
}

/// Whether an action goes on with the operator's module itself: it is imported under the file's
/// name without the extension, and a file without such a name, or with one that is no text, is an
/// error.
pub open spec fn goes_on_with_the_module(module: ModulePath, action: Action) -> bool {
    match action {
        Action::ImportModule(name) => module.file_stem == Some(PathText::Utf8(name)),
        Action::End(Err(RunError::NoFileStem)) => module.file_stem is None,
        Action::End(Err(RunError::StemNotUtf8)) => module.file_stem == Some(PathText::NotUtf8),
        _ => false,
    }
}

/// A run begins with the search path if the module lies in a directory, and with the module if
/// it does not. A directory that is no text is an error.
pub proof fn law_run_begins_with_the_search_path(module: ModulePath, events: Seq<Event>)
    requires
        is_run(module, events),
        events.len() > 0,
    ensures
        events[0] is Begin,
        match action_at(module, events, 0) {
            Action::ImportSys => module.parent matches Some(PathText::Utf8(_)),
            Action::End(Err(RunError::ParentNotUtf8)) => module.parent == Some(PathText::NotUtf8),
            action => module.parent is None && goes_on_with_the_module(module, action),
        },
{
    lemma_step(module, events, 0);
    assert(events.take(0).len() == 0);
    lemma_turn_begins(module, Stage::Start, events[0]);
}

/// How a run begins.
proof fn lemma_turn_begins(module: ModulePath, stage: Stage, event: Event)
    requires
        event is Begin,
    ensures
        match turn(module, stage, event).1 {
            Action::ImportSys => module.parent matches Some(PathText::Utf8(_)),
            Action::End(Err(RunError::ParentNotUtf8)) => module.parent == Some(PathText::NotUtf8),
            action => module.parent is None && goes_on_with_the_module(module, action),
        },
{
    reveal(turn);
}

/// A turn keeps the stage one that belongs to the module.
proof fn lemma_turn_stage_ok(module: ModulePath, stage: Stage, event: Event)
    requires
        fits(stage, event),
        stage_ok(module, stage),
    ensures
        stage_ok(module, turn(module, stage, event).0),
{
    reveal(turn);
}

/// Where a run stands belongs to the module.
proof fn lemma_stage_ok(module: ModulePath, events: Seq<Event>, i: int)
    requires
        is_run(module, events),
        0 <= i <= events.len(),
    ensures
        stage_ok(module, stage_after(module, events.take(i))),
    decreases i,
{
    if i > 0 {
        lemma_stage_ok(module, events, i - 1);
        lemma_step(module, events, i - 1);
        lemma_turn_stage_ok(module, stage_after(module, events.take(i - 1)), events[i - 1]);
    }
}

/// What follows an action that the interpreter did: the search path is looked up, extended by the
/// module's directory, then the module is imported, its class is looked up and an operator made
/// of it; and what `on_input` returns is read as a status.
pub open spec fn follows_when_done(module: ModulePath, done: Action, action: Action) -> bool {
    match done {
        Action::ImportSys => action is GetSysPath,
        Action::GetSysPath => action is GetAppend,
        Action::GetAppend => action matches Action::AppendPath(dir) && module.parent == Some(
            PathText::Utf8(dir),
        ),
        Action::AppendPath(_) => goes_on_with_the_module(module, action),
        Action::ImportModule(_) => action is GetOperatorClass,
        Action::GetOperatorClass => action is Construct,
        Action::Construct => action is Receive,
        Action::CallOnInput(_) => action is GetValue,
        Action::GetValue => action is ExtractStatus,
        Action::CallDrop => action == Action::End(Ok(())),
        _ => false,
    }
}

/// How a turn goes on after an action that was done.
proof fn lemma_turn_done(module: ModulePath, done: Action, event: Event)
    requires
        fits(awaiting(done), event),
        stage_ok(module, awaiting(done)),
        event matches Event::Done(Ok(_)),
    ensures
        follows_when_done(module, done, turn(module, awaiting(done), event).1),
{
    reveal(turn);
}

/// A run goes on in order from each action that the interpreter did.
pub proof fn law_actions_follow_one_another(module: ModulePath, events: Seq<Event>, i: int)
    requires
        is_run(module, events),
        0 < i < events.len(),
        events[i] matches Event::Done(Ok(_)),
    ensures
        follows_when_done(module, action_at(module, events, i - 1), action_at(module, events, i)),
{
    lemma_awaits(module, events, i - 1);
    lemma_stage_ok(module, events, i);
    lemma_step(module, events, i);
    lemma_turn_done(module, action_at(module, events, i - 1), events[i]);
}

/// Whether an error tells of an action that the interpreter failed at, with its words.
pub open spec fn tells_of(error: RunError, failed: Action, text: String) -> bool {
    match error {
        RunError::ImportSys(t) => failed is ImportSys && t == text,
        RunError::NoSysPath(t) => failed is GetSysPath && t == text,
        RunError::NoAppend(t) => failed is GetAppend && t == text,
        RunError::AppendPath(t) => failed is AppendPath && t == text,
        RunError::ImportModule(t) => failed is ImportModule && t == text,
        RunError::NoOperatorClass(t) => failed is GetOperatorClass && t == text,
        RunError::Construct(t) => failed is Construct && t == text,
        RunError::OnInput(t) => failed is CallOnInput && t == text,
        RunError::NoStatusValue(t) => failed is GetValue && t == text,
        RunError::InvalidReturn(t) => failed is ExtractStatus && t == text,
        RunError::LookForDrop(t) => failed is LookForDrop && t == text,
        RunError::DropOperator(t) => failed is CallDrop && t == text,
        _ => false,
    }
}

/// Whether an event tells that the interpreter failed, with the text.
pub open spec fn fails_with(event: Event, text: String) -> bool {
    ||| event == Event::Done(Err(text))
    ||| event == Event::Status(Err(text))
    ||| event == Event::HasDrop(Err(text))
}

/// How a turn tells of an action that failed.
proof fn lemma_turn_fails(module: ModulePath, failed: Action, event: Event, text: String)
    requires
        fits(awaiting(failed), event),
        fails_with(event, text),
    ensures
        turn(module, awaiting(failed), event).1 matches Action::End(Err(error)) && tells_of(
            error,
            failed,
            text,
        ),
{
    reveal(turn);
}

/// An action that the interpreter fails at ends the run with the error of that action, in the
/// words of the interpreter.
pub proof fn law_error_tells_of_the_action_that_failed(
    module: ModulePath,
    events: Seq<Event>,
    i: int,
    text: String,
)
    requires
        is_run(module, events),
        0 < i < events.len(),
        fails_with(events[i], text),
    ensures
        action_at(module, events, i) matches Action::End(Err(error)) && tells_of(
            error,
            action_at(module, events, i - 1),
            text,
        ),
{
    lemma_awaits(module, events, i - 1);
    lemma_step(module, events, i);
    lemma_turn_fails(module, action_at(module, events, i - 1), events[i], text);
}

/// What a turn makes of a status and of a clean-up that was looked for.
proof fn lemma_turn_decides(module: ModulePath, stage: Stage, event: Event)
    ensures
        event matches Event::Status(Ok(status)) ==> match turn(module, stage, event).1 {
            Action::Receive => status == 0,
            Action::LookForDrop => status == 1,
            Action::End(Err(RunError::InvalidStatus(told))) => told == status && status != 0
                && status != 1,
            _ => false,
        },
        event matches Event::Received(None) ==> turn(module, stage, event).1 is LookForDrop,
        event matches Event::HasDrop(Ok(found)) ==> match turn(module, stage, event).1 {
            Action::CallDrop => found,
            Action::End(Ok(_)) => !found,
            _ => false,
        },
{
    reveal(turn);
}

/// The status that `on_input` returns decides how a run goes on: with zero the next input is
/// awaited, with one the operator is let clean up, and any other status is an error that tells it.
/// An operator is let clean up as well when no input can arrive any more; one that has nothing to
/// clean up with has ended.
pub proof fn law_status_decides(module: ModulePath, events: Seq<Event>, i: int)
    requires
        is_run(module, events),
        0 <= i < events.len(),
    ensures
        events[i] matches Event::Status(Ok(status)) ==> match action_at(module, events, i) {
            Action::Receive => status == 0,
            Action::LookForDrop => status == 1,
            Action::End(Err(RunError::InvalidStatus(told))) => told == status && status != 0
                && status != 1,
            _ => false,
        },
        events[i] matches Event::Received(None) ==> action_at(module, events, i) is LookForDrop,
        events[i] matches Event::HasDrop(Ok(found)) ==> match action_at(module, events, i) {
            Action::CallDrop => found,
            Action::End(Ok(_)) => !found,
            _ => false,
        },
{
    lemma_turn_decides(module, stage_after(module, events.take(i)), events[i]);
}

/// Whether an input was awaited before the `i`-th event: the operator was set up.
pub open spec fn is_set_up(module: ModulePath, events: Seq<Event>, i: int) -> bool {
    exists|j: int| 0 <= j < i && #[trigger] action_at(module, events, j) is Receive
}

/// A turn leads out of the set-up only to the inputs or to the end.
proof fn lemma_turn_leaves_setup(module: ModulePath, stage: Stage, event: Event)
    requires
        fits(stage, event),
        phase(stage) == 0,
    ensures
        phase(turn(module, stage, event).0) == 1 ==> turn(module, stage, event).1 is Receive,
        phase(turn(module, stage, event).0) != 2,
{
    reveal(turn);
}

/// A run that has not ended is past its set-up just when an input was awaited.
proof fn lemma_set_up(module: ModulePath, events: Seq<Event>, i: int)
    requires
        is_run(module, events),
        0 <= i <= events.len(),
        phase(stage_after(module, events.take(i))) != 3,
    ensures
        is_set_up(module, events, i) <==> phase(stage_after(module, events.take(i))) != 0,
    decreases i,
{
    if i > 0 {
        let before = stage_after(module, events.take(i - 1));
        lemma_step(module, events, i - 1);
        lemma_turn_ascends(module, before, events[i - 1]);
        lemma_turn_action(module, before, events[i - 1]);
        lemma_set_up(module, events, i - 1);
        if phase(before) == 0 {
            lemma_turn_leaves_setup(module, before, events[i - 1]);
            if action_at(module, events, i - 1) is Receive {
                assert(is_set_up(module, events, i));
            }
            if is_set_up(module, events, i) {
                let j = choose|j: int|
                    0 <= j < i && #[trigger] action_at(module, events, j) is Receive;
                assert(j == i - 1);
            }
        } else {
            let j = choose|j: int|
                0 <= j < i - 1 && #[trigger] action_at(module, events, j) is Receive;
            assert(action_at(module, events, j) is Receive);
            assert(is_set_up(module, events, i));
        }
    }
}

/// Which texts tell of the error of a turn.
proof fn lemma_turn_chain(module: ModulePath, waits: Stage, event: Event, path: Seq<char>)
    requires
        fits(waits, event),
    ensures
        turn(module, waits, event).1 matches Action::End(Err(error)) ==> {
            let chain = run_error_chain(path, error);
            let base: int = if phase(waits) == 0 {
                3
            } else {
                2
            };
            &&& chain.len() >= base
            &&& phase(waits) == 0 ==> chain[1] == "failed to init python operator"@
            &&& chain[base - 1] == run_error_text(error)
            &&& forall|text: String| fails_with(event, text) ==> chain.last() == text@
            &&& event is Begin ==> chain.len() == base
            &&& event matches Event::Status(Ok(_)) ==> chain.len() == base
            &&& chain.len() == base + 1 <==> (exists|text: String| fails_with(event, text))
                && waits != Stage::ImportingModule && waits != Stage::Constructing && waits
                != Stage::CallingOnInput && waits != Stage::Dropping
            &&& chain.len() <= base + 1
        },
{
    reveal(turn);
    if let Event::Done(Err(text)) = event {
        assert(fails_with(event, text));
    }
    if let Event::Status(Err(text)) = event {
        assert(fails_with(event, text));
    }
    if let Event::HasDrop(Err(text)) = event {
        assert(fails_with(event, text));
    }
}

/// The error of a run is told from the outside to the inside: first the module, then that the
/// operator could not be set up, just when no input was awaited yet, then the error itself. What
/// the interpreter said comes last, and it comes once: where the error itself reads so, nothing
/// follows.
pub proof fn law_error_is_told_from_the_outside(
    module: ModulePath,
    events: Seq<Event>,
    i: int,
    path: Seq<char>,
)
    requires
        is_run(module, events),
        0 <= i < events.len(),
    ensures
        action_at(module, events, i) matches Action::End(Err(error)) ==> {
            let chain = run_error_chain(path, error);
            let base: int = if is_set_up(module, events, i) {
                2
            } else {
                3
            };
            &&& base <= chain.len() <= base + 1
            &&& !is_set_up(module, events, i) ==> chain[1] == "failed to init python operator"@
            &&& chain[base - 1] == run_error_text(error)
            &&& forall|text: String| #[trigger]
                fails_with(events[i], text) ==> chain.last() == text@
            &&& chain.len() == base + 1 <==> (exists|text: String| #[trigger]
                fails_with(events[i], text)) && i > 0 && match action_at(module, events, i - 1) {
                Action::ImportModule(_) => false,
                Action::Construct => false,
                Action::CallOnInput(_) => false,
                Action::CallDrop => false,
                _ => true,
            }
        },
{
    lemma_step(module, events, i);
    lemma_turn_chain(module, stage_after(module, events.take(i)), events[i], path);
    lemma_set_up(module, events, i);
    assert(events.take(0).len() == 0);
    if i > 0 {
        lemma_awaits(module, events, i - 1);
    }
}

/// The outermost text of an error tells where the module lies.
pub proof fn law_error_tells_where_the_module_lies(a: Seq<char>, b: Seq<char>, error: RunError)
    ensures
        same_frame(run_error_chain(a, error)[0], a, run_error_chain(b, error)[0], b),
        run_error_chain(a, error).drop_first() == run_error_chain(b, error).drop_first(),
{
    lemma_same_start("error in Python module at "@, a, b);
    assert(run_error_chain(a, error).drop_first() =~= run_error_chain(b, error).drop_first());
}

/// Errors of the same kind read alike but for what they are about.
pub proof fn law_operator_errors_read_alike(
    a: String,
    b: String,
    cause_a: String,
    cause_b: String,
    n: i32,
    m: i32,
)
    ensures
        same_frame(
            spawn_error_text(SpawnError::NoPythonFile(a)),
            a@,
            spawn_error_text(SpawnError::NoPythonFile(b)),
            b@,
        ),
        same_frame(
            spawn_error_text(SpawnError::NotFound { path: a, cause: cause_a }),
            a@,
            spawn_error_text(SpawnError::NotFound { path: b, cause: cause_b }),
            b@,
        ),
        same_frame(
            send_error_text(SendError::UnexpectedOutput(a)),
            a@,
            send_error_text(SendError::UnexpectedOutput(b)),
            b@,
        ),
        send_error_text(SendError::PublishFailed(a)) == send_error_text(
            SendError::PublishFailed(b),
        ),
        same_frame(
            run_error_text(RunError::InvalidStatus(n)),
            decimal(n as int),
            run_error_text(RunError::InvalidStatus(m)),
            decimal(m as int),
        ),
        run_error_text(RunError::ImportModule(a)) == a@,
        run_error_text(RunError::Construct(a)) == a@,
        run_error_text(RunError::OnInput(a)) == a@,
        run_error_text(RunError::DropOperator(a)) == a@,
        run_error_text(RunError::ImportSys(a)) == run_error_text(RunError::ImportSys(b)),
        run_error_text(RunError::NoSysPath(a)) == run_error_text(RunError::NoSysPath(b)),
        run_error_text(RunError::NoAppend(a)) == run_error_text(RunError::NoAppend(b)),
        run_error_text(RunError::AppendPath(a)) == run_error_text(RunError::AppendPath(b)),
        run_error_text(RunError::NoOperatorClass(a)) == run_error_text(
            RunError::NoOperatorClass(b),
        ),
        run_error_text(RunError::NoStatusValue(a)) == run_error_text(RunError::NoStatusValue(b)),
        run_error_text(RunError::InvalidReturn(a)) == run_error_text(RunError::InvalidReturn(b)),
        run_error_text(RunError::LookForDrop(a)) == run_error_text(RunError::LookForDrop(b)),
{
    lemma_same_start("No python file exists at "@, a@, b@);
    lemma_same_frame("no file found at `"@, a@, b@, "`"@);
    lemma_same_frame("unexpected output "@, a@, b@, " (not defined in dataflow config)"@);
    lemma_same_start(
        "on_input returned invalid status "@,
        decimal(n as int),
        decimal(m as int),
    );
}

/// A run is prepared just when the file exists and it can be told where it lies; the run then
/// starts with the file that was found. A refusal names the path that was given.
pub proof fn law_operators_are_spawned_from_files(
    path: String,
    exists_there: bool,
    canonical: Result<ModulePath, String>,
    r: Result<PythonRunner, SpawnError>,
)
    requires
        call_ensures(spawn, (path, exists_there, canonical), r),
    ensures
        r is Ok <==> exists_there && canonical is Ok,
        r matches Ok(runner) ==> canonical == Ok::<_, String>(runner.module) && runner.stage
            == Stage::Start,
        r matches Err(SpawnError::NoPythonFile(p)) ==> p == path && !exists_there,
        r matches Err(SpawnError::NotFound { path: p, cause }) ==> p == path && exists_there
            && canonical == Err::<ModulePath, _>(cause),
{
}

/// An operator finished just when its run came to an end without an error; an error is reported
/// with the module's path, and a panic as it is.
pub proof fn law_end_is_reported_as_it_was<P>(
    path: String,
    outcome: Result<Result<(), RunError>, P>,
    r: OperatorEvent<P>,
)
    requires
        call_ensures(final_event::<P>, (path, outcome), r),
    ensures
        r is Finished <==> outcome is Ok && outcome->Ok_0 is Ok,
        r matches OperatorEvent::Error { path: p, error } ==> p == path && outcome == Ok::<_, P>(
            Err::<(), _>(error),
        ),
        r matches OperatorEvent::Panic(panic) ==> outcome == Err::<Result<(), RunError>, _>(panic),
{
}

/// An output is sent by just the publisher that stands under its name, as it is; an output
/// without one is refused by its name.
pub proof fn law_outputs_go_to_their_publishers<
    P,
    F: FnOnce(&P, &[u8]) -> Result<(), String>,
>(
    callback: SendOutputCallback<P>,
    output: &str,
    data: &[u8],
    publish: F,
    publisher: P,
    r: Result<(), SendError>,
)
    requires
        call_ensures(
            SendOutputCallback::<P>::call::<F>,
            (&callback, output, data, publish),
            r,
        ),
    ensures
        (r matches Err(SendError::UnexpectedOutput(_))) <==> !callback.publishers@.contains_key(
            output@,
        ),
        r matches Err(SendError::UnexpectedOutput(name)) ==> name@ == output@,
        callback.publishers@.contains_key(output@) && callback.publishers@[output@] == publisher
            ==> {
            &&& r is Ok ==> call_ensures(publish, (&publisher, data), Ok(()))
            &&& r matches Err(SendError::PublishFailed(text)) ==> call_ensures(
                publish,
                (&publisher, data),
                Err(text),
            )
        },
{
    if let Ok(done) = r {
        assert(done == ());
    }
}

} // verus!
