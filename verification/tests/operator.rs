use dataflow_control::operator::{
    final_event, spawn, Action, Event, Input, ModulePath, OperatorEvent, PathText, PythonRunner,
    RunError, SendError, SendOutputCallback, SpawnError, Stage,
};
use dataflow_control::ordered::SortedMap;

fn module(parent: Option<PathText>, file_stem: Option<PathText>) -> ModulePath {
    ModulePath { shown: "/ops/op.py".to_string(), parent, file_stem }
}

fn runner() -> PythonRunner {
    let module = module(
        Some(PathText::Utf8("/ops".to_string())),
        Some(PathText::Utf8("op".to_string())),
    );
    spawn("op.py".to_string(), true, Ok(module)).ok().unwrap()
}

fn ready() -> PythonRunner {
    let mut runner = runner();
    runner.step(Event::Begin);
    for _ in 0..7 {
        runner.step(Event::Done(Ok(())));
    }
    assert_eq!(runner.stage, Stage::Receiving);
    runner
}

fn input(id: &str) -> Input {
    Input { id: id.to_string(), data: vec![1, 2] }
}

#[test]
fn missing_file_is_not_spawned() {
    let error = spawn("op.py".to_string(), false, Err("x".to_string())).err().unwrap();
    assert_eq!(error.message(), "No python file exists at op.py");
    let error = spawn("op.py".to_string(), true, Err("denied".to_string())).err().unwrap();
    assert_eq!(error.message(), "no file found at `op.py`");
    assert!(matches!(error, SpawnError::NotFound { cause, .. } if cause == "denied"));
}

#[test]
fn operator_is_set_up_in_order() {
    let mut runner = runner();
    assert!(matches!(runner.step(Event::Begin), Action::ImportSys));
    assert!(matches!(runner.step(Event::Done(Ok(()))), Action::GetSysPath));
    assert!(matches!(runner.step(Event::Done(Ok(()))), Action::GetAppend));
    assert!(matches!(
        runner.step(Event::Done(Ok(()))),
        Action::AppendPath(dir) if dir == "/ops"
    ));
    assert!(matches!(
        runner.step(Event::Done(Ok(()))),
        Action::ImportModule(name) if name == "op"
    ));
    assert!(matches!(runner.step(Event::Done(Ok(()))), Action::GetOperatorClass));
    assert!(matches!(runner.step(Event::Done(Ok(()))), Action::Construct));
    assert!(matches!(runner.step(Event::Done(Ok(()))), Action::Receive));
}

#[test]
fn path_without_a_parent_is_imported_at_once() {
    let module = module(None, Some(PathText::Utf8("op".to_string())));
    let mut runner = spawn("op.py".to_string(), true, Ok(module)).ok().unwrap();
    assert!(matches!(runner.step(Event::Begin), Action::ImportModule(name) if name == "op"));
}

#[test]
fn paths_must_be_text() {
    let begin = |parent, file_stem| {
        let module = module(parent, file_stem);
        let mut runner = spawn("op.py".to_string(), true, Ok(module)).ok().unwrap();
        match runner.step(Event::Begin) {
            Action::End(Err(error)) => error.message(),
            _ => panic!("no error"),
        }
    };
    assert_eq!(begin(Some(PathText::NotUtf8), None), "module path is not valid utf8");
    assert_eq!(begin(None, None), "module path has no file stem");
    assert_eq!(begin(None, Some(PathText::NotUtf8)), "module file stem is not valid utf8");
}

#[test]
fn failures_of_the_setup_end_the_run() {
    let texts = [
        "failed to import `sys` module",
        "failed to import `sys.path` module",
        "`sys.path.append` was not found",
        "failed to append module path to python search path",
        "raised",
        "no `Operator` class found in module",
        "raised",
    ];
    for (i, text) in texts.iter().enumerate() {
        let mut runner = runner();
        runner.step(Event::Begin);
        for _ in 0..i {
            runner.step(Event::Done(Ok(())));
        }
        match runner.step(Event::Done(Err("raised".to_string()))) {
            Action::End(Err(error)) => assert_eq!(error.message(), *text),
            _ => panic!("no error"),
        }
        assert_eq!(runner.stage, Stage::Ended);
    }
}

#[test]
fn inputs_are_handled_until_the_operator_stops() {
    let mut runner = ready();
    for i in 0..3 {
        match runner.step(Event::Received(Some(input(&format!("in{i}"))))) {
            Action::CallOnInput(input) => {
                assert_eq!(input.id, format!("in{i}"));
                assert_eq!(input.data, [1, 2]);
            }
            _ => panic!("no call"),
        }
        assert!(matches!(runner.step(Event::Done(Ok(()))), Action::GetValue));
        assert!(matches!(runner.step(Event::Done(Ok(()))), Action::ExtractStatus));
        let status = if i == 2 { 1 } else { 0 };
        let next = runner.step(Event::Status(Ok(status)));
        if i == 2 {
            assert!(matches!(next, Action::LookForDrop));
        } else {
            assert!(matches!(next, Action::Receive));
        }
    }
    assert!(matches!(runner.step(Event::HasDrop(Ok(true))), Action::CallDrop));
    assert!(matches!(runner.step(Event::Done(Ok(()))), Action::End(Ok(()))));
    assert_eq!(runner.stage, Stage::Ended);
}

#[test]
fn closed_inputs_end_the_run_cleanly() {
    let mut runner = ready();
    assert!(matches!(runner.step(Event::Received(None)), Action::LookForDrop));
    assert!(matches!(runner.step(Event::HasDrop(Ok(false))), Action::End(Ok(()))));
}

#[test]
fn failures_of_on_input_end_the_run() {
    let mut runner = ready();
    runner.step(Event::Received(Some(input("a"))));
    match runner.step(Event::Done(Err("Traceback".to_string()))) {
        Action::End(Err(error)) => assert_eq!(error.message(), "Traceback"),
        _ => panic!("no error"),
    }
    let mut runner = ready();
    runner.step(Event::Received(Some(input("a"))));
    runner.step(Event::Done(Ok(())));
    match runner.step(Event::Done(Err("none".to_string()))) {
        Action::End(Err(error)) => {
            assert_eq!(error.message(), "on_input must have enum return value");
        }
        _ => panic!("no error"),
    }
    for (status, text) in [
        (Err("str".to_string()), "on_input has invalid return value"),
        (Ok(2), "on_input returned invalid status 2"),
        (Ok(-1), "on_input returned invalid status -1"),
        (Ok(i32::MIN), "on_input returned invalid status -2147483648"),
        (Ok(1000), "on_input returned invalid status 1000"),
    ] {
        let mut runner = ready();
        runner.step(Event::Received(Some(input("a"))));
        runner.step(Event::Done(Ok(())));
        runner.step(Event::Done(Ok(())));
        match runner.step(Event::Status(status)) {
            Action::End(Err(error)) => assert_eq!(error.message(), text),
            _ => panic!("no error"),
        }
    }
}

#[test]
fn failures_of_the_clean_up_end_the_run() {
    let mut runner = ready();
    runner.step(Event::Received(None));
    match runner.step(Event::HasDrop(Err("x".to_string()))) {
        Action::End(Err(error)) => assert_eq!(error.message(), "failed to look for drop_operator"),
        _ => panic!("no error"),
    }
    let mut runner = ready();
    runner.step(Event::Received(None));
    runner.step(Event::HasDrop(Ok(true)));
    match runner.step(Event::Done(Err("x".to_string()))) {
        Action::End(Err(error)) => assert_eq!(error.message(), "x"),
        _ => panic!("no error"),
    }
}

#[test]
fn errors_are_told_from_the_module_to_the_cause() {
    let text = || "raised".to_string();
    assert_eq!(
        RunError::InvalidStatus(2).chain("/ops/op.py"),
        ["error in Python module at /ops/op.py", "on_input returned invalid status 2"]
    );
    assert_eq!(
        RunError::NoOperatorClass(text()).chain("/ops/op.py"),
        [
            "error in Python module at /ops/op.py",
            "failed to init python operator",
            "no `Operator` class found in module",
            "raised"
        ]
    );
    let setup = [
        RunError::ParentNotUtf8,
        RunError::ImportSys(text()),
        RunError::NoSysPath(text()),
        RunError::NoAppend(text()),
        RunError::AppendPath(text()),
        RunError::NoFileStem,
        RunError::StemNotUtf8,
        RunError::ImportModule(text()),
        RunError::NoOperatorClass(text()),
        RunError::Construct(text()),
    ];
    for error in setup {
        assert_eq!(error.chain("p")[1], "failed to init python operator");
        assert_eq!(error.chain("p")[2], error.message());
    }
    let later = [
        RunError::OnInput(text()),
        RunError::NoStatusValue(text()),
        RunError::InvalidReturn(text()),
        RunError::InvalidStatus(-3),
        RunError::LookForDrop(text()),
        RunError::DropOperator(text()),
    ];
    for error in later {
        assert_eq!(error.chain("p")[0], "error in Python module at p");
        assert_eq!(error.chain("p")[1], error.message());
    }
    assert_eq!(RunError::OnInput(text()).chain("p").len(), 2);
    assert_eq!(RunError::LookForDrop(text()).chain("p")[2], "raised");
}

#[test]
fn end_is_reported_once() {
    let path = || "/ops/op.py".to_string();
    assert!(matches!(final_event::<u8>(path(), Ok(Ok(()))), OperatorEvent::Finished));
    assert!(matches!(
        final_event::<u8>(path(), Ok(Err(RunError::NoFileStem))),
        OperatorEvent::Error { path, error: RunError::NoFileStem } if path == "/ops/op.py"
    ));
    assert!(matches!(final_event(path(), Err(9u8)), OperatorEvent::Panic(9)));
}

#[test]
fn outputs_go_to_their_publishers() {
    let mut publishers: SortedMap<String, u32> = SortedMap::new();
    publishers.insert("a".to_string(), 1);
    publishers.insert("b".to_string(), 2);
    let callback = SendOutputCallback { publishers };
    let publish = |publisher: &u32, data: &[u8]| -> Result<(), String> {
        assert_eq!(data, b"data");
        if *publisher == 1 {
            Ok(())
        } else {
            Err("closed".to_string())
        }
    };
    assert!(callback.call("a", b"data", publish).is_ok());
    let error = callback.call("b", b"data", publish).err().unwrap();
    assert_eq!(error.message(), "publish failed");
    assert!(matches!(error, SendError::PublishFailed(text) if text == "closed"));
    let error = callback.call("c", b"data", publish).err().unwrap();
    assert_eq!(error.message(), "unexpected output c (not defined in dataflow config)");
}
