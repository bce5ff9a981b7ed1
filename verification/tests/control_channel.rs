use dataflow_control::control_channel::{
    ChannelError, ControlChannel, DaemonReply, DaemonRequest, Report,
};

type Reply = Result<DaemonReply<u8>, String>;

fn node() -> ControlChannel {
    ControlChannel { dataflow_id: 3, node_id: "n".to_string() }
}

fn stop(reply: fn() -> Reply) -> Result<(), ChannelError<u8>> {
    let channel = move |request: &DaemonRequest<u8>| -> Reply {
        assert!(matches!(request, DaemonRequest::Stopped));
        reply()
    };
    node().report_stop(channel)
}

fn close(reply: fn() -> Reply) -> Result<(), ChannelError<u8>> {
    let channel = move |request: &DaemonRequest<u8>| -> Reply {
        assert!(matches!(request, DaemonRequest::CloseOutputs(outputs) if outputs[..] == ["a", "b"]));
        reply()
    };
    node().report_closed_outputs(vec!["a".to_string(), "b".to_string()], channel)
}

fn send(reply: fn() -> Reply) -> Result<(), ChannelError<u8>> {
    let channel = move |request: &DaemonRequest<u8>| -> Reply {
        match request {
            DaemonRequest::SendMessage { output_id, metadata, data } => {
                assert_eq!(output_id, "out");
                assert_eq!(*metadata, 4);
                assert_eq!(data, &Some(vec![1, 2]));
            }
            _ => panic!("no message"),
        }
        reply()
    };
    node().send_message("out".to_string(), 4, Some(vec![1, 2]), channel)
}

#[test]
fn channel_opens_for_a_registered_node() {
    let opened = ControlChannel::init(3, &"n".to_string(), |dataflow_id, node_id| {
        assert_eq!(dataflow_id, 3);
        assert_eq!(node_id, "n");
        Ok(())
    });
    let opened = opened.ok().unwrap();
    assert_eq!((opened.dataflow_id, opened.node_id.as_str()), (3, "n"));
    let refused = ControlChannel::init(3, &"n".to_string(), |_, _| Err("no".to_string()));
    assert_eq!(refused.err(), Some("no".to_string()));
}

#[test]
fn accepted_reports_succeed() {
    assert!(stop(|| Ok(DaemonReply::Result(Ok(())))).is_ok());
    assert!(close(|| Ok(DaemonReply::Result(Ok(())))).is_ok());
    assert!(send(|| Ok(DaemonReply::Empty)).is_ok());
}

#[test]
fn refused_reports_fail() {
    let refused = || -> Reply { Ok(DaemonReply::Result(Err("no".to_string()))) };
    let error = stop(refused).err().unwrap();
    assert_eq!(error.message(""), "failed to report stop event to dora-daemon");
    assert!(matches!(error, ChannelError::Refused { report: Report::Stop, cause } if cause == "no"));
    let error = close(refused).err().unwrap();
    assert_eq!(error.message(""), "failed to receive closed outputs reply from dora-daemon");
    let error = send(refused).err().unwrap();
    assert_eq!(error.message("R"), "unexpected SendMessage reply: R");
}

#[test]
fn unexpected_replies_fail() {
    let error = stop(|| Ok(DaemonReply::Empty)).err().unwrap();
    assert_eq!(error.message("Empty"), "unexpected stopped reply: Empty");
    let error = close(|| Ok(DaemonReply::Other(6))).err().unwrap();
    assert_eq!(error.message("Other"), "unexpected closed outputs reply: Other");
    assert!(matches!(
        error,
        ChannelError::Unexpected { report: Report::ClosedOutputs, reply: DaemonReply::Other(6) }
    ));
    let error = send(|| Ok(DaemonReply::Result(Ok(())))).err().unwrap();
    assert_eq!(error.message("Result"), "unexpected SendMessage reply: Result");
}

#[test]
fn lost_requests_fail() {
    let lost = || -> Reply { Err("gone".to_string()) };
    assert_eq!(
        stop(lost).err().unwrap().message(""),
        "failed to report stopped to dora-daemon"
    );
    assert_eq!(
        close(lost).err().unwrap().message(""),
        "failed to report closed outputs to dora-daemon"
    );
    let error = send(lost).err().unwrap();
    assert_eq!(error.message(""), "failed to send SendMessage request to dora-daemon");
    assert!(matches!(error, ChannelError::Request { cause, .. } if cause == "gone"));
}
