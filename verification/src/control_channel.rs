//! The channel on which a node tells its daemon what it does.

use vstd::prelude::*;

use crate::ids::{DataId, DataflowId, NodeId};
use crate::text::{lemma_same_start, same_frame};

verus! {

/// What a node tells its daemon. `M` describes a message's data.
pub enum DaemonRequest<M> {
    /// The node has stopped.
    Stopped,
    /// Nothing more will be sent on the outputs.
    CloseOutputs(Vec<DataId>),
    /// A message on an output.
    SendMessage { output_id: DataId, metadata: M, data: Option<Vec<u8>> },
}

/// What the daemon replies. `O` stands for the replies to other requests than those of this
/// channel.
pub enum DaemonReply<O> {
    Result(Result<(), String>),
    Empty,
    Other(O),
}

/// What a node was about to tell.
#[derive(Clone, Copy, Debug, PartialEq, Eq, Structural)]
pub enum Report {
    Stop,
    ClosedOutputs,
    Message,
}

/// Why a node could not tell its daemon something.
pub enum ChannelError<O> {
    /// The request did not get through.
    Request { report: Report, cause: String },
    /// The daemon refused.
    Refused { report: Report, cause: String },
    /// The daemon replied to something else.
    Unexpected { report: Report, reply: DaemonReply<O> },
}

/// The text of an error. A reply to something else appears in it as `reply`.
pub open spec fn channel_error_text<O>(error: ChannelError<O>, reply: Seq<char>) -> Seq<char> {
    match error {
        ChannelError::Request { report, cause: _ } => match report {
            Report::Stop => "failed to report stopped to dora-daemon"@,
            Report::ClosedOutputs => "failed to report closed outputs to dora-daemon"@,
            Report::Message => "failed to send SendMessage request to dora-daemon"@,
        },
        ChannelError::Refused { report, cause } => match report {
            Report::Stop => "failed to report stop event to dora-daemon"@,
            Report::ClosedOutputs => "failed to receive closed outputs reply from dora-daemon"@,
            Report::Message => cause@,
        },
        ChannelError::Unexpected { report, reply: _ } => match report {
            Report::Stop => "unexpected stopped reply: "@ + reply,
            Report::ClosedOutputs => "unexpected closed outputs reply: "@ + reply,
            Report::Message => "unexpected SendMessage reply: "@ + reply,
        },
    }
}

impl<O> ChannelError<O> {
    /// The text of the error. `reply` is how an unexpected reply is written out.
    pub fn message(&self, reply: &str) -> (r: String)
        ensures
            r@ == channel_error_text(*self, reply@),
    {
        match self {
            ChannelError::Request { report, cause: _ } => match report {
                Report::Stop => "failed to report stopped to dora-daemon".to_owned(),
                Report::ClosedOutputs => {
                    "failed to report closed outputs to dora-daemon".to_owned()
                },
                Report::Message => "failed to send SendMessage request to dora-daemon".to_owned(),
            },
            ChannelError::Refused { report, cause } => match report {
                Report::Stop => "failed to report stop event to dora-daemon".to_owned(),
                Report::ClosedOutputs => {
                    "failed to receive closed outputs reply from dora-daemon".to_owned()
                },
                Report::Message => cause.clone(),
            },
            ChannelError::Unexpected { report, reply: _ } => {
                let mut r = match report {
                    Report::Stop => "unexpected stopped reply: ".to_owned(),
                    Report::ClosedOutputs => "unexpected closed outputs reply: ".to_owned(),
                    Report::Message => "unexpected SendMessage reply: ".to_owned(),
                };
                r.append(reply);
                r
            },
        }
    }
}

/// What a reply to a request that the daemon can refuse comes to.
pub open spec fn result_of<O>(report: Report, reply: Result<DaemonReply<O>, String>) -> Result<
    (),
    ChannelError<O>,
> {
    match reply {
        Ok(DaemonReply::Result(Ok(_))) => Ok(()),
        Ok(DaemonReply::Result(Err(cause))) => Err(ChannelError::Refused { report, cause }),
        Ok(other) => Err(ChannelError::Unexpected { report, reply: other }),
        Err(cause) => Err(ChannelError::Request { report, cause }),
    }
}

/// What a reply to a request that the daemon only acknowledges comes to.
pub open spec fn acknowledgement_of<O>(
    report: Report,
    reply: Result<DaemonReply<O>, String>,
) -> Result<(), ChannelError<O>> {
    match reply {
        Ok(DaemonReply::Empty) => Ok(()),
        Ok(other) => Err(ChannelError::Unexpected { report, reply: other }),
        Err(cause) => Err(ChannelError::Request { report, cause }),
    }
}

/// Takes in the reply to a request that the daemon can refuse.
pub fn read_result<O>(report: Report, reply: Result<DaemonReply<O>, String>) -> (r: Result<
    (),
    ChannelError<O>,
>)
    ensures
        r == result_of(report, reply),
{
    match reply {
        Ok(DaemonReply::Result(Ok(done))) => Ok(done),
        Ok(DaemonReply::Result(Err(cause))) => Err(ChannelError::Refused { report, cause }),
        Ok(other) => Err(ChannelError::Unexpected { report, reply: other }),
        Err(cause) => Err(ChannelError::Request { report, cause }),
    }
}

/// Takes in the reply to a request that the daemon only acknowledges.
pub fn read_acknowledgement<O>(report: Report, reply: Result<DaemonReply<O>, String>) -> (r: Result<
    (),
    ChannelError<O>,
>)
    ensures
        r == acknowledgement_of(report, reply),
{
    match reply {
        Ok(DaemonReply::Empty) => Ok(()),
        Ok(other) => Err(ChannelError::Unexpected { report, reply: other }),
        Err(cause) => Err(ChannelError::Request { report, cause }),
    }
}

/// The channel of a node that its daemon knows. Each report makes one request.
pub struct ControlChannel {
    pub dataflow_id: DataflowId,
    pub node_id: NodeId,
}

impl ControlChannel {
    /// Opens the channel for a node, which `register` makes known to the daemon.
    pub fn init<R: FnOnce(DataflowId, NodeId) -> Result<(), String>>(
        dataflow_id: DataflowId,
        node_id: &NodeId,
        register: R,
    ) -> (r: Result<Self, String>)
        requires
            call_requires(register, (dataflow_id, *node_id)),
        ensures
            match r {
                Ok(control) => control == (ControlChannel { dataflow_id, node_id: *node_id })
                    && call_ensures(register, (dataflow_id, *node_id), Ok(())),
                Err(cause) => call_ensures(register, (dataflow_id, *node_id), Err(cause)),
            },
    {
        match register(dataflow_id, node_id.clone()) {
            Ok(done) => {
                assert(done == ());
                Ok(ControlChannel { dataflow_id, node_id: node_id.clone() })
            },
            Err(cause) => Err(cause),
        }
    }

    /// Tells the daemon that the node has stopped, by the one request that `send` can make.
    pub fn report_stop<M, O, S: FnOnce(&DaemonRequest<M>) -> Result<DaemonReply<O>, String>>(
        &self,
        send: S,
    ) -> (r: Result<(), ChannelError<O>>)
        requires
            call_requires(send, (&DaemonRequest::<M>::Stopped,)),
        ensures
            exists|reply: Result<DaemonReply<O>, String>|
                call_ensures(send, (&DaemonRequest::<M>::Stopped,), reply) && r
                    == #[trigger] result_of(Report::Stop, reply),
    {
        let request = DaemonRequest::<M>::Stopped;
        let reply = send(&request);
        read_result(Report::Stop, reply)
    }

    /// Tells the daemon that nothing more will be sent on the outputs, by the one request that
    /// `send` can make.
    pub fn report_closed_outputs<
        M,
        O,
        S: FnOnce(&DaemonRequest<M>) -> Result<DaemonReply<O>, String>,
    >(&self, outputs: Vec<DataId>, send: S) -> (r: Result<(), ChannelError<O>>)
        requires
            call_requires(send, (&DaemonRequest::<M>::CloseOutputs(outputs),)),
        ensures
            exists|reply: Result<DaemonReply<O>, String>|
                call_ensures(send, (&DaemonRequest::<M>::CloseOutputs(outputs),), reply) && r
                    == #[trigger] result_of(Report::ClosedOutputs, reply),
    {
        let request = DaemonRequest::<M>::CloseOutputs(outputs);
        let reply = send(&request);
        read_result(Report::ClosedOutputs, reply)
    }

    /// Sends a message on an output, by the one request that `send` can make.
    pub fn send_message<M, O, S: FnOnce(&DaemonRequest<M>) -> Result<DaemonReply<O>, String>>(
        &self,
        output_id: DataId,
        metadata: M,
        data: Option<Vec<u8>>,
        send: S,
    ) -> (r: Result<(), ChannelError<O>>)
        requires
            call_requires(
                send,
                (&DaemonRequest::<M>::SendMessage { output_id, metadata, data },),
            ),
        ensures
            exists|reply: Result<DaemonReply<O>, String>|
                call_ensures(
                    send,
                    (&DaemonRequest::<M>::SendMessage { output_id, metadata, data },),
                    reply,
                ) && r == #[trigger] acknowledgement_of(Report::Message, reply),
    {
        let request = DaemonRequest::<M>::SendMessage { output_id, metadata, data };
        let reply = send(&request);
        read_acknowledgement(Report::Message, reply)
    }
}

/// A report that the daemon can refuse succeeds just when the daemon accepted it; a message
/// succeeds just when the daemon acknowledged it. A failure says whether the request was lost, was
/// refused, or was answered with something else, and with which words or reply.
pub proof fn law_reports_succeed_when_the_daemon_says_so<O>(
    report: Report,
    reply: Result<DaemonReply<O>, String>,
    text: String,
    other: DaemonReply<O>,
)
    ensures
        result_of(report, reply) is Ok <==> reply is Ok && reply->Ok_0 is Result
            && reply->Ok_0->Result_0 is Ok,
        acknowledgement_of(report, reply) is Ok <==> reply is Ok && reply->Ok_0 is Empty,
        result_of(report, reply) == Err::<(), _>(
            ChannelError::<O>::Refused { report, cause: text },
        ) <==> reply == Ok::<_, String>(DaemonReply::<O>::Result(Err(text))),
        !(acknowledgement_of(report, reply) matches Err(ChannelError::Refused { .. })),
        result_of(report, reply) == Err::<(), _>(
            ChannelError::<O>::Request { report, cause: text },
        ) <==> reply == Err::<DaemonReply<O>, _>(text),
        acknowledgement_of(report, reply) == Err::<(), _>(
            ChannelError::<O>::Request { report, cause: text },
        ) <==> reply == Err::<DaemonReply<O>, _>(text),
        !(other is Result) ==> (result_of(report, reply) == Err::<(), _>(
            ChannelError::Unexpected { report, reply: other },
        ) <==> reply == Ok::<_, String>(other)),
        !(other is Empty) ==> (acknowledgement_of(report, reply) == Err::<(), _>(
            ChannelError::Unexpected { report, reply: other },
        ) <==> reply == Ok::<_, String>(other)),
        result_of(report, reply) matches Err(error) ==> error_report(error) == report,
        acknowledgement_of(report, reply) matches Err(error) ==> error_report(error) == report,
{
}

/// What an error is about.
pub open spec fn error_report<O>(error: ChannelError<O>) -> Report {
    match error {
        ChannelError::Request { report, .. } => report,
        ChannelError::Refused { report, .. } => report,
        ChannelError::Unexpected { report, .. } => report,
    }
}

/// Errors of the same kind on reports of the same kind read alike but for the unexpected reply.
pub proof fn law_channel_errors_read_alike<O>(
    report: Report,
    a: String,
    b: String,
    reply_a: DaemonReply<O>,
    reply_b: DaemonReply<O>,
    text_a: Seq<char>,
    text_b: Seq<char>,
)
    ensures
        channel_error_text(ChannelError::<O>::Request { report, cause: a }, text_a)
            == channel_error_text(ChannelError::<O>::Request { report, cause: b }, text_b),
        report != Report::Message ==> channel_error_text(
            ChannelError::<O>::Refused { report, cause: a },
            text_a,
        ) == channel_error_text(ChannelError::<O>::Refused { report, cause: b }, text_b),
        same_frame(
            channel_error_text(ChannelError::Unexpected { report, reply: reply_a }, text_a),
            text_a,
            channel_error_text(ChannelError::Unexpected { report, reply: reply_b }, text_b),
            text_b,
        ),
{
    match report {
        Report::Stop => lemma_same_start("unexpected stopped reply: "@, text_a, text_b),
        Report::ClosedOutputs => lemma_same_start(
            "unexpected closed outputs reply: "@,
            text_a,
            text_b,
        ),
        Report::Message => lemma_same_start("unexpected SendMessage reply: "@, text_a, text_b),
    }
}

/// Whether sending a request can end with the reply.
pub open spec fn is_taken<M, O, S: FnOnce(&DaemonRequest<M>) -> Result<DaemonReply<O>, String>>(
    send: S,
    request: DaemonRequest<M>,
    reply: DaemonReply<O>,
) -> bool {
    call_ensures(send, (&request,), Ok(reply))
}

/// A report succeeds only if the daemon was told just what is reported, and accepted it.
pub proof fn law_reports_tell_what_is_reported<
    M,
    O,
    S: FnOnce(&DaemonRequest<M>) -> Result<DaemonReply<O>, String>,
>(
    control: ControlChannel,
    outputs: Vec<DataId>,
    output_id: DataId,
    metadata: M,
    data: Option<Vec<u8>>,
    send: S,
)
    ensures
        call_ensures(ControlChannel::report_stop::<M, O, S>, (&control, send), Ok(())) ==> is_taken(
            send,
            DaemonRequest::<M>::Stopped,
            DaemonReply::<O>::Result(Ok(())),
        ),
        call_ensures(
            ControlChannel::report_closed_outputs::<M, O, S>,
            (&control, outputs, send),
            Ok(()),
        ) ==> is_taken(
            send,
            DaemonRequest::<M>::CloseOutputs(outputs),
            DaemonReply::<O>::Result(Ok(())),
        ),
        call_ensures(
            ControlChannel::send_message::<M, O, S>,
            (&control, output_id, metadata, data, send),
            Ok(()),
        ) ==> is_taken(
            send,
            (DaemonRequest::<M>::SendMessage { output_id, metadata, data }),
            DaemonReply::<O>::Empty,
        ),
{
    if call_ensures(ControlChannel::report_stop::<M, O, S>, (&control, send), Ok(())) {
        let reply = choose|reply: Result<DaemonReply<O>, String>|
            call_ensures(send, (&DaemonRequest::<M>::Stopped,), reply) && Ok::<
                (),
                ChannelError<O>,
            >(()) == #[trigger] result_of(Report::Stop, reply);
        assert(reply->Ok_0->Result_0->Ok_0 == ());
    }
    if call_ensures(
        ControlChannel::report_closed_outputs::<M, O, S>,
        (&control, outputs, send),
        Ok(()),
    ) {
        let reply = choose|reply: Result<DaemonReply<O>, String>|
            call_ensures(send, (&DaemonRequest::<M>::CloseOutputs(outputs),), reply) && Ok::<
                (),
                ChannelError<O>,
            >(()) == #[trigger] result_of(Report::ClosedOutputs, reply);
        assert(reply->Ok_0->Result_0->Ok_0 == ());
    }
}

} // verus!
