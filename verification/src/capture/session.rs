//! How a capture proceeds: what is asked of the media server, one thing after
//! the other, and what follows from its replies.

use vstd::prelude::*;

use crate::capture::format::{
    get_format_params, FormatParams, MediaSubtype, MediaType, VideoFormat,
};
use crate::capture::frame::CaptureError;

verus! {

/// Name of the capture stream.
pub const STREAM_NAME: &'static str = "drawing-tablet-capture";

/// Longest time, in milliseconds, that the main loop runs before the capture
/// looks whether it is to stop.
pub const ITERATION_MS: u64 = 100;

/// How far a capture has come.
#[derive(Debug, Clone, Copy, PartialEq, Eq, Structural)]
pub enum CaptureStage {
    /// The main loop is being created.
    Loop,
    /// The context is being created.
    Context,
    /// The media server is being connected.
    Core,
    /// The stream is being created, with its listener.
    Stream,
    /// The format parameters are being written.
    Params,
    /// The format parameters are being read back.
    Pod,
    /// The stream is being connected to the monitor.
    Connect,
    /// Frames are coming in.
    Running,
    /// The capture is over.
    Over,
}

/// What came of what was asked.
#[derive(Debug, Clone, PartialEq, Eq)]
pub enum CaptureReply {
    /// It was done; the capture is to stop, or not.
    Done { stop: bool },
    /// It failed, for this reason.
    Failed(String),
}

/// What to do next.
#[derive(Debug, PartialEq, Eq)]
pub enum CaptureAction {
    CreateLoop,
    CreateContext,
    ConnectCore,
    CreateStream,
    WriteParams(FormatParams),
    ReadParams,
    ConnectStream { node_id: u32 },
    /// Run the main loop for at most [`ITERATION_MS`].
    Iterate,
    Finish(Result<(), CaptureError>),
}

impl CaptureStage {
    /// The stage that follows once this one has succeeded.
    pub open spec fn next(self) -> CaptureStage {
        match self {
            CaptureStage::Loop => CaptureStage::Context,
            CaptureStage::Context => CaptureStage::Core,
            CaptureStage::Core => CaptureStage::Stream,
            CaptureStage::Stream => CaptureStage::Params,
            CaptureStage::Params => CaptureStage::Pod,
            CaptureStage::Pod => CaptureStage::Connect,
            CaptureStage::Connect => CaptureStage::Running,
            CaptureStage::Running => CaptureStage::Running,
            CaptureStage::Over => CaptureStage::Over,
        }
    }

    /// The error that a failure at this stage is.
    pub open spec fn error(self, cause: String) -> CaptureError {
        match self {
            CaptureStage::Stream | CaptureStage::Connect => CaptureError::StreamFailed(cause),
            _ => CaptureError::InitFailed(cause),
        }
    }

    /// Whether the capture is still being set up.
    pub open spec fn in_setup(self) -> bool {
        self != CaptureStage::Running && self != CaptureStage::Over
    }

    /// The stage that a reply leads to. Whether the capture is to stop matters
    /// once the stream is connected.
    pub open spec fn after(self, reply: CaptureReply) -> CaptureStage {
        match reply {
            CaptureReply::Done { stop } => if stop && self.next() == CaptureStage::Running {
                CaptureStage::Over
            } else {
                self.next()
            },
            CaptureReply::Failed(_) => if self.in_setup() {
                CaptureStage::Over
            } else {
                self
            },
        }
    }
}

/// Whether the parameters are those of a capture without a given format.
pub open spec fn is_generic(params: FormatParams) -> bool {
    &&& params.media_type == MediaType::Video
    &&& params.media_subtype == MediaSubtype::Raw
    &&& params.preferred == VideoFormat::Bgra
    &&& params.formats@ == seq![
        VideoFormat::Bgra,
        VideoFormat::Rgba,
        VideoFormat::Bgrx,
        VideoFormat::Rgbx,
    ]
    &&& params.modifiers is None
}

/// Whether an action is what a stage asks for.
pub open spec fn asked_at(stage: CaptureStage, node_id: u32, action: CaptureAction) -> bool {
    match stage {
        CaptureStage::Loop => action == CaptureAction::CreateLoop,
        CaptureStage::Context => action == CaptureAction::CreateContext,
        CaptureStage::Core => action == CaptureAction::ConnectCore,
        CaptureStage::Stream => action == CaptureAction::CreateStream,
        CaptureStage::Params => action matches CaptureAction::WriteParams(params) && is_generic(
            params,
        ),
        CaptureStage::Pod => action == CaptureAction::ReadParams,
        CaptureStage::Connect => action == (CaptureAction::ConnectStream { node_id }),
        CaptureStage::Running => action == CaptureAction::Iterate,
        CaptureStage::Over => action == CaptureAction::Finish(Ok(())),
    }
}

/// What a stage asks for.
pub fn ask(stage: CaptureStage, node_id: u32) -> (action: CaptureAction)
    ensures
        asked_at(stage, node_id, action),
{
    match stage {
        CaptureStage::Loop => CaptureAction::CreateLoop,
        CaptureStage::Context => CaptureAction::CreateContext,
        CaptureStage::Core => CaptureAction::ConnectCore,
        CaptureStage::Stream => CaptureAction::CreateStream,
        CaptureStage::Params => CaptureAction::WriteParams(get_format_params(None)),
        CaptureStage::Pod => CaptureAction::ReadParams,
        CaptureStage::Connect => CaptureAction::ConnectStream { node_id },
        CaptureStage::Running => CaptureAction::Iterate,
        CaptureStage::Over => CaptureAction::Finish(Ok(())),
    }
}

/// One step of a capture: takes the reply to what the stage has asked for, and
/// gives the next stage with what it asks for.
///
/// A failure while the capture is being set up ends it with the error of its
/// stage. A running capture goes on until it is to stop, and then ends well.
pub fn run_capture_loop(stage: CaptureStage, node_id: u32, reply: CaptureReply) -> (step: (
    CaptureStage,
    CaptureAction,
))
    ensures
        step.0 == stage.after(reply),
        match reply {
            CaptureReply::Failed(cause) if stage.in_setup() => step.1 == CaptureAction::Finish(
                Err(stage.error(cause)),
            ),
            _ => asked_at(step.0, node_id, step.1),
        },
{
    match reply {
        CaptureReply::Failed(cause) => match stage {
            CaptureStage::Running | CaptureStage::Over => (stage, ask(stage, node_id)),
            CaptureStage::Stream | CaptureStage::Connect => (
                CaptureStage::Over,
                CaptureAction::Finish(Err(CaptureError::StreamFailed(cause))),
            ),
            _ => (
                CaptureStage::Over,
                CaptureAction::Finish(Err(CaptureError::InitFailed(cause))),
            ),
        },
        CaptureReply::Done { stop } => {
            let next: CaptureStage = match stage {
                CaptureStage::Loop => CaptureStage::Context,
                CaptureStage::Context => CaptureStage::Core,
                CaptureStage::Core => CaptureStage::Stream,
                CaptureStage::Stream => CaptureStage::Params,
                CaptureStage::Params => CaptureStage::Pod,
                CaptureStage::Pod => CaptureStage::Connect,
                CaptureStage::Connect => CaptureStage::Running,
                CaptureStage::Running => CaptureStage::Running,
                CaptureStage::Over => CaptureStage::Over,
            };
            if stop && next == CaptureStage::Running {
                (CaptureStage::Over, ask(CaptureStage::Over, node_id))
            } else {
                (next, ask(next, node_id))
            }
        },
    }
}

/// The stage after the given replies, from the first stage on.
pub open spec fn stage_after(replies: Seq<CaptureReply>) -> CaptureStage
    decreases replies.len(),
{
    if replies.len() == 0 {
        CaptureStage::Loop
    } else {
        stage_after(replies.drop_last()).after(replies.last())
    }
}

/// The number of stages that were passed before this one.
pub open spec fn passed(stage: CaptureStage) -> nat {
    match stage {
        CaptureStage::Loop => 0,
        CaptureStage::Context => 1,
        CaptureStage::Core => 2,
        CaptureStage::Stream => 3,
        CaptureStage::Params => 4,
        CaptureStage::Pod => 5,
        CaptureStage::Connect => 6,
        CaptureStage::Running => 7,
        CaptureStage::Over => 8,
    }
}

/// A capture only runs once everything before has succeeded, and it runs until
/// it is to stop: as long as nothing fails and nothing stops it, it is at the
/// stage of as many replies as there were, and then keeps running.
pub proof fn capture_reaches_running(replies: Seq<CaptureReply>)
    requires
        forall|i: int| 0 <= i < replies.len() ==> #[trigger] replies[i] == (CaptureReply::Done {
            stop: false,
        }),
    ensures
        passed(stage_after(replies)) == if replies.len() < 7 {
            replies.len()
        } else {
            7
        },
    decreases replies.len(),
{
    if replies.len() > 0 {
        let front = replies.drop_last();
        assert forall|i: int| 0 <= i < front.len() implies #[trigger] front[i] == (
        CaptureReply::Done { stop: false }) by {
            assert(replies[i] == (CaptureReply::Done { stop: false }));
        }
        capture_reaches_running(front);
        assert(replies[replies.len() - 1] == (CaptureReply::Done { stop: false }));
    }
}

/// A connected capture ends when it is to stop, and not before.
pub proof fn running_until_stopped(reply: CaptureReply)
    ensures
        CaptureStage::Running.after(reply) == CaptureStage::Over <==> reply == (
        CaptureReply::Done { stop: true }),
        CaptureStage::Running.after(reply) == CaptureStage::Running <==> reply != (
        CaptureReply::Done { stop: true }),
{
}

/// A capture that is over stays over.
pub proof fn over_is_over(reply: CaptureReply)
    ensures
        CaptureStage::Over.after(reply) == CaptureStage::Over,
{
}

/// Setting a capture up fails at the first thing that fails, and for its reason:
/// as a stream where the stream is created or connected, and as the start of the
/// capture otherwise. What comes next is always asked for the monitor's node.
pub proof fn setup_fails_for_cause(
    stage: CaptureStage,
    cause: String,
    node_id: u32,
    action: CaptureAction,
)
    ensures
        stage != CaptureStage::Running && stage != CaptureStage::Over ==> stage.after(
            CaptureReply::Failed(cause),
        ) == CaptureStage::Over,
        stage == CaptureStage::Running || stage == CaptureStage::Over ==> stage.after(
            CaptureReply::Failed(cause),
        ) == stage,
        stage == CaptureStage::Stream || stage == CaptureStage::Connect ==> stage.error(cause)
            == CaptureError::StreamFailed(cause),
        stage != CaptureStage::Stream && stage != CaptureStage::Connect ==> stage.error(cause)
            == CaptureError::InitFailed(cause),
        stage == CaptureStage::Connect && asked_at(stage, node_id, action) ==> action == (
        CaptureAction::ConnectStream { node_id }),
{
}

} // verus!
