//! The control panel of the server: what it shows, and what its button does.

use vstd::prelude::*;

use crate::server::config::{typed_in, ServerConfig};
use crate::text::{append_decimal, decimal};

verus! {

/// A colour: red, green and blue.
#[derive(Debug, Clone, Copy, PartialEq, Eq, Structural)]
pub struct Rgb {
    pub red: u8,
    pub green: u8,
    pub blue: u8,
}

/// How the server is doing: it runs, or is still about to stop, or does not
/// run.
#[derive(Debug, Clone, Copy, PartialEq, Eq, Structural)]
pub enum Activity {
    Active,
    Stopping,
    Offline,
}

/// What a click on the button does.
#[derive(Debug, Clone, Copy, PartialEq, Eq, Structural)]
pub enum Click {
    Stop,
    Start,
    Nothing,
}

/// How the server is doing, from whether it is to run and whether its task
/// exists.
pub open spec fn activity_of(running: bool, task: bool) -> Activity {
    if running {
        Activity::Active
    } else if task {
        Activity::Stopping
    } else {
        Activity::Offline
    }
}

/// What a click on the button does: it stops a running server and starts one
/// that does not run.
pub open spec fn click_of(activity: Activity) -> Click {
    match activity {
        Activity::Active => Click::Stop,
        Activity::Stopping => Click::Nothing,
        Activity::Offline => Click::Start,
    }
}

/// A text with its colour.
#[derive(Debug, Clone, PartialEq, Eq)]
pub struct Label {
    pub text: String,
    pub color: Rgb,
}

fn label(text: &str, red: u8, green: u8, blue: u8) -> (made: Label)
    ensures
        made.text@ == text@,
        made.color == (Rgb { red, green, blue }),
{
    Label { text: text.to_string(), color: Rgb { red, green, blue } }
}

impl Activity {
    /// How the server is doing, from whether it is to run and whether its task
    /// exists.
    pub fn new(running: bool, task: bool) -> (activity: Activity)
        ensures
            activity == activity_of(running, task),
    {
        if running {
            Activity::Active
        } else if task {
            Activity::Stopping
        } else {
            Activity::Offline
        }
    }

    /// What is shown of it.
    pub fn indicator(self) -> (shown: Label)
        ensures
            match self {
                Activity::Active => shown.text@ == "ACTIVE"@ && shown.color == (Rgb {
                    red: 100,
                    green: 255,
                    blue: 100,
                }),
                Activity::Stopping => shown.text@ == "STOPPING"@ && shown.color == (Rgb {
                    red: 255,
                    green: 200,
                    blue: 100,
                }),
                Activity::Offline => shown.text@ == "OFFLINE"@ && shown.color == (Rgb {
                    red: 255,
                    green: 100,
                    blue: 100,
                }),
            },
    {
        match self {
            Activity::Active => label("ACTIVE", 100, 255, 100),
            Activity::Stopping => label("STOPPING", 255, 200, 100),
            Activity::Offline => label("OFFLINE", 255, 100, 100),
        }
    }

    /// What the button says.
    pub fn button(self) -> (shown: Label)
        ensures
            match self {
                Activity::Active => shown.text@ == "STOP SERVER"@ && shown.color == (Rgb {
                    red: 180,
                    green: 40,
                    blue: 40,
                }),
                Activity::Stopping => shown.text@ == "STOPPING..."@ && shown.color == (Rgb {
                    red: 80,
                    green: 80,
                    blue: 80,
                }),
                Activity::Offline => shown.text@ == "START SERVER"@ && shown.color == (Rgb {
                    red: 58,
                    green: 118,
                    blue: 240,
                }),
            },
    {
        match self {
            Activity::Active => label("STOP SERVER", 180, 40, 40),
            Activity::Stopping => label("STOPPING...", 80, 80, 80),
            Activity::Offline => label("START SERVER", 58, 118, 240),
        }
    }

    /// What a click on the button does: it stops a running server and starts
    /// one that does not run.
    pub fn click(self) -> (click: Click)
        ensures
            click == click_of(self),
    {
        match self {
            Activity::Active => Click::Stop,
            Activity::Stopping => Click::Nothing,
            Activity::Offline => Click::Start,
        }
    }
}

/// Whether the server is still to run and still has its task, from whether it
/// was to run and whether the task, if there is one, has finished: a finished
/// task is dropped, and the server does not run any more.
pub fn after_frame(running: bool, finished: Option<bool>) -> (kept: (bool, bool))
    ensures
        kept == if finished == Some(true) {
            (false, false)
        } else {
            (running, finished is Some)
        },
{
    match finished {
        Some(true) => (false, false),
        Some(false) => (running, true),
        None => (running, false),
    }
}

/// What is typed into the control panel, and whether help is shown.
#[derive(Debug, Clone, PartialEq, Eq)]
pub struct DtServerApp {
    pub port_input: String,
    pub fps_input: String,
    pub bitrate_input: String,
    pub keyframe_input: String,
    pub show_help_dialog: bool,
}

impl DtServerApp {
    /// The panel as it is first shown.
    pub fn new() -> (app: DtServerApp)
        ensures
            app.port_input@ == "9999"@,
            app.fps_input@ == "60"@,
            app.bitrate_input@ == "8000"@,
            app.keyframe_input@ == "10"@,
            !app.show_help_dialog,
    {
        DtServerApp {
            port_input: "9999".to_string(),
            fps_input: "60".to_string(),
            bitrate_input: "8000".to_string(),
            keyframe_input: "10".to_string(),
            show_help_dialog: false,
        }
    }

    /// The configuration to start a server with, unless there is one already.
    pub fn start_server(&self, running: bool, task: bool) -> (config: Option<ServerConfig>)
        ensures
            config is None <==> running || task,
            config matches Some(config) ==> config.is_plain() && config.numbers() == typed_in(
                self.port_input@,
                self.fps_input@,
                self.bitrate_input@,
                self.keyframe_input@,
            ),
    {
        if running || task {
            return None;
        }
        Some(
            ServerConfig::from_inputs(
                &self.port_input,
                &self.fps_input,
                &self.bitrate_input,
                &self.keyframe_input,
            ),
        )
    }
}

/// What is said of the client of a running server.
pub fn client_label(client: &Option<String>) -> (text: String)
    ensures
        text@ == match client {
            Some(client) => "Connected: "@ + client@,
            None => "Waiting for client..."@,
        },
{
    match client {
        Some(client) => {
            let mut text: String = "Connected: ".to_string();
            text.append(client);
            text
        },
        None => "Waiting for client...".to_string(),
    }
}

/// What is said of the screen of a running server.
pub fn source_label(resolution: &str) -> (text: String)
    ensures
        text@ == "Source: "@ + resolution@,
{
    let mut text: String = "Source: ".to_string();
    text.append(resolution);
    text
}

/// A counter as it is shown.
pub fn count_label(count: u64) -> (text: String)
    ensures
        text@ == decimal(count as nat),
{
    let mut text: String = String::new();
    append_decimal(&mut text, count);
    assert(text@ =~= decimal(count as nat));
    text
}

/// A click on the button never starts a second server, and never stops one
/// that does not run.
pub proof fn clicks_fit(running: bool, task: bool)
    ensures
        click_of(activity_of(running, task)) == Click::Start <==> !running && !task,
        click_of(activity_of(running, task)) == Click::Stop <==> running,
{
}

} // verus!
