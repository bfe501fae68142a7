//! Agent control: commands that other programs drop into the launcher's
//! inbox as JSON files, what each one asks of the launcher, the answers
//! written back, and the names of the files involved.

use vstd::prelude::*;
use crate::download::DownloadRequest;
use crate::files::{file_stem, has_extension, has_extension_ignoring_case, stem};
use crate::model::{clone_opt, opt_view, PackagePreference};
use crate::order::{chars_sorted, sort_strings};
use crate::text::{concat, owned, string_of, trim, trim_chars, chars_of};

verus! {

/// What an agent asks the launcher to do.
#[derive(Clone, Copy, Debug, PartialEq, Eq, Structural)]
pub enum AgentControlAction {
    Status,
    Scan,
    Download,
    Update,
    Launch,
    OpenFolder,
}

/// A command file's content.
#[derive(Debug)]
pub struct AgentControlCommand {
    pub id: Option<String>,
    pub action: AgentControlAction,
    pub app_id: Option<String>,
    pub version: Option<String>,
    pub package_preference: Option<PackagePreference>,
}

pub struct CommandView {
    pub id: Option<Seq<char>>,
    pub action: AgentControlAction,
    pub app_id: Option<Seq<char>>,
    pub version: Option<Seq<char>>,
    pub package_preference: Option<PackagePreference>,
}

impl View for AgentControlCommand {
    type V = CommandView;

    open spec fn view(&self) -> CommandView {
        CommandView {
            id: opt_view(self.id),
            action: self.action,
            app_id: opt_view(self.app_id),
            version: opt_view(self.version),
            package_preference: self.package_preference,
        }
    }
}

/// The app a command names, trimmed, where it names one.
pub open spec fn command_app_id(c: CommandView) -> Option<Seq<char>> {
    match c.app_id {
        Some(a) => if trim(a).len() == 0 {
            None
        } else {
            Some(trim(a))
        },
        None => None,
    }
}

pub open spec fn missing_app_id_message() -> Seq<char> {
    "Command requires appId."@
}

pub fn require_agent_app_id(command: &AgentControlCommand) -> (r: Result<String, String>)
    ensures
        match command_app_id(command@) {
            Some(a) => r matches Ok(s) && s@ == a,
            None => r matches Err(e) && e@ == missing_app_id_message(),
        },
{
    match &command.app_id {
        Some(a) => {
            let raw = chars_of(a.as_str());
            let t = trim_chars(&raw);
            if t.len() == 0 {
                Err(owned("Command requires appId."))
            } else {
                Ok(string_of(&t))
            }
        },
        None => Err(owned("Command requires appId.")),
    }
}

/// The launcher operation that carries out a command.
#[derive(Debug)]
pub enum AgentStep {
    /// Report the apps.
    Status,
    /// Scan every app's releases, then report the apps.
    Scan,
    /// Download a release of an app.
    Download(DownloadRequest),
    /// Launch an app, in the asked version where one is named.
    Launch { app_id: String, version: Option<String> },
    /// Open an app's install folder.
    OpenFolder { app_id: String, version: Option<String> },
}

/// Decides which operation a command asks for; every command but a status
/// or a scan must name an app.
pub fn plan_agent_command(command: &AgentControlCommand) -> (r: Result<AgentStep, String>)
    ensures
        command.action == AgentControlAction::Status ==> r matches Ok(AgentStep::Status),
        command.action == AgentControlAction::Scan ==> r matches Ok(AgentStep::Scan),
        command.action != AgentControlAction::Status && command.action != AgentControlAction::Scan
            && command_app_id(command@) is None ==> (r matches Err(e) && e@
            == missing_app_id_message()),
        (command.action == AgentControlAction::Download || command.action
            == AgentControlAction::Update) && command_app_id(command@) is Some ==> (r matches Ok(
            AgentStep::Download(req),
        ) && req@.app_id == command_app_id(command@)->0 && req@.version == command@.version
            && req@.package_preference == command@.package_preference),
        command.action == AgentControlAction::Launch && command_app_id(command@) is Some ==> (
        r matches Ok(AgentStep::Launch { app_id, version }) && app_id@ == command_app_id(
            command@,
        )->0 && opt_view(version) == command@.version),
        command.action == AgentControlAction::OpenFolder && command_app_id(command@) is Some ==> (
        r matches Ok(AgentStep::OpenFolder { app_id, version }) && app_id@ == command_app_id(
            command@,
        )->0 && opt_view(version) == command@.version),
{
    match command.action {
        AgentControlAction::Status => Ok(AgentStep::Status),
        AgentControlAction::Scan => Ok(AgentStep::Scan),
        AgentControlAction::Download | AgentControlAction::Update => {
            let app_id = require_agent_app_id(command)?;
            Ok(
                AgentStep::Download(
                    DownloadRequest {
                        app_id,
                        version: clone_opt(&command.version),
                        package_preference: command.package_preference,
                    },
                ),
            )
        },
        AgentControlAction::Launch => {
            let app_id = require_agent_app_id(command)?;
            Ok(AgentStep::Launch { app_id, version: clone_opt(&command.version) })
        },
        AgentControlAction::OpenFolder => {
            let app_id = require_agent_app_id(command)?;
            Ok(AgentStep::OpenFolder { app_id, version: clone_opt(&command.version) })
        },
    }
}

/// The answer written for a command; the data that goes with it is added
/// where the answer is written.
#[derive(Debug)]
pub struct AgentControlResponse {
    pub id: Option<String>,
    pub action: Option<AgentControlAction>,
    pub app_id: Option<String>,
    pub ok: bool,
    pub message: String,
    pub processed_at: String,
}

pub struct ResponseView {
    pub id: Option<Seq<char>>,
    pub action: Option<AgentControlAction>,
    pub app_id: Option<Seq<char>>,
    pub ok: bool,
    pub message: Seq<char>,
    pub processed_at: Seq<char>,
}

impl View for AgentControlResponse {
    type V = ResponseView;

    open spec fn view(&self) -> ResponseView {
        ResponseView {
            id: opt_view(self.id),
            action: self.action,
            app_id: opt_view(self.app_id),
            ok: self.ok,
            message: self.message@,
            processed_at: self.processed_at@,
        }
    }
}

/// The answer to a command that was carried out: "OK" where it succeeded,
/// else its error, with the command's id, action and app.
pub open spec fn answer(c: CommandView, outcome: Result<(), Seq<char>>, processed_at: Seq<char>) -> ResponseView {
    ResponseView {
        id: c.id,
        action: Some(c.action),
        app_id: c.app_id,
        ok: outcome is Ok,
        message: match outcome {
            Ok(_) => "OK"@,
            Err(e) => e,
        },
        processed_at,
    }
}

pub fn command_response(
    command: &AgentControlCommand,
    outcome: Result<(), String>,
    processed_at: &str,
) -> (r: AgentControlResponse)
    ensures
        r@ == answer(
            command@,
            match outcome {
                Ok(u) => Ok(u),
                Err(e) => Err(e@),
            },
            processed_at@,
        ),
{
    let (ok, message) = match outcome {
        Ok(_) => (true, owned("OK")),
        Err(e) => (false, e),
    };
    AgentControlResponse {
        id: clone_opt(&command.id),
        action: Some(command.action),
        app_id: clone_opt(&command.app_id),
        ok,
        message,
        processed_at: owned(processed_at),
    }
}

/// The answer to a command file that is not a command.
pub fn invalid_command_response(error: &str, processed_at: &str) -> (r: AgentControlResponse)
    ensures
        r@ == (ResponseView {
            id: None,
            action: None,
            app_id: None,
            ok: false,
            message: "Invalid command JSON: "@ + error@,
            processed_at: processed_at@,
        }),
{
    AgentControlResponse {
        id: None,
        action: None,
        app_id: None,
        ok: false,
        message: concat("Invalid command JSON: ", error),
        processed_at: owned(processed_at),
    }
}

/// The stem of a command file's name, or "command" where it has no name.
pub open spec fn command_stem(file_name: Option<Seq<char>>) -> Seq<char> {
    match file_name {
        Some(n) => stem(n),
        None => "command"@,
    }
}

fn stem_or_command(file_name: Option<&str>) -> (r: String)
    ensures
        r@ == command_stem(
            match file_name {
                Some(n) => Some(n@),
                None => None,
            },
        ),
{
    match file_name {
        Some(n) => file_stem(n),
        None => owned("command"),
    }
}

/// The name of the answer file for a command file.
pub fn agent_response_file_name(file_name: Option<&str>) -> (r: String)
    ensures
        r@ == command_stem(
            match file_name {
                Some(n) => Some(n@),
                None => None,
            },
        ) + ".result.json"@,
{
    let s = stem_or_command(file_name);
    concat(s.as_str(), ".result.json")
}

/// The name a command file is kept under once handled: the time it was
/// handled, a dash, its stem and `.json`.
pub fn agent_history_file_name(timestamp: &str, file_name: Option<&str>) -> (r: String)
    ensures
        r@ == timestamp@ + "-"@ + command_stem(
            match file_name {
                Some(n) => Some(n@),
                None => None,
            },
        ) + ".json"@,
{
    let s = stem_or_command(file_name);
    let head = concat(timestamp, "-");
    let body = concat(head.as_str(), s.as_str());
    concat(body.as_str(), ".json")
}

/// Whether a file in the inbox is a command file.
pub open spec fn command_file(name: Seq<char>) -> bool {
    has_extension(name, "json"@)
}

/// The inbox's command files, in the order they are handled: by name.
pub fn command_files_in_order(names: Vec<String>) -> (r: Vec<String>)
    ensures
        chars_sorted(r.deep_view()),
        r.deep_view().to_multiset() == names.deep_view().filter(|n: Seq<char>| command_file(n)).to_multiset(),
{
    let ghost src = names.deep_view();
    let ghost keep = |n: Seq<char>| command_file(n);
    let mut kept: Vec<String> = Vec::new();
    let mut i: usize = 0;
    while i < names.len()
        invariant
            i <= names.len(),
            src == names.deep_view(),
            keep == (|n: Seq<char>| command_file(n)),
            kept.deep_view() == src.subrange(0, i as int).filter(keep),
        decreases names.len() - i,
    {
        proof {
            src.subrange(0, i as int).lemma_filter_push(src[i as int], keep);
            assert(src.subrange(0, i + 1) =~= src.subrange(0, i as int).push(src[i as int]));
        }
        if has_extension_ignoring_case(names[i].as_str(), "json") {
            let ghost before = kept.deep_view();
            kept.push(names[i].clone());
            assert(kept.deep_view() =~= before.push(src[i as int]));
        }
        i = i + 1;
    }
    assert(src.subrange(0, src.len() as int) =~= src);
    sort_strings(kept)
}

} // verus!
