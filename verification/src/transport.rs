//! The deployment server as the picker's caller sees it: the addresses of
//! its three endpoints and the meaning of the replies it gives.

use vstd::prelude::*;
use crate::text::same_text;

verus! {

/// What is asked of the server.
#[derive(Clone, Copy, Debug, PartialEq, Eq, Structural)]
pub enum Endpoint {
    /// Deploy a commit.
    Deploy,
    /// Stop the current deployment.
    Stop,
    /// Fetch the logs of the current deployment.
    Logs,
}

/// What the server answered.
#[derive(Clone, Copy, Debug, PartialEq, Eq, Structural)]
pub enum Reply {
    IncorrectPassword,
    BadCommit,
    BuildFailed,
    Deployed,
    Stopped,
    StopFailed,
    NothingDeployed,
    /// The response is the text of the logs.
    Logs,
    /// The response is none that the endpoint is known to give.
    Unrecognized,
}

/// A reply together with what to tell the user and the exit code to end
/// with.
#[derive(Debug)]
pub struct Report {
    pub reply: Reply,
    pub notice: Option<String>,
    pub code: i32,
}

/// The address for deploying `commit` on `server`.
pub open spec fn deploy_address(server: Seq<char>, commit: Seq<char>) -> Seq<char> {
    "http://"@ + server + "/deploy/"@ + commit
}

/// The address for stopping the deployment on `server`.
pub open spec fn stop_address(server: Seq<char>) -> Seq<char> {
    "http://"@ + server + "/stop"@
}

/// The address of the logs on `server`.
pub open spec fn logs_address(server: Seq<char>) -> Seq<char> {
    "http://"@ + server + "/logs"@
}

/// The meaning of `response` as an answer of `endpoint`. The endpoints spell
/// a wrong password differently; each is read by its own spelling.
pub open spec fn reply_of(endpoint: Endpoint, response: Seq<char>) -> Reply {
    match endpoint {
        Endpoint::Deploy => if response == "Incorrect Password!"@ {
            Reply::IncorrectPassword
        } else if response == "Bad commit id"@ {
            Reply::BadCommit
        } else if response == "Error!"@ {
            Reply::BuildFailed
        } else if response == "Successfully deployed commit!"@ {
            Reply::Deployed
        } else {
            Reply::Unrecognized
        },
        Endpoint::Stop => if response == "Incorrect Password!"@ {
            Reply::IncorrectPassword
        } else if response == "Stopped current deployment!"@ {
            Reply::Stopped
        } else if response == "Failed to stop current deployment!"@ {
            Reply::StopFailed
        } else if response == "Nothing currently deployed!"@ {
            Reply::NothingDeployed
        } else {
            Reply::Unrecognized
        },
        Endpoint::Logs => if response == "Incorrect password!"@ {
            Reply::IncorrectPassword
        } else if response == "Nothing currently deployed!"@ {
            Reply::NothingDeployed
        } else {
            Reply::Logs
        },
    }
}

/// What the user is told about `reply`, if anything. Logs are shown as they
/// came; an unrecognized answer to a stop request is passed over in silence.
pub open spec fn notice_of(endpoint: Endpoint, reply: Reply, response: Seq<char>) -> Option<
    Seq<char>,
> {
    match reply {
        Reply::IncorrectPassword => Some("Incorrect password!"@),
        Reply::BadCommit => Some("Fatal error 1! (this should never happen)"@),
        Reply::BuildFailed => Some(
            "Build failed, this commit (or an earlier one) is deployed or there was another error during deployment!"@,
        ),
        Reply::Deployed => Some("Deployment succeeded!"@),
        Reply::Stopped => Some("Successfully stopped current deployment!"@),
        Reply::StopFailed => Some("There was an error while stopping your deployment!"@),
        Reply::NothingDeployed => Some("There is nothing currently deployed!"@),
        Reply::Logs => Some(response),
        Reply::Unrecognized => if endpoint == Endpoint::Deploy {
            Some("Fatal error 2! (this should never happen)"@)
        } else {
            None
        },
    }
}

/// The exit code that `reply` leads to.
pub open spec fn code_of(endpoint: Endpoint, reply: Reply) -> int {
    match reply {
        Reply::IncorrectPassword | Reply::BadCommit | Reply::BuildFailed | Reply::StopFailed => 1,
        Reply::Deployed | Reply::Stopped | Reply::NothingDeployed | Reply::Logs => 0,
        Reply::Unrecognized => if endpoint == Endpoint::Deploy {
            1
        } else {
            0
        },
    }
}

/// Builds the address for deploying `commit` on `server`.
pub fn deploy_url(server: &str, commit: &str) -> (url: String)
    ensures
        url@ == deploy_address(server@, commit@),
{
    let mut url = String::from_str("http://");
    url.append(server);
    url.append("/deploy/");
    url.append(commit);
    url
}

/// Builds the address for stopping the deployment on `server`.
pub fn stop_url(server: &str) -> (url: String)
    ensures
        url@ == stop_address(server@),
{
    let mut url = String::from_str("http://");
    url.append(server);
    url.append("/stop");
    url
}

/// Builds the address of the logs on `server`.
pub fn logs_url(server: &str) -> (url: String)
    ensures
        url@ == logs_address(server@),
{
    let mut url = String::from_str("http://");
    url.append(server);
    url.append("/logs");
    url
}

/// Reads `response` as an answer of `endpoint`.
pub fn classify(endpoint: Endpoint, response: &str) -> (reply: Reply)
    ensures
        reply == reply_of(endpoint, response@),
{
    match endpoint {
        Endpoint::Deploy => {
            if same_text(response, "Incorrect Password!") {
                Reply::IncorrectPassword
            } else if same_text(response, "Bad commit id") {
                Reply::BadCommit
            } else if same_text(response, "Error!") {
                Reply::BuildFailed
            } else if same_text(response, "Successfully deployed commit!") {
                Reply::Deployed
            } else {
                Reply::Unrecognized
            }
        },
        Endpoint::Stop => {
            if same_text(response, "Incorrect Password!") {
                Reply::IncorrectPassword
            } else if same_text(response, "Stopped current deployment!") {
                Reply::Stopped
            } else if same_text(response, "Failed to stop current deployment!") {
                Reply::StopFailed
            } else if same_text(response, "Nothing currently deployed!") {
                Reply::NothingDeployed
            } else {
                Reply::Unrecognized
            }
        },
        Endpoint::Logs => {
            if same_text(response, "Incorrect password!") {
                Reply::IncorrectPassword
            } else if same_text(response, "Nothing currently deployed!") {
                Reply::NothingDeployed
            } else {
                Reply::Logs
            }
        },
    }
}

/// Reads `response` as an answer of `endpoint` and says what to tell the
/// user and how to exit.
pub fn report(endpoint: Endpoint, response: &str) -> (report: Report)
    ensures
        report.reply == reply_of(endpoint, response@),
        match report.notice {
            Some(text) => notice_of(endpoint, report.reply, response@) == Some(text@),
            None => notice_of(endpoint, report.reply, response@) is None,
        },
        report.code == code_of(endpoint, report.reply),
{
    let reply = classify(endpoint, response);
    let notice = match reply {
        Reply::IncorrectPassword => Some(String::from_str("Incorrect password!")),
        Reply::BadCommit => Some(String::from_str("Fatal error 1! (this should never happen)")),
        Reply::BuildFailed => Some(
            String::from_str(
                "Build failed, this commit (or an earlier one) is deployed or there was another error during deployment!",
            ),
        ),
        Reply::Deployed => Some(String::from_str("Deployment succeeded!")),
        Reply::Stopped => Some(String::from_str("Successfully stopped current deployment!")),
        Reply::StopFailed => Some(
            String::from_str("There was an error while stopping your deployment!"),
        ),
        Reply::NothingDeployed => Some(String::from_str("There is nothing currently deployed!")),
        Reply::Logs => Some(String::from_str(response)),
        Reply::Unrecognized => match endpoint {
            Endpoint::Deploy => Some(String::from_str("Fatal error 2! (this should never happen)")),
            _ => None,
        },
    };
    let code: i32 = match reply {
        Reply::IncorrectPassword | Reply::BadCommit | Reply::BuildFailed | Reply::StopFailed => 1,
        Reply::Deployed | Reply::Stopped | Reply::NothingDeployed | Reply::Logs => 0,
        Reply::Unrecognized => match endpoint {
            Endpoint::Deploy => 1,
            _ => 0,
        },
    };
    Report { reply, notice, code }
}

} // verus!
