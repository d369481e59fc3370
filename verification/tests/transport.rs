use commit_picker::transport::{classify, deploy_url, logs_url, report, stop_url, Endpoint, Reply};

#[test]
fn addresses_are_built_from_the_server() {
    assert_eq!(
        deploy_url("example.org:8080", "9fceb02d0ae598e95dc970b74767f19372d61af8"),
        "http://example.org:8080/deploy/9fceb02d0ae598e95dc970b74767f19372d61af8"
    );
    assert_eq!(stop_url("example.org"), "http://example.org/stop");
    assert_eq!(logs_url("10.0.0.1:99"), "http://10.0.0.1:99/logs");
    assert_eq!(deploy_url("", ""), "http:///deploy/");
}

#[test]
fn deploy_replies_are_recognized() {
    assert_eq!(classify(Endpoint::Deploy, "Incorrect Password!"), Reply::IncorrectPassword);
    assert_eq!(classify(Endpoint::Deploy, "Bad commit id"), Reply::BadCommit);
    assert_eq!(classify(Endpoint::Deploy, "Error!"), Reply::BuildFailed);
    assert_eq!(classify(Endpoint::Deploy, "Successfully deployed commit!"), Reply::Deployed);
    assert_eq!(classify(Endpoint::Deploy, "Stopped current deployment!"), Reply::Unrecognized);
    assert_eq!(classify(Endpoint::Deploy, ""), Reply::Unrecognized);
}

#[test]
fn stop_replies_are_recognized() {
    assert_eq!(classify(Endpoint::Stop, "Incorrect Password!"), Reply::IncorrectPassword);
    assert_eq!(classify(Endpoint::Stop, "Stopped current deployment!"), Reply::Stopped);
    assert_eq!(classify(Endpoint::Stop, "Failed to stop current deployment!"), Reply::StopFailed);
    assert_eq!(classify(Endpoint::Stop, "Nothing currently deployed!"), Reply::NothingDeployed);
    assert_eq!(classify(Endpoint::Stop, "Error!"), Reply::Unrecognized);
}

#[test]
fn logs_replies_are_recognized() {
    assert_eq!(classify(Endpoint::Logs, "Incorrect password!"), Reply::IncorrectPassword);
    assert_eq!(classify(Endpoint::Logs, "Nothing currently deployed!"), Reply::NothingDeployed);
    assert_eq!(classify(Endpoint::Logs, "line 1\nline 2"), Reply::Logs);
    assert_eq!(classify(Endpoint::Logs, "Incorrect Password!"), Reply::Logs);
}

#[test]
fn deploy_reports_say_what_to_print_and_how_to_exit() {
    let wrong = report(Endpoint::Deploy, "Incorrect Password!");
    assert_eq!(wrong.notice.as_deref(), Some("Incorrect password!"));
    assert_eq!(wrong.code, 1);
    let bad = report(Endpoint::Deploy, "Bad commit id");
    assert_eq!(bad.notice.as_deref(), Some("Fatal error 1! (this should never happen)"));
    assert_eq!(bad.code, 1);
    let failed = report(Endpoint::Deploy, "Error!");
    assert_eq!(
        failed.notice.as_deref(),
        Some("Build failed, this commit (or an earlier one) is deployed or there was another error during deployment!")
    );
    assert_eq!(failed.code, 1);
    let done = report(Endpoint::Deploy, "Successfully deployed commit!");
    assert_eq!(done.reply, Reply::Deployed);
    assert_eq!(done.notice.as_deref(), Some("Deployment succeeded!"));
    assert_eq!(done.code, 0);
    let other = report(Endpoint::Deploy, "???");
    assert_eq!(other.reply, Reply::Unrecognized);
    assert_eq!(other.notice.as_deref(), Some("Fatal error 2! (this should never happen)"));
    assert_eq!(other.code, 1);
}

#[test]
fn stop_reports_say_what_to_print_and_how_to_exit() {
    let wrong = report(Endpoint::Stop, "Incorrect Password!");
    assert_eq!(wrong.notice.as_deref(), Some("Incorrect password!"));
    assert_eq!(wrong.code, 1);
    let stopped = report(Endpoint::Stop, "Stopped current deployment!");
    assert_eq!(stopped.notice.as_deref(), Some("Successfully stopped current deployment!"));
    assert_eq!(stopped.code, 0);
    let failed = report(Endpoint::Stop, "Failed to stop current deployment!");
    assert_eq!(failed.notice.as_deref(), Some("There was an error while stopping your deployment!"));
    assert_eq!(failed.code, 1);
    let nothing = report(Endpoint::Stop, "Nothing currently deployed!");
    assert_eq!(nothing.notice.as_deref(), Some("There is nothing currently deployed!"));
    assert_eq!(nothing.code, 0);
    let other = report(Endpoint::Stop, "???");
    assert_eq!(other.reply, Reply::Unrecognized);
    assert_eq!(other.notice, None);
    assert_eq!(other.code, 0);
}

#[test]
fn logs_reports_show_the_logs() {
    let wrong = report(Endpoint::Logs, "Incorrect password!");
    assert_eq!(wrong.notice.as_deref(), Some("Incorrect password!"));
    assert_eq!(wrong.code, 1);
    let nothing = report(Endpoint::Logs, "Nothing currently deployed!");
    assert_eq!(nothing.notice.as_deref(), Some("There is nothing currently deployed!"));
    assert_eq!(nothing.code, 0);
    let logs = report(Endpoint::Logs, "started\nlistening on 8080");
    assert_eq!(logs.reply, Reply::Logs);
    assert_eq!(logs.notice.as_deref(), Some("started\nlistening on 8080"));
    assert_eq!(logs.code, 0);
}
