//! Hooks that run after a container starts and before it stops.
use crate::error::KubeletError;
use crate::text::{
    cat2, cat3, cat4, cat6, copy_strings, dec, dec_int, decimal, decimal_signed, lossy_text, texts,
    to_lowercase, trim, trimmed, unicode_lowercase, utf8_lossy_text,
};
use crate::types::LifecycleHandler;
use vstd::prelude::*;

verus! {

/// What is done for a hook.
#[derive(Debug)]
pub enum HookAction {
    /// Run a command in the container, for some seconds at most.
    Exec { command: Vec<String>, timeout_secs: u64 },
    /// Get a page.
    HttpGet { url: String },
    /// Connect to an address.
    TcpConnect { address: String },
    /// Wait for some seconds.
    Sleep { seconds: u64 },
}

/// What became of a hook.
#[derive(Debug)]
pub enum HookOutcome {
    /// The runtime could not run the command.
    RuntimeFailed(KubeletError),
    /// The command ended with an exit code.
    Exited { exit_code: i32, stderr: Vec<u8> },
    /// No client could be made.
    ClientFailed(String),
    /// The page could not be got.
    RequestFailed(String),
    /// The page came with a status.
    Answered { code: u16, status: String },
    ConnectFailed(String),
    Connected,
    /// The connection or the wait took too long.
    TimedOut,
    Slept,
}

/// Runs the hooks of containers.
#[derive(Debug, Clone, Copy)]
pub struct LifecycleHookExecutor {
    pub timeout_ms: u64,
}

pub open spec fn host_or_local(host: Option<String>) -> Seq<char> {
    match host {
        Some(h) => h@,
        None => "localhost"@,
    }
}

fn host_of(host: &Option<String>) -> (r: String)
    ensures
        r@ == host_or_local(*host),
{
    match host {
        Some(h) => h.clone(),
        None => "localhost".to_owned(),
    }
}

/// What is done for a hook.
pub open spec fn action_is(handler: LifecycleHandler, timeout_ms: u64, a: HookAction) -> bool {
    match handler {
        LifecycleHandler::Exec { command } => a matches HookAction::Exec {
            command: c,
            timeout_secs,
        } && texts(c@) == texts(command@) && timeout_secs == timeout_ms / 1000,
        LifecycleHandler::HttpGet { path, port, host, scheme } => a matches HookAction::HttpGet {
            url,
        } && url@ == unicode_lowercase(scheme@) + "://"@ + host_or_local(host) + ":"@ + dec(
            port as nat,
        ) + path@,
        LifecycleHandler::TcpSocket { port, host } => a matches HookAction::TcpConnect { address }
            && address@ == host_or_local(host) + ":"@ + dec(port as nat),
        LifecycleHandler::Sleep { seconds } => a matches HookAction::Sleep { seconds: s } && s
            == seconds,
    }
}

/// Why a hook failed, or nothing.
pub open spec fn failure_of(handler: LifecycleHandler, timeout_ms: u64, o: HookOutcome) -> Option<
    Seq<char>,
> {
    match o {
        HookOutcome::RuntimeFailed(e) => Some(e.text()),
        HookOutcome::Exited { exit_code, stderr } => if exit_code != 0 {
            Some(
                "lifecycle exec hook failed with exit code "@ + dec_int(exit_code as int) + ": "@
                    + trimmed(utf8_lossy_text(stderr@)),
            )
        } else {
            None
        },
        HookOutcome::ClientFailed(e) => Some("HTTP client build: "@ + e@),
        HookOutcome::RequestFailed(e) => Some("HTTP hook GET failed: "@ + e@),
        HookOutcome::Answered { code, status } => if code >= 400 {
            Some("HTTP hook returned error status: "@ + status@)
        } else {
            None
        },
        HookOutcome::ConnectFailed(e) => Some("TCP hook connect failed: "@ + e@),
        HookOutcome::Connected => None,
        HookOutcome::TimedOut => match handler {
            LifecycleHandler::TcpSocket { port, host } => Some(
                "TCP hook timed out connecting to "@ + host_or_local(host) + ":"@ + dec(
                    port as nat,
                ),
            ),
            _ => Some(
                "Sleep hook timed out after "@ + dec((timeout_ms / 1000) as nat)
                    + "s (grace period exceeded)"@,
            ),
        },
        HookOutcome::Slept => None,
    }
}

impl LifecycleHookExecutor {
    pub fn new(timeout_ms: u64) -> (r: Self)
        ensures
            r.timeout_ms == timeout_ms,
    {
        LifecycleHookExecutor { timeout_ms }
    }

    /// Says what is done for a hook.
    pub fn execute(&self, handler: &LifecycleHandler) -> (r: HookAction)
        ensures
            action_is(*handler, self.timeout_ms, r),
    {
        match handler {
            LifecycleHandler::Exec { command } => HookAction::Exec {
                command: copy_strings(command),
                timeout_secs: self.timeout_ms / 1000,
            },
            LifecycleHandler::HttpGet { path, port, host, scheme } => {
                let scheme = to_lowercase(scheme.as_str());
                let host = host_of(host);
                let port = decimal(*port as u64);
                HookAction::HttpGet {
                    url: cat6(
                        scheme.as_str(),
                        "://",
                        host.as_str(),
                        ":",
                        port.as_str(),
                        path.as_str(),
                    ),
                }
            },
            LifecycleHandler::TcpSocket { port, host } => {
                let host = host_of(host);
                let port = decimal(*port as u64);
                HookAction::TcpConnect { address: cat3(host.as_str(), ":", port.as_str()) }
            },
            LifecycleHandler::Sleep { seconds } => HookAction::Sleep { seconds: *seconds },
        }
    }

    /// Says what a hook yields: a command that ends with zero, a page without
    /// an error status, a connection and a wait succeed.
    pub fn hook_result(&self, handler: &LifecycleHandler, outcome: HookOutcome) -> (r: Result<
        (),
        KubeletError,
    >)
        ensures
            match failure_of(*handler, self.timeout_ms, outcome) {
                None => r is Ok,
                Some(f) => match outcome {
                    HookOutcome::RuntimeFailed(e) => r == Err::<(), KubeletError>(e),
                    _ => r matches Err(KubeletError::Lifecycle(m)) && m@ == f,
                },
            },
    {
        let failure = match outcome {
            HookOutcome::RuntimeFailed(e) => {
                return Err(e);
            },
            HookOutcome::Exited { exit_code, stderr } => {
                if exit_code == 0 {
                    return Ok(());
                }
                let code = decimal_signed(exit_code as i64);
                let said = lossy_text(&stderr);
                cat4(
                    "lifecycle exec hook failed with exit code ",
                    code.as_str(),
                    ": ",
                    trim(said.as_str()),
                )
            },
            HookOutcome::ClientFailed(e) => cat2("HTTP client build: ", e.as_str()),
            HookOutcome::RequestFailed(e) => cat2("HTTP hook GET failed: ", e.as_str()),
            HookOutcome::Answered { code, status } => {
                if code < 400 {
                    return Ok(());
                }
                cat2("HTTP hook returned error status: ", status.as_str())
            },
            HookOutcome::ConnectFailed(e) => cat2("TCP hook connect failed: ", e.as_str()),
            HookOutcome::Connected => {
                return Ok(());
            },
            HookOutcome::TimedOut => match handler {
                LifecycleHandler::TcpSocket { port, host } => {
                    let host = host_of(host);
                    let port = decimal(*port as u64);
                    cat4("TCP hook timed out connecting to ", host.as_str(), ":", port.as_str())
                },
                _ => {
                    let secs = decimal(self.timeout_ms / 1000);
                    cat3(
                        "Sleep hook timed out after ",
                        secs.as_str(),
                        "s (grace period exceeded)",
                    )
                },
            },
            HookOutcome::Slept => {
                return Ok(());
            },
        };
        Err(KubeletError::Lifecycle(failure))
    }
}

/// The executor of the hook that runs after a container starts: it has thirty
/// seconds. Where it fails, the container is killed.
pub fn run_post_start() -> (r: LifecycleHookExecutor)
    ensures
        r.timeout_ms == 30_000,
{
    LifecycleHookExecutor::new(30_000)
}

/// The executor of the hook that runs before a container stops: it has the
/// grace period. Whatever it yields, the container is stopped.
pub fn run_pre_stop(grace_period_ms: u64) -> (r: LifecycleHookExecutor)
    ensures
        r.timeout_ms == grace_period_ms,
{
    LifecycleHookExecutor::new(grace_period_ms)
}

/// A hook is run as what it is: a command as that command, a page at its host,
/// port and path, a connection to its host and port, a pause as long as it is.
pub proof fn law_hooks_are_run_as_they_are(
    handler: LifecycleHandler,
    timeout_ms: u64,
    a: HookAction,
    seconds: u64,
)
    requires
        action_is(handler, timeout_ms, a),
        timeout_ms == seconds * 1000,
    ensures
        handler is Exec <==> a is Exec,
        handler is HttpGet <==> a is HttpGet,
        handler is TcpSocket <==> a is TcpConnect,
        handler is Sleep <==> a is Sleep,
        handler is Exec ==> texts(a->command@) == texts(handler->Exec_command@) && a->timeout_secs
            == seconds,
        handler is Sleep ==> a->Sleep_seconds == handler->Sleep_seconds,
        handler is TcpSocket && handler->TcpSocket_host is Some ==> a->address@
            == handler->TcpSocket_host->0@ + ":"@ + dec(handler->TcpSocket_port as nat),
        handler is TcpSocket && handler->TcpSocket_host is None ==> a->address@ == "localhost"@
            + ":"@ + dec(handler->TcpSocket_port as nat),
        handler is HttpGet && handler->HttpGet_host is Some ==> a->url@ == unicode_lowercase(
            handler->HttpGet_scheme@,
        ) + "://"@ + handler->HttpGet_host->0@ + ":"@ + dec(handler->HttpGet_port as nat)
            + handler->HttpGet_path@,
{
}

/// A hook succeeds where its command ended with code zero, its page came
/// without an error, its connection was made or its pause is over, and nowhere
/// else.
pub proof fn law_hooks_succeed_where_they_should(
    handler: LifecycleHandler,
    timeout_ms: u64,
    o: HookOutcome,
)
    ensures
        failure_of(handler, timeout_ms, o) is None <==> {
            ||| o is Exited && o->exit_code == 0
            ||| o is Answered && o->code < 400
            ||| o is Connected
            ||| o is Slept
        },
{
}

/// A hook that fails is told by its kind and by what went wrong.
pub proof fn law_hook_failures_are_told(
    handler: LifecycleHandler,
    timeout_ms: u64,
    o: HookOutcome,
    seconds: u64,
)
    requires
        timeout_ms == seconds * 1000,
    ensures
        o matches HookOutcome::ClientFailed(e) ==> failure_of(handler, timeout_ms, o) == Some(
            "HTTP client build: "@ + e@,
        ),
        o matches HookOutcome::RequestFailed(e) ==> failure_of(handler, timeout_ms, o) == Some(
            "HTTP hook GET failed: "@ + e@,
        ),
        o matches HookOutcome::ConnectFailed(e) ==> failure_of(handler, timeout_ms, o) == Some(
            "TCP hook connect failed: "@ + e@,
        ),
        o matches HookOutcome::Answered { code, status } ==> (code >= 400 ==> failure_of(
            handler,
            timeout_ms,
            o,
        ) == Some("HTTP hook returned error status: "@ + status@)),
        o is TimedOut && !(handler is TcpSocket) ==> failure_of(handler, timeout_ms, o) == Some(
            "Sleep hook timed out after "@ + dec(seconds as nat) + "s (grace period exceeded)"@,
        ),
        o is TimedOut ==> (handler matches LifecycleHandler::TcpSocket { port, host } ==> (host
            matches Some(h) ==> failure_of(handler, timeout_ms, o) == Some(
            "TCP hook timed out connecting to "@ + h@ + ":"@ + dec(port as nat),
        ))),
        o matches HookOutcome::Exited { exit_code, stderr } ==> (exit_code != 0 ==> failure_of(
            handler,
            timeout_ms,
            o,
        ) == Some(
            "lifecycle exec hook failed with exit code "@ + dec_int(exit_code as int) + ": "@
                + trimmed(utf8_lossy_text(stderr@)),
        )),
{
}

} // verus!
