//! Coordinated administrative actions.
//!
//! An action is planned here and carried out by the caller: the plan names
//! the calls to the firewall service and the `systemctl` commands to run,
//! in order, and the message that reports success. What a failed command's
//! output means is said here too.

use vstd::prelude::*;
use crate::text::{contains_sub, owned, push_str, str_contains, str_eq};

verus! {

/// Category of admin action for UI grouping.
#[derive(Debug, Clone, Copy, PartialEq, Eq, Structural)]
pub enum ActionCategory {
    Firewall,
    Network,
    Services,
}

/// An administrative action that can be performed.
#[derive(Debug, Clone)]
pub struct AdminAction {
    /// Unique identifier for this action.
    pub id: &'static str,
    /// Human-readable title.
    pub title: &'static str,
    /// Detailed description of what this action does.
    pub description: &'static str,
    /// Icon name for UI display.
    pub icon: &'static str,
    /// Whether this action is potentially destructive.
    pub destructive: bool,
    /// Category for grouping.
    pub category: ActionCategory,
}

/// What an `AdminAction` holds, as plain values.
pub struct AdminActionView {
    pub id: Seq<char>,
    pub title: Seq<char>,
    pub description: Seq<char>,
    pub icon: Seq<char>,
    pub destructive: bool,
    pub category: ActionCategory,
}

impl View for AdminAction {
    type V = AdminActionView;

    open spec fn view(&self) -> AdminActionView {
        AdminActionView {
            id: self.id@,
            title: self.title@,
            description: self.description@,
            icon: self.icon@,
            destructive: self.destructive,
            category: self.category,
        }
    }
}

/// Result of an admin action execution.
#[derive(Debug)]
pub struct AdminActionResult {
    pub success: bool,
    pub message: String,
}

impl AdminActionResult {
    /// The result of an action that succeeded.
    pub fn success(message: String) -> (r: Self)
        ensures
            r.success,
            r.message@ == message@,
    {
        AdminActionResult { success: true, message }
    }

    /// The result of an action that failed.
    pub fn failure(message: String) -> (r: Self)
        ensures
            !r.success,
            r.message@ == message@,
    {
        AdminActionResult { success: false, message }
    }
}

/// What the quick admin actions hold, in the order in which they are
/// shown.
pub open spec fn quick_action_list() -> Seq<AdminActionView> {
    seq![
        AdminActionView {
            id: "firewall_reload"@,
            title: "Reload Firewall"@,
            description: "Reload firewall rules from permanent configuration. Active connections are preserved."@,
            icon: "view-refresh-symbolic"@,
            destructive: false,
            category: ActionCategory::Firewall,
        },
        AdminActionView {
            id: "firewall_enable"@,
            title: "Enable Firewall"@,
            description: "Start the firewall service and enable it to start at boot."@,
            icon: "security-high-symbolic"@,
            destructive: false,
            category: ActionCategory::Firewall,
        },
        AdminActionView {
            id: "firewall_disable"@,
            title: "Disable Firewall"@,
            description: "Stop the firewall service and disable it at boot. WARNING: This will leave your system unprotected."@,
            icon: "security-low-symbolic"@,
            destructive: true,
            category: ActionCategory::Firewall,
        },
        AdminActionView {
            id: "firewall_panic_on"@,
            title: "Enable Panic Mode"@,
            description: "Block ALL network traffic immediately. Use for emergency lockdown."@,
            icon: "dialog-error-symbolic"@,
            destructive: true,
            category: ActionCategory::Firewall,
        },
        AdminActionView {
            id: "firewall_panic_off"@,
            title: "Disable Panic Mode"@,
            description: "Restore normal firewall operation after panic mode."@,
            icon: "emblem-ok-symbolic"@,
            destructive: false,
            category: ActionCategory::Firewall,
        },
        AdminActionView {
            id: "firewall_runtime_to_permanent"@,
            title: "Save Runtime to Permanent"@,
            description: "Copy all runtime firewall rules to permanent configuration."@,
            icon: "document-save-symbolic"@,
            destructive: false,
            category: ActionCategory::Firewall,
        },
        AdminActionView {
            id: "firewall_flush_runtime"@,
            title: "Flush Runtime Rules"@,
            description: "Remove all runtime firewall rules and reload permanent configuration."@,
            icon: "edit-clear-all-symbolic"@,
            destructive: true,
            category: ActionCategory::Firewall,
        },
        AdminActionView {
            id: "restart_networkmanager"@,
            title: "Restart NetworkManager"@,
            description: "Restart the NetworkManager service. This will briefly disconnect all network connections."@,
            icon: "network-wired-symbolic"@,
            destructive: false,
            category: ActionCategory::Network,
        },
        AdminActionView {
            id: "restart_sshd"@,
            title: "Restart SSH Server"@,
            description: "Restart the SSH daemon. Existing connections will be preserved."@,
            icon: "utilities-terminal-symbolic"@,
            destructive: false,
            category: ActionCategory::Services,
        },
        AdminActionView {
            id: "reload_systemd"@,
            title: "Reload Systemd"@,
            description: "Reload systemd daemon configuration. Safe operation."@,
            icon: "system-run-symbolic"@,
            destructive: false,
            category: ActionCategory::Services,
        },
    ]
}

/// All available quick admin actions.
pub fn quick_actions() -> (r: Vec<AdminAction>)
    ensures
        r.len() == quick_action_list().len(),
        forall|i: int| 0 <= i < r.len() ==> (#[trigger] r@[i])@ == quick_action_list()[i],
{
    let mut r: Vec<AdminAction> = Vec::new();
    r.push(
        AdminAction {
            id: "firewall_reload",
            title: "Reload Firewall",
            description: "Reload firewall rules from permanent configuration. Active connections are preserved.",
            icon: "view-refresh-symbolic",
            destructive: false,
            category: ActionCategory::Firewall,
        },
    );
    r.push(
        AdminAction {
            id: "firewall_enable",
            title: "Enable Firewall",
            description: "Start the firewall service and enable it to start at boot.",
            icon: "security-high-symbolic",
            destructive: false,
            category: ActionCategory::Firewall,
        },
    );
    r.push(
        AdminAction {
            id: "firewall_disable",
            title: "Disable Firewall",
            description: "Stop the firewall service and disable it at boot. WARNING: This will leave your system unprotected.",
            icon: "security-low-symbolic",
            destructive: true,
            category: ActionCategory::Firewall,
        },
    );
    r.push(
        AdminAction {
            id: "firewall_panic_on",
            title: "Enable Panic Mode",
            description: "Block ALL network traffic immediately. Use for emergency lockdown.",
            icon: "dialog-error-symbolic",
            destructive: true,
            category: ActionCategory::Firewall,
        },
    );
    r.push(
        AdminAction {
            id: "firewall_panic_off",
            title: "Disable Panic Mode",
            description: "Restore normal firewall operation after panic mode.",
            icon: "emblem-ok-symbolic",
            destructive: false,
            category: ActionCategory::Firewall,
        },
    );
    r.push(
        AdminAction {
            id: "firewall_runtime_to_permanent",
            title: "Save Runtime to Permanent",
            description: "Copy all runtime firewall rules to permanent configuration.",
            icon: "document-save-symbolic",
            destructive: false,
            category: ActionCategory::Firewall,
        },
    );
    r.push(
        AdminAction {
            id: "firewall_flush_runtime",
            title: "Flush Runtime Rules",
            description: "Remove all runtime firewall rules and reload permanent configuration.",
            icon: "edit-clear-all-symbolic",
            destructive: true,
            category: ActionCategory::Firewall,
        },
    );
    r.push(
        AdminAction {
            id: "restart_networkmanager",
            title: "Restart NetworkManager",
            description: "Restart the NetworkManager service. This will briefly disconnect all network connections.",
            icon: "network-wired-symbolic",
            destructive: false,
            category: ActionCategory::Network,
        },
    );
    r.push(
        AdminAction {
            id: "restart_sshd",
            title: "Restart SSH Server",
            description: "Restart the SSH daemon. Existing connections will be preserved.",
            icon: "utilities-terminal-symbolic",
            destructive: false,
            category: ActionCategory::Services,
        },
    );
    r.push(
        AdminAction {
            id: "reload_systemd",
            title: "Reload Systemd",
            description: "Reload systemd daemon configuration. Safe operation.",
            icon: "system-run-symbolic",
            destructive: false,
            category: ActionCategory::Services,
        },
    );
    r
}

/// One step of an action.
#[derive(Debug, Clone, Copy)]
pub enum ActionStep {
    /// Call the method of firewalld's main interface; `context` says what
    /// failed if the call does.
    Firewalld { method: &'static str, context: &'static str },
    /// Run `systemctl verb unit` with authentication.
    Systemctl { verb: &'static str, unit: &'static str },
    /// Run `systemctl verb first`, and `systemctl verb second` if that
    /// fails.
    SystemctlEither { verb: &'static str, first: &'static str, second: &'static str },
    /// Run `systemctl daemon-reload` with authentication.
    DaemonReload,
}

/// What an `ActionStep` holds, as plain values.
pub enum ActionStepView {
    Firewalld { method: Seq<char>, context: Seq<char> },
    Systemctl { verb: Seq<char>, unit: Seq<char> },
    SystemctlEither { verb: Seq<char>, first: Seq<char>, second: Seq<char> },
    DaemonReload,
}

impl View for ActionStep {
    type V = ActionStepView;

    open spec fn view(&self) -> ActionStepView {
        match self {
            ActionStep::Firewalld { method, context } => ActionStepView::Firewalld {
                method: method@,
                context: context@,
            },
            ActionStep::Systemctl { verb, unit } => ActionStepView::Systemctl {
                verb: verb@,
                unit: unit@,
            },
            ActionStep::SystemctlEither { verb, first, second } => ActionStepView::SystemctlEither {
                verb: verb@,
                first: first@,
                second: second@,
            },
            ActionStep::DaemonReload => ActionStepView::DaemonReload,
        }
    }
}

/// The steps of an action, in order, and the message of its success.
#[derive(Debug)]
pub struct ActionPlan {
    pub steps: Vec<ActionStep>,
    pub success: &'static str,
}

/// What a sequence of steps holds.
pub open spec fn step_views(s: Seq<ActionStep>) -> Seq<ActionStepView> {
    Seq::new(s.len(), |i: int| s[i]@)
}

/// The call of firewalld that stands for one step.
pub open spec fn firewalld_step(method: Seq<char>, context: Seq<char>) -> ActionStepView {
    ActionStepView::Firewalld { method, context }
}

/// The `systemctl` command that stands for one step.
pub open spec fn systemctl_step(verb: Seq<char>, unit: Seq<char>) -> ActionStepView {
    ActionStepView::Systemctl { verb, unit }
}

/// The steps of the action of the given id; none for an id that names no
/// action.
pub open spec fn planned_steps(id: Seq<char>) -> Option<Seq<ActionStepView>> {
    if id == "firewall_reload"@ {
        Some(seq![firewalld_step("reload"@, "Failed to reload firewall. Is firewalld running?"@)])
    } else if id == "firewall_enable"@ {
        Some(
            seq![
                systemctl_step("start"@, "firewalld.service"@),
                systemctl_step("enable"@, "firewalld.service"@),
            ],
        )
    } else if id == "firewall_disable"@ {
        Some(
            seq![
                systemctl_step("stop"@, "firewalld.service"@),
                systemctl_step("disable"@, "firewalld.service"@),
            ],
        )
    } else if id == "firewall_panic_on"@ {
        Some(seq![firewalld_step("enablePanicMode"@, "Failed to enable panic mode"@)])
    } else if id == "firewall_panic_off"@ {
        Some(seq![firewalld_step("disablePanicMode"@, "Failed to disable panic mode"@)])
    } else if id == "firewall_runtime_to_permanent"@ {
        Some(seq![firewalld_step("runtimeToPermanent"@, "Failed to save runtime rules"@)])
    } else if id == "firewall_flush_runtime"@ {
        Some(seq![firewalld_step("reload"@, "Failed to reload firewall. Is firewalld running?"@)])
    } else if id == "restart_networkmanager"@ {
        Some(seq![systemctl_step("restart"@, "NetworkManager.service"@)])
    } else if id == "restart_sshd"@ {
        Some(
            seq![
                ActionStepView::SystemctlEither {
                    verb: "restart"@,
                    first: "sshd.service"@,
                    second: "ssh.service"@,
                },
            ],
        )
    } else if id == "reload_systemd"@ {
        Some(seq![ActionStepView::DaemonReload])
    } else {
        None
    }
}

/// The message of success of the action of the given id.
pub open spec fn success_message(id: Seq<char>) -> Seq<char> {
    if id == "firewall_reload"@ {
        "Firewall reloaded successfully"@
    } else if id == "firewall_enable"@ {
        "Firewall enabled and started"@
    } else if id == "firewall_disable"@ {
        "Firewall stopped and disabled"@
    } else if id == "firewall_panic_on"@ {
        "Panic mode enabled - all traffic blocked"@
    } else if id == "firewall_panic_off"@ {
        "Panic mode disabled - normal operation restored"@
    } else if id == "firewall_runtime_to_permanent"@ {
        "Runtime rules saved to permanent configuration"@
    } else if id == "firewall_flush_runtime"@ {
        "Runtime rules flushed, permanent rules restored"@
    } else if id == "restart_networkmanager"@ {
        "Service NetworkManager.service restarted"@
    } else if id == "restart_sshd"@ {
        "SSH server restarted"@
    } else {
        "Systemd configuration reloaded"@
    }
}

/// A plan of one step.
fn one_step(step: ActionStep, success: &'static str) -> (r: ActionPlan)
    ensures
        step_views(r.steps@) == seq![step@],
        r.success@ == success@,
{
    let mut steps: Vec<ActionStep> = Vec::new();
    steps.push(step);
    assert(step_views(steps@) =~= seq![step@]);
    ActionPlan { steps, success }
}

/// A plan of two steps.
fn two_steps(first: ActionStep, second: ActionStep, success: &'static str) -> (r: ActionPlan)
    ensures
        step_views(r.steps@) == seq![first@, second@],
        r.success@ == success@,
{
    let mut steps: Vec<ActionStep> = Vec::new();
    steps.push(first);
    steps.push(second);
    assert(step_views(steps@) =~= seq![first@, second@]);
    ActionPlan { steps, success }
}

/// Plans the action of the given id.
///
/// For an id that names no action the error says so: `Unknown action: `
/// and the id.
pub fn plan_action(action_id: &str) -> (r: Result<ActionPlan, String>)
    ensures
        match r {
            Ok(plan) => planned_steps(action_id@) == Some(step_views(plan.steps@)) && plan.success@
                == success_message(action_id@),
            Err(message) => planned_steps(action_id@) is None && message@ == "Unknown action: "@
                + action_id@,
        },
{
    if str_eq(action_id, "firewall_reload") {
        Ok(
            one_step(
                ActionStep::Firewalld {
                    method: "reload",
                    context: "Failed to reload firewall. Is firewalld running?",
                },
                "Firewall reloaded successfully",
            ),
        )
    } else if str_eq(action_id, "firewall_enable") {
        Ok(
            two_steps(
                ActionStep::Systemctl { verb: "start", unit: "firewalld.service" },
                ActionStep::Systemctl { verb: "enable", unit: "firewalld.service" },
                "Firewall enabled and started",
            ),
        )
    } else if str_eq(action_id, "firewall_disable") {
        Ok(
            two_steps(
                ActionStep::Systemctl { verb: "stop", unit: "firewalld.service" },
                ActionStep::Systemctl { verb: "disable", unit: "firewalld.service" },
                "Firewall stopped and disabled",
            ),
        )
    } else if str_eq(action_id, "firewall_panic_on") {
        Ok(
            one_step(
                ActionStep::Firewalld {
                    method: "enablePanicMode",
                    context: "Failed to enable panic mode",
                },
                "Panic mode enabled - all traffic blocked",
            ),
        )
    } else if str_eq(action_id, "firewall_panic_off") {
        Ok(
            one_step(
                ActionStep::Firewalld {
                    method: "disablePanicMode",
                    context: "Failed to disable panic mode",
                },
                "Panic mode disabled - normal operation restored",
            ),
        )
    } else if str_eq(action_id, "firewall_runtime_to_permanent") {
        Ok(
            one_step(
                ActionStep::Firewalld {
                    method: "runtimeToPermanent",
                    context: "Failed to save runtime rules",
                },
                "Runtime rules saved to permanent configuration",
            ),
        )
    } else if str_eq(action_id, "firewall_flush_runtime") {
        Ok(
            one_step(
                ActionStep::Firewalld {
                    method: "reload",
                    context: "Failed to reload firewall. Is firewalld running?",
                },
                "Runtime rules flushed, permanent rules restored",
            ),
        )
    } else if str_eq(action_id, "restart_networkmanager") {
        Ok(
            one_step(
                ActionStep::Systemctl { verb: "restart", unit: "NetworkManager.service" },
                "Service NetworkManager.service restarted",
            ),
        )
    } else if str_eq(action_id, "restart_sshd") {
        Ok(
            one_step(
                ActionStep::SystemctlEither {
                    verb: "restart",
                    first: "sshd.service",
                    second: "ssh.service",
                },
                "SSH server restarted",
            ),
        )
    } else if str_eq(action_id, "reload_systemd") {
        Ok(one_step(ActionStep::DaemonReload, "Systemd configuration reloaded"))
    } else {
        let mut message = owned("Unknown action: ");
        push_str(&mut message, action_id);
        Err(message)
    }
}

/// Whether a failed command's output says that the user gave up the
/// authentication: the words `dismissed` or `cancelled`, or the exit code
/// 126.
pub open spec fn authentication_cancelled(code: Option<i32>, stderr: Seq<char>) -> bool {
    contains_sub(stderr, "dismissed"@) || contains_sub(stderr, "cancelled"@) || code == Some(126i32)
}

/// The error of a failed `systemctl` command.
pub open spec fn command_error(
    verb: Seq<char>,
    unit: Seq<char>,
    code: Option<i32>,
    stderr: Seq<char>,
) -> Seq<char> {
    if authentication_cancelled(code, stderr) {
        "Authentication cancelled"@
    } else {
        "Failed to "@ + verb + " service "@ + unit + ": "@ + stderr
    }
}

/// The error of a failed `systemctl daemon-reload`.
pub open spec fn reload_error(code: Option<i32>, stderr: Seq<char>) -> Seq<char> {
    if authentication_cancelled(code, stderr) {
        "Authentication cancelled"@
    } else {
        "Failed to reload systemd: "@ + stderr
    }
}

/// Whether a failed command's output says that the user gave up the
/// authentication.
pub fn is_authentication_cancelled(code: Option<i32>, stderr: &str) -> (r: bool)
    ensures
        r == authentication_cancelled(code, stderr@),
{
    let by_code = match code {
        Some(c) => c == 126,
        None => false,
    };
    str_contains(stderr, "dismissed") || str_contains(stderr, "cancelled") || by_code
}

/// The error of a `systemctl verb unit` that failed with the given exit
/// code and error output.
pub fn command_failure(verb: &str, unit: &str, code: Option<i32>, stderr: &str) -> (r: String)
    ensures
        r@ == command_error(verb@, unit@, code, stderr@),
{
    if is_authentication_cancelled(code, stderr) {
        owned("Authentication cancelled")
    } else {
        let mut r = owned("Failed to ");
        push_str(&mut r, verb);
        push_str(&mut r, " service ");
        push_str(&mut r, unit);
        push_str(&mut r, ": ");
        push_str(&mut r, stderr);
        r
    }
}

/// The error of a `systemctl daemon-reload` that failed with the given
/// exit code and error output.
pub fn daemon_reload_failure(code: Option<i32>, stderr: &str) -> (r: String)
    ensures
        r@ == reload_error(code, stderr@),
{
    if is_authentication_cancelled(code, stderr) {
        owned("Authentication cancelled")
    } else {
        let mut r = owned("Failed to reload systemd: ");
        push_str(&mut r, stderr);
        r
    }
}

} // verus!
