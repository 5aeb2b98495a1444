//! Starting the application on login.
//!
//! Autostart is on exactly when a desktop entry for the application lies
//! in the user's autostart directory. This module names the entry, writes
//! its text and says what a change of the setting asks for; touching the
//! file is the caller's part.

use vstd::prelude::*;
use crate::text::{owned, push_str};

verus! {

/// The application's id.
pub const APP_ID: &'static str = "com.chrisdaggas.security-center";

/// The application's name.
pub const APP_NAME: &'static str = "Security Center";

/// What a change of the autostart setting asks of the caller.
#[derive(Debug, PartialEq, Eq)]
pub enum AutostartAction {
    /// Create the autostart directory if need be, and write the entry.
    WriteEntry { file_name: String, content: String },
    /// Remove the entry if it is there.
    RemoveEntry { file_name: String },
}

/// What an `AutostartAction` holds, as plain values.
pub enum AutostartActionView {
    WriteEntry { file_name: Seq<char>, content: Seq<char> },
    RemoveEntry { file_name: Seq<char> },
}

impl View for AutostartAction {
    type V = AutostartActionView;

    open spec fn view(&self) -> AutostartActionView {
        match self {
            AutostartAction::WriteEntry { file_name, content } => AutostartActionView::WriteEntry {
                file_name: file_name@,
                content: content@,
            },
            AutostartAction::RemoveEntry { file_name } => AutostartActionView::RemoveEntry {
                file_name: file_name@,
            },
        }
    }
}

/// The name of the entry's file.
pub open spec fn entry_file_name() -> Seq<char> {
    APP_ID@ + ".desktop"@
}

/// The text of the entry.
pub open spec fn entry_text() -> Seq<char> {
    "[Desktop Entry]\nName="@ + APP_NAME@
        + "\nComment=Manage system security and firewall\nExec=security-center --minimized\nIcon="@
        + APP_ID@
        + "\nTerminal=false\nType=Application\nCategories=System;Security;Settings;GTK;GNOME;\nX-GNOME-Autostart-enabled=true\nX-GNOME-Autostart-Delay=5\nNoDisplay=false\n"@
}

/// The name of the autostart entry's file.
pub fn autostart_file_name() -> (r: String)
    ensures
        r@ == entry_file_name(),
{
    let mut r = owned(APP_ID);
    push_str(&mut r, ".desktop");
    r
}

/// The text of the autostart entry.
pub fn desktop_entry() -> (r: String)
    ensures
        r@ == entry_text(),
{
    let mut r = owned("[Desktop Entry]\nName=");
    push_str(&mut r, APP_NAME);
    push_str(
        &mut r,
        "\nComment=Manage system security and firewall\nExec=security-center --minimized\nIcon=",
    );
    push_str(&mut r, APP_ID);
    push_str(
        &mut r,
        "\nTerminal=false\nType=Application\nCategories=System;Security;Settings;GTK;GNOME;\nX-GNOME-Autostart-enabled=true\nX-GNOME-Autostart-Delay=5\nNoDisplay=false\n",
    );
    r
}

/// Check if autostart is currently enabled.
///
/// `entry_exists` says whether the entry's file is there; `None` where the
/// autostart directory could not be told.
pub fn is_autostart_enabled(entry_exists: Option<bool>) -> (r: bool)
    ensures
        r == (entry_exists == Some(true)),
{
    match entry_exists {
        Some(exists) => exists,
        None => false,
    }
}

/// Set autostart state: says what to do to the entry's file.
pub fn set_autostart(enabled: bool) -> (r: AutostartAction)
    ensures
        r@ == (if enabled {
            AutostartActionView::WriteEntry { file_name: entry_file_name(), content: entry_text() }
        } else {
            AutostartActionView::RemoveEntry { file_name: entry_file_name() }
        }),
{
    if enabled {
        AutostartAction::WriteEntry { file_name: autostart_file_name(), content: desktop_entry() }
    } else {
        AutostartAction::RemoveEntry { file_name: autostart_file_name() }
    }
}

} // verus!
