//! Application settings.
//!
//! The settings live in memory here. Reading them from their file and
//! writing them back is the caller's part: it hands what it read to
//! `Settings::new` and stores `Settings::values` after a change.

use vstd::prelude::*;
use crate::text::owned;

verus! {

/// Application settings.
#[derive(Debug)]
pub struct AppSettings {
    /// Window width.
    pub window_width: i32,
    /// Window height.
    pub window_height: i32,
    /// Whether window is maximized.
    pub is_maximized: bool,
    /// Theme preference: "system", "light", or "dark".
    pub theme: String,
    /// Start the application on login.
    pub autostart_on_login: bool,
    /// Show system tray icon.
    pub show_tray_icon: bool,
}

/// What `AppSettings` holds, as plain values.
pub struct AppSettingsView {
    pub window_width: i32,
    pub window_height: i32,
    pub is_maximized: bool,
    pub theme: Seq<char>,
    pub autostart_on_login: bool,
    pub show_tray_icon: bool,
}

impl View for AppSettings {
    type V = AppSettingsView;

    open spec fn view(&self) -> AppSettingsView {
        AppSettingsView {
            window_width: self.window_width,
            window_height: self.window_height,
            is_maximized: self.is_maximized,
            theme: self.theme@,
            autostart_on_login: self.autostart_on_login,
            show_tray_icon: self.show_tray_icon,
        }
    }
}

/// The settings of a first start.
pub open spec fn default_settings() -> AppSettingsView {
    AppSettingsView {
        window_width: 1386,
        window_height: 924,
        is_maximized: false,
        theme: "system"@,
        autostart_on_login: false,
        show_tray_icon: false,
    }
}

/// The window width of a first start.
pub fn default_width() -> (r: i32)
    ensures
        r == 1386,
{
    1386
}

/// The window height of a first start.
pub fn default_height() -> (r: i32)
    ensures
        r == 924,
{
    924
}

/// The theme of a first start.
pub fn default_theme() -> (r: String)
    ensures
        r@ == "system"@,
{
    owned("system")
}

impl Clone for AppSettings {
    fn clone(&self) -> (r: Self)
        ensures
            r@ == self@,
    {
        AppSettings {
            window_width: self.window_width,
            window_height: self.window_height,
            is_maximized: self.is_maximized,
            theme: self.theme.clone(),
            autostart_on_login: self.autostart_on_login,
            show_tray_icon: self.show_tray_icon,
        }
    }
}

impl Default for AppSettings {
    fn default() -> (r: Self)
        ensures
            r@ == default_settings(),
    {
        AppSettings {
            window_width: default_width(),
            window_height: default_height(),
            is_maximized: false,
            theme: default_theme(),
            autostart_on_login: false,
            show_tray_icon: false,
        }
    }
}

/// Settings manager.
#[derive(Debug)]
pub struct Settings {
    settings: AppSettings,
}

impl View for Settings {
    type V = AppSettingsView;

    closed spec fn view(&self) -> AppSettingsView {
        self.settings@
    }
}

impl Default for Settings {
    fn default() -> (r: Self)
        ensures
            r@ == default_settings(),
    {
        Settings::new(None)
    }
}

impl Settings {
    /// The settings as stored, or those of a first start where nothing
    /// usable was stored.
    pub fn new(stored: Option<AppSettings>) -> (r: Self)
        ensures
            r@ == match stored {
                Some(s) => s@,
                None => default_settings(),
            },
    {
        match stored {
            Some(s) => Settings { settings: s },
            None => Settings { settings: AppSettings::default() },
        }
    }

    /// A copy of the settings, to be stored.
    pub fn values(&self) -> (r: AppSettings)
        ensures
            r@ == self@,
    {
        self.settings.clone()
    }

    /// The window width.
    pub fn window_width(&self) -> (r: i32)
        ensures
            r == self@.window_width,
    {
        self.settings.window_width
    }

    /// Sets the window width.
    pub fn set_window_width(&mut self, width: i32)
        ensures
            final(self)@ == (AppSettingsView { window_width: width, ..old(self)@ }),
    {
        self.settings.window_width = width;
    }

    /// The window height.
    pub fn window_height(&self) -> (r: i32)
        ensures
            r == self@.window_height,
    {
        self.settings.window_height
    }

    /// Sets the window height.
    pub fn set_window_height(&mut self, height: i32)
        ensures
            final(self)@ == (AppSettingsView { window_height: height, ..old(self)@ }),
    {
        self.settings.window_height = height;
    }

    /// Whether the window is maximized.
    pub fn is_maximized(&self) -> (r: bool)
        ensures
            r == self@.is_maximized,
    {
        self.settings.is_maximized
    }

    /// Sets whether the window is maximized.
    pub fn set_maximized(&mut self, maximized: bool)
        ensures
            final(self)@ == (AppSettingsView { is_maximized: maximized, ..old(self)@ }),
    {
        self.settings.is_maximized = maximized;
    }

    /// The theme preference.
    pub fn theme(&self) -> (r: &str)
        ensures
            r@ == self@.theme,
    {
        self.settings.theme.as_str()
    }

    /// Sets the theme preference.
    pub fn set_theme(&mut self, theme: &str)
        ensures
            final(self)@ == (AppSettingsView { theme: theme@, ..old(self)@ }),
    {
        self.settings.theme = owned(theme);
    }

    /// Whether the application starts on login.
    pub fn autostart_on_login(&self) -> (r: bool)
        ensures
            r == self@.autostart_on_login,
    {
        self.settings.autostart_on_login
    }

    /// Sets whether the application starts on login.
    pub fn set_autostart_on_login(&mut self, enabled: bool)
        ensures
            final(self)@ == (AppSettingsView { autostart_on_login: enabled, ..old(self)@ }),
    {
        self.settings.autostart_on_login = enabled;
    }

    /// Whether the tray icon is shown.
    pub fn show_tray_icon(&self) -> (r: bool)
        ensures
            r == self@.show_tray_icon,
    {
        self.settings.show_tray_icon
    }

    /// Sets whether the tray icon is shown.
    pub fn set_show_tray_icon(&mut self, enabled: bool)
        ensures
            final(self)@ == (AppSettingsView { show_tray_icon: enabled, ..old(self)@ }),
    {
        self.settings.show_tray_icon = enabled;
    }
}

} // verus!
