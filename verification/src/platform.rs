//! The application bootstrap for builds without the Sailfish OS toolkit: a stand-in with
//! the same surface that does nothing.
use vstd::prelude::*;

verus! {

/// Stand-in for the Sailfish OS application (a window set up with the Silica theme).
pub struct QmlApp;

/// Stand-in for the Sailfish OS QML engine.
pub struct QQmlEngine;

impl QmlApp {
    /// A new application with the given name.
    pub fn application(_app: String) -> (r: QmlApp) {
        QmlApp
    }

    /// The path of a resource: the path itself.
    pub fn path_to(path: String) -> (r: String)
        ensures
            r == path,
    {
        path
    }

    /// Sets the window title; the stand-in ignores it.
    pub fn set_title(&mut self, _title: String)
        ensures
            *final(self) == *old(self),
    {
    }

    /// Sets the application version; the stand-in ignores it.
    pub fn set_application_version(&mut self, _version: String)
        ensures
            *final(self) == *old(self),
    {
    }

    /// Installs the default translator; the stand-in always succeeds.
    pub fn install_default_translator(&mut self) -> (r: Option<()>)
        ensures
            r == Some(()),
            *final(self) == *old(self),
    {
        Some(())
    }

    /// Chooses whether closing the last window quits; the stand-in ignores it.
    pub fn set_quit_on_last_window_closed(&mut self, _quit: bool)
        ensures
            *final(self) == *old(self),
    {
    }

    /// Makes the application object known to QML under a name; the stand-in ignores it.
    pub fn promote_gui_app_to_qml_context(&mut self, _name: String)
        ensures
            *final(self) == *old(self),
    {
    }

    /// Sets the QML source of the window; the stand-in ignores it.
    pub fn set_source(&mut self, _source: String)
        ensures
            *final(self) == *old(self),
    {
    }

    /// Shows the window full screen; the stand-in does nothing.
    pub fn show_full_screen(&mut self)
        ensures
            *final(self) == *old(self),
    {
    }
}

} // verus!
