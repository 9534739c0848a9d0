//! Application settings.

use vstd::prelude::*;

verus! {

/// Colour theme of the application.
#[derive(Debug, Clone, Copy, PartialEq, Eq, Structural)]
pub enum Theme {
    Light,
    Dark,
    Auto,
}

/// What a file listing is ordered by.
#[derive(Debug, Clone, Copy, PartialEq, Eq, Structural)]
pub enum SortBy {
    Name,
    Size,
    Modified,
    Type,
}

/// Direction of an ordering.
#[derive(Debug, Clone, Copy, PartialEq, Eq, Structural)]
pub enum SortOrder {
    Ascending,
    Descending,
}

/// How a file listing is laid out.
#[derive(Debug, Clone, Copy, PartialEq, Eq, Structural)]
pub enum ViewMode {
    List,
    Grid,
    Tree,
}

/// Look of the terminal.
#[derive(Debug)]
pub struct TerminalSettings {
    pub font_family: String,
    pub font_size: u16,
    pub background_color: String,
    pub foreground_color: String,
    pub cursor_color: String,
    pub scrollback_lines: usize,
}

/// Behaviour of the file manager.
#[derive(Debug, Clone, Copy, PartialEq, Eq, Structural)]
pub struct FileManagerSettings {
    pub show_hidden_files: bool,
    pub sort_by: SortBy,
    pub sort_order: SortOrder,
    pub default_view: ViewMode,
}

/// Settings of the whole application.
#[derive(Debug)]
pub struct AppSettings {
    pub theme: Theme,
    pub language: String,
    pub auto_save: bool,
    /// Seconds after which an attempt to connect is given up.
    pub connection_timeout: u64,
    pub terminal_settings: TerminalSettings,
    pub file_manager_settings: FileManagerSettings,
}

/// What a `TerminalSettings` stands for.
pub struct TerminalModel {
    pub font_family: Seq<char>,
    pub font_size: u16,
    pub background_color: Seq<char>,
    pub foreground_color: Seq<char>,
    pub cursor_color: Seq<char>,
    pub scrollback_lines: usize,
}

/// What an `AppSettings` stands for.
pub struct SettingsModel {
    pub theme: Theme,
    pub language: Seq<char>,
    pub auto_save: bool,
    pub connection_timeout: u64,
    pub terminal_settings: TerminalModel,
    pub file_manager_settings: FileManagerSettings,
}

impl View for TerminalSettings {
    type V = TerminalModel;

    open spec fn view(&self) -> TerminalModel {
        TerminalModel {
            font_family: self.font_family@,
            font_size: self.font_size,
            background_color: self.background_color@,
            foreground_color: self.foreground_color@,
            cursor_color: self.cursor_color@,
            scrollback_lines: self.scrollback_lines,
        }
    }
}

impl View for AppSettings {
    type V = SettingsModel;

    open spec fn view(&self) -> SettingsModel {
        SettingsModel {
            theme: self.theme,
            language: self.language@,
            auto_save: self.auto_save,
            connection_timeout: self.connection_timeout,
            terminal_settings: self.terminal_settings@,
            file_manager_settings: self.file_manager_settings,
        }
    }
}

/// The terminal as it looks before the user changes anything.
pub open spec fn default_terminal() -> TerminalModel {
    TerminalModel {
        font_family: "FiraCode"@,
        font_size: 14,
        background_color: "#1e1e1e"@,
        foreground_color: "#ffffff"@,
        cursor_color: "#ffffff"@,
        scrollback_lines: 1000,
    }
}

/// The file manager as it behaves before the user changes anything.
pub open spec fn default_file_manager() -> FileManagerSettings {
    FileManagerSettings {
        show_hidden_files: false,
        sort_by: SortBy::Name,
        sort_order: SortOrder::Ascending,
        default_view: ViewMode::List,
    }
}

impl Default for TerminalSettings {
    fn default() -> (settings: Self)
        ensures
            settings@ == default_terminal(),
    {
        TerminalSettings {
            font_family: "FiraCode".to_owned(),
            font_size: 14,
            background_color: "#1e1e1e".to_owned(),
            foreground_color: "#ffffff".to_owned(),
            cursor_color: "#ffffff".to_owned(),
            scrollback_lines: 1000,
        }
    }
}

impl Default for FileManagerSettings {
    fn default() -> (settings: Self)
        ensures
            settings == default_file_manager(),
    {
        FileManagerSettings {
            show_hidden_files: false,
            sort_by: SortBy::Name,
            sort_order: SortOrder::Ascending,
            default_view: ViewMode::List,
        }
    }
}

impl Default for AppSettings {
    fn default() -> (settings: Self)
        ensures
            settings@ == (SettingsModel {
                theme: Theme::Auto,
                language: "zh-CN"@,
                auto_save: true,
                connection_timeout: 30,
                terminal_settings: default_terminal(),
                file_manager_settings: default_file_manager(),
            }),
    {
        AppSettings {
            theme: Theme::Auto,
            language: "zh-CN".to_owned(),
            auto_save: true,
            connection_timeout: 30,
            terminal_settings: TerminalSettings::default(),
            file_manager_settings: FileManagerSettings::default(),
        }
    }
}

impl Clone for TerminalSettings {
    fn clone(&self) -> (copy: Self)
        ensures
            copy@ == self@,
    {
        TerminalSettings {
            font_family: self.font_family.clone(),
            font_size: self.font_size,
            background_color: self.background_color.clone(),
            foreground_color: self.foreground_color.clone(),
            cursor_color: self.cursor_color.clone(),
            scrollback_lines: self.scrollback_lines,
        }
    }
}

impl Clone for AppSettings {
    fn clone(&self) -> (copy: Self)
        ensures
            copy@ == self@,
    {
        AppSettings {
            theme: self.theme,
            language: self.language.clone(),
            auto_save: self.auto_save,
            connection_timeout: self.connection_timeout,
            terminal_settings: self.terminal_settings.clone(),
            file_manager_settings: self.file_manager_settings,
        }
    }
}

} // verus!
