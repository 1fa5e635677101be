use vstd::prelude::*;

pub mod command;
pub mod general;
pub mod gui;
pub mod history;
pub mod theme;

verus! {

/// Everything the configuration files hold.
#[derive(Debug)]
pub struct FullConfig {
    pub core: general::ConfigCore,
    pub history: history::ConfigHistory,
    pub theme: theme::ConfigTheme,
    pub gui: gui::ConfigGUI,
    pub commands: Vec<command::ConfigCommand>,
}

impl Default for FullConfig {
    fn default() -> (r: Self)
        ensures
            r.core.default_shell == crate::enums::Shell::Bash,
            r.core.config_dir@ == Seq::<char>::empty(),
            r.core.data_dir@ == "data"@,
            r.history.history_fp@ == "whale.history"@,
            r.history.max_file_size_bytes == 256 * 1024,
            theme::is_default_theme(r.theme),
            r.gui.table.max_field_len == 20,
            r.gui.dropdown.max_rows == 10,
            r.commands@.len() == 0,
    {
        Self {
            core: general::ConfigCore::default(),
            history: history::ConfigHistory::default(),
            theme: theme::ConfigTheme::default(),
            gui: gui::ConfigGUI::default(),
            commands: Vec::new(),
        }
    }
}

} // verus!
