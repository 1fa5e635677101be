use vstd::prelude::*;

verus! {

#[derive(Debug)]
pub struct ConfigGUI {
    pub table: ConfigTableGUI,
    pub dropdown: ConfigDropdownGUI,
}

impl Default for ConfigGUI {
    fn default() -> (r: Self)
        ensures
            r.table.max_field_len == 20,
            r.dropdown.max_rows == 10,
    {
        Self { table: ConfigTableGUI::default(), dropdown: ConfigDropdownGUI::default() }
    }
}

#[derive(Debug)]
pub struct ConfigTableGUI {
    /// The width of one field of the table, in columns.
    pub max_field_len: u16,
}

impl Default for ConfigTableGUI {
    fn default() -> (r: Self)
        ensures
            r.max_field_len == 20,
    {
        Self { max_field_len: 20 }
    }
}

#[derive(Debug)]
pub struct ConfigDropdownGUI {
    /// The most rows the dropdown shows at once.
    pub max_rows: u16,
}

impl Default for ConfigDropdownGUI {
    fn default() -> (r: Self)
        ensures
            r.max_rows == 10,
    {
        Self { max_rows: 10 }
    }
}

} // verus!
