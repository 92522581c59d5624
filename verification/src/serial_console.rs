//! Where a VM's serial console is: the pseudo-terminal its definition names.
use crate::error::AppError;
use crate::text::{chars_of, copy_range, find, find_from, find_str_from};
use crate::vm_inspect::{quoted_after, quoted_after_exec};
use vstd::prelude::*;

verus! {

/// A VM's serial console.
#[derive(Debug)]
pub struct SerialConsoleInfo {
    pub vm_id: String,
    pub vm_name: String,
    pub pty_path: String,
    pub active: bool,
}

/// The pseudo-terminal of the first `<section type='pty'` element: the `<source path='`
/// value inside it, up to its closing tag.
pub open spec fn pty_in_section(xml: Seq<char>, section: Seq<char>) -> Option<Seq<char>> {
    match find(xml, "<"@ + section + " type='pty'"@) {
        Some(a) => match find_from(xml, "</"@ + section + ">"@, a) {
            Some(e) => quoted_after(xml.subrange(a, e), "<source path='"@, "'"@, 0),
            None => None,
        },
        None => None,
    }
}

/// The serial console's terminal, or else the console's.
pub open spec fn serial_pty(xml: Seq<char>) -> Option<Seq<char>> {
    match pty_in_section(xml, "serial"@) {
        Some(p) => Some(p),
        None => pty_in_section(xml, "console"@),
    }
}

/// Finds the serial console of a VM.
pub struct SerialConsoleService;

impl SerialConsoleService {
    /// The pseudo-terminal of the first `section` element of type `pty`.
    pub fn find_pty_in_section(xml: &str, section: &str) -> (r: Option<String>)
        ensures
            match r {
                Some(p) => pty_in_section(xml@, section@) == Some(p@),
                None => pty_in_section(xml@, section@) is None,
            },
    {
        let s = chars_of(xml);
        let mut open = String::from_str("<");
        open.append(section);
        open.append(" type='pty'");
        let mut close = String::from_str("</");
        close.append(section);
        close.append(">");
        let a = match find_str_from(s.as_slice(), open.as_str(), 0) {
            Some(a) => a,
            None => return None,
        };
        let e = match find_str_from(s.as_slice(), close.as_str(), a) {
            Some(e) => e,
            None => return None,
        };
        let content = copy_range(s.as_slice(), a, e);
        quoted_after_exec(content.as_slice(), "<source path='", "'", 0)
    }

    /// The terminal of the serial console, or else of the console.
    pub fn extract_serial_pty(xml: &str) -> (r: Result<String, AppError>)
        ensures
            match r {
                Ok(p) => serial_pty(xml@) == Some(p@),
                Err(e) => serial_pty(xml@) is None && e is Other,
            },
    {
        if let Some(p) = Self::find_pty_in_section(xml, "serial") {
            return Ok(p);
        }
        if let Some(p) = Self::find_pty_in_section(xml, "console") {
            return Ok(p);
        }
        Err(AppError::Other(String::from_str("No serial console found for VM")))
    }

    /// The serial console of a VM from its id, name, whether it runs and its definition.
    pub fn get_serial_console_info(vm_id: &str, vm_name: String, active: bool, xml: &str) -> (r: Result<
        SerialConsoleInfo,
        AppError,
    >)
        ensures
            match r {
                Ok(info) => serial_pty(xml@) == Some(info.pty_path@) && info.vm_id@ == vm_id@ && info.vm_name@
                    == vm_name@ && info.active == active,
                Err(e) => serial_pty(xml@) is None && e is Other,
            },
    {
        let pty_path = match Self::extract_serial_pty(xml) {
            Ok(p) => p,
            Err(e) => return Err(e),
        };
        Ok(SerialConsoleInfo { vm_id: String::from_str(vm_id), vm_name, pty_path, active })
    }
}

} // verus!
