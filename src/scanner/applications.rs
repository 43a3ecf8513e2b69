//! Application bundles in the system and user application folders.
use crate::text::{push_str, string_of};
use crate::utils::process::{home_directory, path_exists};
use vstd::prelude::*;

verus! {

/// Scans folders of application bundles.
pub struct ApplicationsScanner {
    pub scan_paths: Vec<String>,
}

impl ApplicationsScanner {
    /// A scanner of `/Applications`, and of the user's own `Applications`
    /// folder where it exists.
    pub fn new() -> (r: ApplicationsScanner)
        ensures
            1 <= r.scan_paths@.len() <= 2,
            r.scan_paths@[0]@ == "/Applications"@,
    {
        let mut scan_paths: Vec<String> = Vec::new();
        let mut sys: Vec<char> = Vec::new();
        push_str(&mut sys, "/Applications");
        scan_paths.push(string_of(&sys));
        match home_directory() {
            Some(home) => {
                let mut v: Vec<char> = Vec::new();
                push_str(&mut v, home.as_str());
                push_str(&mut v, "/Applications");
                let user_apps = string_of(&v);
                if path_exists(user_apps.as_str()) {
                    scan_paths.push(user_apps);
                }
            },
            None => {},
        }
        ApplicationsScanner { scan_paths }
    }

    /// Whether one of the folders exists.
    pub fn is_available(&self) -> bool {
        let mut i: usize = 0;
        while i < self.scan_paths.len()
            decreases self.scan_paths@.len() - i,
        {
            if path_exists(self.scan_paths[i].as_str()) {
                return true;
            }
            i = i + 1;
        }
        false
    }
}

} // verus!
