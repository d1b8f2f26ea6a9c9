//! Where the application's files are: its JSON files in the user's
//! configuration directory, the color scheme in `~/.pfauterminal`, and the
//! OpenSSH files in the home directory. The directories come from the
//! platform (`dirs`); the rest is joining. Paths are kept as the bytes of
//! the platform's path, so that no directory name is lost.
use vstd::prelude::*;

use crate::ssh::{join_path, spec_join_path};
use vstd::string::StringSliceAdditionalSpecFns;

verus! {

/// The user's configuration directory (`dirs::config_dir`), as the bytes
/// of the path (`OsString::into_encoded_bytes`). Nothing is stated of the
/// value: it comes from the environment.
#[verifier::external_body]
fn config_dir() -> Option<Vec<u8>> {
    match dirs::config_dir() {
        Some(p) => Some(p.into_os_string().into_encoded_bytes()),
        None => None,
    }
}

/// `file` in the application's directory under the configuration directory `dir`.
pub open spec fn spec_config_file_in(dir: Seq<u8>, file: Seq<u8>) -> Seq<u8> {
    spec_join_path(spec_join_path(dir, "pfauterminal".spec_bytes()), file)
}

/// `file` in the application's directory under the configuration directory `dir`.
pub fn config_file_in(dir: &[u8], file: &str) -> (r: Vec<u8>)
    ensures
        r@ == spec_config_file_in(dir@, file.spec_bytes()),
{
    let app_dir = join_path(dir, "pfauterminal".as_bytes());
    join_path(app_dir.as_slice(), file.as_bytes())
}

/// `file` in the application's directory (`sessions.json`, `hotkeys.json`),
/// when the user has a configuration directory.
pub fn config_file_path(file: &str) -> (r: Option<Vec<u8>>)
    ensures
        r matches Some(p) ==> exists|dir: Seq<u8>|
            p@ == #[trigger] spec_config_file_in(dir, file.spec_bytes()),
{
    match config_dir() {
        Some(d) => Some(config_file_in(d.as_slice(), file)),
        None => None,
    }
}

/// The color scheme's file under the home directory `home`:
/// `~/.pfauterminal/colors.json`.
pub open spec fn spec_colors_file_in(home: Seq<u8>) -> Seq<u8> {
    spec_join_path(spec_join_path(home, ".pfauterminal".spec_bytes()), "colors.json".spec_bytes())
}

/// The color scheme's file under the home directory `home`.
pub fn colors_file_in(home: &[u8]) -> (r: Vec<u8>)
    ensures
        r@ == spec_colors_file_in(home@),
{
    let dir = join_path(home, ".pfauterminal".as_bytes());
    join_path(dir.as_slice(), "colors.json".as_bytes())
}

/// The color scheme's file, `~/.pfauterminal/colors.json`; under the
/// current directory when there is no home directory.
pub fn colors_path() -> (r: Vec<u8>)
    ensures
        exists|home: Seq<u8>| r@ == #[trigger] spec_colors_file_in(home),
{
    match crate::ssh::home_dir() {
        Some(h) => colors_file_in(h.as_slice()),
        None => colors_file_in(".".as_bytes()),
    }
}

/// The directory of the user's SSH files under the home directory `home`.
pub fn ssh_dir_in(home: &[u8]) -> (r: Vec<u8>)
    ensures
        r@ == spec_join_path(home@, ".ssh".spec_bytes()),
{
    join_path(home, ".ssh".as_bytes())
}

/// The OpenSSH client configuration under the home directory `home`.
pub fn ssh_config_in(home: &[u8]) -> (r: Vec<u8>)
    ensures
        r@ == spec_join_path(spec_join_path(home@, ".ssh".spec_bytes()), "config".spec_bytes()),
{
    let dir = ssh_dir_in(home);
    join_path(dir.as_slice(), "config".as_bytes())
}

/// The directory of the user's SSH files, when there is a home directory.
pub fn ssh_dir() -> (r: Option<Vec<u8>>)
    ensures
        r matches Some(p) ==> exists|home: Seq<u8>|
            p@ == #[trigger] spec_join_path(home, ".ssh".spec_bytes()),
{
    match crate::ssh::home_dir() {
        Some(h) => Some(ssh_dir_in(h.as_slice())),
        None => None,
    }
}

/// The OpenSSH client configuration (`~/.ssh/config`), when there is a home directory.
pub fn ssh_config_path() -> (r: Option<Vec<u8>>)
    ensures
        r matches Some(p) ==> exists|home: Seq<u8>|
            p@ == spec_join_path(#[trigger] spec_join_path(home, ".ssh".spec_bytes()), "config".spec_bytes()),
{
    match crate::ssh::home_dir() {
        Some(h) => Some(ssh_config_in(h.as_slice())),
        None => None,
    }
}

} // verus!
