//! Where the daemon executable lies, how it is launched, and how it is made runnable.
use vstd::prelude::*;

verus! {

/// The platforms for which a daemon executable is packaged.
#[derive(PartialEq, Eq, Structural, Clone, Copy, Debug)]
pub enum Platform {
    MacOs,
    Linux,
    Windows,
}

/// The address on which the daemon serves its API.
pub open spec fn api_address() -> Seq<char> {
    "127.0.0.1:8332"@
}

pub open spec fn binary_name_of(p: Platform) -> Seq<char> {
    match p {
        Platform::MacOs => "blocknet-aarch64-apple-darwin"@,
        Platform::Linux => "blocknet-amd64-linux"@,
        Platform::Windows => "blocknet-amd64-windows.exe"@,
    }
}

/// The file name of the executable packaged for a platform.
pub fn binary_name(p: Platform) -> (r: String)
    ensures
        r@ == binary_name_of(p),
{
    match p {
        Platform::MacOs => String::from_str("blocknet-aarch64-apple-darwin"),
        Platform::Linux => String::from_str("blocknet-amd64-linux"),
        Platform::Windows => String::from_str("blocknet-amd64-windows.exe"),
    }
}

/// The subfolder of the packaged resources that holds the executables.
pub const BINARIES_FOLDER: &'static str = "binaries";

/// The subdirectory of the application directory that holds the daemon's state.
pub const DATA_FOLDER: &'static str = "data";

/// The file, inside the data directory, in which the daemon leaves its API token.
pub const COOKIE_FILE: &'static str = "api.cookie";

/// The file, inside the application directory, that names the active wallet.
pub const POINTER_FILE: &'static str = "active_wallet";

/// How long a provisioning run is given to write the wallet file, in milliseconds.
pub const PROVISION_GRACE_MS: u64 = 3000;

/// How long a fresh daemon is given before it is probed, in milliseconds.
pub const START_GRACE_MS: u64 = 2000;

/// The pause after killing what holds the API port, in milliseconds.
pub const SETTLE_MS: u64 = 500;

/// The bound on the readiness probe, in milliseconds.
pub const PROBE_TIMEOUT_MS: u64 = 2000;

/// Arguments of a long-running daemon on these data directory and wallet file.
pub fn daemon_args(data_dir: &str, wallet_path: &str) -> (r: Vec<String>)
    ensures
        r@.len() == 7,
        r@[0]@ == "--daemon"@,
        r@[1]@ == "--api"@,
        r@[2]@ == api_address(),
        r@[3]@ == "--data"@,
        r@[4]@ == data_dir@,
        r@[5]@ == "--wallet"@,
        r@[6]@ == wallet_path@,
{
    let mut r: Vec<String> = Vec::new();
    r.push(String::from_str("--daemon"));
    r.push(String::from_str("--api"));
    r.push(String::from_str("127.0.0.1:8332"));
    r.push(String::from_str("--data"));
    r.push(String::from_str(data_dir));
    r.push(String::from_str("--wallet"));
    r.push(String::from_str(wallet_path));
    r
}

/// Arguments of a provisioning run that creates this wallet file.
pub fn provision_args(wallet_path: &str, data_dir: &str) -> (r: Vec<String>)
    ensures
        r@.len() == 4,
        r@[0]@ == "--wallet"@,
        r@[1]@ == wallet_path@,
        r@[2]@ == "--data"@,
        r@[3]@ == data_dir@,
{
    let mut r: Vec<String> = Vec::new();
    r.push(String::from_str("--wallet"));
    r.push(String::from_str(wallet_path));
    r.push(String::from_str("--data"));
    r.push(String::from_str(data_dir));
    r
}

/// What a provisioning run reads on its input: the password, then its confirmation.
pub fn provision_input(password: &str) -> (r: String)
    ensures
        r@ == password@ + seq!['\n'] + password@ + seq!['\n'],
{
    proof {
        reveal_strlit("\n");
    }
    let r = String::from_str(password).concat("\n").concat(password).concat("\n");
    r
}

/// Whether a Unix permission mode lets nobody execute the file.
pub fn lacks_exec_bits(mode: u32) -> (r: bool)
    ensures
        r == (mode & 0o111 == 0),
{
    mode & 0o111 == 0
}

/// The mode with read and execute for everyone and write for the owner added.
pub fn with_exec_bits(mode: u32) -> (r: u32)
    ensures
        r == mode | 0o755,
        r & 0o111 == 0o111,
{
    let r = mode | 0o755;
    assert(r & 0o111 == 0o111) by (bit_vector)
        requires
            r == mode | 0o755,
    ;
    r
}

/// The alternate stream that holds the zone-of-origin marker of a downloaded file.
pub fn zone_marker_path(path: &str) -> (r: String)
    ensures
        r@ == path@ + ":Zone.Identifier"@,
{
    String::from_str(path).concat(":Zone.Identifier")
}

} // verus!
