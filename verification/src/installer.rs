use vstd::prelude::*;
use vstd::string::StringExecFns;
use crate::errors::InstallError;
use crate::paths::join_under;
use crate::paths::sanitize_entry_path;
use crate::paths::sanitized;
use crate::paths::join_components;
use crate::plan::FsAction;
use crate::plan::install_plan_spec;
use crate::plan::build_install_plan;

verus! {

/// What str::to_lowercase returns for a string: its lower-cased form, a
/// function of the input characters alone.
pub uninterp spec fn lower_case_of(s: Seq<char>) -> Seq<char>;

/// Relies on str::to_lowercase: the returned string depends on the input
/// characters alone.
#[verifier::external_body]
fn to_lower(s: &str) -> (r: String)
    ensures
        r@ == lower_case_of(s@),
{
    s.to_lowercase()
}

/// The host platform and the fixed locations one run works with: the base
/// URL the archives are fetched from, the host's kernel name and machine
/// architecture (both lower-cased), and the install root.
pub struct Installer {
    pub base_url: String,
    pub system: String,
    pub machine: String,
    pub install_path: String,
}

/// The fields an installer built by `new` always has: the fixed base URL
/// and the fixed install root.
pub open spec fn installer_wf(inst: Installer) -> bool {
    &&& inst.base_url@ == "https://unofficial-builds.nodejs.org/download/release"@
    &&& inst.install_path@ == "/opt/nodejs"@
}

impl Installer {
    /// Builds the installer for this host from the kernel name and machine
    /// architecture the caller read at process start; both are lower-cased
    /// here, and the base URL and install root are fixed.
    pub fn new(system: &str, machine: &str) -> (r: Installer)
        ensures
            installer_wf(r),
            r.system@ == lower_case_of(system@),
            r.machine@ == lower_case_of(machine@),
    {
        Installer {
            base_url: String::from_str("https://unofficial-builds.nodejs.org/download/release"),
            system: to_lower(system),
            machine: to_lower(machine),
            install_path: String::from_str("/opt/nodejs"),
        }
    }

    /// The install root path, for the caller to test for a prior
    /// installation and to report progress.
    pub fn install_root(&self) -> (r: &String)
        ensures
            r@ == self.install_path@,
    {
        &self.install_path
    }

    /// The lower-cased kernel name of the host.
    pub fn system(&self) -> (r: &String)
        ensures
            r@ == self.system@,
    {
        &self.system
    }

    /// The lower-cased machine architecture of the host.
    pub fn machine(&self) -> (r: &String)
        ensures
            r@ == self.machine@,
    {
        &self.machine
    }

    /// The archive file name for a version on this host:
    /// `node-<version>-<system>-<machine>.tar.gz`.
    pub fn archive_file_name(&self, version: &str) -> (r: String)
        ensures
            r@ == "node-"@ + version@ + "-"@ + self.system@ + "-"@ + self.machine@ + ".tar.gz"@,
    {
        String::from_str("node-").concat(version).concat("-").concat(self.system.as_str()).concat(
            "-",
        ).concat(self.machine.as_str()).concat(".tar.gz")
    }

    /// The URL the release catalog is fetched from: `<base>/index.json`.
    pub fn index_url(&self) -> (r: String)
        ensures
            r@ == self.base_url@ + "/index.json"@,
    {
        String::from_str(self.base_url.as_str()).concat("/index.json")
    }

    /// The URL an archive is fetched from: `<base>/<version>/<file>`.
    pub fn download_url(&self, version: &str, file: &str) -> (r: String)
        ensures
            r@ == self.base_url@ + "/"@ + version@ + "/"@ + file@,
    {
        String::from_str(self.base_url.as_str()).concat("/").concat(version).concat("/").concat(
            file,
        )
    }

    /// Where one archive entry is extracted to: its stored path sanitized —
    /// first segment dropped, normal segments kept in order — and joined
    /// under the install root. The result never leaves the install root.
    pub fn entry_dest_path(&self, stored: &str) -> (r: String)
        ensures
            r@ == join_under(self.install_path@, sanitized(stored@)),
    {
        let comps = sanitize_entry_path(stored);
        join_components(self.install_path.as_str(), &comps)
    }

    /// One whole installation of a version, as the filesystem mutations to
    /// perform in order: when a prior installation exists, unlink each
    /// published link and delete the install root; then create the root,
    /// extract the version's archive into it, and publish the nine links.
    /// This decides; the caller performs each action and owns the I/O.
    pub fn install(&self, prior_exists: bool, version: &String) -> (r: Vec<FsAction>)
        ensures
            r.deep_view() == install_plan_spec(self.install_path@, prior_exists, version@),
    {
        build_install_plan(self.install_path.as_str(), prior_exists, version)
    }
}

/// Whether a finished transfer succeeded: exactly status 200 is success,
/// and any other final status is `UnexpectedStatus` carrying that status.
pub fn check_status(code: u32) -> (r: Result<(), InstallError>)
    ensures
        r is Ok <==> code == 200,
        r matches Err(e) ==> e == InstallError::UnexpectedStatus(code),
{
    if code == 200 {
        Ok(())
    } else {
        Err(InstallError::UnexpectedStatus(code))
    }
}

} // verus!
