use vstd::prelude::*;
use crate::error::ReleaseError;
use crate::platform::Platform;
use crate::text::{is_blank, trim, trim_seq};

verus! {

/// `a` followed by `b`.
pub fn concat(a: &str, b: &str) -> (r: String)
    ensures
        r@ == a@ + b@,
{
    String::from_str(a).concat(b)
}

/// Characters that a version may hold: it is used as a path segment, a git tag
/// and a torrent comment.
pub open spec fn is_version_char(c: char) -> bool {
    ('a' <= c && c <= 'z') || ('A' <= c && c <= 'Z') || ('0' <= c && c <= '9') || c == '.'
        || c == '-' || c == '_' || c == '+'
}

/// A version that is safe as a path segment and as a git reference.
pub open spec fn is_valid_version(v: Seq<char>) -> bool {
    &&& v.len() > 0
    &&& v[0] != '.'
    &&& forall|k: int| 0 <= k < v.len() ==> is_version_char(#[trigger] v[k])
}

fn is_version_char_exec(c: char) -> (r: bool)
    ensures
        r == is_version_char(c),
{
    ('a' <= c && c <= 'z') || ('A' <= c && c <= 'Z') || ('0' <= c && c <= '9') || c == '.'
        || c == '-' || c == '_' || c == '+'
}

/// Reads the version from the text of a version file: the text without
/// surrounding blanks, which must be a valid version.
pub fn parse_version(content: &str) -> (r: Result<String, ReleaseError>)
    ensures
        is_valid_version(trim_seq(content@)) ==> r is Ok && r->Ok_0@ == trim_seq(content@),
        !is_valid_version(trim_seq(content@)) ==> r == Err::<String, ReleaseError>(
            ReleaseError::Configuration,
        ),
{
    let v = trim(content);
    let s = v.as_str();
    let n = s.unicode_len();
    if n == 0 {
        return Err(ReleaseError::Configuration);
    }
    if s.get_char(0) == '.' {
        return Err(ReleaseError::Configuration);
    }
    let mut i: usize = 0;
    while i < n
        invariant
            n == s@.len(),
            s@ == v@,
            v@ == trim_seq(content@),
            i <= n,
            forall|k: int| 0 <= k < i ==> is_version_char(#[trigger] s@[k]),
        decreases n - i,
    {
        if !is_version_char_exec(s.get_char(i)) {
            assert(!is_version_char(s@[i as int]));
            return Err(ReleaseError::Configuration);
        }
        i = i + 1;
    }
    Ok(v)
}

/// What one release is: the product, the platform and the version.
pub struct ReleaseDescriptor {
    pub product: String,
    pub platform: Platform,
    pub version: String,
}

pub open spec fn config_dir_spec(product: Seq<char>, platform: Platform) -> Seq<char> {
    "./data/"@ + product + "/"@ + platform.dir_name_spec() + "/"@
}

/// The configuration directory of a product on a platform:
/// `./data/<product>/<platform>/`.
pub fn config_dir(product: &str, platform: Platform) -> (r: String)
    ensures
        r@ == config_dir_spec(product@, platform),
{
    let a = concat("./data/", product);
    let b = concat(a.as_str(), "/");
    let c = concat(b.as_str(), platform.dir_name().as_str());
    concat(c.as_str(), "/")
}

/// The version file in a configuration directory.
pub fn version_file(product: &str, platform: Platform) -> (r: String)
    ensures
        r@ == config_dir_spec(product@, platform) + "version.dat"@,
{
    concat(config_dir(product, platform).as_str(), "version.dat")
}

/// The build manifest file in a configuration directory.
pub fn build_file(product: &str, platform: Platform) -> (r: String)
    ensures
        r@ == config_dir_spec(product@, platform) + "build.dat"@,
{
    concat(config_dir(product, platform).as_str(), "build.dat")
}

/// The root of the release repository.
pub open spec fn release_repo_spec() -> Seq<char> {
    "../wei-release"@
}

pub fn release_repo() -> (r: String)
    ensures
        r@ == release_repo_spec(),
{
    String::from_str("../wei-release")
}

pub open spec fn source_dir_spec(name: Seq<char>) -> Seq<char> {
    "../"@ + name
}

/// The source tree of a sub-product: a sibling directory named after it.
pub fn source_dir(name: &str) -> (r: String)
    ensures
        r@ == source_dir_spec(name@),
{
    concat("../", name)
}

impl ReleaseDescriptor {
    /// Makes a descriptor from the text of the version file.
    pub fn new(product: &str, platform: Platform, version_text: &str) -> (r: Result<
        ReleaseDescriptor,
        ReleaseError,
    >)
        ensures
            is_valid_version(trim_seq(version_text@)) ==> r is Ok && r->Ok_0.product@ == product@
                && r->Ok_0.platform == platform && r->Ok_0.version@ == trim_seq(version_text@),
            !is_valid_version(trim_seq(version_text@)) ==> r is Err && r->Err_0
                == ReleaseError::Configuration,
            r is Ok ==> r->Ok_0.wf(),
    {
        match parse_version(version_text) {
            Ok(v) => Ok(ReleaseDescriptor { product: String::from_str(product), platform, version: v }),
            Err(e) => Err(e),
        }
    }

    pub open spec fn wf(&self) -> bool {
        is_valid_version(self.version@)
    }

    pub open spec fn os_dir_spec(&self) -> Seq<char> {
        release_repo_spec() + "/"@ + self.product@ + "/"@ + self.platform.dir_name_spec() + "/"@
    }

    pub open spec fn release_dir_spec(&self) -> Seq<char> {
        self.os_dir_spec() + self.version@ + "/"@
    }

    pub open spec fn data_dir_spec(&self) -> Seq<char> {
        self.release_dir_spec() + "data/"@
    }

    pub open spec fn stable_binary_spec(&self, name: Seq<char>) -> Seq<char> {
        self.os_dir_spec() + "stable/"@ + name + self.platform.exe_suffix_spec()
    }

    pub open spec fn output_binary_spec(&self, output: Seq<char>) -> Seq<char> {
        self.release_dir_spec() + output + self.platform.exe_suffix_spec()
    }

    pub open spec fn built_binary_spec(&self, name: Seq<char>) -> Seq<char> {
        source_dir_spec(name) + match self.platform {
            Platform::Windows => "/target/release/"@,
            _ => "/target/x86_64-unknown-linux-musl/release/"@,
        } + name + self.platform.exe_suffix_spec()
    }

    /// `../wei-release/<product>/<platform>/`: where the releases of the
    /// product for the platform live.
    pub fn os_dir(&self) -> (r: String)
        ensures
            r@ == self.os_dir_spec(),
    {
        let a = concat(release_repo().as_str(), "/");
        let b = concat(a.as_str(), self.product.as_str());
        let c = concat(b.as_str(), "/");
        let d = concat(c.as_str(), self.platform.dir_name().as_str());
        concat(d.as_str(), "/")
    }

    /// The release tree of this version: `<os dir><version>/`.
    pub fn release_dir(&self) -> (r: String)
        ensures
            r@ == self.release_dir_spec(),
    {
        let a = concat(self.os_dir().as_str(), self.version.as_str());
        concat(a.as_str(), "/")
    }

    /// The payload directory of the release tree: `<release dir>data/`.
    pub fn data_dir(&self) -> (r: String)
        ensures
            r@ == self.data_dir_spec(),
    {
        concat(self.release_dir().as_str(), "data/")
    }

    /// A previously published binary of a sub-product that is reused as it is.
    pub fn stable_binary(&self, name: &str) -> (r: String)
        ensures
            r@ == self.stable_binary_spec(name@),
    {
        let a = concat(self.os_dir().as_str(), "stable/");
        let b = concat(a.as_str(), name);
        concat(b.as_str(), self.platform.exe_suffix().as_str())
    }

    /// Where the binary of a sub-product goes in the release tree.
    pub fn output_binary(&self, output: &str) -> (r: String)
        ensures
            r@ == self.output_binary_spec(output@),
    {
        let a = concat(self.release_dir().as_str(), output);
        concat(a.as_str(), self.platform.exe_suffix().as_str())
    }

    /// Where the build tool leaves the binary of a sub-product.
    pub fn built_binary(&self, name: &str) -> (r: String)
        ensures
            r@ == self.built_binary_spec(name@),
    {
        let a = source_dir(name);
        let b = match self.platform {
            Platform::Windows => concat(a.as_str(), "/target/release/"),
            _ => concat(a.as_str(), "/target/x86_64-unknown-linux-musl/release/"),
        };
        let c = concat(b.as_str(), name);
        concat(c.as_str(), self.platform.exe_suffix().as_str())
    }

    /// The copy of the version file kept beside the releases of the platform.
    pub fn latest_version_file(&self) -> (r: String)
        ensures
            r@ == self.os_dir_spec() + "version.dat"@,
    {
        concat(self.os_dir().as_str(), "version.dat")
    }

    /// The checksum manifest of the release tree.
    pub fn checksum_file(&self) -> (r: String)
        ensures
            r@ == self.data_dir_spec() + "checksum.dat"@,
    {
        concat(self.data_dir().as_str(), "checksum.dat")
    }

    /// The compressed release tree: `<os dir><version>.tar.xz`.
    pub fn archive_file(&self) -> (r: String)
        ensures
            r@ == self.os_dir_spec() + self.version@ + ".tar.xz"@,
    {
        let a = concat(self.os_dir().as_str(), self.version.as_str());
        concat(a.as_str(), ".tar.xz")
    }

    /// The torrent descriptor of the archive: `<os dir><version>.torrent`.
    pub fn torrent_file(&self) -> (r: String)
        ensures
            r@ == self.os_dir_spec() + self.version@ + ".torrent"@,
    {
        let a = concat(self.os_dir().as_str(), self.version.as_str());
        concat(a.as_str(), ".torrent")
    }
}

} // verus!
