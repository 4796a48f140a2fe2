//! Where the native library comes from: the platform naming scheme for its
//! release artifacts, and the configured path it is loaded from.
//!
//! Reading the machine's architecture and operating system is the host's
//! business; the mapping from those raw names to the platform label, file
//! name and download address of the matching release artifact is decided
//! here.

use vstd::prelude::*;
use vstd::string::*;

use crate::utils::{contains_seq, str_contains, str_eq};

verus! {

/// The platform a native library artifact is named after.
#[derive(Debug, Clone)]
pub struct PlatformInfo {
    pub arch: String,
    pub os: String,
    pub variant: Option<String>,
}

/// The architecture label for a raw architecture name: only `x86` is
/// renamed, to `i386`; every other name is kept.
pub open spec fn arch_label(raw_arch: Seq<char>) -> Seq<char> {
    if raw_arch == "x86"@ {
        "i386"@
    } else {
        raw_arch
    }
}

/// The operating-system label for a raw name: a linux is split by libc
/// flavor (and by the arm hard-float convention), windows is called
/// `win32`, and every other name is kept.
pub open spec fn os_label(raw_os: Seq<char>, arch: Seq<char>, is_musl: bool) -> Seq<char> {
    if raw_os == "linux"@ {
        if is_musl {
            "linux-musl"@
        } else if arch == "arm"@ {
            "linux-gnueabihf"@
        } else {
            "linux-gnu"@
        }
    } else if raw_os == "windows"@ {
        "win32"@
    } else {
        raw_os
    }
}

/// The architecture written into an artifact file name: on windows the two
/// 32-bit x86 names become `i686`.
pub open spec fn artifact_arch(arch: Seq<char>, os: Seq<char>) -> Seq<char> {
    if contains_seq(os, "win32"@) && (arch == "x86"@ || arch == "i386"@) {
        "i686"@
    } else {
        arch
    }
}

/// The file name of the release artifact for a platform.
pub open spec fn download_filename_spec(
    arch: Seq<char>,
    os: Seq<char>,
    is_libcurl: bool,
) -> Seq<char> {
    let prefix = if is_libcurl {
        "lib@tocha688/libcurl"@
    } else {
        "@tocha688/libcurl"@
    };
    prefix + "-"@ + "v1.0.0"@ + "-"@ + artifact_arch(arch, os) + "-"@ + os + ".tar.gz"@
}

/// The download address of the release artifact for a platform.
pub open spec fn download_url_spec(arch: Seq<char>, os: Seq<char>, is_libcurl: bool) -> Seq<
    char,
> {
    "https://github.com/lexiforest/@tocha688/libcurl/releases/download"@ + "/"@ + "v1.0.0"@
        + "/"@ + download_filename_spec(arch, os, is_libcurl)
}

impl PlatformInfo {
    /// The platform labels for raw architecture and operating-system names,
    /// as the host read them, and whether the linux libc is musl.
    pub fn classify(raw_arch: &str, raw_os: &str, is_musl: bool) -> (p: PlatformInfo)
        ensures
            p.arch@ == arch_label(raw_arch@),
            p.os@ == os_label(raw_os@, arch_label(raw_arch@), is_musl),
            p.variant is None,
    {
        let arch: String = if str_eq(raw_arch, "x86") {
            String::from_str("i386")
        } else {
            String::from_str(raw_arch)
        };
        let os: String = if str_eq(raw_os, "linux") {
            if is_musl {
                String::from_str("linux-musl")
            } else if str_eq(arch.as_str(), "arm") {
                String::from_str("linux-gnueabihf")
            } else {
                String::from_str("linux-gnu")
            }
        } else if str_eq(raw_os, "windows") {
            String::from_str("win32")
        } else {
            String::from_str(raw_os)
        };
        PlatformInfo { arch, os, variant: None }
    }

    /// The file name of this platform's release artifact: the prefix (with
    /// or without the `lib` marker), the release tag, the artifact
    /// architecture and the platform label, dash-separated, as a tarball.
    pub fn get_download_filename(&self, is_libcurl: bool) -> (r: String)
        ensures
            r@ == download_filename_spec(self.arch@, self.os@, is_libcurl),
    {
        let prefix: &str = if is_libcurl {
            "lib@tocha688/libcurl"
        } else {
            "@tocha688/libcurl"
        };
        let windows = str_contains(self.os.as_str(), "win32");
        let arch_fixed: &str = if windows && (str_eq(self.arch.as_str(), "x86") || str_eq(
            self.arch.as_str(),
            "i386",
        )) {
            "i686"
        } else {
            self.arch.as_str()
        };
        let mut r = String::from_str(prefix);
        r.append("-");
        r.append("v1.0.0");
        r.append("-");
        r.append(arch_fixed);
        r.append("-");
        r.append(self.os.as_str());
        r.append(".tar.gz");
        proof {
            assert(r@ =~= download_filename_spec(self.arch@, self.os@, is_libcurl));
        }
        r
    }

    /// The download address of this platform's release artifact: the release
    /// page, the release tag, and the artifact file name.
    pub fn get_download_url(&self, is_libcurl: bool) -> (r: String)
        ensures
            r@ == download_url_spec(self.arch@, self.os@, is_libcurl),
    {
        let filename = self.get_download_filename(is_libcurl);
        let mut r = String::from_str(
            "https://github.com/lexiforest/@tocha688/libcurl/releases/download",
        );
        r.append("/");
        r.append("v1.0.0");
        r.append("/");
        r.append(filename.as_str());
        proof {
            assert(r@ =~= download_url_spec(self.arch@, self.os@, is_libcurl));
        }
        r
    }
}

/// The configured path of the native library, if one was set.
pub struct LibPathConfig {
    path: Option<String>,
}

impl LibPathConfig {
    pub closed spec fn spec_path(self) -> Option<String> {
        self.path
    }

    /// No path configured yet.
    pub fn new() -> (r: LibPathConfig)
        ensures
            r.spec_path() is None,
    {
        LibPathConfig { path: None }
    }
}

/// Configures the path the native library is loaded from.
pub fn set_lib_path(config: &mut LibPathConfig, path: String)
    ensures
        final(config).spec_path() == Some(path),
{
    config.path = Some(path);
}

/// The configured native-library path, if one was set.
pub fn get_lib_path(config: &LibPathConfig) -> (r: Option<String>)
    ensures
        r == config.spec_path(),
{
    match &config.path {
        Some(p) => Some(p.clone()),
        None => None,
    }
}

} // verus!
