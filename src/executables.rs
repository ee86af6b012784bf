//! Where the bundled extractor and transcoder live for this machine.
use vstd::prelude::*;
use crate::storage::{Architecture, arch_dir};
use crate::text::append;

verus! {

/// The permission bits the bundled executables get (`rwxr-xr-x`).
pub const EXECUTABLE_MODE: u32 = 0o755;

/// `base` joined with the relative component `part`, as a Unix path: a
/// separator is put between them unless `base` is empty or already ends in one.
pub open spec fn join(base: Seq<char>, part: Seq<char>) -> Seq<char> {
    if base.len() == 0 {
        part
    } else if base.last() == '/' {
        base + part
    } else {
        base + "/"@ + part
    }
}

/// `<resource_dir>/bin/<arch>/<tool>`.
pub open spec fn tool_path(resource_dir: Seq<char>, arch: Architecture, tool: Seq<char>) -> Seq<char> {
    join(join(join(resource_dir, "bin"@), arch_dir(arch)), tool)
}

fn join_onto(base: &mut String, part: &str)
    requires
        part@.len() > 0,
    ensures
        final(base)@ == join(old(base)@, part@),
{
    let n = base.as_str().unicode_len();
    if n > 0 && base.as_str().get_char(n - 1) != '/' {
        append(base, "/");
    }
    append(base, part);
}

/// Locates the bundled executables under a resource directory.
#[derive(Clone, Debug)]
pub struct ExecutableManager {
    pub resource_dir: String,
    pub arch: Architecture,
}

impl ExecutableManager {
    /// A manager for the executables under `resource_dir`, built for `arch`.
    pub fn from_parts(resource_dir: String, arch: Architecture) -> (r: ExecutableManager)
        ensures
            r.resource_dir == resource_dir,
            r.arch == arch,
    {
        ExecutableManager { resource_dir, arch }
    }

    fn tool(&self, name: &str) -> (r: String)
        requires
            name@.len() > 0,
        ensures
            r@ == tool_path(self.resource_dir@, self.arch, name@),
    {
        let mut p = self.resource_dir.clone();
        proof {
            reveal_strlit("bin");
        }
        join_onto(&mut p, "bin");
        let dir = self.arch.dir_name();
        proof {
            reveal_strlit("x86_64");
            reveal_strlit("aarch64");
        }
        join_onto(&mut p, dir);
        join_onto(&mut p, name);
        p
    }

    /// The bundled extractor: `<resource_dir>/bin/<arch>/yt-dlp`.
    pub fn get_ytdlp_path(&self) -> (r: String)
        ensures
            r@ == tool_path(self.resource_dir@, self.arch, "yt-dlp"@),
    {
        proof {
            reveal_strlit("yt-dlp");
        }
        self.tool("yt-dlp")
    }

    /// The bundled transcoder: `<resource_dir>/bin/<arch>/ffmpeg`.
    pub fn get_ffmpeg_path(&self) -> (r: String)
        ensures
            r@ == tool_path(self.resource_dir@, self.arch, "ffmpeg"@),
    {
        proof {
            reveal_strlit("ffmpeg");
        }
        self.tool("ffmpeg")
    }

    /// The executables to mark runnable, each with the mode it gets.
    pub fn set_executable_permissions(&self) -> (r: Vec<(String, u32)>)
        ensures
            r@.len() == 2,
            r@[0].0@ == tool_path(self.resource_dir@, self.arch, "yt-dlp"@),
            r@[1].0@ == tool_path(self.resource_dir@, self.arch, "ffmpeg"@),
            r@[0].1 == EXECUTABLE_MODE,
            r@[1].1 == EXECUTABLE_MODE,
    {
        let mut r: Vec<(String, u32)> = Vec::new();
        r.push((self.get_ytdlp_path(), EXECUTABLE_MODE));
        r.push((self.get_ffmpeg_path(), EXECUTABLE_MODE));
        r
    }

    /// The architecture the executables are for.
    pub fn architecture(&self) -> (r: Architecture)
        ensures
            r == self.arch,
    {
        self.arch
    }
}

/// Keeps the extractor up to date.
#[derive(Clone, Debug)]
pub struct UpdateService {
    pub ytdlp_path: String,
    pub arch: Architecture,
}

impl UpdateService {
    /// A service for the extractor at `ytdlp_path`, built for `arch`.
    pub fn new(ytdlp_path: String, arch: Architecture) -> (r: UpdateService)
        ensures
            r.ytdlp_path == ytdlp_path,
            r.arch == arch,
    {
        UpdateService { ytdlp_path, arch }
    }
}

} // verus!
