//! `build`: an image from a build file.

use vstd::prelude::*;

use crate::commands::common;
use crate::commands::common::{insert_pairs, Platform};
use crate::oci::opt_view;
use crate::path;
use crate::path::path_join;
use crate::strmap;
use crate::strmap::StrMap;
use crate::text;
use crate::text::{cat2, cat3, cat4, str_eq};

verus! {

/// The arguments of `build`.
#[derive(Debug)]
pub struct BuildArgs {
    pub path: String,
    pub tag: Option<String>,
    pub file: Option<String>,
    pub build_arg: Vec<String>,
    pub quiet: bool,
    pub platform: Option<String>,
}

/// What is said of a build context that is no directory.
pub fn not_a_directory(context: &str) -> (r: String)
    ensures
        r@ == "Build context '"@ + context@ + "' is not a directory"@,
{
    cat3("Build context '", context, "' is not a directory")
}

/// Why an image cannot be built for platforms, where it cannot.
pub open spec fn platforms_error(platforms: Seq<Platform>, host_arch: Seq<char>) -> Option<Seq<char>> {
    if platforms.len() > 1 {
        Some("multi-platform image indexes are not implemented yet; pass a single --platform"@)
    } else if platforms.len() == 0 {
        None
    } else if platforms[0].os@ != "linux"@ {
        Some(
            "build platform '"@ + platforms[0].label@ + "' is not supported: a3s-box builds Linux images only"@,
        )
    } else if platforms[0].architecture@ != host_arch {
        Some(
            "build platform '"@ + platforms[0].label@
                + "' requires cross-architecture execution, which is not implemented; host architecture is "@
                + host_arch,
        )
    } else {
        None
    }
}

/// Refuses the platforms that an image cannot be built for.
pub fn validate_build_platforms(platforms: &Vec<Platform>, host_arch: &str) -> (r: Result<(), String>)
    ensures
        match r {
            Ok(_) => platforms_error(platforms@, host_arch@) is None,
            Err(e) => platforms_error(platforms@, host_arch@) == Some(e@),
        },
{
    if platforms.len() > 1 {
        return Err("multi-platform image indexes are not implemented yet; pass a single --platform".to_string());
    }
    if platforms.len() == 0 {
        return Ok(());
    }
    let p = &platforms[0];
    if !str_eq(&p.os, "linux") {
        return Err(cat3("build platform '", &p.label, "' is not supported: a3s-box builds Linux images only"));
    }
    if !str_eq(&p.architecture, host_arch) {
        return Err(
            cat4(
                "build platform '",
                &p.label,
                "' requires cross-architecture execution, which is not implemented; host architecture is ",
                host_arch,
            ),
        );
    }
    Ok(())
}

/// Parse KEY=VALUE pairs into a map.
pub fn parse_build_args(args: &Vec<String>) -> (r: Result<StrMap<String>, String>)
    ensures
        match r {
            Ok(map) => common::with_pairs(Map::empty(), text::strs(args@)) == Some(strmap::texts(map@)),
            Err(e) => {
                &&& common::with_pairs(Map::empty(), text::strs(args@)) is None
                &&& exists|i: int|
                    common::first_without_equals(text::strs(args@), i) && e@
                        == "Invalid build arg (expected KEY=VALUE): "@ + text::strs(args@)[i]
            },
        },
{
    let mut map: StrMap<String> = StrMap::new();
    assert(strmap::texts(map@) =~= Map::empty());
    match insert_pairs(&mut map, args) {
        Ok(_) => Ok(map),
        Err(v) => Err(cat2("Invalid build arg (expected KEY=VALUE): ", &v)),
    }
}

/// The path of a build file that is asked for.
pub fn explicit_build_file(context_dir: &str, file: &str) -> (r: String)
    ensures
        r@ == path::under(context_dir@, file@),
{
    path_join(context_dir, file)
}

/// Which of the files that a build file can be exist.
#[derive(Clone, Copy)]
pub struct BuildFiles {
    /// The file that is asked for, where one is.
    pub explicit: bool,
    pub dockerfile: bool,
    pub containerfile: bool,
}

/// The build file: the one that is asked for, or else `Dockerfile`, or else
/// `Containerfile`; why there is none, where there is none.
pub open spec fn build_file(context: Seq<char>, file: Option<Seq<char>>, exist: BuildFiles) -> Result<Seq<char>, Seq<char>> {
    match file {
        Some(f) => if exist.explicit {
            Ok(path::under(context, f))
        } else {
            Err("Build file not found at "@ + path::under(context, f))
        },
        None => if exist.dockerfile {
            Ok(path::under(context, "Dockerfile"@))
        } else if exist.containerfile {
            Ok(path::under(context, "Containerfile"@))
        } else {
            Err("Build file not found: expected Dockerfile or Containerfile in "@ + context)
        },
    }
}

/// The build file, by which files exist.
pub fn resolve_build_file(context_dir: &str, file: Option<&str>, exist: BuildFiles) -> (r: Result<String, String>)
    ensures
        match r {
            Ok(p) => build_file(context_dir@, opt_view(file), exist) == Ok::<Seq<char>, Seq<char>>(p@),
            Err(e) => build_file(context_dir@, opt_view(file), exist) == Err::<Seq<char>, Seq<char>>(e@),
        },
{
    if let Some(f) = file {
        let path = explicit_build_file(context_dir, f);
        if exist.explicit {
            return Ok(path);
        }
        return Err(cat2("Build file not found at ", &path));
    }
    if exist.dockerfile {
        return Ok(path_join(context_dir, "Dockerfile"));
    }
    if exist.containerfile {
        return Ok(path_join(context_dir, "Containerfile"));
    }
    Err(cat2("Build file not found: expected Dockerfile or Containerfile in ", context_dir))
}

/// The file that is given is taken where it is there; without one the Dockerfile goes
/// before the Containerfile; and without any of them nothing is built.
pub proof fn lemma_build_file_found(
    context: &str,
    file: Option<&str>,
    exist: BuildFiles,
    r: Result<String, String>,
)
    requires
        call_ensures(resolve_build_file, (context, file, exist), r),
    ensures
        file is Some ==> (r is Ok <==> exist.explicit),
        file is Some && r is Ok ==> text::has_suffix(r->Ok_0@, file->0@),
        file is None ==> (r is Ok <==> exist.dockerfile || exist.containerfile),
        file is None && exist.dockerfile ==> text::has_suffix(r->Ok_0@, "Dockerfile"@),
        file is None && !exist.dockerfile && exist.containerfile ==> text::has_suffix(
            r->Ok_0@,
            "Containerfile"@,
        ),
{
    if r is Ok {
        let p = r->Ok_0@;
        let rel = if file is Some {
            file->0@
        } else if exist.dockerfile {
            "Dockerfile"@
        } else {
            "Containerfile"@
        };
        assert(p == path::under(context@, rel));
        assert(p.skip(p.len() - rel.len()) =~= rel);
    }
}

/// An image is built for the host's own platform and for no more than one.
pub proof fn lemma_built_for_the_host(platforms: Vec<Platform>, host_arch: &str, r: Result<(), String>)
    requires
        call_ensures(validate_build_platforms, (&platforms, host_arch), r),
    ensures
        platforms@.len() == 0 ==> r is Ok,
        platforms@.len() > 1 ==> r is Err,
        platforms@.len() == 1 ==> (r is Ok <==> platforms@[0].os@ == "linux"@
            && platforms@[0].architecture@ == host_arch@),
{
}

/// Arguments of a build are read as variables are.
pub proof fn lemma_build_args_read(
    args: Vec<String>,
    read: Result<StrMap<String>, String>,
    r: Result<StrMap<String>, String>,
)
    requires
        call_ensures(common::parse_env_vars, (&args,), read),
        call_ensures(parse_build_args, (&args,), r),
    ensures
        r is Ok <==> read is Ok,
        r is Ok ==> strmap::texts((r->Ok_0)@) == strmap::texts((read->Ok_0)@),
{
}

} // verus!
