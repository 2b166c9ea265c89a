//! The runtime's command line: the `--appimage-*` option it consumes, the
//! action that option selects, the help text, and where the runtime finds
//! the AppImage and puts its contents.
use vstd::prelude::*;

use crate::extract::{glob_compiles, glob_pattern_ok};
use crate::text::{is_absolute, is_prefix, path_join, join_path, same_text, starts_with};

verus! {

/// Options that start with this are the runtime's own.
pub const APPIMAGE_OPTION_PREFIX: &'static str = "--appimage-";

/// What the runtime does.
#[derive(Clone, Copy, Debug, PartialEq, Eq, Structural)]
pub enum Action {
    /// Extract the image (or the paths a pattern selects) into `squashfs-root`.
    Extract,
    /// Extract the image into a temporary directory and run its `AppRun`.
    ExtractAndRun,
    /// Print the help text.
    Help,
    /// List the paths of the image.
    List,
    /// Mount the image and print the mount point.
    Mount,
    /// Mount the image and run its `AppRun` (no option given).
    MountAndRun,
    /// Print the offset of the image in the AppImage.
    Offset,
}

/// The strings of the arguments.
pub open spec fn texts(args: Seq<String>) -> Seq<Seq<char>> {
    args.map_values(|a: String| a@)
}

/// Whether the first argument is a runtime option.
pub open spec fn leads_with_option(args: Seq<String>) -> bool {
    args.len() > 0 && is_prefix(APPIMAGE_OPTION_PREFIX@, args[0]@)
}

/// Takes the first argument off when it is a runtime option (starts with
/// `--appimage-`) and returns it with the arguments that follow; otherwise
/// returns no option and all arguments. Only the first argument is looked at.
pub fn consume_appimage_arg(args: &[String]) -> (r: (Option<String>, &[String]))
    ensures
        leads_with_option(args@) ==> r.0 == Some(args@[0]) && r.1@ == args@.skip(1),
        !leads_with_option(args@) ==> r.0 is None && r.1@ == args@,
        // What was taken, put back in front of the rest, gives the arguments.
        texts(match r.0 {
            Some(a) => seq![a],
            None => Seq::empty(),
        } + r.1@) == texts(args@),
{
    if args.len() > 0 && starts_with(args[0].as_str(), APPIMAGE_OPTION_PREFIX) {
        let first = args[0].clone();
        let rest = vstd::slice::slice_subrange(args, 1, args.len());
        assert(seq![first] + rest@ =~= args@);
        (Some(first), rest)
    } else {
        assert(Seq::<String>::empty() + args@ =~= args@);
        (None, args)
    }
}

/// The action an option names, if it names one.
pub open spec fn named_action(opt: Seq<char>) -> Option<Action> {
    if opt == "--appimage-extract"@ {
        Some(Action::Extract)
    } else if opt == "--appimage-extract-and-run"@ {
        Some(Action::ExtractAndRun)
    } else if opt == "--appimage-help"@ {
        Some(Action::Help)
    } else if opt == "--appimage-mount"@ {
        Some(Action::Mount)
    } else if opt == "--appimage-list"@ {
        Some(Action::List)
    } else if opt == "--appimage-offset"@ {
        Some(Action::Offset)
    } else {
        None
    }
}

/// The action selected by the consumed option: mount and run when there is
/// none; an option the runtime does not know is refused and handed back.
pub fn action_from_arg(opt: Option<&str>) -> (r: Result<Action, String>)
    ensures
        opt is None ==> r == Ok::<Action, String>(Action::MountAndRun),
        opt matches Some(o) ==> match named_action(o@) {
            Some(a) => r == Ok::<Action, String>(a),
            None => r matches Err(e) && e@ == o@,
        },
{
    match opt {
        None => Ok(Action::MountAndRun),
        Some(o) => {
            if same_text(o, "--appimage-extract") {
                Ok(Action::Extract)
            } else if same_text(o, "--appimage-extract-and-run") {
                Ok(Action::ExtractAndRun)
            } else if same_text(o, "--appimage-help") {
                Ok(Action::Help)
            } else if same_text(o, "--appimage-mount") {
                Ok(Action::Mount)
            } else if same_text(o, "--appimage-list") {
                Ok(Action::List)
            } else if same_text(o, "--appimage-offset") {
                Ok(Action::Offset)
            } else {
                Err(o.to_owned())
            }
        },
    }
}

/// The glob pattern of an extraction: the first argument after
/// `--appimage-extract`, if any. A pattern that does not compile is refused
/// and handed back. Other actions take no pattern.
pub fn extract_pattern(action: Action, rest: &[String]) -> (r: Result<Option<String>, String>)
    ensures
        action != Action::Extract || rest@.len() == 0 ==> r == Ok::<Option<String>, String>(None),
        action == Action::Extract && rest@.len() > 0 ==> if glob_pattern_ok(rest@[0]@) {
            r == Ok::<Option<String>, String>(Some(rest@[0]))
        } else {
            r matches Err(p) && p@ == rest@[0]@
        },
{
    if action != Action::Extract || rest.len() == 0 {
        return Ok(None);
    }
    let p = rest[0].clone();
    if glob_compiles(p.as_str()) {
        Ok(Some(p))
    } else {
        Err(p)
    }
}

/// Where the runtime looks for the AppImage when nothing says otherwise.
pub const SELF_EXE: &'static str = "/proc/self/exe";

/// The AppImage's path: the one given (by `TARGET_APPIMAGE`) or the running
/// executable; a relative one is taken from the build working directory,
/// or from `.` when there is none.
pub open spec fn appimage_path_of(target: Option<Seq<char>>, build_dir: Option<Seq<char>>) -> Seq<char> {
    let prog = match target {
        Some(t) => t,
        None => SELF_EXE@,
    };
    if is_absolute(prog) {
        prog
    } else {
        path_join(
            match build_dir {
                Some(d) => d,
                None => "."@,
            },
            prog,
        )
    }
}

pub open spec fn opt_text(s: Option<&str>) -> Option<Seq<char>> {
    match s {
        Some(t) => Some(t@),
        None => None,
    }
}

/// The AppImage's path, from the values of `TARGET_APPIMAGE` and
/// `BUILD_WORKING_DIRECTORY` where they are set.
pub fn get_appimage_path(target: Option<&str>, build_dir: Option<&str>) -> (p: String)
    ensures
        p@ == appimage_path_of(opt_text(target), opt_text(build_dir)),
{
    let prog: &str = match target {
        Some(t) => t,
        None => SELF_EXE,
    };
    if prog.unicode_len() > 0 && prog.get_char(0) == '/' {
        prog.to_owned()
    } else {
        let dir: &str = match build_dir {
            Some(d) => d,
            None => ".",
        };
        join_path(dir, prog)
    }
}

/// The AppImage's path is absolute whenever the given path or the build
/// working directory is absolute.
pub proof fn lemma_appimage_path_absolute(target: Option<Seq<char>>, build_dir: Option<Seq<char>>)
    requires
        (target matches Some(t) && is_absolute(t)) || (build_dir matches Some(d) && is_absolute(d)),
    ensures
        is_absolute(appimage_path_of(target, build_dir)),
{
    let prog = match target {
        Some(t) => t,
        None => SELF_EXE@,
    };
    if !is_absolute(prog) {
        let d = build_dir.unwrap();
        let j = path_join(d, prog);
        assert(j[0] == d[0]);
    }
}

/// The help text, before the program's name.
pub const HELP_HEAD: &'static str = "appimage-runtime-rs: A type-2 AppImage runtime implementation in Rust, built with Bazel.\n\nUsage: ";

/// The help text, after the program's name.
pub const HELP_TAIL: &'static str = " [OPTION] [ARG]...\n\nOptions listed here will be consumed by the runtime. All other options will be passed to the application.\n\n--appimage-extract-and-run      Extract content from embedded filesystem image and execute the AppRun\n--appimage-extract [<pattern>]  Extract content from embedded filesystem image. If pattern is passed, only extract matching files\n--appimage-help                 Print this help\n--appimage-list                 List content from embedded filesystem image\n--appimage-mount                Mount embedded filesystem image and print mount point. Stop with Ctrl-C.\n--appimage-offset               Print byte offset to start of embedded filesystem image\n\nIt is an error to pass more than one of the above options.\nIt is an error to pass a --appimage-* option not listed above as the first argument.\n";

/// The help text for a program invoked as `argv0`.
pub fn help_text(argv0: &str) -> (s: String)
    ensures
        s@ == HELP_HEAD@ + argv0@ + HELP_TAIL@,
{
    let mut s = HELP_HEAD.to_owned();
    s.append(argv0);
    s.append(HELP_TAIL);
    s
}

/// The prefix of the hashed temporary directory an action extracts into:
/// extract-and-run uses one; the other actions use none.
pub fn staging_prefix(action: Action) -> (p: Option<&'static str>)
    ensures
        action == Action::ExtractAndRun ==> p == Some("appimage_extracted_"),
        action != Action::ExtractAndRun ==> p is None,
{
    match action {
        Action::ExtractAndRun => Some("appimage_extracted_"),
        _ => None,
    }
}

/// The directory `--appimage-extract` extracts into, inside `cwd`.
pub fn extract_dir(cwd: &str) -> (p: String)
    ensures
        p@ == path_join(cwd@, "squashfs-root"@),
{
    join_path(cwd, "squashfs-root")
}

/// Whether the action ends by running the image's `AppRun`.
pub fn runs_entrypoint(action: Action) -> (b: bool)
    ensures
        b == (action == Action::MountAndRun || action == Action::ExtractAndRun),
{
    action == Action::MountAndRun || action == Action::ExtractAndRun
}

/// The program the runtime runs: `AppRun` in the application directory.
pub fn entrypoint(appdir: &str) -> (p: String)
    ensures
        p@ == path_join(appdir@, "AppRun"@),
{
    join_path(appdir, "AppRun")
}

/// An absolute program path is used as it is, whatever the build working
/// directory: the given one, or `/proc/self/exe` when none is given. Only a
/// relative one is joined onto the build directory (or `.`).
pub proof fn lemma_absolute_path_kept(target: Option<Seq<char>>, build_dir: Option<Seq<char>>)
    ensures
        match target {
            None => appimage_path_of(target, build_dir) == "/proc/self/exe"@,
            Some(t) => if is_absolute(t) {
                appimage_path_of(target, build_dir) == t
            } else {
                appimage_path_of(target, build_dir) == path_join(
                    match build_dir {
                        Some(d) => d,
                        None => "."@,
                    },
                    t,
                )
            },
        },
{
    reveal_strlit("/proc/self/exe");
    assert(is_absolute("/proc/self/exe"@));
}

} // verus!
