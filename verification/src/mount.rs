//! The decisions of mounting the image with squashfuse: its command line,
//! how the runtime waits for the driver to report, and what the report means.
use vstd::prelude::*;

use crate::text::{all_digits, decimal, decimal_text, decimal_value, lemma_decimal_denotes, same_text};

verus! {

/// The template `mkdtemp` fills in to make a fresh mount point.
pub const MOUNTPOINT_TEMPLATE: &'static str = "/tmp/.mount_XXXXXX";

/// What squashfuse writes to its notify pipe once the image is mounted.
pub const MOUNTED_STATUS: &'static str = "s";

/// The arguments squashfuse is started with: the image's offset, the notify
/// pipe, unmounting when the runtime goes away, a one second timeout, then
/// the image and the mount point.
pub open spec fn squashfuse_argv(fs_offset: u64, notify_pipe: Seq<char>, squashfs: Seq<char>, mountpoint: Seq<char>) -> Seq<Seq<char>> {
    seq![
        "-ooffset="@ + decimal(fs_offset as nat),
        "-onotify_pipe="@ + notify_pipe,
        "-oauto_unmount"@,
        "-otimeout=1"@,
        squashfs,
        mountpoint,
    ]
}

/// The arguments of the squashfuse driver for an image at `fs_offset`.
pub fn squashfuse_args(fs_offset: u64, notify_pipe: &str, squashfs: &str, mountpoint: &str) -> (v: Vec<String>)
    ensures
        v@.map_values(|s: String| s@) == squashfuse_argv(fs_offset, notify_pipe@, squashfs@, mountpoint@),
{
    let mut offset = "-ooffset=".to_owned();
    offset.append(decimal_text(fs_offset).as_str());
    let mut pipe = "-onotify_pipe=".to_owned();
    pipe.append(notify_pipe);
    let mut v: Vec<String> = Vec::new();
    v.push(offset);
    v.push(pipe);
    v.push("-oauto_unmount".to_owned());
    v.push("-otimeout=1".to_owned());
    v.push(squashfs.to_owned());
    v.push(mountpoint.to_owned());
    assert(v@.map_values(|s: String| s@) =~= squashfuse_argv(fs_offset, notify_pipe@, squashfs@, mountpoint@));
    v
}

/// What the runtime sees after one short wait on the notify pipe.
pub enum WaitEvent {
    /// The notify pipe can be read.
    PipeReadable,
    /// The pipe cannot be read yet and the driver has exited.
    DriverExited,
    /// The pipe cannot be read yet and the driver is still running.
    DriverRunning,
}

/// What the runtime does next while waiting for squashfuse.
pub enum WaitAction {
    /// Read the driver's status from the pipe.
    ReadStatus,
    /// Give up: the driver exited without reporting.
    ReportExit,
    /// Wait again.
    WaitAgain,
}

/// The next step of the wait: read the pipe as soon as it is readable;
/// otherwise fail once the driver has exited, and wait while it runs.
pub fn next_wait_action(event: &WaitEvent) -> (a: WaitAction)
    ensures
        event is PipeReadable <==> a is ReadStatus,
        event is DriverExited <==> a is ReportExit,
        event is DriverRunning <==> a is WaitAgain,
{
    match event {
        WaitEvent::PipeReadable => WaitAction::ReadStatus,
        WaitEvent::DriverExited => WaitAction::ReportExit,
        WaitEvent::DriverRunning => WaitAction::WaitAgain,
    }
}

/// Whether the status read from the notify pipe reports a mounted image:
/// exactly `s`; anything else is a failure.
pub fn mount_succeeded(status: &str) -> (ok: bool)
    ensures
        ok == (status@ == MOUNTED_STATUS@),
{
    same_text(status, MOUNTED_STATUS)
}

/// The command line names the offset itself: the first argument is
/// `-ooffset=` followed by decimal digits that denote `fs_offset`; then the
/// notify pipe, the two fixed options, the image and the mount point.
pub proof fn lemma_offset_argument_denotes_offset(fs_offset: u64, notify_pipe: Seq<char>, squashfs: Seq<char>, mountpoint: Seq<char>)
    ensures
        ({
            let argv = squashfuse_argv(fs_offset, notify_pipe, squashfs, mountpoint);
            &&& argv.len() == 6
            &&& argv[0].len() >= "-ooffset="@.len()
            &&& argv[0].subrange(0, "-ooffset="@.len() as int) == "-ooffset="@
            &&& all_digits(argv[0].skip("-ooffset="@.len() as int))
            &&& decimal_value(argv[0].skip("-ooffset="@.len() as int)) == fs_offset
            &&& argv[1] == "-onotify_pipe="@ + notify_pipe
            &&& argv[4] == squashfs
            &&& argv[5] == mountpoint
        }),
{
    lemma_decimal_denotes(fs_offset as nat);
    let argv = squashfuse_argv(fs_offset, notify_pipe, squashfs, mountpoint);
    let p = "-ooffset="@;
    assert(argv[0].subrange(0, p.len() as int) =~= p);
    assert(argv[0].skip(p.len() as int) =~= decimal(fs_offset as nat));
}

} // verus!
