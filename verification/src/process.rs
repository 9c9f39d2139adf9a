//! The preprocessing cache: where the processed copy of a track lies,
//! whether the tool has to run for it, and with which arguments.

use vstd::prelude::*;
use crate::text::{text_of, texts};

verus! {

/// The final component of the path `path`, as `std::path::Path::file_name`
/// reads it; absent where the path ends in `..` or has no component.
pub uninterp spec fn file_name_of(path: Seq<char>) -> Option<Seq<char>>;

/// The path `dir` with `name` adjoined, as `std::path::Path::join` forms
/// it.
pub uninterp spec fn joined(dir: Seq<char>, name: Seq<char>) -> Seq<char>;

/// Calls `std::path::Path::file_name` on `path`. The result is the file
/// name as text; the contract only names it `file_name_of(path@)`.
#[verifier::external_body]
fn path_file_name(path: &str) -> (r: Option<String>)
    ensures
        r is Some <==> file_name_of(path@) is Some,
        r is Some ==> r.unwrap()@ == file_name_of(path@).unwrap(),
{
    match std::path::Path::new(path).file_name() {
        Some(name) => Some(name.to_string_lossy().into_owned()),
        None => None,
    }
}

/// Calls `std::path::Path::join` on `dir` with `name`. The result is the
/// joined path as text; the contract only names it `joined(dir@, name@)`.
#[verifier::external_body]
fn path_join(dir: &str, name: &str) -> (r: String)
    ensures
        r@ == joined(dir@, name@),
{
    std::path::Path::new(dir).join(name).to_string_lossy().into_owned()
}

/// Why preprocessing was given up.
#[derive(Clone, Copy, Debug, PartialEq, Eq, Structural)]
pub enum ProcessError {
    /// The tool could not be started.
    ToolNotFound,
    /// The tool ran and reported failure.
    ExternalToolError,
}

/// How one run of the tool ended.
#[derive(Clone, Copy, Debug, PartialEq, Eq, Structural)]
pub enum ToolRun {
    /// The executable could not be started.
    NotLaunched,
    /// It exited with a status other than zero.
    Failed,
    /// It exited with status zero.
    Succeeded,
}

/// What is done for one track.
#[derive(Clone, Copy, Debug, PartialEq, Eq, Structural)]
pub enum CacheStep {
    /// The processed copy is there already: it is used as it is.
    Reuse,
    /// The tool has to produce the processed copy.
    Invoke,
}

/// Where the processed copy of `source` lies in `cache_dir`: under the
/// file name of the source. `None` where the source has no file name.
pub open spec fn target_of(cache_dir: Seq<char>, source: Seq<char>) -> Option<Seq<char>> {
    match file_name_of(source) {
        Some(name) => Some(joined(cache_dir, name)),
        None => None,
    }
}

/// The arguments of one run of the tool: input and output path, quiet
/// output, volume normalisation over the album, and the remix of the two
/// channels with the gains `left` and `right`.
pub open spec fn arguments_of(
    input: Seq<char>,
    output: Seq<char>,
    left: Seq<char>,
    right: Seq<char>,
) -> Seq<Seq<char>> {
    seq![
        input,
        output,
        "-V1"@,
        "--replay-gain"@,
        "album"@,
        "remix"@,
        "1v"@ + left,
        "2v"@ + right,
    ]
}

/// The place of the processed copy of `source` in `cache_dir`.
pub fn cache_target(cache_dir: &str, source: &str) -> (r: Option<String>)
    ensures
        text_of(r) == target_of(cache_dir@, source@),
{
    match path_file_name(source) {
        Some(name) => Some(path_join(cache_dir, name.as_str())),
        None => None,
    }
}

/// Decides what is done for a track from whether its processed copy
/// exists. A copy that is there is trusted, however old.
pub fn cache_step(target_exists: bool) -> (r: CacheStep)
    ensures
        r == (if target_exists {
            CacheStep::Reuse
        } else {
            CacheStep::Invoke
        }),
{
    if target_exists {
        CacheStep::Reuse
    } else {
        CacheStep::Invoke
    }
}

/// The arguments with which the tool is run on `input` to produce
/// `output`, `left` and `right` being the gains of the two channels as
/// text.
pub fn tool_arguments(input: &str, output: &str, left: &str, right: &str) -> (r: Vec<String>)
    ensures
        texts(r@) == arguments_of(input@, output@, left@, right@),
{
    let mut one = "1v".to_owned();
    one.append(left);
    let mut two = "2v".to_owned();
    two.append(right);
    let mut out: Vec<String> = Vec::new();
    out.push(input.to_owned());
    out.push(output.to_owned());
    out.push("-V1".to_owned());
    out.push("--replay-gain".to_owned());
    out.push("album".to_owned());
    out.push("remix".to_owned());
    out.push(one);
    out.push(two);
    assert(texts(out@) =~= arguments_of(input@, output@, left@, right@));
    out
}

/// Judges a run of the tool. Any failure ends the whole preprocessing.
pub fn judge_run(run: ToolRun) -> (r: Result<(), ProcessError>)
    ensures
        r == (match run {
            ToolRun::NotLaunched => Err::<(), ProcessError>(ProcessError::ToolNotFound),
            ToolRun::Failed => Err::<(), ProcessError>(ProcessError::ExternalToolError),
            ToolRun::Succeeded => Ok::<(), ProcessError>(()),
        }),
{
    match run {
        ToolRun::NotLaunched => Err(ProcessError::ToolNotFound),
        ToolRun::Failed => Err(ProcessError::ExternalToolError),
        ToolRun::Succeeded => Ok(()),
    }
}

/// Where a pass over the tracks stands.
#[derive(Clone, Copy, Debug, PartialEq, Eq, Structural)]
pub enum PassPhase {
    /// The processed copy of the track at this index is being looked for.
    Checking(usize),
    /// The tool is running for the track at this index.
    Running(usize),
    /// Every track has its processed copy.
    Complete,
    /// The pass was given up; no further track is handled.
    Aborted(ProcessError),
}

/// What the caller found out for the track in hand.
#[derive(Clone, Copy, Debug, PartialEq, Eq, Structural)]
pub enum PassEvent {
    /// Whether the processed copy exists.
    Looked(bool),
    /// How the run of the tool ended.
    Ran(ToolRun),
}

/// Looking for the copy of the track at index `i` of `count`, or the end
/// of the pass where there is no such track.
pub open spec fn check_or_complete(count: int, i: int) -> PassPhase {
    if 0 <= i < count && i <= usize::MAX {
        PassPhase::Checking(i as usize)
    } else {
        PassPhase::Complete
    }
}

/// The phase that follows `phase` on `event`, in a pass over `count`
/// tracks. A copy that exists lets the pass move on to the next track; a
/// missing one has the tool run; a run that succeeds moves on, and one
/// that does not ends the pass for all tracks. An event that does not
/// answer the phase leaves it as it is.
pub open spec fn phase_after(count: int, phase: PassPhase, event: PassEvent) -> PassPhase {
    match (phase, event) {
        (PassPhase::Checking(i), PassEvent::Looked(true)) => check_or_complete(count, i + 1),
        (PassPhase::Checking(i), PassEvent::Looked(false)) => PassPhase::Running(i),
        (PassPhase::Running(i), PassEvent::Ran(ToolRun::Succeeded)) => check_or_complete(
            count,
            i + 1,
        ),
        (PassPhase::Running(_), PassEvent::Ran(ToolRun::Failed)) => PassPhase::Aborted(
            ProcessError::ExternalToolError,
        ),
        (PassPhase::Running(_), PassEvent::Ran(ToolRun::NotLaunched)) => PassPhase::Aborted(
            ProcessError::ToolNotFound,
        ),
        _ => phase,
    }
}

/// The places of the processed copies of `tracks` in `cache_dir`, in the
/// order of the tracks. `None` where a track has no file name.
pub fn cache_targets(cache_dir: &str, tracks: &Vec<String>) -> (r: Option<Vec<String>>)
    ensures
        (match r {
            Some(targets) => {
                &&& targets@.len() == tracks@.len()
                &&& forall|i: int|
                    0 <= i < tracks@.len() ==> target_of(cache_dir@, tracks@[i]@) == Some(
                        #[trigger] targets@[i]@,
                    )
            },
            None => exists|i: int|
                0 <= i < tracks@.len() && target_of(cache_dir@, #[trigger] tracks@[i]@) is None,
        }),
{
    let mut out: Vec<String> = Vec::new();
    let mut i: usize = 0;
    while i < tracks.len()
        invariant
            i <= tracks@.len(),
            out@.len() == i,
            forall|k: int|
                0 <= k < i ==> target_of(cache_dir@, tracks@[k]@) == Some(#[trigger] out@[k]@),
        decreases tracks@.len() - i,
    {
        match cache_target(cache_dir, tracks[i].as_str()) {
            Some(target) => {
                out.push(target);
            },
            None => {
                assert(target_of(cache_dir@, tracks@[i as int]@) is None);
                return None;
            },
        }
        i += 1;
    }
    Some(out)
}

/// The phase in which a pass over `count` tracks starts.
pub fn begin_pass(count: usize) -> (r: PassPhase)
    ensures
        r == check_or_complete(count as int, 0),
{
    if 0 < count {
        PassPhase::Checking(0)
    } else {
        PassPhase::Complete
    }
}

/// The phase after the track at index `i` is dealt with.
fn move_on(count: usize, i: usize) -> (r: PassPhase)
    ensures
        r == check_or_complete(count as int, i + 1),
{
    if i < count && i + 1 < count {
        PassPhase::Checking(i + 1)
    } else {
        PassPhase::Complete
    }
}

/// Takes a pass over `count` tracks one step further, from `phase` on
/// `event`.
pub fn continue_pass(count: usize, phase: PassPhase, event: PassEvent) -> (r: PassPhase)
    ensures
        r == phase_after(count as int, phase, event),
{
    match (phase, event) {
        (PassPhase::Checking(i), PassEvent::Looked(exists)) => match cache_step(exists) {
            CacheStep::Reuse => move_on(count, i),
            CacheStep::Invoke => PassPhase::Running(i),
        },
        (PassPhase::Running(i), PassEvent::Ran(run)) => match judge_run(run) {
            Ok(()) => move_on(count, i),
            Err(error) => PassPhase::Aborted(error),
        },
        _ => phase,
    }
}

/// The files that exist after a pass over `targets` that started with the
/// files `disk`, every run of the tool having written its target.
pub open spec fn disk_after(disk: Set<Seq<char>>, targets: Seq<Seq<char>>) -> Set<Seq<char>>
    decreases targets.len(),
{
    if targets.len() == 0 {
        disk
    } else {
        disk_after(disk, targets.drop_last()).insert(targets.last())
    }
}

/// The targets for which a pass over `targets` runs the tool, in order,
/// when it starts with the files `disk`: those that are not there when
/// their turn comes.
pub open spec fn invoked(disk: Set<Seq<char>>, targets: Seq<Seq<char>>) -> Seq<Seq<char>>
    decreases targets.len(),
{
    if targets.len() == 0 {
        Seq::empty()
    } else {
        let before = invoked(disk, targets.drop_last());
        if disk_after(disk, targets.drop_last()).contains(targets.last()) {
            before
        } else {
            before.push(targets.last())
        }
    }
}

/// A pass only adds files, and it leaves every one of its targets on
/// disk.
pub proof fn lemma_pass_fills_cache(disk: Set<Seq<char>>, targets: Seq<Seq<char>>)
    ensures
        disk.subset_of(disk_after(disk, targets)),
        forall|i: int| 0 <= i < targets.len() ==> disk_after(disk, targets).contains(targets[i]),
    decreases targets.len(),
{
    if targets.len() > 0 {
        let front = targets.drop_last();
        lemma_pass_fills_cache(disk, front);
        assert forall|i: int| 0 <= i < targets.len() implies disk_after(disk, targets).contains(
            targets[i],
        ) by {
            if i < front.len() {
                assert(targets[i] == front[i]);
            }
        }
    }
}

/// A processed copy is written once and never overwritten: the tool runs
/// only for targets that were not on disk before the pass, and for none of
/// them twice.
pub proof fn lemma_never_overwrites(disk: Set<Seq<char>>, targets: Seq<Seq<char>>)
    ensures
        forall|k: int|
            0 <= k < invoked(disk, targets).len() ==> !disk.contains(
                #[trigger] invoked(disk, targets)[k],
            ),
        forall|k: int|
            0 <= k < invoked(disk, targets).len() ==> disk_after(disk, targets).contains(
                #[trigger] invoked(disk, targets)[k],
            ),
        invoked(disk, targets).no_duplicates(),
    decreases targets.len(),
{
    if targets.len() > 0 {
        let front = targets.drop_last();
        lemma_never_overwrites(disk, front);
        lemma_pass_fills_cache(disk, front);
    }
}

/// A pass over targets that are all on disk runs the tool for none and
/// leaves the disk as it was.
pub proof fn lemma_pass_over_full_cache(disk: Set<Seq<char>>, targets: Seq<Seq<char>>)
    requires
        forall|i: int| 0 <= i < targets.len() ==> disk.contains(targets[i]),
    ensures
        invoked(disk, targets) == Seq::<Seq<char>>::empty(),
        disk_after(disk, targets) == disk,
    decreases targets.len(),
{
    if targets.len() > 0 {
        lemma_pass_over_full_cache(disk, targets.drop_last());
        assert(disk.insert(targets.last()) =~= disk);
    }
}

/// How many steps a pass over `count` tracks has left at most when it is
/// in `phase`.
pub open spec fn steps_left(count: int, phase: PassPhase) -> nat {
    match phase {
        PassPhase::Checking(i) => if i < count {
            (2 * (count - i)) as nat
        } else {
            0
        },
        PassPhase::Running(i) => if i < count {
            (2 * (count - i) - 1) as nat
        } else {
            0
        },
        _ => 0,
    }
}

/// The targets for which the tool runs, in order, when a pass over
/// `targets` is stepped on from `phase` with the files `disk`, every
/// look at the disk being answered from `disk` and every run of the tool
/// succeeding and writing its target.
pub open spec fn runs_from(
    targets: Seq<Seq<char>>,
    disk: Set<Seq<char>>,
    phase: PassPhase,
) -> Seq<Seq<char>>
    decreases steps_left(targets.len() as int, phase),
{
    let count = targets.len() as int;
    match phase {
        PassPhase::Checking(i) => if i < count {
            let found = PassEvent::Looked(disk.contains(targets[i as int]));
            runs_from(targets, disk, phase_after(count, phase, found))
        } else {
            Seq::empty()
        },
        PassPhase::Running(i) => if i < count {
            let ran = PassEvent::Ran(ToolRun::Succeeded);
            seq![targets[i as int]] + runs_from(
                targets,
                disk.insert(targets[i as int]),
                phase_after(count, phase, ran),
            )
        } else {
            Seq::empty()
        },
        _ => Seq::empty(),
    }
}

/// Stepping a pass from the track at index `i` on, with the files that
/// the tracks before it left, runs the tool for the rest of what
/// `invoked` lists.
proof fn lemma_runs_from(disk: Set<Seq<char>>, targets: Seq<Seq<char>>, i: int)
    requires
        0 <= i <= targets.len() <= usize::MAX,
    ensures
        invoked(disk, targets) == invoked(disk, targets.take(i)) + runs_from(
            targets,
            disk_after(disk, targets.take(i)),
            check_or_complete(targets.len() as int, i),
        ),
    decreases targets.len() - i,
{
    let count = targets.len() as int;
    let before = targets.take(i);
    let here = disk_after(disk, before);
    if i == count {
        assert(before =~= targets);
        assert(invoked(disk, targets) + Seq::<Seq<char>>::empty() =~= invoked(disk, targets));
    } else {
        let target = targets[i];
        let upto = targets.take(i + 1);
        assert(upto.drop_last() =~= before);
        assert(upto.last() == target);
        lemma_runs_from(disk, targets, i + 1);
        let rest = runs_from(targets, disk_after(disk, upto), check_or_complete(count, i + 1));
        let checking = PassPhase::Checking(i as usize);
        assert(check_or_complete(count, i) == checking);
        if here.contains(target) {
            assert(here.insert(target) =~= here);
            assert(phase_after(count, checking, PassEvent::Looked(true)) == check_or_complete(
                count,
                i + 1,
            ));
            assert(runs_from(targets, here, checking) == rest);
        } else {
            let running = PassPhase::Running(i as usize);
            assert(phase_after(count, checking, PassEvent::Looked(false)) == running);
            assert(phase_after(count, running, PassEvent::Ran(ToolRun::Succeeded))
                == check_or_complete(count, i + 1));
            assert(runs_from(targets, here, checking) == runs_from(targets, here, running));
            assert(runs_from(targets, here, running) == seq![target] + rest);
            assert(invoked(disk, before).push(target) + rest =~= invoked(disk, before) + (
            seq![target] + rest));
        }
    }
}

/// A pass that is stepped from its start runs the tool for the targets
/// that are not on disk when their turn comes, in order, and for no
/// other.
pub proof fn lemma_pass_runs_what_is_missing(disk: Set<Seq<char>>, targets: Seq<Seq<char>>)
    requires
        targets.len() <= usize::MAX,
    ensures
        runs_from(targets, disk, check_or_complete(targets.len() as int, 0)) == invoked(
            disk,
            targets,
        ),
{
    lemma_runs_from(disk, targets, 0);
    assert(targets.take(0) =~= Seq::<Seq<char>>::empty());
    assert(Seq::<Seq<char>>::empty() + runs_from(
        targets,
        disk,
        check_or_complete(targets.len() as int, 0),
    ) =~= runs_from(targets, disk, check_or_complete(targets.len() as int, 0)));
}

/// Processing twice does the work once: right after a pass over
/// `targets`, a second pass over the same targets runs the tool for none
/// of them and changes nothing on disk.
pub proof fn lemma_second_pass_is_idle(disk: Set<Seq<char>>, targets: Seq<Seq<char>>)
    requires
        targets.len() <= usize::MAX,
    ensures
        runs_from(
            targets,
            disk_after(disk, targets),
            check_or_complete(targets.len() as int, 0),
        ) == Seq::<Seq<char>>::empty(),
        invoked(disk_after(disk, targets), targets) == Seq::<Seq<char>>::empty(),
        disk_after(disk_after(disk, targets), targets) == disk_after(disk, targets),
{
    lemma_pass_fills_cache(disk, targets);
    lemma_pass_over_full_cache(disk_after(disk, targets), targets);
    lemma_pass_runs_what_is_missing(disk_after(disk, targets), targets);
}

} // verus!
