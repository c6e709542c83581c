//! Repair of the git metadata of a downloaded package, so that tools see it
//! as they would see a fresh checkout.
//!
//! A registry strips the git repository from a package and may leave a
//! record of the commit that the package was published from. Repair reads
//! the origin commit from that record and removes the record; where the
//! package holds no repository it sets one up, with everything committed.
use vstd::prelude::*;
use crate::package::Package;
use crate::protocol::{Action, Event, GitCommand, ResolveError};
use crate::version_text::to_chars;

verus! {

/// A character with the Unicode property `White_Space`.
pub open spec fn is_whitespace(c: char) -> bool {
    ||| '\u{9}' <= c <= '\u{d}'
    ||| c == ' '
    ||| c == '\u{85}'
    ||| c == '\u{a0}'
    ||| c == '\u{1680}'
    ||| '\u{2000}' <= c <= '\u{200a}'
    ||| c == '\u{2028}'
    ||| c == '\u{2029}'
    ||| c == '\u{202f}'
    ||| c == '\u{205f}'
    ||| c == '\u{3000}'
}

/// `s[start..end)` is `s` without the whitespace at its two ends.
pub open spec fn is_trim_of(s: Seq<char>, start: int, end: int) -> bool {
    &&& 0 <= start <= end <= s.len()
    &&& forall|i: int| 0 <= i < start ==> is_whitespace(#[trigger] s[i])
    &&& forall|i: int| end <= i < s.len() ==> is_whitespace(#[trigger] s[i])
    &&& start < end ==> !is_whitespace(s[start]) && !is_whitespace(s[end - 1])
}

/// `s` without the whitespace at its two ends.
pub open spec fn trimmed(s: Seq<char>) -> Seq<char> {
    let (start, end) = choose|start: int, end: int| is_trim_of(s, start, end);
    s.subrange(start, end)
}

/// How git starts its complaint when it cannot tell who commits.
pub open spec fn author_identity_unknown_text() -> Seq<char> {
    "Author identity unknown"@
}

/// The error message `message`, but for whitespace around it, starts with
/// git's complaint that it cannot tell who commits.
pub open spec fn author_identity_unknown(message: Seq<char>) -> bool {
    author_identity_unknown_text().is_prefix_of(trimmed(message))
}

/// However the whitespace at the ends of `s` is cut off, the same text is left.
pub proof fn lemma_trim_unique(s: Seq<char>, a: int, b: int, c: int, d: int)
    requires
        is_trim_of(s, a, b),
        is_trim_of(s, c, d),
    ensures
        s.subrange(a, b) == s.subrange(c, d),
{
    if a < b {
        if c < d {
            assert(a == c);
            assert(b == d);
        } else {
            assert(is_whitespace(s[a]));
        }
    } else {
        if c < d {
            assert(is_whitespace(s[c]));
        }
        assert(s.subrange(a, b) =~= s.subrange(c, d));
    }
}

fn is_whitespace_char(c: char) -> (yes: bool)
    ensures
        yes == is_whitespace(c),
{
    ('\u{9}' <= c && c <= '\u{d}') || c == ' ' || c == '\u{85}' || c == '\u{a0}' || c == '\u{1680}' || (
    '\u{2000}' <= c && c <= '\u{200a}') || c == '\u{2028}' || c == '\u{2029}' || c == '\u{202f}' || c
        == '\u{205f}' || c == '\u{3000}'
}

/// Where `chars` starts and ends once the whitespace at its two ends is cut off.
pub fn trim_bounds(chars: &Vec<char>) -> (bounds: (usize, usize))
    ensures
        is_trim_of(chars@, bounds.0 as int, bounds.1 as int),
        trimmed(chars@) == chars@.subrange(bounds.0 as int, bounds.1 as int),
{
    let n = chars.len();
    let mut start: usize = 0;
    while start < n && is_whitespace_char(chars[start])
        invariant
            start <= n,
            n == chars.len(),
            forall|i: int| 0 <= i < start ==> is_whitespace(#[trigger] chars@[i]),
        decreases n - start,
    {
        start += 1;
    }
    let mut end: usize = n;
    while end > start && is_whitespace_char(chars[end - 1])
        invariant
            start <= end <= n,
            n == chars.len(),
            forall|i: int| end <= i < n ==> is_whitespace(#[trigger] chars@[i]),
        decreases end,
    {
        end -= 1;
    }
    proof {
        assert(is_trim_of(chars@, start as int, end as int));
        let (a, b) = choose|a: int, b: int| is_trim_of(chars@, a, b);
        lemma_trim_unique(chars@, a, b, start as int, end as int);
    }
    (start, end)
}

/// Tells whether `message`, the error of a failed commit, says that git
/// does not know who commits.
pub fn is_author_identity_unknown(message: &str) -> (yes: bool)
    ensures
        yes == author_identity_unknown(message@),
{
    let chars = to_chars(message);
    let (start, end) = trim_bounds(&chars);
    let complaint = to_chars("Author identity unknown");
    if end - start < complaint.len() {
        return false;
    }
    let ghost rest = chars@.subrange(start as int, end as int);
    let mut i: usize = 0;
    while i < complaint.len()
        invariant
            i <= complaint.len(),
            start <= end <= chars.len(),
            complaint.len() <= end - start,
            rest == chars@.subrange(start as int, end as int),
            rest == trimmed(message@),
            complaint@ == author_identity_unknown_text(),
            forall|j: int| 0 <= j < i ==> complaint@[j] == #[trigger] rest[j],
        decreases complaint.len() - i,
    {
        if chars[start + i] != complaint[i] {
            proof {
                let head = rest.subrange(0, complaint.len() as int);
                assert(head[i as int] == chars@[start + i]);
                assert(complaint@[i as int] != head[i as int]);
                assert(complaint@ != head);
            }
            return false;
        }
        proof {
            assert(rest[i as int] == chars@[start + i]);
        }
        i += 1;
    }
    proof {
        assert(complaint@ =~= rest.subrange(0, complaint.len() as int));
    }
    true
}

/// Where the repair of a downloaded package stands.
#[derive(Clone, Copy, Debug, PartialEq, Eq, Structural)]
pub enum RepairStep {
    /// Nothing was asked for yet.
    Start,
    /// Asked whether the package holds a record of its origin commit.
    ProbingVcsInfo,
    /// Asked for the origin commit in that record.
    ReadingVcsInfo,
    /// Asked to remove that record.
    RemovingVcsInfo,
    /// Asked whether the package holds a git repository.
    ProbingGitDir,
    /// Asked to create a git repository.
    Initializing,
    /// Asked to stage all files.
    Staging,
    /// Asked to commit.
    Committing,
    /// Asked to set the email of a made-up identity.
    SettingEmail,
    /// Asked to set the name of a made-up identity.
    SettingName,
    /// Asked to commit once more, under the made-up identity.
    CommittingAgain,
    /// The package is repaired.
    Repaired,
    /// Repair failed.
    Failed,
}

/// The repair of one downloaded package.
#[derive(Debug, PartialEq, Eq)]
pub struct Repair {
    /// Where the repair stands.
    pub step: RepairStep,
    /// The origin commit of the package, as far as it is known by now.
    pub sha1: Option<String>,
}

/// The failure of a git command on `package`, for the reason `cause`.
pub open spec fn git_failed(pre: Repair, package: Package, cause: String) -> (Repair, Action) {
    (
        Repair { step: RepairStep::Failed, sha1: pre.sha1 },
        Action::Failed(ResolveError::RepositoryInit { package: package.name, cause }),
    )
}

/// The repair `pre` of `package` moves on to `step` and asks for `action`.
pub open spec fn moves_on(pre: Repair, step: RepairStep, action: Action) -> (Repair, Action) {
    (Repair { step, sha1: pre.sha1 }, action)
}

/// What follows in the repair `pre` of `package` when `event` comes in:
/// where the repair stands then, and what it asks for.
///
/// The origin commit is the one that the record holds, and `None` where the
/// package holds no record; the record is removed before anything else is
/// done. A repository is set up only where the package holds none. If the
/// commit fails because git does not know who commits, a made-up identity is
/// set and the commit is tried once more; any other failure ends the repair.
/// An event that does not answer the action asked for last ends it too; but
/// a repair that is done stays done.
pub open spec fn repair_next(pre: Repair, package: Package, event: Event) -> (Repair, Action) {
    match (pre.step, event) {
        (RepairStep::Start, Event::Start) => (
            Repair { step: RepairStep::ProbingVcsInfo, sha1: None },
            Action::ProbeVcsInfo,
        ),
        (RepairStep::ProbingVcsInfo, Event::Exists(true)) => (
            Repair { step: RepairStep::ReadingVcsInfo, sha1: None },
            Action::ReadVcsInfo,
        ),
        (RepairStep::ProbingVcsInfo, Event::Exists(false)) => (
            Repair { step: RepairStep::ProbingGitDir, sha1: None },
            Action::ProbeGitDir,
        ),
        (RepairStep::ReadingVcsInfo, Event::Commit(sha1)) => (
            Repair { step: RepairStep::RemovingVcsInfo, sha1 },
            Action::RemoveVcsInfo,
        ),
        (RepairStep::RemovingVcsInfo, Event::Done(Ok(_))) => moves_on(
            pre,
            RepairStep::ProbingGitDir,
            Action::ProbeGitDir,
        ),
        (RepairStep::RemovingVcsInfo, Event::Done(Err(cause))) => (
            Repair { step: RepairStep::Failed, sha1: pre.sha1 },
            Action::Failed(ResolveError::RemoveVcsInfo { package: package.name, cause }),
        ),
        (RepairStep::ProbingGitDir, Event::Exists(true)) => moves_on(
            pre,
            RepairStep::Repaired,
            Action::Finished,
        ),
        (RepairStep::ProbingGitDir, Event::Exists(false)) => moves_on(
            pre,
            RepairStep::Initializing,
            Action::RunGit(GitCommand::Init),
        ),
        (RepairStep::Initializing, Event::Done(Ok(_))) => moves_on(
            pre,
            RepairStep::Staging,
            Action::RunGit(GitCommand::AddAll),
        ),
        (RepairStep::Staging, Event::Done(Ok(_))) => moves_on(
            pre,
            RepairStep::Committing,
            Action::RunGit(GitCommand::CommitInit),
        ),
        (RepairStep::Committing, Event::Done(Ok(_))) => moves_on(
            pre,
            RepairStep::Repaired,
            Action::Finished,
        ),
        (RepairStep::Committing, Event::Done(Err(cause))) => if author_identity_unknown(cause@) {
            moves_on(pre, RepairStep::SettingEmail, Action::RunGit(GitCommand::SetUserEmail))
        } else {
            git_failed(pre, package, cause)
        },
        (RepairStep::SettingEmail, Event::Done(Ok(_))) => moves_on(
            pre,
            RepairStep::SettingName,
            Action::RunGit(GitCommand::SetUserName),
        ),
        (RepairStep::SettingName, Event::Done(Ok(_))) => moves_on(
            pre,
            RepairStep::CommittingAgain,
            Action::RunGit(GitCommand::CommitInit),
        ),
        (RepairStep::CommittingAgain, Event::Done(Ok(_))) => moves_on(
            pre,
            RepairStep::Repaired,
            Action::Finished,
        ),
        (RepairStep::Initializing, Event::Done(Err(cause))) => git_failed(pre, package, cause),
        (RepairStep::Staging, Event::Done(Err(cause))) => git_failed(pre, package, cause),
        (RepairStep::SettingEmail, Event::Done(Err(cause))) => git_failed(pre, package, cause),
        (RepairStep::SettingName, Event::Done(Err(cause))) => git_failed(pre, package, cause),
        (RepairStep::CommittingAgain, Event::Done(Err(cause))) => git_failed(pre, package, cause),
        (RepairStep::Repaired, _) => (pre, Action::Failed(ResolveError::UnexpectedEvent)),
        _ => (
            Repair { step: RepairStep::Failed, sha1: pre.sha1 },
            Action::Failed(ResolveError::UnexpectedEvent),
        ),
    }
}

impl Repair {
    /// A repair that has not begun.
    pub fn new() -> (repair: Repair)
        ensures
            repair == (Repair { step: RepairStep::Start, sha1: None }),
    {
        Repair { step: RepairStep::Start, sha1: None }
    }

    fn fail(&mut self, error: ResolveError) -> (action: Action)
        ensures
            *final(self) == (Repair { step: RepairStep::Failed, sha1: old(self).sha1 }),
            action == Action::Failed(error),
    {
        self.step = RepairStep::Failed;
        Action::Failed(error)
    }

    fn move_on(&mut self, step: RepairStep, action: Action) -> (asked: Action)
        ensures
            (*final(self), asked) == moves_on(*old(self), step, action),
    {
        self.step = step;
        action
    }

    /// What a git command's answer leads to: on success to `step` and
    /// `action`, else to failure.
    fn after_git(&mut self, package: &Package, event: Event, step: RepairStep, action: Action) -> (asked:
        Action)
        ensures
            (*final(self), asked) == match event {
                Event::Done(Ok(_)) => moves_on(*old(self), step, action),
                Event::Done(Err(cause)) => git_failed(*old(self), *package, cause),
                _ => (
                    Repair { step: RepairStep::Failed, sha1: old(self).sha1 },
                    Action::Failed(ResolveError::UnexpectedEvent),
                ),
            },
    {
        match event {
            Event::Done(Ok(_)) => self.move_on(step, action),
            Event::Done(Err(cause)) => self.fail(
                ResolveError::RepositoryInit { package: package.name.clone(), cause },
            ),
            _ => self.fail(ResolveError::UnexpectedEvent),
        }
    }
}

/// Takes the repair `repair` of the downloaded package `package` one step
/// on: `event` tells how the action went that was asked for last, and the
/// result is the action to carry out next.
pub fn initialize_registry_package(repair: &mut Repair, package: &Package, event: Event) -> (action:
    Action)
    ensures
        (*final(repair), action) == repair_next(*old(repair), *package, event),
{
    match repair.step {
        RepairStep::Start => match event {
            Event::Start => {
                repair.sha1 = None;
                repair.move_on(RepairStep::ProbingVcsInfo, Action::ProbeVcsInfo)
            },
            _ => repair.fail(ResolveError::UnexpectedEvent),
        },
        RepairStep::ProbingVcsInfo => match event {
            Event::Exists(found) => {
                repair.sha1 = None;
                if found {
                    repair.move_on(RepairStep::ReadingVcsInfo, Action::ReadVcsInfo)
                } else {
                    repair.move_on(RepairStep::ProbingGitDir, Action::ProbeGitDir)
                }
            },
            _ => repair.fail(ResolveError::UnexpectedEvent),
        },
        RepairStep::ReadingVcsInfo => match event {
            Event::Commit(sha1) => {
                repair.sha1 = sha1;
                repair.move_on(RepairStep::RemovingVcsInfo, Action::RemoveVcsInfo)
            },
            _ => repair.fail(ResolveError::UnexpectedEvent),
        },
        RepairStep::RemovingVcsInfo => match event {
            Event::Done(Ok(_)) => repair.move_on(RepairStep::ProbingGitDir, Action::ProbeGitDir),
            Event::Done(Err(cause)) => repair.fail(
                ResolveError::RemoveVcsInfo { package: package.name.clone(), cause },
            ),
            _ => repair.fail(ResolveError::UnexpectedEvent),
        },
        RepairStep::ProbingGitDir => match event {
            Event::Exists(found) => {
                if found {
                    repair.move_on(RepairStep::Repaired, Action::Finished)
                } else {
                    repair.move_on(RepairStep::Initializing, Action::RunGit(GitCommand::Init))
                }
            },
            _ => repair.fail(ResolveError::UnexpectedEvent),
        },
        RepairStep::Initializing => repair.after_git(
            package,
            event,
            RepairStep::Staging,
            Action::RunGit(GitCommand::AddAll),
        ),
        RepairStep::Staging => repair.after_git(
            package,
            event,
            RepairStep::Committing,
            Action::RunGit(GitCommand::CommitInit),
        ),
        RepairStep::Committing => match event {
            Event::Done(Ok(_)) => repair.move_on(RepairStep::Repaired, Action::Finished),
            Event::Done(Err(cause)) => {
                if is_author_identity_unknown(cause.as_str()) {
                    repair.move_on(RepairStep::SettingEmail, Action::RunGit(GitCommand::SetUserEmail))
                } else {
                    repair.fail(ResolveError::RepositoryInit { package: package.name.clone(), cause })
                }
            },
            _ => repair.fail(ResolveError::UnexpectedEvent),
        },
        RepairStep::SettingEmail => repair.after_git(
            package,
            event,
            RepairStep::SettingName,
            Action::RunGit(GitCommand::SetUserName),
        ),
        RepairStep::SettingName => repair.after_git(
            package,
            event,
            RepairStep::CommittingAgain,
            Action::RunGit(GitCommand::CommitInit),
        ),
        RepairStep::CommittingAgain => repair.after_git(
            package,
            event,
            RepairStep::Repaired,
            Action::Finished,
        ),
        RepairStep::Repaired => Action::Failed(ResolveError::UnexpectedEvent),
        RepairStep::Failed => repair.fail(ResolveError::UnexpectedEvent),
    }
}

/// Where the repair of `package` stands after the events `events`, from the
/// first one on.
pub open spec fn repair_after(package: Package, events: Seq<Event>) -> Repair
    decreases events.len(),
{
    if events.len() == 0 {
        Repair { step: RepairStep::Start, sha1: None }
    } else {
        repair_next(repair_after(package, events.drop_last()), package, events.last()).0
    }
}

/// The events `events` brought a repair past the record of the origin
/// commit, with `sha1` as the commit: either there was no record and there
/// is no commit, or the record held `sha1` and was removed.
pub open spec fn settled_commit(events: Seq<Event>, sha1: Option<String>) -> bool {
    &&& events.len() >= 2
    &&& events[0] == Event::Start
    &&& {
        ||| events[1] == Event::Exists(false) && sha1 is None
        ||| {
            &&& events.len() >= 4
            &&& events[1] == Event::Exists(true)
            &&& events[2] == Event::Commit(sha1)
            &&& events[3] matches Event::Done(Ok(_))
        }
    }
}

/// How the events so far and the state of a repair hang together.
spec fn on_track(events: Seq<Event>, repair: Repair) -> bool {
    match repair.step {
        RepairStep::Start => events.len() == 0,
        RepairStep::ProbingVcsInfo => events.len() == 1 && events[0] == Event::Start,
        RepairStep::ReadingVcsInfo => events.len() == 2 && events[0] == Event::Start && events[1]
            == Event::Exists(true),
        RepairStep::RemovingVcsInfo => events.len() == 3 && events[0] == Event::Start && events[1]
            == Event::Exists(true) && events[2] == Event::Commit(repair.sha1),
        RepairStep::Failed => true,
        _ => settled_commit(events, repair.sha1),
    }
}

proof fn lemma_repair_on_track(package: Package, events: Seq<Event>)
    ensures
        on_track(events, repair_after(package, events)),
    decreases events.len(),
{
    if events.len() > 0 {
        let before = events.drop_last();
        lemma_repair_on_track(package, before);
        let pre = repair_after(package, before);
        assert(forall|i: int| 0 <= i < before.len() ==> before[i] == events[i]);
        assert(events.last() == events[events.len() - 1]);
    }
}

/// However a repair went: when the package is repaired, its origin commit
/// is the one that its record held, and the record was removed; a package
/// without a record has no origin commit.
pub proof fn lemma_repaired_commit_is_the_recorded_one(package: Package, events: Seq<Event>)
    requires
        repair_after(package, events).step == RepairStep::Repaired,
    ensures
        settled_commit(events, repair_after(package, events).sha1),
{
    lemma_repair_on_track(package, events);
}

/// The record of the origin commit is removed right after it was read, and
/// a failed commit is tried again only where git did not know who commits.
pub proof fn lemma_repair_order(pre: Repair, package: Package, event: Event)
    ensures
        repair_next(pre, package, event).1 == Action::RemoveVcsInfo <==> pre.step
            == RepairStep::ReadingVcsInfo && event is Commit,
        repair_next(pre, package, event).0.step == RepairStep::SettingEmail <==> pre.step
            == RepairStep::Committing && (event matches Event::Done(Err(cause)) && author_identity_unknown(
            cause@,
        )),
        pre.step == RepairStep::CommittingAgain ==> repair_next(pre, package, event).0.step
            == RepairStep::Repaired || repair_next(pre, package, event).0.step == RepairStep::Failed,
{
}

} // verus!
