//! Crash-safe publication of edits: an intent is journaled before the bytes
//! are written, and a receipt is recorded only for bytes that are our own.

use crate::config::document::{self, parse_document};
use crate::config::settings::ConfigEdit;
use crate::digest::{self, digest_hex};
use crate::executor::macos;
use crate::executor::{self, parent_dir, parts_of_path, FileFacts, FileIdentity, WorkerError};
use crate::policy::paths::copy_bytes;
use crate::state::{self, StoreError};
use crate::text::{self, copy_opt, owned, same, starts_with_char, text2, text_from_bytes};
use vstd::prelude::*;

verus! {

/// Ceiling on the bytes of a target that is observed.
pub const PUBLICATION_MAX_BYTES: usize = 1048576;

/// The device and inode of a target.
#[derive(Debug, Clone, Copy, PartialEq, Eq, Structural)]
pub struct PublishIdentity {
    pub dev: u64,
    pub ino: u64,
}

/// One journaled intent: the bytes that are meant to be published, what the
/// target held when it was staged, and its place in the journal.
#[derive(Debug)]
pub struct PublicationIntent<T = String> {
    pub owner: T,
    pub target: T,
    pub admission_seq: u64,
    pub intended_digest: T,
    pub base_digest: Option<T>,
    pub publish_identity: Option<PublishIdentity>,
}

/// An intent over mathematical values.
pub type IntentView = PublicationIntent<Seq<char>>;

impl View for PublicationIntent {
    type V = IntentView;

    open spec fn view(&self) -> IntentView {
        PublicationIntent {
            owner: self.owner@,
            target: self.target@,
            admission_seq: self.admission_seq,
            intended_digest: self.intended_digest@,
            base_digest: text::opt_text(self.base_digest),
            publish_identity: self.publish_identity,
        }
    }
}

impl Clone for PublicationIntent {
    fn clone(&self) -> (r: Self)
        ensures
            r@ == self@,
    {
        PublicationIntent {
            owner: self.owner.clone(),
            target: self.target.clone(),
            admission_seq: self.admission_seq,
            intended_digest: self.intended_digest.clone(),
            base_digest: copy_opt(&self.base_digest),
            publish_identity: self.publish_identity,
        }
    }
}

/// The values of some intents.
pub open spec fn intents(v: Seq<PublicationIntent>) -> Seq<IntentView> {
    Seq::new(v.len(), |i: int| v[i]@)
}

/// What an admission came to.
#[derive(Debug)]
pub enum PublicationAdmission<T = PublicationIntent> {
    /// A new intent: the caller writes the bytes and records the receipt.
    Staged(T),
    /// The command is already pending, and nothing new is journaled.
    Pending(T),
    /// The command is done, and its bytes still hold.
    Applied(T),
}

impl PublicationAdmission {
    /// The journaled intent of this admission.
    pub fn intent(self) -> (r: PublicationIntent)
        ensures
            r == (match self {
                PublicationAdmission::Staged(i) => i,
                PublicationAdmission::Pending(i) => i,
                PublicationAdmission::Applied(i) => i,
            }),
    {
        match self {
            PublicationAdmission::Staged(intent) => intent,
            PublicationAdmission::Pending(intent) => intent,
            PublicationAdmission::Applied(intent) => intent,
        }
    }
}

/// What a pending intent is against the bytes at its target.
#[derive(Debug, Clone, Copy, PartialEq, Eq, Structural)]
pub enum PublicationVerdict {
    Old,
    ExactlyNew,
    ByteIdenticalThird,
    Conflicting,
    TornOrUnparseable,
    Absent,
    Unknown,
}

/// An intent that was recovered, and its verdict.
#[derive(Debug)]
pub struct PublicationRecovery {
    pub intent: PublicationIntent,
    pub verdict: PublicationVerdict,
}

/// Why a publication did not happen.
#[derive(Debug)]
pub enum PublicationError<T = String> {
    Target(T),
    TargetNotUtf8,
    TargetAbsent(T),
    Journal(StoreError<T>),
    IdentityMissing,
    Write(WorkerError<T>),
}

impl View for PublicationError {
    type V = PublicationError<Seq<char>>;

    open spec fn view(&self) -> PublicationError<Seq<char>> {
        match self {
            PublicationError::Target(e) => PublicationError::Target(e@),
            PublicationError::TargetNotUtf8 => PublicationError::TargetNotUtf8,
            PublicationError::TargetAbsent(t) => PublicationError::TargetAbsent(t@),
            PublicationError::Journal(e) => PublicationError::Journal(e@),
            PublicationError::IdentityMissing => PublicationError::IdentityMissing,
            PublicationError::Write(e) => PublicationError::Write(e@),
        }
    }
}

/// The diagnostic line of a publication error.
pub open spec fn publication_message(e: PublicationError<Seq<char>>) -> Seq<char> {
    match e {
        PublicationError::Target(t) => "publication target: "@ + t,
        PublicationError::TargetNotUtf8 => "publication target path is not valid UTF-8"@,
        PublicationError::TargetAbsent(t) => "publication target does not exist: "@ + t,
        PublicationError::Journal(s) => "publication journal: "@ + state::store_message(s),
        PublicationError::IdentityMissing =>
            "staged publication row carries no target identity"@,
        PublicationError::Write(w) => "publication write failed: "@
            + macos::worker_message(w),
    }
}

impl PublicationError {
    /// The diagnostic line of this error.
    pub fn message(&self) -> (r: String)
        ensures
            r@ == publication_message(self@),
    {
        match self {
            PublicationError::Target(e) => text2("publication target: ", e.as_str()),
            PublicationError::TargetNotUtf8 => owned("publication target path is not valid UTF-8"),
            PublicationError::TargetAbsent(t) => text2(
                "publication target does not exist: ",
                t.as_str(),
            ),
            PublicationError::Journal(s) => {
                let m: String = s.message();
                text2("publication journal: ", m.as_str())
            },
            PublicationError::IdentityMissing => owned(
                "staged publication row carries no target identity",
            ),
            PublicationError::Write(w) => {
                let m: String = w.message();
                text2("publication write failed: ", m.as_str())
            },
        }
    }
}

// ----- observing a target ----------------------------------------------------

/// What opening and reading a target once gave. The bytes are those of the
/// opened file, up to one more than the ceiling.
#[derive(Debug)]
pub enum TargetRead {
    NotFound,
    Failed(String),
    Opened { facts: FileFacts, bytes: Result<Vec<u8>, String> },
}

/// A target at one moment.
#[derive(Debug)]
pub struct TargetObservation {
    pub digest: String,
    pub identity: PublishIdentity,
    pub bytes: Vec<u8>,
}

/// The observation of a read, or why there is none; nothing where the target
/// is absent.
pub open spec fn observation(read: TargetRead) -> Result<
    Option<(PublishIdentity, Seq<u8>)>,
    Seq<char>,
> {
    match read {
        TargetRead::NotFound => Ok(None),
        TargetRead::Failed(e) => Err(e@),
        TargetRead::Opened { facts, bytes } => if !facts.regular {
            Err("publication target is not a regular file"@)
        } else if facts.len > PUBLICATION_MAX_BYTES {
            Err("publication target exceeds the size ceiling"@)
        } else {
            match bytes {
                Err(e) => Err(e@),
                Ok(b) => if b@.len() > PUBLICATION_MAX_BYTES {
                    Err("publication target exceeds the size ceiling"@)
                } else {
                    Ok(Some((PublishIdentity { dev: facts.dev, ino: facts.ino }, b@)))
                },
            }
        },
    }
}

/// Executable [`observation`]: an absent target is no error.
pub fn read_target_once(read: TargetRead) -> (r: Result<Option<TargetObservation>, String>)
    ensures
        match observation(read) {
            Err(e) => r matches Err(x) && x@ == e,
            Ok(None) => r matches Ok(None),
            Ok(Some(o)) => r matches Ok(Some(t)) && t.identity == o.0 && t.bytes@ == o.1
                && t.digest@ == digest::digest_text(o.1),
        },
{
    match read {
        TargetRead::NotFound => Ok(None),
        TargetRead::Failed(e) => Err(e),
        TargetRead::Opened { facts, bytes } => {
            if !facts.regular {
                return Err(owned("publication target is not a regular file"));
            }
            if facts.len > PUBLICATION_MAX_BYTES as u64 {
                return Err(owned("publication target exceeds the size ceiling"));
            }
            match bytes {
                Err(e) => Err(e),
                Ok(b) => if b.len() > PUBLICATION_MAX_BYTES {
                    Err(owned("publication target exceeds the size ceiling"))
                } else {
                    Ok(
                        Some(
                            TargetObservation {
                                digest: digest_hex(b.as_slice()),
                                identity: PublishIdentity { dev: facts.dev, ino: facts.ino },
                                bytes: b,
                            },
                        ),
                    )
                },
            }
        },
    }
}

/// What is at a target.
#[derive(Debug)]
pub enum TargetSight {
    Absent,
    Present { digest: String, identity: Option<PublishIdentity>, bytes: Vec<u8> },
    /// It cannot be read, is no regular file or is too large: no write can
    /// be attributed.
    Unknown,
}

/// What is at a target, over mathematical values.
pub enum SightView {
    Absent,
    Present { digest: Seq<char>, identity: Option<PublishIdentity>, bytes: Seq<u8> },
    Unknown,
}

impl View for TargetSight {
    type V = SightView;

    open spec fn view(&self) -> SightView {
        match self {
            TargetSight::Absent => SightView::Absent,
            TargetSight::Present { digest, identity, bytes } => SightView::Present {
                digest: digest@,
                identity: *identity,
                bytes: bytes@,
            },
            TargetSight::Unknown => SightView::Unknown,
        }
    }
}

/// What a read shows of a target.
pub open spec fn sight_of(read: TargetRead) -> SightView {
    match observation(read) {
        Err(_) => SightView::Unknown,
        Ok(None) => SightView::Absent,
        Ok(Some(o)) => SightView::Present {
            digest: digest::digest_text(o.1),
            identity: Some(o.0),
            bytes: o.1,
        },
    }
}

/// Executable [`sight_of`].
pub fn observe_target(read: TargetRead) -> (r: TargetSight)
    ensures
        r@ == sight_of(read),
{
    match read_target_once(read) {
        Err(_) => TargetSight::Unknown,
        Ok(None) => TargetSight::Absent,
        Ok(Some(o)) => TargetSight::Present {
            digest: o.digest,
            identity: Some(o.identity),
            bytes: o.bytes,
        },
    }
}

/// The components of a path once it is made absolute against a directory;
/// an empty path cannot be, nor a relative one without a directory.
pub open spec fn absolute(path: Seq<char>, cwd: Option<Seq<char>>) -> Option<Seq<Seq<char>>> {
    if path.len() == 0 {
        None
    } else if path[0] == '/' {
        Some(executor::components(path))
    } else {
        match cwd {
            Some(dir) => Some(
                executor::components(dir) + executor::components(path),
            ),
            None => None,
        }
    }
}

/// Two spellings of one path: nothing is resolved.
pub open spec fn spelled_same(a: Seq<char>, b: Seq<char>, cwd: Option<Seq<char>>) -> bool {
    match (absolute(a, cwd), absolute(b, cwd)) {
        (Some(x), Some(y)) => x == y,
        _ => a == b,
    }
}

fn absolute_parts(path: &str, cwd: &Option<String>) -> (r: Option<Vec<String>>)
    ensures
        match absolute(path@, text::opt_text(*cwd)) {
            Some(x) => r matches Some(v) && text::texts(v@) == x,
            None => r is None,
        },
{
    let chars: Vec<char> = text::chars_of(path);
    if chars.len() == 0 {
        return None;
    }
    if starts_with_char(path, '/') {
        return Some(parts_of_path(path));
    }
    match cwd {
        None => None,
        Some(dir) => {
            let mut all: Vec<String> = parts_of_path(dir.as_str());
            let tail: Vec<String> = parts_of_path(path);
            let ghost head = text::texts(all@);
            let ghost more = text::texts(tail@);
            let mut i: usize = 0;
            assert(head + more.take(0) =~= head);
            while i < tail.len()
                invariant
                    i <= tail.len(),
                    more == text::texts(tail@),
                    text::texts(all@) == head + more.take(i as int),
                decreases tail.len() - i,
            {
                let part: String = tail[i].clone();
                proof {
                    text::lemma_texts_push(all@, part);
                }
                all.push(part);
                assert(more.take(i as int + 1) =~= more.take(i as int).push(more[i as int]));
                assert(text::texts(all@) =~= head + more.take(i as int + 1));
                i = i + 1;
            }
            assert(more.take(more.len() as int) =~= more);
            Some(all)
        },
    }
}

/// Executable [`spelled_same`]; `cwd` is the current directory.
pub fn spelled_same_file(a: &str, b: &str, cwd: &Option<String>) -> (r: bool)
    ensures
        r == spelled_same(a@, b@, text::opt_text(*cwd)),
{
    match (absolute_parts(a, cwd), absolute_parts(b, cwd)) {
        (Some(x), Some(y)) => {
            let ghost p = text::texts(x@);
            let ghost q = text::texts(y@);
            if x.len() != y.len() {
                assert(p.len() != q.len());
                return false;
            }
            let mut i: usize = 0;
            while i < x.len()
                invariant
                    i <= x.len() == y.len(),
                    p == text::texts(x@),
                    q == text::texts(y@),
                    absolute(a@, text::opt_text(*cwd)) == Some(p),
                    absolute(b@, text::opt_text(*cwd)) == Some(q),
                    forall|j: int| 0 <= j < i ==> #[trigger] p[j] == q[j],
                decreases x.len() - i,
            {
                assert(p[i as int] == x@[i as int]@ && q[i as int] == y@[i as int]@);
                if !same(x[i].as_str(), y[i].as_str()) {
                    assert(p[i as int] != q[i as int]);
                    return false;
                }
                i = i + 1;
            }
            assert(p =~= q);
            true
        },
        _ => same(a, b),
    }
}

/// Whether an intent is for the file that a target names: the identity
/// decides; the spelling only where there is none.
pub open spec fn for_target(
    intent: IntentView,
    sight: SightView,
    target: Seq<char>,
    cwd: Option<Seq<char>>,
) -> bool {
    match sight {
        SightView::Present { identity: Some(current), .. } => match intent.publish_identity {
            Some(staged) => staged == current,
            None => intent.target == target,
        },
        _ => spelled_same(intent.target, target, cwd),
    }
}

/// Executable [`for_target`].
pub fn same_target_file(
    intent: &PublicationIntent,
    sight: &TargetSight,
    target: &str,
    cwd: &Option<String>,
) -> (r: bool)
    ensures
        r == for_target(intent@, sight@, target@, text::opt_text(*cwd)),
{
    match sight {
        TargetSight::Present { identity: Some(current), .. } => match intent.publish_identity {
            Some(staged) => staged.dev == current.dev && staged.ino == current.ino,
            None => same(intent.target.as_str(), target),
        },
        _ => spelled_same_file(intent.target.as_str(), target, cwd),
    }
}

// ----- staging and admission -------------------------------------------------

/// A row that is to be journaled.
#[derive(Debug)]
pub struct Staging {
    pub owner: String,
    pub target: String,
    pub intended_digest: String,
    pub base_digest: String,
    pub publish_identity: PublishIdentity,
}

/// The row of a publication: the target must exist and be observed through
/// one handle, or the write could never be attributed. `target` is nothing
/// where the path is no text.
pub fn stage_publication(
    owner: &str,
    target: Option<&str>,
    read: TargetRead,
    edit: &ConfigEdit,
) -> (r: Result<Staging, PublicationError>)
    ensures
        match target {
            None => r matches Err(e) && e@ == PublicationError::<Seq<char>>::TargetNotUtf8,
            Some(t) => match observation(read) {
                Err(why) => r matches Err(e) && e@ == PublicationError::Target(why),
                Ok(None) => r matches Err(e) && e@ == PublicationError::TargetAbsent(t@),
                Ok(Some(o)) => r matches Ok(s) && s.owner@ == owner@ && s.target@ == t@
                    && s.intended_digest@ == edit.digest@ && s.base_digest@
                    == digest::digest_text(o.1) && s.publish_identity == o.0,
            },
        },
{
    let key: &str = match target {
        Some(t) => t,
        None => {
            return Err(PublicationError::TargetNotUtf8);
        },
    };
    match read_target_once(read) {
        Err(e) => Err(PublicationError::Target(e)),
        Ok(None) => Err(PublicationError::TargetAbsent(owned(key))),
        Ok(Some(o)) => Ok(
            Staging {
                owner: owned(owner),
                target: owned(key),
                intended_digest: edit.digest.clone(),
                base_digest: o.digest,
                publish_identity: o.identity,
            },
        ),
    }
}

impl Staging {
    /// The intent, once its row has a place in the journal.
    pub fn journaled(self, seq: Result<u64, StoreError>) -> (r: Result<
        PublicationIntent,
        PublicationError,
    >)
        ensures
            match seq {
                Err(e) => r matches Err(x) && x@ == PublicationError::Journal(e@),
                Ok(n) => r matches Ok(i) && i@ == (PublicationIntent {
                    owner: self.owner@,
                    target: self.target@,
                    admission_seq: n,
                    intended_digest: self.intended_digest@,
                    base_digest: Some(self.base_digest@),
                    publish_identity: Some(self.publish_identity),
                }),
            },
    {
        match seq {
            Err(e) => Err(PublicationError::Journal(e)),
            Ok(admission_seq) => Ok(
                PublicationIntent {
                    owner: self.owner,
                    target: self.target,
                    admission_seq,
                    intended_digest: self.intended_digest,
                    base_digest: Some(self.base_digest),
                    publish_identity: Some(self.publish_identity),
                },
            ),
        }
    }
}

/// An intent is for this command: the same bytes at the same file.
pub open spec fn same_command(
    intent: IntentView,
    digest: Seq<char>,
    sight: SightView,
    target: Seq<char>,
    cwd: Option<Seq<char>>,
) -> bool {
    intent.intended_digest == digest && for_target(intent, sight, target, cwd)
}

/// The position of the first intent for a command.
pub open spec fn first_command(
    rows: Seq<IntentView>,
    digest: Seq<char>,
    sight: SightView,
    target: Seq<char>,
    cwd: Option<Seq<char>>,
) -> int
    decreases rows.len(),
{
    if rows.len() == 0 || same_command(rows[0], digest, sight, target, cwd) {
        0
    } else {
        1 + first_command(rows.skip(1), digest, sight, target, cwd)
    }
}

/// What an admission comes to: nothing means that a new intent is staged.
pub open spec fn admission_of(
    digest: Seq<char>,
    target: Seq<char>,
    cwd: Option<Seq<char>>,
    sight: SightView,
    pending: Seq<IntentView>,
    applied: Seq<IntentView>,
) -> Option<PublicationAdmission<IntentView>> {
    let p = first_command(pending, digest, sight, target, cwd);
    let a = first_command(applied, digest, sight, target, cwd);
    if p < pending.len() {
        Some(PublicationAdmission::Pending(pending[p]))
    } else if (sight matches SightView::Present { digest: held, .. } && held == digest) && a
        < applied.len() {
        Some(PublicationAdmission::Applied(applied[a]))
    } else {
        None
    }
}

pub open spec fn admitted_view(a: Option<PublicationAdmission>) -> Option<
    PublicationAdmission<IntentView>,
> {
    match a {
        Some(PublicationAdmission::Staged(i)) => Some(PublicationAdmission::Staged(i@)),
        Some(PublicationAdmission::Pending(i)) => Some(PublicationAdmission::Pending(i@)),
        Some(PublicationAdmission::Applied(i)) => Some(PublicationAdmission::Applied(i@)),
        None => None,
    }
}

fn find_command(
    rows: &Vec<PublicationIntent>,
    digest: &str,
    sight: &TargetSight,
    target: &str,
    cwd: &Option<String>,
) -> (r: usize)
    ensures
        r == first_command(
            intents(rows@),
            digest@,
            sight@,
            target@,
            text::opt_text(*cwd),
        ),
        r <= rows.len(),
{
    let ghost all = intents(rows@);
    let ghost dir = text::opt_text(*cwd);
    let mut i: usize = 0;
    assert(all.skip(0) =~= all);
    while i < rows.len()
        invariant
            i <= rows.len(),
            all == intents(rows@),
            dir == text::opt_text(*cwd),
            first_command(all, digest@, sight@, target@, dir) == i + first_command(
                all.skip(i as int),
                digest@,
                sight@,
                target@,
                dir,
            ),
        decreases rows.len() - i,
    {
        assert(all.skip(i as int)[0] == rows@[i as int]@);
        if same(rows[i].intended_digest.as_str(), digest) && same_target_file(
            &rows[i],
            sight,
            target,
            cwd,
        ) {
            return i;
        }
        assert(all.skip(i as int).skip(1) =~= all.skip(i as int + 1));
        i = i + 1;
    }
    i
}

/// Admits a command once: one that is pending is observed and not journaled
/// again, and one that is done is answered from its row while its bytes
/// hold. The identity of the file keys every match, so two spellings of one
/// file are one target. Nothing means that a new intent is staged.
pub fn admit_publication(
    target: Option<&str>,
    cwd: &Option<String>,
    sight: &TargetSight,
    pending: Result<Vec<PublicationIntent>, StoreError>,
    applied: Result<Vec<PublicationIntent>, StoreError>,
    edit: &ConfigEdit,
) -> (r: Result<Option<PublicationAdmission>, PublicationError>)
    ensures
        match (target, pending, applied) {
            (None, _, _) => r matches Err(e) && e@
                == PublicationError::<Seq<char>>::TargetNotUtf8,
            (Some(t), Err(s), _) => r matches Err(e) && e@ == PublicationError::Journal(s@),
            (Some(t), Ok(p), Ok(a)) => r matches Ok(o) && admitted_view(o) == admission_of(
                edit.digest@,
                t@,
                text::opt_text(*cwd),
                sight@,
                intents(p@),
                intents(a@),
            ),
            (Some(t), Ok(p), Err(s)) => {
                let at = first_command(
                    intents(p@),
                    edit.digest@,
                    sight@,
                    t@,
                    text::opt_text(*cwd),
                );
                if at < p@.len() {
                    r matches Ok(Some(PublicationAdmission::Pending(i))) && i@ == p@[at]@
                } else {
                    r matches Err(e) && e@ == PublicationError::Journal(s@)
                }
            },
        },
{
    let key: &str = match target {
        Some(t) => t,
        None => {
            return Err(PublicationError::TargetNotUtf8);
        },
    };
    let pending_rows: Vec<PublicationIntent> = match pending {
        Ok(p) => p,
        Err(e) => {
            return Err(PublicationError::Journal(e));
        },
    };
    let at: usize = find_command(&pending_rows, edit.digest.as_str(), sight, key, cwd);
    if at < pending_rows.len() {
        return Ok(Some(PublicationAdmission::Pending(pending_rows[at].clone())));
    }
    let applied_rows: Vec<PublicationIntent> = match applied {
        Ok(a) => a,
        Err(e) => {
            return Err(PublicationError::Journal(e));
        },
    };
    let holds: bool = match sight {
        TargetSight::Present { digest, .. } => same(digest.as_str(), edit.digest.as_str()),
        _ => false,
    };
    if holds {
        let done: usize = find_command(&applied_rows, edit.digest.as_str(), sight, key, cwd);
        if done < applied_rows.len() {
            return Ok(Some(PublicationAdmission::Applied(applied_rows[done].clone())));
        }
    }
    Ok(None)
}

// ----- publishing and recovery -----------------------------------------------

/// The next step of a publication.
#[derive(Debug)]
pub enum PublishStep<T = String> {
    /// Write the bytes against the staged file.
    Write { scope_root: T, target: T, expected: FileIdentity },
    /// Record the receipt of the row.
    Receipt { owner: T, target: T, admission_seq: u64 },
    /// The row is left as it is.
    Return(Result<(), PublicationError<T>>),
}

pub open spec fn publish_view(s: PublishStep) -> PublishStep<Seq<char>> {
    match s {
        PublishStep::Write { scope_root, target, expected } => PublishStep::Write {
            scope_root: scope_root@,
            target: target@,
            expected,
        },
        PublishStep::Receipt { owner, target, admission_seq } => PublishStep::Receipt {
            owner: owner@,
            target: target@,
            admission_seq,
        },
        PublishStep::Return(Ok(_)) => PublishStep::Return(Ok(())),
        PublishStep::Return(Err(e)) => PublishStep::Return(Err(e@)),
    }
}

/// The write of an intent: against the file that staging observed.
pub open spec fn write_of(intent: IntentView) -> PublishStep<Seq<char>> {
    match intent.publish_identity {
        None => PublishStep::Return(Err(PublicationError::IdentityMissing)),
        Some(identity) => PublishStep::Write {
            scope_root: match executor::parent(intent.target) {
                Some(dir) => dir,
                None => Seq::empty(),
            },
            target: intent.target,
            expected: FileIdentity { dev: identity.dev, ino: identity.ino },
        },
    }
}

/// The receipt of an intent.
pub open spec fn receipt_of(intent: IntentView) -> PublishStep<Seq<char>> {
    PublishStep::Receipt {
        owner: intent.owner,
        target: intent.target,
        admission_seq: intent.admission_seq,
    }
}

/// The first step of publishing an intent.
pub fn publish_intent(intent: &PublicationIntent) -> (r: PublishStep)
    ensures
        publish_view(r) == write_of(intent@),
{
    match intent.publish_identity {
        None => PublishStep::Return(Err(PublicationError::IdentityMissing)),
        Some(identity) => {
            let scope_root: String = match parent_dir(intent.target.as_str()) {
                Some(dir) => dir,
                None => String::new(),
            };
            PublishStep::Write {
                scope_root,
                target: intent.target.clone(),
                expected: FileIdentity { dev: identity.dev, ino: identity.ino },
            }
        },
    }
}

fn receipt(intent: &PublicationIntent) -> (r: PublishStep)
    ensures
        publish_view(r) == receipt_of(intent@),
{
    PublishStep::Receipt {
        owner: intent.owner.clone(),
        target: intent.target.clone(),
        admission_seq: intent.admission_seq,
    }
}

/// What follows the write: a receipt, or a row that stays pending.
pub fn written(intent: &PublicationIntent, wrote: Result<(), WorkerError>) -> (r: PublishStep)
    ensures
        publish_view(r) == (match wrote {
            Err(e) => PublishStep::Return(Err(PublicationError::Write(e@))),
            Ok(_) => receipt_of(intent@),
        }),
{
    match wrote {
        Err(e) => PublishStep::Return(Err(PublicationError::Write(e))),
        Ok(_) => receipt(intent),
    }
}

/// What a publication comes to once its receipt was recorded, or not: the
/// bytes are durable either way.
pub fn receipted(stored: Result<(), StoreError>) -> (r: PublishStep)
    ensures
        publish_view(r) == (match stored {
            Err(e) => PublishStep::Return(Err(PublicationError::Journal(e@))),
            Ok(_) => PublishStep::<Seq<char>>::Return(Ok(())),
        }),
{
    match stored {
        Err(e) => PublishStep::Return(Err(PublicationError::Journal(e))),
        Ok(_) => PublishStep::Return(Ok(())),
    }
}

/// The bytes are a TOML document.
pub open spec fn is_document(bytes: Seq<u8>) -> bool {
    vstd::utf8::valid_utf8(bytes) && document::parsed_document(
        vstd::utf8::decode_utf8(bytes),
    ) is Ok
}

/// What an intent is against what is at its target.
pub open spec fn classified(intent: IntentView, sight: SightView) -> PublicationVerdict {
    match sight {
        SightView::Absent => PublicationVerdict::Absent,
        SightView::Unknown => PublicationVerdict::Unknown,
        SightView::Present { digest, identity, bytes } => if digest == intent.intended_digest {
            match (intent.publish_identity, identity) {
                (Some(staged), Some(current)) => if staged == current {
                    PublicationVerdict::ExactlyNew
                } else {
                    PublicationVerdict::ByteIdenticalThird
                },
                _ => PublicationVerdict::Unknown,
            }
        } else if intent.base_digest == Some(digest) {
            PublicationVerdict::Old
        } else if is_document(bytes) {
            PublicationVerdict::Conflicting
        } else {
            PublicationVerdict::TornOrUnparseable
        },
    }
}

/// Executable [`classified`].
pub fn classify_intent(intent: &PublicationIntent, sight: &TargetSight) -> (r: PublicationVerdict)
    ensures
        r == classified(intent@, sight@),
{
    match sight {
        TargetSight::Absent => PublicationVerdict::Absent,
        TargetSight::Unknown => PublicationVerdict::Unknown,
        TargetSight::Present { digest, identity, bytes } => {
            if same(digest.as_str(), intent.intended_digest.as_str()) {
                return match (intent.publish_identity, identity) {
                    (Some(staged), Some(current)) => if staged.dev == current.dev && staged.ino
                        == current.ino {
                        PublicationVerdict::ExactlyNew
                    } else {
                        PublicationVerdict::ByteIdenticalThird
                    },
                    _ => PublicationVerdict::Unknown,
                };
            }
            match &intent.base_digest {
                Some(base) => {
                    if same(base.as_str(), digest.as_str()) {
                        return PublicationVerdict::Old;
                    }
                },
                None => {},
            }
            match text_from_bytes(copy_bytes(bytes)) {
                Some(text) => match parse_document(text.as_str()) {
                    Ok(_) => PublicationVerdict::Conflicting,
                    Err(_) => PublicationVerdict::TornOrUnparseable,
                },
                None => PublicationVerdict::TornOrUnparseable,
            }
        },
    }
}

/// What a replay does with a pending intent: another owner's is left alone;
/// one's own is receipted where its bytes hold, and published again
/// otherwise.
pub open spec fn resolving(
    intent: IntentView,
    owner: Seq<char>,
    sight: SightView,
) -> PublishStep<Seq<char>> {
    if intent.owner != owner {
        PublishStep::Return(Ok(()))
    } else if classified(intent, sight) == PublicationVerdict::ExactlyNew {
        receipt_of(intent)
    } else {
        write_of(intent)
    }
}

/// Executable [`resolving`].
pub fn resolve_pending_publication(
    owner: &str,
    intent: &PublicationIntent,
    sight: &TargetSight,
) -> (r: PublishStep)
    ensures
        publish_view(r) == resolving(intent@, owner@, sight@),
{
    if !same(intent.owner.as_str(), owner) {
        return PublishStep::Return(Ok(()));
    }
    match classify_intent(intent, sight) {
        PublicationVerdict::ExactlyNew => receipt(intent),
        _ => publish_intent(intent),
    }
}

pub open spec fn recovery_views(v: Seq<PublicationRecovery>) -> Seq<
    (IntentView, PublicationVerdict),
> {
    Seq::new(v.len(), |i: int| (v[i].intent@, v[i].verdict))
}

/// Classifies every pending intent against what is at its target. Nothing is
/// rewritten; a receipt is owed exactly where the verdict is that the bytes
/// are our own.
pub fn recover_publications(
    pending: &Vec<PublicationIntent>,
    sights: &Vec<TargetSight>,
) -> (r: Vec<PublicationRecovery>)
    requires
        pending@.len() == sights@.len(),
    ensures
        recovery_views(r@) == Seq::new(
            pending@.len(),
            |i: int| (pending@[i]@, classified(pending@[i]@, sights@[i]@)),
        ),
{
    let mut out: Vec<PublicationRecovery> = Vec::new();
    let mut i: usize = 0;
    while i < pending.len()
        invariant
            i <= pending.len() == sights.len(),
            recovery_views(out@) == Seq::new(
                i as nat,
                |j: int| (pending@[j]@, classified(pending@[j]@, sights@[j]@)),
            ),
        decreases pending.len() - i,
    {
        let verdict: PublicationVerdict = classify_intent(&pending[i], &sights[i]);
        let ghost before = out@;
        out.push(PublicationRecovery { intent: pending[i].clone(), verdict });
        i = i + 1;
        assert(recovery_views(out@) =~= Seq::new(
            i as nat,
            |j: int| (pending@[j]@, classified(pending@[j]@, sights@[j]@)),
        )) by {
            assert(recovery_views(before).len() == i - 1);
            assert forall|j: int| 0 <= j < i - 1 implies #[trigger] recovery_views(out@)[j]
                == recovery_views(before)[j] by {}
        }
    }
    out
}

impl PublicationRecovery {
    /// The receipt that this recovery owes, where the bytes are our own.
    pub fn receipt(&self) -> (r: Option<PublishStep>)
        ensures
            if self.verdict == PublicationVerdict::ExactlyNew {
                r matches Some(s) && publish_view(s) == receipt_of(self.intent@)
            } else {
                r is None
            },
    {
        match self.verdict {
            PublicationVerdict::ExactlyNew => Some(receipt(&self.intent)),
            _ => None,
        }
    }
}

// ----- laws ------------------------------------------------------------------

/// A receipt is recorded only for bytes that are at the very file that was
/// staged and have the intended digest: identical bytes in another file, or
/// in one that cannot be compared, are no receipt.
pub proof fn law_receipt_is_for_our_own_write(intent: IntentView, sight: SightView)
    ensures
        (classified(intent, sight) == PublicationVerdict::ExactlyNew) == (
        sight matches SightView::Present { digest, identity, .. } && digest
            == intent.intended_digest && identity is Some && intent.publish_identity == identity),
{
}

/// An intent that was staged over a target and whose bytes were then written
/// into that file in place is classified as exactly new; before the write it
/// is classified as old, unless the bytes are the same.
pub proof fn law_staged_write_is_recovered(
    intent: IntentView,
    identity: PublishIdentity,
    before: Seq<u8>,
    after: Seq<u8>,
)
    requires
        intent.publish_identity == Some(identity),
        intent.base_digest == Some(digest::digest_text(before)),
        intent.intended_digest == digest::digest_text(after),
    ensures
        classified(
            intent,
            SightView::Present {
                digest: digest::digest_text(after),
                identity: Some(identity),
                bytes: after,
            },
        ) == PublicationVerdict::ExactlyNew,
        digest::digest_text(before) != digest::digest_text(after) ==> classified(
            intent,
            SightView::Present {
                digest: digest::digest_text(before),
                identity: Some(identity),
                bytes: before,
            },
        ) == PublicationVerdict::Old,
{
}

proof fn lemma_first_command(
    rows: Seq<IntentView>,
    digest: Seq<char>,
    sight: SightView,
    target: Seq<char>,
    cwd: Option<Seq<char>>,
)
    ensures
        ({
            let at = first_command(rows, digest, sight, target, cwd);
            &&& 0 <= at <= rows.len()
            &&& at < rows.len() ==> same_command(rows[at], digest, sight, target, cwd)
            &&& forall|i: int|
                0 <= i < at ==> !#[trigger] same_command(rows[i], digest, sight, target, cwd)
        }),
    decreases rows.len(),
{
    if rows.len() > 0 && !same_command(rows[0], digest, sight, target, cwd) {
        lemma_first_command(rows.skip(1), digest, sight, target, cwd);
        let at = first_command(rows, digest, sight, target, cwd);
        assert forall|i: int| 0 <= i < at implies !#[trigger] same_command(
            rows[i],
            digest,
            sight,
            target,
            cwd,
        ) by {
            if i > 0 {
                assert(rows.skip(1)[i - 1] == rows[i]);
            }
        }
        if at < rows.len() {
            assert(rows.skip(1)[at - 1] == rows[at]);
        }
    }
}

/// A command that is still pending is never journaled twice: a new intent is
/// staged only when no pending one is for the same bytes at the same file.
pub proof fn law_pending_command_is_not_journaled_twice(
    digest: Seq<char>,
    target: Seq<char>,
    cwd: Option<Seq<char>>,
    sight: SightView,
    pending: Seq<IntentView>,
    applied: Seq<IntentView>,
)
    ensures
        (exists|i: int|
            0 <= i < pending.len() && #[trigger] same_command(
                pending[i],
                digest,
                sight,
                target,
                cwd,
            )) == (admission_of(digest, target, cwd, sight, pending, applied) matches Some(
            PublicationAdmission::Pending(_),
        )),
{
    lemma_first_command(pending, digest, sight, target, cwd);
}

/// A command is answered from a finished row only while the bytes that the
/// row intended are at the file.
pub proof fn law_applied_answer_holds_at_the_target(
    digest: Seq<char>,
    target: Seq<char>,
    cwd: Option<Seq<char>>,
    sight: SightView,
    pending: Seq<IntentView>,
    applied: Seq<IntentView>,
)
    ensures
        admission_of(digest, target, cwd, sight, pending, applied) matches Some(
            PublicationAdmission::Applied(row),
        ) ==> row.intended_digest == digest && (sight matches SightView::Present {
            digest: held,
            ..
        } && held == digest) && for_target(row, sight, target, cwd),
{
    lemma_first_command(applied, digest, sight, target, cwd);
}

/// A replay never races another owner's write: it neither writes nor records
/// a receipt for a row that it does not own.
pub proof fn law_foreign_row_is_left_alone(intent: IntentView, owner: Seq<char>, sight: SightView)
    requires
        intent.owner != owner,
    ensures
        resolving(intent, owner, sight) == PublishStep::<Seq<char>>::Return(Ok(())),
{
}

} // verus!
