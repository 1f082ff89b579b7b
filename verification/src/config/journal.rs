//! What the journal of publications promises: whose bytes are at a target, and
//! what is owed to a row.

use crate::config::publication::{
    self, IntentView, PublicationAdmission, PublicationError, PublicationVerdict, PublishIdentity,
    PublishStep, SightView, TargetRead,
};
use crate::digest;
use crate::executor;
use vstd::prelude::*;

verus! {

/// Every pending row has one verdict. Nothing at the target: absent. The
/// intended bytes: new where they are in the staged file, a third party's
/// where they are in another one, unknown where the files cannot be told
/// apart. The bytes the edit was based on: old. Anything else: a conflict
/// where it is a document, torn where it is none.
pub proof fn law_verdict_tells_whose_bytes(
    intent: IntentView,
    digest: Seq<char>,
    identity: Option<PublishIdentity>,
    bytes: Seq<u8>,
)
    ensures
        publication::classified(intent, SightView::Absent) == PublicationVerdict::Absent,
        publication::classified(intent, SightView::Unknown) == PublicationVerdict::Unknown,
        ({
            let v = publication::classified(intent, SightView::Present { digest, identity, bytes });
            let ours = digest == intent.intended_digest;
            let base = intent.base_digest == Some(digest);
            let known = intent.publish_identity is Some && identity is Some;
            &&& v == PublicationVerdict::ExactlyNew <==> ours && known && intent.publish_identity
                == identity
            &&& v == PublicationVerdict::ByteIdenticalThird <==> ours && known
                && intent.publish_identity != identity
            &&& v == PublicationVerdict::Unknown <==> ours && !known
            &&& v == PublicationVerdict::Old <==> !ours && base
            &&& v == PublicationVerdict::Conflicting <==> !ours && !base
                && publication::is_document(bytes)
            &&& v == PublicationVerdict::TornOrUnparseable <==> !ours && !base
                && !publication::is_document(bytes)
            &&& v != PublicationVerdict::Absent
        }),
{
}

/// A file is known by its identity: where the target is there and the row was
/// staged over a file, the spelling of the path does not matter.
pub proof fn law_identity_keys_a_target(
    intent: IntentView,
    digest: Seq<char>,
    current: PublishIdentity,
    bytes: Seq<u8>,
    target: Seq<char>,
    cwd: Option<Seq<char>>,
)
    ensures
        intent.publish_identity is Some ==> (publication::for_target(
            intent,
            SightView::Present { digest, identity: Some(current), bytes },
            target,
            cwd,
        ) <==> intent.publish_identity == Some(current)),
        intent.publish_identity is None ==> (publication::for_target(
            intent,
            SightView::Present { digest, identity: Some(current), bytes },
            target,
            cwd,
        ) <==> intent.target == target),
        intent.target == target ==> publication::for_target(
            intent,
            SightView::Absent,
            target,
            cwd,
        ),
{
}

/// Without a file to look at, two spellings are one target where they have the
/// same components once both are absolute: a single dot, a doubled separator
/// and the current directory make no difference.
pub proof fn law_spellings_of_one_target(dir: Seq<char>, name: Seq<char>)
    requires
        dir.len() > 0,
        dir[0] == '/',
        name.len() > 0,
        name[0] != '/',
    ensures
        publication::spelled_same(dir + seq!['/'] + name, name, Some(dir)),
        publication::spelled_same(
            dir + seq!['/'] + name,
            dir + seq!['/'] + (Seq::<char>::empty() + seq!['/'] + name),
            None,
        ),
        publication::spelled_same(
            dir + seq!['/'] + name,
            dir + seq!['/'] + ("."@ + seq!['/'] + name),
            None,
        ),
{
    let none = Seq::<char>::empty();
    reveal_strlit(".");
    executor::laws::law_separator_parts_components(dir, name);
    executor::laws::law_separator_parts_components(dir, none + seq!['/'] + name);
    executor::laws::law_separator_parts_components(none, name);
    executor::laws::law_separator_parts_components(dir, "."@ + seq!['/'] + name);
    executor::laws::law_separator_parts_components("."@, name);
    executor::laws::law_name_is_one_component(none);
    assert(!"."@.contains('/'));
    executor::laws::law_name_is_one_component("."@);
    assert(executor::components(none) + executor::components(name) =~= executor::components(name));
    assert(executor::components("."@) + executor::components(name) =~= executor::components(name));
    assert((dir + seq!['/'] + name)[0] == '/');
    assert((dir + seq!['/'] + (none + seq!['/'] + name))[0] == '/');
    assert((dir + seq!['/'] + ("."@ + seq!['/'] + name))[0] == '/');
}

proof fn lemma_first(
    rows: Seq<IntentView>,
    digest: Seq<char>,
    sight: SightView,
    target: Seq<char>,
    cwd: Option<Seq<char>>,
)
    ensures
        ({
            let at = publication::first_command(rows, digest, sight, target, cwd);
            &&& 0 <= at <= rows.len()
            &&& at < rows.len() <==> exists|i: int|
                0 <= i < rows.len() && (#[trigger] rows[i]).intended_digest == digest
                    && publication::for_target(rows[i], sight, target, cwd)
            &&& at < rows.len() ==> rows[at].intended_digest == digest && publication::for_target(
                rows[at],
                sight,
                target,
                cwd,
            )
        }),
    decreases rows.len(),
{
    if rows.len() > 0 && !publication::same_command(rows[0], digest, sight, target, cwd) {
        let t = rows.skip(1);
        lemma_first(t, digest, sight, target, cwd);
        let at = publication::first_command(rows, digest, sight, target, cwd);
        if at < rows.len() {
            assert(t[at - 1] == rows[at]);
        }
        if exists|i: int|
            0 <= i < rows.len() && (#[trigger] rows[i]).intended_digest == digest
                && publication::for_target(rows[i], sight, target, cwd) {
            let i = choose|i: int|
                0 <= i < rows.len() && (#[trigger] rows[i]).intended_digest == digest
                    && publication::for_target(rows[i], sight, target, cwd);
            assert(i > 0);
            assert(t[i - 1] == rows[i]);
        }
    }
}

/// A command is admitted once. It is answered as pending where a pending row
/// is for the same bytes at the same file; else as applied where its bytes are
/// at the target and a finished row is for them; else, and only then, a new
/// row is staged.
pub proof fn law_command_is_admitted_once(
    digest: Seq<char>,
    target: Seq<char>,
    cwd: Option<Seq<char>>,
    sight: SightView,
    pending: Seq<IntentView>,
    applied: Seq<IntentView>,
)
    ensures
        ({
            let r = publication::admission_of(digest, target, cwd, sight, pending, applied);
            let waits = exists|i: int|
                0 <= i < pending.len() && (#[trigger] pending[i]).intended_digest == digest
                    && publication::for_target(pending[i], sight, target, cwd);
            let done = exists|i: int|
                0 <= i < applied.len() && (#[trigger] applied[i]).intended_digest == digest
                    && publication::for_target(applied[i], sight, target, cwd);
            let holds = sight matches SightView::Present { digest: held, .. } && held == digest;
            &&& waits ==> (r matches Some(PublicationAdmission::Pending(row))
                && row.intended_digest == digest && publication::for_target(
                row,
                sight,
                target,
                cwd,
            ) && pending.contains(row))
            &&& !waits && holds && done ==> (r matches Some(PublicationAdmission::Applied(row))
                && row.intended_digest == digest && applied.contains(row))
            &&& !waits && !(holds && done) ==> r is None
        }),
{
    lemma_first(pending, digest, sight, target, cwd);
    lemma_first(applied, digest, sight, target, cwd);
    let p = publication::first_command(pending, digest, sight, target, cwd);
    let a = publication::first_command(applied, digest, sight, target, cwd);
    if p < pending.len() {
        assert(pending[p] == pending[p]);
    }
    if a < applied.len() {
        assert(applied[a] == applied[a]);
    }
}

/// A replay of one's own row records the receipt where the bytes are its own,
/// and otherwise writes again: to the same target, in the directory of the
/// target, and only into the file that was staged. A row without a staged file
/// is never written.
pub proof fn law_replay_finishes_its_own_row(intent: IntentView, sight: SightView)
    ensures
        ({
            let r = publication::resolving(intent, intent.owner, sight);
            let new = publication::classified(intent, sight) == PublicationVerdict::ExactlyNew;
            &&& new ==> (r matches PublishStep::Receipt { owner, target, admission_seq } && owner
                == intent.owner && target == intent.target && admission_seq
                == intent.admission_seq)
            &&& !new && intent.publish_identity is Some ==> (r matches PublishStep::Write {
                scope_root,
                target,
                expected,
            } && target == intent.target && expected.dev == intent.publish_identity->0.dev
                && expected.ino == intent.publish_identity->0.ino && (executor::parent(
                intent.target,
            ) matches Some(dir) ==> scope_root == dir))
            &&& !new && intent.publish_identity is None ==> (r matches PublishStep::Return(Err(
                PublicationError::IdentityMissing,
            )))
        }),
{
}

/// A target is observed through one handle: only a regular file within the
/// ceiling is, with the identity of the opened file and the bytes read from
/// it; an absent target is no error.
pub proof fn law_target_is_observed_once(read: TargetRead)
    ensures
        ({
            let o = publication::observation(read);
            &&& (o matches Ok(None)) <==> read is NotFound
            &&& o matches Ok(Some(seen)) ==> (read matches TargetRead::Opened {
                facts,
                bytes: Ok(b),
            } && facts.regular && facts.len <= publication::PUBLICATION_MAX_BYTES && b@.len()
                <= publication::PUBLICATION_MAX_BYTES && seen.1 == b@ && seen.0.dev == facts.dev
                && seen.0.ino == facts.ino)
            &&& (read matches TargetRead::Opened { facts, bytes: Ok(b) } && facts.regular
                && facts.len <= publication::PUBLICATION_MAX_BYTES && b@.len()
                <= publication::PUBLICATION_MAX_BYTES) ==> (o matches Ok(Some(_)))
            &&& o is Err ==> publication::sight_of(read) is Unknown
            &&& read is NotFound ==> publication::sight_of(read) is Absent
            &&& o matches Ok(Some(seen)) ==> publication::sight_of(read) == (SightView::Present {
                digest: digest::digest_text(seen.1),
                identity: Some(seen.0),
                bytes: seen.1,
            })
        }),
{
}

} // verus!
