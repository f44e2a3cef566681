//! What happens to a directory once each of its files has been handled: whether
//! its outputs are packed, which sources are removed, and whether the directory
//! itself goes.
use vstd::prelude::*;
use crate::classify::FileKind;
use crate::config::JxlArgs;
use crate::text::views;

verus! {

/// How one file of a directory was handled.
#[derive(Debug)]
pub enum FileOutcome {
    /// The source was converted; the output stands at its canonical name.
    Converted { source: String, output: String },
    /// The file was already in the target format and is kept as it is.
    Kept(String),
    /// The file is not an image the pipeline converts; it is left alone.
    Skipped(String),
    /// The source was gone before it could be read: an earlier pass already
    /// handled it.
    Vanished(String),
    /// The conversion failed, for the reason given.
    Failed { source: String, reason: String },
}

/// What the encoder run for one source came to.
#[derive(Debug)]
pub enum EncodeResult {
    /// The encoder succeeded and the output was reconciled at its canonical name.
    Success,
    /// The source could not be opened because it no longer exists.
    SourceMissing,
    /// Every name of the output's collision set up to the bound was taken.
    NoFreeName,
    /// The encoder could not be started or exited with failure; its output.
    Failure(String),
}

/// The outcome of a file that needs no encoder run: `None` for a convertible one.
pub fn outcome_without_encoding(source: String, kind: FileKind) -> (r: Option<FileOutcome>)
    ensures
        kind is Convertible <==> r is None,
        kind is AlreadyTarget ==> r == Some(FileOutcome::Kept(source)),
        kind is Unsupported ==> r == Some(FileOutcome::Skipped(source)),
{
    match kind {
        FileKind::Convertible(_) => None,
        FileKind::AlreadyTarget => Some(FileOutcome::Kept(source)),
        FileKind::Unsupported => Some(FileOutcome::Skipped(source)),
    }
}

/// The outcome of a convertible file, from what its encoder run came to.
pub fn outcome_of_encoding(source: String, output: String, result: EncodeResult) -> (r: FileOutcome)
    ensures
        result is Success ==> r == (FileOutcome::Converted { source, output }),
        result is SourceMissing ==> r == FileOutcome::Vanished(source),
        result is NoFreeName ==> r is Failed && r->Failed_source == source,
        result is Failure ==> r == (FileOutcome::Failed { source, reason: result->Failure_0 }),
{
    match result {
        EncodeResult::Success => FileOutcome::Converted { source, output },
        EncodeResult::SourceMissing => FileOutcome::Vanished(source),
        EncodeResult::NoFreeName => FileOutcome::Failed {
            source,
            reason: String::from_str("no free output name"),
        },
        EncodeResult::Failure(reason) => FileOutcome::Failed { source, reason },
    }
}

/// Some file of the directory failed to convert.
pub open spec fn any_failed(outcomes: Seq<FileOutcome>) -> bool {
    exists|i: int| 0 <= i < outcomes.len() && #[trigger] outcomes[i] is Failed
}

/// The files that belong in the directory's archive, in order: each output and
/// each file already in the target format.
pub open spec fn members_of(outcomes: Seq<FileOutcome>) -> Seq<Seq<char>>
    decreases outcomes.len(),
{
    if outcomes.len() == 0 {
        Seq::empty()
    } else {
        let prev = members_of(outcomes.drop_last());
        match outcomes.last() {
            FileOutcome::Converted { output, .. } => prev.push(output@),
            FileOutcome::Kept(path) => prev.push(path@),
            _ => prev,
        }
    }
}

/// The sources that were converted, in order.
pub open spec fn converted_sources(outcomes: Seq<FileOutcome>) -> Seq<Seq<char>>
    decreases outcomes.len(),
{
    if outcomes.len() == 0 {
        Seq::empty()
    } else {
        let prev = converted_sources(outcomes.drop_last());
        match outcomes.last() {
            FileOutcome::Converted { source, .. } => prev.push(source@),
            _ => prev,
        }
    }
}

/// The directory is packed: packing is asked for, nothing failed, and there is
/// something to pack.
pub open spec fn packs(settings: JxlArgs, outcomes: Seq<FileOutcome>) -> bool {
    settings.make_zip && !any_failed(outcomes) && members_of(outcomes).len() > 0
}

/// The sources to remove: the converted ones, when that is asked for and
/// nothing failed.
pub open spec fn sources_removed(settings: JxlArgs, outcomes: Seq<FileOutcome>) -> Seq<Seq<char>> {
    if settings.delete_source_image && !any_failed(outcomes) {
        converted_sources(outcomes)
    } else {
        Seq::empty()
    }
}

/// Some file of the directory was left alone as not convertible.
pub open spec fn any_skipped(outcomes: Seq<FileOutcome>) -> bool {
    exists|i: int| 0 <= i < outcomes.len() && #[trigger] outcomes[i] is Skipped
}

/// The directory itself is removed: that is asked for, it was packed, and it
/// holds no file that the pipeline left alone.
pub open spec fn folder_removed(settings: JxlArgs, outcomes: Seq<FileOutcome>) -> bool {
    settings.delete_folder && packs(settings, outcomes) && !any_skipped(outcomes)
}

/// What to do with a directory whose files have all been handled. It is carried
/// out in this order: pack `members` when `archive`, remove `delete_sources`,
/// then remove the directory when `delete_folder`. Removal goes to the trash
/// when `use_trash`, and is irreversible otherwise.
#[derive(Debug)]
pub struct DirectoryPlan {
    pub archive: bool,
    pub members: Vec<String>,
    pub delete_sources: Vec<String>,
    pub delete_folder: bool,
    pub use_trash: bool,
}

/// The plan for a directory, from the settings and the outcome of each of its
/// files.
pub fn plan_directory(settings: &JxlArgs, outcomes: &Vec<FileOutcome>) -> (plan: DirectoryPlan)
    ensures
        plan.archive == packs(*settings, outcomes@),
        views(plan.members@) == (if plan.archive {
            members_of(outcomes@)
        } else {
            Seq::empty()
        }),
        views(plan.delete_sources@) == sources_removed(*settings, outcomes@),
        plan.delete_folder == folder_removed(*settings, outcomes@),
        plan.use_trash == !settings.dont_use_trashcan_just_delete,
{
    let mut failed = false;
    let mut skipped = false;
    let mut members: Vec<String> = Vec::new();
    let mut converted: Vec<String> = Vec::new();
    let mut i: usize = 0;
    while i < outcomes.len()
        invariant
            i <= outcomes@.len(),
            failed == any_failed(outcomes@.subrange(0, i as int)),
            skipped == any_skipped(outcomes@.subrange(0, i as int)),
            views(members@) == members_of(outcomes@.subrange(0, i as int)),
            views(converted@) == converted_sources(outcomes@.subrange(0, i as int)),
        decreases outcomes@.len() - i,
    {
        let ghost prefix = outcomes@.subrange(0, i + 1);
        proof {
            assert(prefix.drop_last() =~= outcomes@.subrange(0, i as int));
            assert(prefix.last() == outcomes@[i as int]);
        }
        match &outcomes[i] {
            FileOutcome::Converted { source, output } => {
                members.push(output.clone());
                converted.push(source.clone());
            },
            FileOutcome::Kept(path) => {
                members.push(path.clone());
            },
            FileOutcome::Failed { .. } => {
                failed = true;
            },
            FileOutcome::Skipped(_) => {
                skipped = true;
            },
            _ => {},
        }
        proof {
            assert(views(members@) =~= members_of(prefix));
            assert(views(converted@) =~= converted_sources(prefix));
            if failed {
                if !any_failed(outcomes@.subrange(0, i as int)) {
                    assert(prefix[i as int] is Failed);
                } else {
                    let j = choose|j: int|
                        0 <= j < i && #[trigger] outcomes@.subrange(0, i as int)[j] is Failed;
                    assert(prefix[j] is Failed);
                }
            } else {
                assert forall|j: int| 0 <= j < prefix.len() implies !(#[trigger] prefix[j] is Failed) by {
                    if j < i {
                        assert(prefix[j] == outcomes@.subrange(0, i as int)[j]);
                    }
                }
            }
            if skipped {
                if !any_skipped(outcomes@.subrange(0, i as int)) {
                    assert(prefix[i as int] is Skipped);
                } else {
                    let j = choose|j: int|
                        0 <= j < i && #[trigger] outcomes@.subrange(0, i as int)[j] is Skipped;
                    assert(prefix[j] is Skipped);
                }
            } else {
                assert forall|j: int| 0 <= j < prefix.len() implies !(#[trigger] prefix[j] is Skipped) by {
                    if j < i {
                        assert(prefix[j] == outcomes@.subrange(0, i as int)[j]);
                    }
                }
            }
        }
        i = i + 1;
    }
    proof {
        assert(outcomes@.subrange(0, outcomes@.len() as int) =~= outcomes@);
    }
    let archive = settings.make_zip && !failed && members.len() > 0;
    let delete_sources = if settings.delete_source_image && !failed {
        converted
    } else {
        Vec::new()
    };
    let members = if archive {
        members
    } else {
        Vec::new()
    };
    proof {
        assert(views(Seq::<String>::empty()) =~= Seq::<Seq<char>>::empty());
        assert(members_of(outcomes@).len() == members@.len() || !archive);
    }
    DirectoryPlan {
        archive,
        members,
        delete_sources,
        delete_folder: settings.delete_folder && archive && !skipped,
        use_trash: !settings.dont_use_trashcan_just_delete,
    }
}

proof fn lemma_no_members(outcomes: Seq<FileOutcome>)
    requires
        forall|i: int|
            0 <= i < outcomes.len() ==> #[trigger] outcomes[i] is Skipped || outcomes[i] is Vanished,
    ensures
        members_of(outcomes).len() == 0,
        converted_sources(outcomes).len() == 0,
    decreases outcomes.len(),
{
    if outcomes.len() > 0 {
        assert forall|i: int| 0 <= i < outcomes.drop_last().len() implies #[trigger] outcomes.drop_last()[i] is Skipped
            || outcomes.drop_last()[i] is Vanished by {
            assert(outcomes.drop_last()[i] == outcomes[i]);
        }
        lemma_no_members(outcomes.drop_last());
        assert(outcomes[outcomes.len() - 1] is Skipped || outcomes[outcomes.len() - 1] is Vanished);
    }
}

/// A directory without an image to convert or to keep is left as it is: nothing
/// is packed and nothing is removed.
pub proof fn lemma_no_images_no_changes(settings: JxlArgs, outcomes: Seq<FileOutcome>)
    requires
        forall|i: int|
            0 <= i < outcomes.len() ==> #[trigger] outcomes[i] is Skipped || outcomes[i] is Vanished,
    ensures
        !packs(settings, outcomes),
        sources_removed(settings, outcomes).len() == 0,
        !folder_removed(settings, outcomes),
{
    lemma_no_members(outcomes);
}

/// A directory in which some file failed is neither packed nor removed, and
/// none of its sources is removed, whatever became of its other files.
pub proof fn lemma_failure_blocks_changes(settings: JxlArgs, outcomes: Seq<FileOutcome>, i: int)
    requires
        0 <= i < outcomes.len(),
        outcomes[i] is Failed,
    ensures
        !packs(settings, outcomes),
        sources_removed(settings, outcomes).len() == 0,
        !folder_removed(settings, outcomes),
{
    assert(any_failed(outcomes));
}

proof fn lemma_converted_listed(outcomes: Seq<FileOutcome>, i: int)
    requires
        0 <= i < outcomes.len(),
        outcomes[i] is Converted,
    ensures
        members_of(outcomes).contains(outcomes[i]->Converted_output@),
        converted_sources(outcomes).contains(outcomes[i]->Converted_source@),
    decreases outcomes.len(),
{
    let last = outcomes.len() - 1;
    if i < last {
        lemma_converted_listed(outcomes.drop_last(), i);
        assert(outcomes.drop_last()[i] == outcomes[i]);
        let m = members_of(outcomes.drop_last());
        let c = converted_sources(outcomes.drop_last());
        let x = outcomes[i]->Converted_output@;
        let y = outcomes[i]->Converted_source@;
        let j = choose|j: int| 0 <= j < m.len() && m[j] == x;
        let k = choose|k: int| 0 <= k < c.len() && c[k] == y;
        match outcomes.last() {
            FileOutcome::Converted { output, source } => {
                assert(members_of(outcomes)[j] == x);
                assert(converted_sources(outcomes)[k] == y);
            },
            FileOutcome::Kept(path) => {
                assert(members_of(outcomes)[j] == x);
                assert(converted_sources(outcomes)[k] == y);
            },
            _ => {
                assert(members_of(outcomes)[j] == x);
                assert(converted_sources(outcomes)[k] == y);
            },
        }
    } else {
        let m = members_of(outcomes);
        let c = converted_sources(outcomes);
        assert(m[m.len() - 1] == outcomes[i]->Converted_output@);
        assert(c[c.len() - 1] == outcomes[i]->Converted_source@);
    }
}

/// In a directory where nothing failed and packing is asked for, every output
/// is packed, every converted source is removed when source removal is asked
/// for, and the directory is removed exactly when that is asked for and it holds
/// no file that the pipeline left alone.
pub proof fn lemma_success_packs_everything(
    settings: JxlArgs,
    outcomes: Seq<FileOutcome>,
    i: int,
)
    requires
        settings.make_zip,
        !any_failed(outcomes),
        0 <= i < outcomes.len(),
        outcomes[i] is Converted,
    ensures
        packs(settings, outcomes),
        members_of(outcomes).contains(outcomes[i]->Converted_output@),
        settings.delete_source_image ==> sources_removed(settings, outcomes).contains(
            outcomes[i]->Converted_source@,
        ),
        folder_removed(settings, outcomes) == (settings.delete_folder && !any_skipped(outcomes)),
{
    lemma_converted_listed(outcomes, i);
}

/// Whether a freshly written archive is kept once its members have been
/// visited (`appended[i]` tells whether member `i` was appended, rather than
/// found gone): an archive to which nothing was appended is removed.
pub fn archive_is_kept(appended: &Vec<bool>) -> (r: bool)
    ensures
        r == exists|i: int| 0 <= i < appended@.len() && #[trigger] appended@[i],
{
    let mut i: usize = 0;
    while i < appended.len()
        invariant
            i <= appended@.len(),
            forall|j: int| 0 <= j < i ==> !#[trigger] appended@[j],
        decreases appended@.len() - i,
    {
        if appended[i] {
            return true;
        }
        i = i + 1;
    }
    false
}

} // verus!
