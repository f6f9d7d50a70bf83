//! What holds of every run.

pub mod asked;
pub mod stepwise;
pub mod whole;
pub mod words;
use crate::area::{areas_have_all_whole_pages, least_area_can_be_told, least_size, pages_of};
use crate::device::{DeviceAction, DeviceEvent};
use crate::endian::Endian;
use crate::error::{MkswapError, SetupError};
use crate::header::{
    holds_area, overlaid, page_error, writing_again_changes_nothing, written_page_reads_back,
    BOOTBITS_SIZE, MIN_HEADER_PAGE, MIN_SWAP_PAGES,
};
use crate::pagesize::is_usable;
use crate::scan::unreadable;
use crate::request::Request;
use crate::session::{badpages_after, is_step, writes, Action, Event, Mkswap, Stage, Step};
use vstd::prelude::*;
use vstd::utf8::encode_utf8;

verus! {

/// How far a run has come.
pub open spec fn rank(stage: Stage) -> nat {
    match stage {
        Stage::PageSize => 0,
        Stage::Opening { .. } => 1,
        Stage::Status { .. } => 2,
        Stage::BlockSize { .. } => 3,
        Stage::SizeFile { .. } => 4,
        Stage::Scan { .. } => 5,
        Stage::Write { .. } => 6,
        Stage::Over => 7,
    }
}

/// How much is left to do at a stage.
pub open spec fn left(stage: Stage) -> nat {
    match stage {
        Stage::Opening { action, .. } => match action {
            DeviceAction::Open { .. } => 6,
            DeviceAction::SetPermissions { .. } => 5,
            DeviceAction::QueryFileSystem => 4,
            DeviceAction::GetFlags => 3,
            DeviceAction::SetFlags { .. } => 2,
            DeviceAction::Allocate { .. } => 1,
            DeviceAction::Done => 0,
        },
        Stage::Scan { scan, .. } => (scan.pages - scan.page) as nat,
        _ => 0,
    }
}

/// Whether an answer belongs to an action on the device.
pub open spec fn answers(action: DeviceAction, event: DeviceEvent) -> bool {
    match event {
        DeviceEvent::Failed { .. } => true,
        DeviceEvent::FileSystem(_) => action is QueryFileSystem,
        DeviceEvent::Flags(_) => action is GetFlags,
        DeviceEvent::Succeeded => !(action is QueryFileSystem) && !(action is GetFlags),
    }
}

/// A run never goes back, and with every answer that belongs to what it asked
/// for it comes nearer to its end.
pub proof fn runs_come_to_an_end(before: Mkswap, event: Event, after: Mkswap, step: Step)
    requires
        before.wf(),
        before.can_take(event),
        is_step(before, event, after, step),
    ensures
        after.request == before.request,
        rank(after.stage) >= rank(before.stage),
        (before.stage matches Stage::Opening { action, .. } ==> event matches Event::Device(
            answer,
        ) ==> answers(action, answer)) ==> rank(after.stage) > rank(before.stage) || left(
            after.stage,
        ) < left(before.stage),
{
}

/// A run is over exactly when it has told the user how it went, and then takes
/// nothing more.
pub proof fn runs_end_with_a_word_to_the_user(
    before: Mkswap,
    event: Event,
    after: Mkswap,
    step: Step,
)
    requires
        before.wf(),
        before.can_take(event),
        is_step(before, event, after, step),
    ensures
        after.stage is Over <==> step.action is Finish || step.action is Fail,
        after.stage is Over ==> forall|e: Event| !after.can_take(e),
{
}

/// A run writes at most once, and reports success only once the area is
/// written: the step that asks for the writing is the one that enters the stage
/// of writing, and success is reported from there alone.
pub proof fn areas_are_written_once_and_before_success(
    before: Mkswap,
    event: Event,
    after: Mkswap,
    step: Step,
)
    requires
        before.wf(),
        before.can_take(event),
        is_step(before, event, after, step),
    ensures
        step.action is WriteArea <==> after.stage is Write,
        step.action is WriteArea ==> rank(before.stage) < rank(after.stage),
        step.action is Finish ==> before.stage is Write && event is Written,
{
}

/// Nothing is done to a device that is to be created unless the file will be
/// large enough for an area.
pub proof fn small_files_are_not_created(before: Mkswap, event: Event, after: Mkswap, step: Step)
    requires
        before.wf(),
        before.can_take(event),
        is_step(before, event, after, step),
        step.action is Device,
        before.request.create,
    ensures
        after.stage matches Stage::Opening { pagesize, .. } && before.request.filesize
            >= least_size(pagesize),
{
}

/// What a run writes makes a swap area of the device that a reader finds as it
/// was asked for, whatever the machine. The write stays inside the first page of
/// the area and leaves alone the bytes that belong to a boot loader. Unless it
/// is forced, the area ends inside the device, and nothing grows.
pub proof fn runs_write_the_area_and_nothing_else(
    before: Mkswap,
    event: Event,
    after: Mkswap,
    step: Step,
    device: Seq<u8>,
)
    requires
        before.wf(),
        before.can_take(event),
        is_step(before, event, after, step),
        after.wf(),
        step.action is WriteArea,
        device.len() >= after.stage->Write_devsize,
    ensures
        ({
            let request = before.request;
            let write = step.action->WriteArea_0;
            let pagesize = after.stage->Write_pagesize;
            let pages = after.stage->Write_pages;
            let written = overlaid(device, write.position as nat, write.bytes@);
            &&& written.len() == if request.offset + pagesize > device.len() {
                request.offset + pagesize
            } else {
                device.len() as int
            }
            &&& forall|i: int|
                0 <= i < device.len() && !(request.offset + BOOTBITS_SIZE <= i < request.offset
                    + pagesize) ==> #[trigger] written[i] == device[i]
            &&& !request.force ==> request.offset + pages * pagesize <= device.len()
            &&& !request.force ==> written.len() == device.len()
            &&& holds_area(
                written,
                request.offset as int,
                request.endianness.on_disk(request.host),
                encode_utf8(request.label@),
                request.uuid@,
                pages,
                badpages_after(before, event),
                pagesize as nat,
            )
        }),
{
    let request = before.request;
    let pagesize = after.stage->Write_pagesize;
    let pages = after.stage->Write_pages;
    let write = step.action->WriteArea_0;
    let badpages = badpages_after(before, event);
    assert(page_error(encode_utf8(request.label@), pages, badpages, pagesize as nat) is None);
    assert(write.bytes@ == request.first_page(pagesize, pages, badpages).skip(
        BOOTBITS_SIZE as int,
    ));
    written_page_reads_back(
        device,
        request.offset as nat,
        request.endianness.on_disk(request.host),
        encode_utf8(request.label@),
        request.uuid@,
        pages,
        badpages,
        pagesize as nat,
    );
}

/// What a run writes is the first page of its area, without the bytes that belong
/// to a boot loader.
proof fn lemma_written_by(before: Mkswap, event: Event, after: Mkswap, step: Step)
    requires
        before.wf(),
        is_step(before, event, after, step),
        step.action is WriteArea,
    ensures
        after.request == before.request,
        after.stage is Write,
        step.action->WriteArea_0.position == before.request.offset + BOOTBITS_SIZE,
        step.action->WriteArea_0.bytes@ == before.request.first_page(
            after.stage->Write_pagesize,
            after.stage->Write_pages,
            badpages_after(before, event),
        ).skip(BOOTBITS_SIZE as int),
        step.action->WriteArea_0.bytes@.len() == after.stage->Write_pagesize - BOOTBITS_SIZE,
{
}

/// A file that grows by the first page of its area has an area of as many pages
/// as before.
proof fn lemma_same_pages(
    devsize: u64,
    grown: u64,
    offset: u64,
    pagesize: usize,
    force: bool,
    pages: u32,
    pages_again: u32,
)
    requires
        pagesize > 0,
        pages_of(devsize, offset, pagesize, force) == Ok::<_, SetupError>(pages),
        pages_of(grown, offset, pagesize, force) == Ok::<_, SetupError>(pages_again),
        grown == if offset + pagesize > devsize {
            offset + pagesize
        } else {
            devsize as int
        },
    ensures
        pages_again == pages,
{
}

/// A run that asks for the same once more, with the same UUID, and finds the same
/// bad pages, writes what is there already: the device stays as the first run
/// left it.
#[verifier::rlimit(30)]
pub proof fn runs_repeated_change_nothing(
    before: Mkswap,
    event: Event,
    after: Mkswap,
    step: Step,
    before_again: Mkswap,
    event_again: Event,
    after_again: Mkswap,
    step_again: Step,
    device: Seq<u8>,
)
    requires
        before.wf(),
        is_step(before, event, after, step),
        after.wf(),
        step.action is WriteArea,
        before_again.wf(),
        is_step(before_again, event_again, after_again, step_again),
        after_again.wf(),
        step_again.action is WriteArea,
        before_again.request.label@ == before.request.label@,
        before_again.request.uuid@ == before.request.uuid@,
        before_again.request.endianness == before.request.endianness,
        before_again.request.host == before.request.host,
        before_again.request.offset == before.request.offset,
        before_again.request.force == before.request.force,
        after_again.stage->Write_pagesize == after.stage->Write_pagesize,
        badpages_after(before_again, event_again) == badpages_after(before, event),
        after.stage->Write_devsize == device.len(),
        after_again.stage->Write_devsize == overlaid(
            device,
            step.action->WriteArea_0.position as nat,
            step.action->WriteArea_0.bytes@,
        ).len(),
    ensures
        ({
            let write = step.action->WriteArea_0;
            let write_again = step_again.action->WriteArea_0;
            let written = overlaid(device, write.position as nat, write.bytes@);
            overlaid(written, write_again.position as nat, write_again.bytes@) == written
        }),
{
    lemma_written_by(before, event, after, step);
    lemma_written_by(before_again, event_again, after_again, step_again);
    lemma_same_pages(
        after.stage->Write_devsize,
        after_again.stage->Write_devsize,
        before.request.offset,
        after.stage->Write_pagesize,
        before.request.force,
        after.stage->Write_pages,
        after_again.stage->Write_pages,
    );
    writing_again_changes_nothing(
        device,
        step.action->WriteArea_0.position as nat,
        step.action->WriteArea_0.bytes@,
    );
}

/// A scan that has listed the unreadable ones among the pages read so far goes
/// on to do so, and when it is through, the area is made with exactly the
/// unreadable ones among all its pages but the first.
pub proof fn areas_list_their_unreadable_pages(
    before: Mkswap,
    readable: bool,
    after: Mkswap,
    step: Step,
    outcomes: Seq<bool>,
)
    requires
        before.wf(),
        before.stage matches Stage::Scan { scan, .. } && {
            &&& scan.badpages@ == unreadable(outcomes)
            &&& scan.page == outcomes.len() + 1
        },
        is_step(before, Event::Page { readable }, after, step),
    ensures
        ({
            let scan = before.stage->Scan_scan;
            let devsize = before.stage->Scan_devsize;
            let all = outcomes.push(readable);
            if all.len() + 1 < scan.pages {
                &&& after.stage matches Stage::Scan { scan: next, .. }
                &&& next.badpages@ == unreadable(all)
                &&& next.page == all.len() + 1
            } else {
                &&& all.len() + 1 == scan.pages
                &&& writes(
                    before,
                    after,
                    step,
                    step.note,
                    devsize,
                    scan.pagesize,
                    scan.pages,
                    unreadable(all),
                )
            }
        }),
{
    assert(outcomes.push(readable).drop_last() =~= outcomes);
}

/// A run that is not asked to check the device reads no page of it and lists no
/// bad page.
pub proof fn unchecked_runs_read_no_page(before: Mkswap, event: Event, after: Mkswap, step: Step)
    requires
        before.wf(),
        before.can_take(event),
        is_step(before, event, after, step),
        !before.request.check,
    ensures
        !(step.action is ReadPage),
        !(after.stage is Scan),
        badpages_after(before, event).len() == 0,
{
}

/// An area of a named endianness is the same, byte for byte, whatever machine it
/// is set up on.
pub proof fn named_endianness_is_the_same_everywhere(
    here: Request,
    there: Request,
    pagesize: usize,
    pages: u32,
    badpages: Seq<u32>,
)
    requires
        there == (Request { host: there.host, ..here }),
        here.endianness != Endian::Native,
    ensures
        here.first_page(pagesize, pages, badpages) == there.first_page(pagesize, pages, badpages),
{
}

/// A page size that need not be forced has room for the header, so a run that
/// uses one is never held up by the size of its pages.
pub proof fn usable_pages_have_room(run: Mkswap, pagesize: usize, devsize: u64)
    requires
        is_usable(pagesize),
    ensures
        pagesize >= MIN_HEADER_PAGE,
        run.has_room(pagesize, devsize),
{
}

/// An area has at least ten pages, unless its least size cannot be told, and as
/// many as the device has room for. Unless it is forced, it ends inside the
/// device.
pub proof fn areas_have_ten_pages(
    devsize: u64,
    offset: u64,
    pagesize: usize,
    force: bool,
    pages: u32,
)
    requires
        pagesize > 0,
        MIN_SWAP_PAGES * pagesize <= u64::MAX,
        pages_of(devsize, offset, pagesize, force) == Ok::<_, SetupError>(pages),
    ensures
        pages >= MIN_SWAP_PAGES,
        !force ==> offset + pages * pagesize <= devsize,
        devsize < offset + (pages + 1) * pagesize,
{
    areas_have_all_whole_pages(devsize, offset, pagesize, force);
    assert(pages < 10 ==> (pages + 1) * pagesize <= 10 * pagesize) by (nonlinear_arith)
        requires
            pagesize > 0,
    ;
    assert(pages == 10 ==> (pages + 1) * pagesize == 11 * pagesize) by (nonlinear_arith);
}

/// With force an area may be larger than the device: where the device is too
/// small for ten pages, it has ten all the same, as long as its end can be told.
pub proof fn forced_areas_may_be_larger_than_the_device(
    devsize: u64,
    offset: u64,
    pagesize: usize,
)
    requires
        pagesize > 0,
        least_area_can_be_told(offset, pagesize),
        offset + MIN_SWAP_PAGES * pagesize > devsize,
    ensures
        pages_of(devsize, offset, pagesize, true) == Ok::<_, SetupError>(MIN_SWAP_PAGES),
{
}

/// The page size that a run has settled on, from when it has opened the device
/// until it knows the size of it.
pub open spec fn measured_with(stage: Stage) -> Option<usize> {
    match stage {
        Stage::Status { pagesize } => Some(pagesize),
        Stage::BlockSize { pagesize } => Some(pagesize),
        Stage::SizeFile { pagesize } => Some(pagesize),
        _ => None,
    }
}

/// A forced run is not refused because an open device is too small, as long as
/// the end of the smallest area can be told.
pub proof fn forced_runs_are_not_refused_for_a_small_device(
    before: Mkswap,
    event: Event,
    after: Mkswap,
    step: Step,
)
    requires
        before.wf(),
        before.can_take(event),
        is_step(before, event, after, step),
        before.request.force,
        measured_with(before.stage) matches Some(pagesize) && least_area_can_be_told(
            before.request.offset,
            pagesize,
        ),
    ensures
        step.action matches Action::Fail(e) ==> !(e matches SetupError::Area(
            MkswapError::SwapAreaTooSmall { .. },
        )),
{
}

} // verus!
