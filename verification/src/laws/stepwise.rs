//! What each step of a run makes of what it is told.

use crate::area::{areas_have_all_whole_pages, pages_of};
use crate::device::{size_told, DeviceAction, DeviceEvent};
use crate::error::{MkswapError, Note, SetupError};
use crate::header::pages_are_made_where_all_fits;
use crate::pagesize::{either_answer_tells_the_page_size, users_have_the_page_size_they_ask_for};
use crate::request::Request;
use crate::session::{badpages_after, is_step, Action, Event, Mkswap, Stage, Step};
use crate::text::{parse_u64_message, trimmed};
use vstd::arithmetic::power2::is_pow2;
use vstd::prelude::*;
use vstd::utf8::encode_utf8;

verus! {

/// The page size of a run, once it is settled.
pub open spec fn pagesize_of(stage: Stage) -> Option<usize> {
    match stage {
        Stage::PageSize => None,
        Stage::Opening { pagesize, .. } => Some(pagesize),
        Stage::Status { pagesize } => Some(pagesize),
        Stage::BlockSize { pagesize } => Some(pagesize),
        Stage::SizeFile { pagesize } => Some(pagesize),
        Stage::Scan { scan, .. } => Some(scan.pagesize),
        Stage::Write { pagesize, .. } => Some(pagesize),
        Stage::Over => None,
    }
}

/// The size that a run takes the device to have and the number of pages of the
/// area, once the device is measured.
pub open spec fn measured(stage: Stage) -> Option<(u64, u32)> {
    match stage {
        Stage::Scan { devsize, scan } => Some((devsize, scan.pages)),
        Stage::Write { devsize, pages, .. } => Some((devsize, pages)),
        _ => None,
    }
}

/// What an event tells of the size of a device that is there already: the length of
/// a file, the kernel's answer where it is one, or 512 times the number on the line.
pub open spec fn size_in(event: Event) -> Option<int> {
    match event {
        Event::Status { block_device, size, .. } => if block_device {
            None
        } else {
            Some(size as int)
        },
        Event::BlockSize { status, size } => if status < 0 || size == 0 {
            None
        } else {
            Some(size as int)
        },
        Event::SizeFile { line } => size_told(line@),
        _ => None,
    }
}

/// Whether an event is of the kind that a stage waits for.
pub open spec fn belongs(stage: Stage, event: Event) -> bool {
    match event {
        Event::PageSize { .. } => stage is PageSize,
        Event::Device(_) => stage is Opening,
        Event::Status { .. } => stage is Status,
        Event::BlockSize { .. } => stage is BlockSize,
        Event::SizeFile { .. } => stage is SizeFile,
        Event::Page { .. } => stage is Scan,
        Event::Written => stage is Write,
        Event::Failed { .. } => !(stage is Over),
    }
}

/// A run takes every event of the kind that it waits for, and none of another kind,
/// as long as its pages have room for the header and the signature.
pub proof fn runs_take_what_they_wait_for(run: Mkswap, event: Event)
    requires
        run.wf(),
        pagesize_of(run.stage) matches Some(pagesize) ==> pagesize >= 1546,
    ensures
        run.can_take(event) <==> belongs(run.stage, event),
{
}

/// Where a run does not take an event that it waits for, the page has no room for
/// the header and the signature.
pub proof fn runs_are_held_up_by_small_pages_alone(run: Mkswap, event: Event)
    requires
        run.wf(),
        belongs(run.stage, event),
        !run.can_take(event),
    ensures
        pagesize_of(run.stage) matches Some(pagesize) && pagesize < 1546,
{
}

/// Small pages are noticed when the first page is made and not before: an area that
/// is to be checked is read first, a device that can have no area is refused first.
pub proof fn small_pages_are_noticed_when_they_are_filled(
    run: Mkswap,
    pagesize: usize,
    devsize: u64,
)
    requires
        0 < pagesize < 1546,
    ensures
        run.has_room(pagesize, devsize) <==> run.request.check || !has_pages_enough(
            run.request,
            pagesize as int,
            devsize as int,
        ),
{
    let request = run.request;
    areas_have_all_whole_pages(devsize, request.offset, pagesize, request.force);
    match pages_of(devsize, request.offset, pagesize, request.force) {
        Ok(pages) => {
            lemma_ten_pages(pages as int, pagesize as int);
        },
        Err(_) => {},
    }
}

/// The page size is the one that the user asks for, or else what the system answers
/// first that is a size. The device is opened next, and created only where that is
/// asked for.
pub proof fn runs_go_by_the_page_size_that_is_asked_for(
    before: Mkswap,
    event: Event,
    after: Mkswap,
    step: Step,
)
    requires
        is_step(before, event, after, step),
        before.stage is PageSize,
        !(after.stage is Over),
    ensures
        after.request == before.request,
        event matches Event::PageSize { pagesize: first, page_size: second } && {
            let system = if first > 0 {
                first
            } else {
                second
            };
            let open = DeviceAction::Open { create: before.request.create };
            &&& system > 0
            &&& after.stage matches Stage::Opening { pagesize, action }
            &&& action == open
            &&& step.action == Action::Device(open)
            &&& match before.request.pagesize {
                Some(user) => pagesize == user,
                None => pagesize == system,
            }
        },
{
    let first = event->PageSize_pagesize;
    let second = event->PageSize_page_size;
    either_answer_tells_the_page_size(first, second);
    let system = if first > 0 {
        first
    } else {
        second
    };
    users_have_the_page_size_they_ask_for(
        before.request.pagesize,
        before.request.force,
        system as usize,
    );
}

/// From then on the page size is the same until the run is over.
pub proof fn the_page_size_stays(before: Mkswap, event: Event, after: Mkswap, step: Step)
    requires
        before.wf(),
        before.can_take(event),
        is_step(before, event, after, step),
        !(before.stage is PageSize),
        !(after.stage is Over),
    ensures
        pagesize_of(after.stage) == pagesize_of(before.stage),
{
}

/// What is done to the device is what follows from the last answer, and the run
/// goes on from there once nothing is left to do.
pub proof fn runs_do_to_the_device_what_follows(
    before: Mkswap,
    answer: DeviceEvent,
    after: Mkswap,
    step: Step,
)
    requires
        before.wf(),
        is_step(before, Event::Device(answer), after, step),
        before.stage is Opening,
    ensures
        step.note is None,
        ({
            let action = before.stage->Opening_action;
            match before.request.after_action(action, answer) {
                Ok(next) => if next is Done {
                    &&& after.stage is Status
                    &&& step.action is QueryStatus
                } else {
                    &&& after.stage is Opening
                    &&& after.stage->Opening_action == next
                    &&& step.action == Action::Device(next)
                },
                Err(e) => {
                    &&& after.stage is Over
                    &&& step.action == Action::Fail(e)
                },
            }
        }),
{
}

/// The size that an area is measured with is that of the device: the size that was
/// asked for where the file is new, and else what was told of it. The area has all
/// the whole pages of it behind the offset, and at least ten. Only a forced area
/// may end behind the device, and has ten pages then.
pub proof fn areas_are_measured_with_the_size_of_the_device(
    before: Mkswap,
    event: Event,
    after: Mkswap,
    step: Step,
)
    requires
        before.wf(),
        before.can_take(event),
        is_step(before, event, after, step),
        measured(before.stage) is None,
        measured(after.stage) is Some,
        10 * pagesize_of(before.stage)->0 <= u64::MAX,
    ensures
        pagesize_of(before.stage) is Some,
        ({
            let request = before.request;
            let (devsize, pages) = measured(after.stage)->0;
            let pagesize = pagesize_of(before.stage)->0;
            &&& event is Status && request.create ==> devsize == request.filesize
            &&& !(event is Status && request.create) ==> size_in(event) == Some(devsize as int)
            &&& pages >= 10
            &&& {
                ||| request.offset + pages * pagesize <= devsize < request.offset + (pages + 1)
                    * pagesize
                ||| request.force && pages == 10 && devsize < request.offset + 10 * pagesize
            }
        }),
{
    let (devsize, pages) = measured(after.stage)->0;
    let pagesize = pagesize_of(before.stage)->0;
    areas_have_all_whole_pages(devsize, before.request.offset, pagesize, before.request.force);
    lemma_ten_pages(pages as int, pagesize as int);
}

proof fn lemma_ten_pages(pages: int, pagesize: int)
    requires
        pages >= 0,
        pagesize > 0,
    ensures
        pages < 10 ==> (pages + 1) * pagesize <= 10 * pagesize,
        pages >= 0x1_0000_0000 ==> pages * pagesize >= 0x1_0000_0000 * pagesize,
        pages < 0x1_0000_0000 ==> (pages + 1) * pagesize <= 0x1_0000_0000 * pagesize,
{
    assert(pages < 10 ==> (pages + 1) * pagesize <= 10 * pagesize) by (nonlinear_arith)
        requires
            pagesize > 0,
    ;
    assert(pages >= 0x1_0000_0000 ==> pages * pagesize >= 0x1_0000_0000 * pagesize)
        by (nonlinear_arith)
        requires
            pagesize > 0,
    ;
    assert(pages < 0x1_0000_0000 ==> (pages + 1) * pagesize <= 0x1_0000_0000 * pagesize)
        by (nonlinear_arith)
        requires
            pagesize > 0,
    ;
}

/// An area stays as it was measured until the run is over.
pub proof fn areas_stay_as_they_were_measured(
    before: Mkswap,
    event: Event,
    after: Mkswap,
    step: Step,
)
    requires
        before.wf(),
        before.can_take(event),
        is_step(before, event, after, step),
        measured(before.stage) is Some,
        !(after.stage is Over),
    ensures
        measured(after.stage) == measured(before.stage),
{
}

/// What is asked for to find the size: the kind of the device, where the file is not
/// new and the device is a block device the kernel's answer, and where that is none
/// the line of the file that has the name of the device in its path.
pub proof fn sizes_are_asked_for_until_one_is_told(
    before: Mkswap,
    event: Event,
    after: Mkswap,
    step: Step,
)
    requires
        before.wf(),
        before.can_take(event),
        is_step(before, event, after, step),
        !(event is Failed),
        before.stage is Status || before.stage is BlockSize || before.stage is SizeFile,
    ensures
        step.action is QueryBlockSize <==> {
            &&& !before.request.create
            &&& event matches Event::Status { block_device, .. } && block_device
        },
        step.action is ReadSizeFile <==> event is BlockSize && size_in(event) is None,
        step.action matches Action::ReadSizeFile { path } ==> path@ == "/sys/class/block/"@
            + before.request.devname@ + "/size"@,
        step.action is QueryBlockSize <==> after.stage is BlockSize,
        step.action is ReadSizeFile <==> after.stage is SizeFile,
        !(after.stage is Status),
{
}

/// A run that is to check the device begins to read it as soon as it is measured,
/// with the page after the first and with no bad page, however many pages there are.
pub proof fn checks_begin_once_the_device_is_measured(
    before: Mkswap,
    event: Event,
    after: Mkswap,
    step: Step,
)
    requires
        before.wf(),
        before.can_take(event),
        is_step(before, event, after, step),
        before.request.check,
        measured(before.stage) is None,
        measured(after.stage) is Some,
    ensures
        after.stage matches Stage::Scan { scan, .. } && {
            &&& scan.page == 1
            &&& scan.badpages@.len() == 0
            &&& step.action == (Action::ReadPage {
                position: (before.request.offset + scan.pagesize) as u64,
                length: scan.pagesize,
            })
        },
{
}

/// The pages are read one after the other. A page that cannot be read is added to
/// the list, one that can be read is not.
pub proof fn checks_go_on_page_by_page(
    before: Mkswap,
    readable: bool,
    after: Mkswap,
    step: Step,
)
    requires
        before.wf(),
        is_step(before, Event::Page { readable }, after, step),
        before.stage is Scan,
        after.stage is Scan,
    ensures
        ({
            let old_scan = before.stage->Scan_scan;
            let scan = after.stage->Scan_scan;
            &&& scan.page == old_scan.page + 1
            &&& scan.page < scan.pages
            &&& readable ==> scan.badpages@ == old_scan.badpages@
            &&& !readable ==> scan.badpages@ == old_scan.badpages@.push(old_scan.page)
            &&& step.action matches Action::ReadPage { position, length }
            &&& position == before.request.offset + scan.page * scan.pagesize
            &&& length == scan.pagesize
        }),
{
}

/// A run that is to check the device asks for nothing to be written until the last
/// page has been read.
pub proof fn checked_areas_are_read_before_they_are_written(
    before: Mkswap,
    event: Event,
    after: Mkswap,
    step: Step,
)
    requires
        before.wf(),
        before.can_take(event),
        is_step(before, event, after, step),
        before.request.check,
        step.action is WriteArea,
    ensures
        event is Page,
        before.stage matches Stage::Scan { scan, .. } && scan.page + 1 == scan.pages,
{
}

/// Whether a device of the given size can have an area: ten pages behind the offset
/// at least, or as if there were where that is forced, and no more pages than can
/// be counted.
pub open spec fn has_pages_enough(request: Request, pagesize: int, size: int) -> bool {
    &&& {
        ||| request.offset + 10 * pagesize <= size
        ||| request.force && request.offset + 10 * pagesize <= u64::MAX
    }
    &&& size < request.offset + 0x1_0000_0000 * pagesize
}

/// A run ends before the device is touched where the page size is not known or
/// cannot be used, or where a new file would not have ten pages, and for no other
/// cause.
pub proof fn runs_begin_unless_the_sizes_are_wrong(
    before: Mkswap,
    first: i64,
    second: i64,
    after: Mkswap,
    step: Step,
)
    requires
        is_step(before, Event::PageSize { pagesize: first, page_size: second }, after, step),
        before.stage is PageSize,
    ensures
        ({
            let request = before.request;
            let system = if first > 0 {
                first as int
            } else {
                second as int
            };
            let settled = match request.pagesize {
                Some(user) => user as int,
                None => system,
            };
            let min = if 10 * settled <= u64::MAX {
                10 * settled
            } else {
                u64::MAX as int
            };
            let unusable = request.pagesize is Some && !request.force && (settled <= 1550
                || !is_pow2(settled));
            if system <= 0 {
                step.action == Action::Fail(SetupError::PageSizeUnknown)
            } else if system > usize::MAX {
                step.action == Action::Fail(SetupError::PageSizeTooLarge)
            } else if unusable {
                step.action == Action::Fail(SetupError::BadPageSize { pagesize: settled as usize })
            } else if request.create && request.filesize < min {
                let e = MkswapError::SwapAreaTooSmall { min_swapsize: min as u64 };
                step.action == Action::Fail(SetupError::Area(e))
            } else {
                step.action is Device
            }
        }),
{
}

/// Whether a run ends for want of an area: the device has fewer than ten pages and
/// that is not forced, or more than can be counted. The user is told which, and
/// what the bound is.
pub open spec fn ends_for_want_of_an_area(
    request: Request,
    pagesize: int,
    size: int,
    action: Action,
) -> bool {
    if size < request.offset + 10 * pagesize {
        let e = MkswapError::SwapAreaTooSmall { min_swapsize: (10 * pagesize) as u64 };
        action == Action::Fail(SetupError::Area(e))
    } else {
        &&& action matches Action::Fail(SetupError::AreaTooLarge { max_gib })
        &&& max_gib * 0x4000_0000 <= 0xffff_ffff * pagesize < (max_gib + 1) * 0x4000_0000
    }
}

/// Once a size is told, the run goes on where the device can have an area and ends
/// where it cannot.
pub proof fn runs_go_on_where_there_is_an_area(
    before: Mkswap,
    event: Event,
    after: Mkswap,
    step: Step,
    size: u64,
)
    requires
        before.wf(),
        before.can_take(event),
        is_step(before, event, after, step),
        event is Status || event is BlockSize || event is SizeFile,
        event matches Event::SizeFile { line } ==> line@.len() > 0,
        if event is Status && before.request.create {
            size == before.request.filesize
        } else {
            size_in(event) == Some(size as int)
        },
        encode_utf8(before.request.label@).len() <= 16,
        10 * pagesize_of(before.stage)->0 <= u64::MAX,
    ensures
        ({
            let request = before.request;
            let pagesize = pagesize_of(before.stage)->0 as int;
            if !has_pages_enough(request, pagesize, size as int) {
                ends_for_want_of_an_area(request, pagesize, size as int, step.action)
            } else if request.check {
                step.action is ReadPage
            } else {
                step.action is WriteArea
            }
        }),
{
    let request = before.request;
    let pagesize = pagesize_of(before.stage)->0;
    areas_have_all_whole_pages(size, request.offset, pagesize, request.force);
    match pages_of(size, request.offset, pagesize, request.force) {
        Ok(pages) => {
            lemma_ten_pages(pages as int, pagesize as int);
            if !request.check {
                pages_are_made_where_all_fits(
                    encode_utf8(request.label@),
                    pages,
                    Seq::empty(),
                    pagesize,
                );
            }
        },
        Err(_) => {},
    }
}

/// Where the line that is to tell the size tells none, the run ends and says why:
/// there is no line, there is no number on it, or the number is too large.
pub proof fn runs_end_where_no_size_is_told(
    before: Mkswap,
    line: String,
    after: Mkswap,
    step: Step,
)
    requires
        before.wf(),
        before.stage is SizeFile,
        is_step(before, Event::SizeFile { line }, after, step),
        line@.len() == 0 || !(size_told(line@) matches Some(size) && size <= u64::MAX),
    ensures
        step.action matches Action::Fail(e) && {
            if line@.len() == 0 {
                e matches SetupError::EmptySizeFile { devname } && devname@
                    == before.request.devname@
            } else if size_told(line@) is None {
                &&& e matches SetupError::InvalidSize { devname, reason }
                &&& devname@ == before.request.devname@
                &&& reason@ == parse_u64_message(trimmed(line@))
            } else {
                e is SizeUnknown
            }
        },
{
}

/// A check ends in an area where the list of bad pages fits between the header and
/// the signature, and in an error that says how many fit where it does not.
pub proof fn checks_end_in_an_area_where_the_bad_pages_fit(
    before: Mkswap,
    readable: bool,
    after: Mkswap,
    step: Step,
)
    requires
        before.wf(),
        before.can_take(Event::Page { readable }),
        before.stage matches Stage::Scan { scan, .. } && scan.page + 1 == scan.pages && 10
            * scan.pagesize <= u64::MAX,
        is_step(before, Event::Page { readable }, after, step),
        encode_utf8(before.request.label@).len() <= 16,
    ensures
        ({
            let scan = before.stage->Scan_scan;
            let bad = scan.badpages@.len() + if readable {
                0int
            } else {
                1int
            };
            if 1536 + 4 * bad + 10 <= scan.pagesize {
                step.action is WriteArea
            } else {
                &&& step.action matches Action::Fail(SetupError::Area(e))
                &&& e matches MkswapError::MaxBadPagesExceeded { max_badpages: max }
                &&& 1536 + 4 * max + 10 <= scan.pagesize < 1536 + 4 * (max + 1) + 10
            }
        }),
{
    let request = before.request;
    let devsize = before.stage->Scan_devsize;
    let scan = before.stage->Scan_scan;
    areas_have_all_whole_pages(devsize, request.offset, scan.pagesize, request.force);
    lemma_ten_pages(scan.pages as int, scan.pagesize as int);
    pages_are_made_where_all_fits(
        encode_utf8(request.label@),
        scan.pages,
        badpages_after(before, Event::Page { readable }),
        scan.pagesize,
    );
}

/// What failed on the machine ends the run with the reason, what was written ends
/// it in success.
pub proof fn runs_end_as_the_machine_says(before: Mkswap, event: Event, after: Mkswap, step: Step)
    requires
        before.can_take(event),
        is_step(before, event, after, step),
    ensures
        event matches Event::Failed { reason } ==> step.action == Action::Fail(
            SetupError::Io { reason },
        ),
        event is Written ==> step.action is Finish,
        step.action is Finish ==> event is Written,
{
}

/// The user is told of a page size other than that of the system, of an owner other
/// than root where root sets the device up, and of each bad page where that is
/// asked for; of each at the time that it comes up, and of nothing else.
pub proof fn users_are_told_what_comes_up(before: Mkswap, event: Event, after: Mkswap, step: Step)
    requires
        before.wf(),
        before.can_take(event),
        is_step(before, event, after, step),
    ensures
        match event {
            Event::PageSize { pagesize: first, page_size: second } => {
                let system = if first > 0 {
                    first as int
                } else {
                    second as int
                };
                match step.note {
                    Some(note) => {
                        &&& note matches Note::OtherPageSize { user, system: told }
                        &&& before.request.pagesize == Some(user)
                        &&& told == system
                        &&& user != system
                    },
                    None => {
                        ||| before.request.pagesize matches Some(user) ==> user == system
                        ||| step.action matches Action::Fail(e) && !(e is Area)
                    },
                }
            },
            Event::Status { owner, euid, .. } => match step.note {
                Some(note) => {
                    &&& owner != 0 && euid == 0
                    &&& note matches Note::InsecureOwner { util_name, devname, uid, path }
                    &&& util_name == before.request.util_name
                    &&& devname == before.request.devname
                    &&& uid == owner
                    &&& path == before.request.device
                },
                None => owner == 0 || euid != 0,
            },
            Event::Page { readable } => match step.note {
                Some(note) => {
                    &&& !readable && before.request.verbose
                    &&& note == (Note::BadPage { page: before.stage->Scan_scan.page })
                },
                None => readable || !before.request.verbose,
            },
            _ => step.note is None,
        },
        before.note_for(event) is Some ==> step.note == before.note_for(event),
        step.note is Some && !(event is PageSize) ==> step.note == before.note_for(event),
{
}

} // verus!
