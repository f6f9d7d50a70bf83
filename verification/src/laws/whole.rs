//! What holds of a run from the command line to the area on the device.

use crate::area::areas_have_all_whole_pages;
use crate::device::{
    answered_actions_are_not_repeated, new_files_are_prepared_in_full, DeviceAction, DeviceEvent,
    FileSystem,
};
use crate::endian::ByteOrder;
use crate::error::SetupError;
use crate::header::{
    page_error, page_reads_back, unused_bytes_are_zero, BADPAGES_OFFSET, MIN_HEADER_PAGE,
    SWAP_SIGNATURE,
};
use crate::laws::asked::{requests_hold_what_is_asked, uuids_are_kept_as_they_are};
use crate::laws::{answers, lemma_written_by};
use crate::laws::stepwise::{
    areas_stay_as_they_were_measured, measured, pagesize_of,
    runs_go_by_the_page_size_that_is_asked_for, size_in, the_page_size_stays,
};
use crate::laws::words::{reports_tell_size_label_and_uuid, tells};
use crate::request::{is_request_of, Options, Request};
use crate::scan::{unreadable, unreadable_pages_are_listed_once_in_order};
use crate::session::{badpages_after, begins, is_step, Action, Event, Mkswap, Stage, Step};
use crate::text::lowercase;
use crate::uuids::uuid_of_text;
use vstd::prelude::*;
use vstd::utf8::encode_utf8;

verus! {

/// Whether a run goes from state `i` to the next with event `i` and step `i`.
#[verifier::opaque]
pub open spec fn goes(
    states: Seq<Mkswap>,
    events: Seq<Event>,
    steps: Seq<Step>,
    i: int,
) -> bool {
    &&& states[i].wf()
    &&& states[i].can_take(events[i])
    &&& is_step(states[i], events[i], states[i + 1], steps[i])
    &&& states[i + 1].wf()
}

/// Whether a run that the command line begins goes through the given states when it
/// takes in the given events, with the given steps.
pub open spec fn is_run(
    options: Options,
    fresh: Seq<u8>,
    states: Seq<Mkswap>,
    events: Seq<Event>,
    steps: Seq<Step>,
) -> bool {
    &&& states.len() == events.len() + 1
    &&& steps.len() == events.len()
    &&& begins(options, fresh, states[0])
    &&& forall|i: int| 0 <= i < events.len() ==> #[trigger] goes(states, events, steps, i)
}

/// The offset that the command line gives, or zero.
pub open spec fn offset_asked(options: Options) -> u64 {
    match options.offset {
        Some(offset) => offset,
        None => 0,
    }
}

/// The page size that the command line gives, or what the system answers first that
/// is a size.
pub open spec fn pagesize_asked(options: Options, first: Event) -> int {
    match options.pagesize {
        Some(pagesize) => pagesize as int,
        None => if first->PageSize_pagesize > 0 {
            first->PageSize_pagesize as int
        } else {
            first->PageSize_page_size as int
        },
    }
}

/// What the last of the events that tells a size says it is.
pub open spec fn size_last_told(events: Seq<Event>) -> Option<int>
    decreases events.len(),
{
    if events.len() == 0 {
        None
    } else if size_in(events.last()) is Some {
        size_in(events.last())
    } else {
        size_last_told(events.drop_last())
    }
}

/// The size that the command line gives a new file, or what is told of the device.
pub open spec fn size_asked(options: Options, events: Seq<Event>) -> Option<int> {
    if options.file {
        match options.filesize {
            Some(filesize) => Some(filesize as int),
            None => Some(0),
        }
    } else {
        size_last_told(events)
    }
}

/// Of each page that was read, whether it could be.
pub open spec fn outcomes(events: Seq<Event>) -> Seq<bool>
    decreases events.len(),
{
    if events.len() == 0 {
        Seq::empty()
    } else {
        match events.last() {
            Event::Page { readable } => outcomes(events.drop_last()).push(readable),
            _ => outcomes(events.drop_last()),
        }
    }
}

/// Where the pages begin that were asked for, and how long they are.
pub open spec fn reads(steps: Seq<Step>) -> Seq<(u64, usize)>
    decreases steps.len(),
{
    if steps.len() == 0 {
        Seq::empty()
    } else {
        match steps.last().action {
            Action::ReadPage { position, length } => reads(steps.drop_last()).push(
                (position, length),
            ),
            _ => reads(steps.drop_last()),
        }
    }
}

/// Whether the pages of an area from the second on were asked for one by one, in
/// order, `count` of them.
pub open spec fn reads_in_order(
    reads: Seq<(u64, usize)>,
    offset: u64,
    pagesize: int,
    count: int,
) -> bool {
    &&& reads.len() == count
    &&& forall|i: int|
        0 <= i < count ==> {
            &&& (#[trigger] reads[i]).0 == offset + (i + 1) * pagesize
            &&& reads[i].1 == pagesize
        }
}

/// What is known of a run that has taken in the given events with the given steps.
spec fn known(
    options: Options,
    fresh: Seq<u8>,
    run: Mkswap,
    events: Seq<Event>,
    steps: Seq<Step>,
) -> bool {
    let request = run.request;
    let pagesize = pagesize_asked(options, events[0]);
    &&& is_request_of(Ok::<Request, SetupError>(request), options, ByteOrder::of_machine(), fresh)
    &&& run.wf()
    &&& match run.stage {
        Stage::PageSize => events.len() == 0 && steps.len() == 0,
        Stage::Over => true,
        _ => events.len() > 0 && pagesize_of(run.stage)->0 == pagesize,
    }
    &&& match run.stage {
        Stage::Scan { devsize, scan } => {
            &&& options.check
            &&& size_asked(options, events) == Some(devsize as int)
            &&& scan.badpages@ == unreadable(outcomes(events))
            &&& scan.page == outcomes(events).len() + 1
            &&& reads_in_order(reads(steps), request.offset, pagesize, scan.page as int)
        },
        Stage::Write { devsize, pagesize: _, pages } => {
            let count = if options.check {
                pages - 1
            } else {
                0
            };
            &&& size_asked(options, events) == Some(devsize as int)
            &&& outcomes(events).len() == count
            &&& reads_in_order(reads(steps), request.offset, pagesize, count)
            &&& steps.last().action is WriteArea
        },
        Stage::Over => true,
        _ => {
            &&& outcomes(events).len() == 0
            &&& reads(steps).len() == 0
            &&& run.stage is BlockSize || run.stage is SizeFile ==> !options.file
        },
    }
}

/// Asking for one more page keeps the order.
proof fn lemma_one_more_read(
    reads: Seq<(u64, usize)>,
    offset: u64,
    pagesize: int,
    count: int,
    position: u64,
    length: usize,
)
    requires
        reads_in_order(reads, offset, pagesize, count),
        position == offset + (count + 1) * pagesize,
        length == pagesize,
    ensures
        reads_in_order(reads.push((position, length)), offset, pagesize, count + 1),
{
    let more = reads.push((position, length));
    assert forall|i: int| 0 <= i < count + 1 implies {
        &&& (#[trigger] more[i]).0 == offset + (i + 1) * pagesize
        &&& more[i].1 == pagesize
    } by {
        if i < count {
            assert(more[i] == reads[i]);
        }
    }
}

proof fn lemma_known(
    options: Options,
    fresh: Seq<u8>,
    before: Mkswap,
    events: Seq<Event>,
    steps: Seq<Step>,
    event: Event,
    after: Mkswap,
    step: Step,
)
    requires
        known(options, fresh, before, events, steps),
        before.can_take(event),
        is_step(before, event, after, step),
        after.wf(),
    ensures
        known(options, fresh, after, events.push(event), steps.push(step)),
{
    let request = before.request;
    requests_hold_what_is_asked(request, options, ByteOrder::of_machine(), fresh);
    assert(after.request == request);
    let events_now = events.push(event);
    let steps_now = steps.push(step);
    assert(events_now.drop_last() =~= events);
    assert(steps_now.drop_last() =~= steps);
    if after.stage is Over {
    } else if before.stage is PageSize {
        runs_go_by_the_page_size_that_is_asked_for(before, event, after, step);
        assert(events_now[0] == event);
        assert(outcomes(events_now) == outcomes(events));
        assert(reads(steps_now) == reads(steps));
    } else {
        the_page_size_stays(before, event, after, step);
        assert(events_now[0] == events[0]);
        let pagesize = pagesize_asked(options, events[0]);
        if measured(after.stage) is None {
            assert(outcomes(events_now) == outcomes(events));
            assert(reads(steps_now) == reads(steps));
        } else {
            if measured(before.stage) is None {
                assert(outcomes(events_now) == outcomes(events));
                assert(outcomes(events) =~= Seq::<bool>::empty());
                let (devsize, _) = measured(after.stage)->0;
                assert(size_asked(options, events_now) == Some(devsize as int));
            } else {
                areas_stay_as_they_were_measured(before, event, after, step);
                assert(size_in(event) is None);
                assert(outcomes(events_now) == outcomes(events).push(event->Page_readable));
                assert(outcomes(events_now).drop_last() =~= outcomes(events));
            }
            if after.stage is Scan {
                let position = step.action->ReadPage_position;
                let length = step.action->ReadPage_length;
                let count = outcomes(events_now).len() as int;
                assert(reads(steps_now) == reads(steps).push((position, length)));
                assert(reads_in_order(reads(steps), request.offset, pagesize, count));
                lemma_one_more_read(
                    reads(steps),
                    request.offset,
                    pagesize,
                    count,
                    position,
                    length,
                );
            } else {
                assert(reads(steps_now) == reads(steps));
            }
        }
    }
}

proof fn lemma_all_known(
    options: Options,
    fresh: Seq<u8>,
    states: Seq<Mkswap>,
    events: Seq<Event>,
    steps: Seq<Step>,
    n: int,
)
    requires
        is_run(options, fresh, states, events, steps),
        0 <= n <= events.len(),
    ensures
        known(options, fresh, states[n], events.take(n), steps.take(n)),
    decreases n,
{
    if n > 0 {
        lemma_all_known(options, fresh, states, events, steps, n - 1);
        assert(goes(states, events, steps, n - 1));
        reveal(goes);
        lemma_known(
            options,
            fresh,
            states[n - 1],
            events.take(n - 1),
            steps.take(n - 1),
            events[n - 1],
            states[n],
            steps[n - 1],
        );
        assert(events.take(n - 1).push(events[n - 1]) =~= events.take(n));
        assert(steps.take(n - 1).push(steps[n - 1]) =~= steps.take(n));
    }
}

/// Whether the words of the area are to be kept with the most significant byte first.
pub open spec fn big_asked(options: Options) -> bool {
    let native = vstd::endian::endianness() == vstd::endian::Endian::Big;
    match options.endianness {
        Some(name) => if lowercase(name@) == "native"@ {
            native
        } else {
            lowercase(name@) == "big"@
        },
        None => native,
    }
}

/// The bytes of the label that is asked for.
pub open spec fn label_asked(options: Options) -> Seq<u8> {
    match options.label {
        Some(label) => encode_utf8(label@),
        None => Seq::empty(),
    }
}

/// The number that the four bytes at `at` stand for.
pub open spec fn word(bytes: Seq<u8>, at: int, big: bool) -> int {
    if big {
        0x100_0000 * bytes[at] + 0x1_0000 * bytes[at + 1] + 0x100 * bytes[at + 2] + bytes[at + 3]
    } else {
        bytes[at] + 0x100 * bytes[at + 1] + 0x1_0000 * bytes[at + 2] + 0x100_0000 * bytes[at + 3]
    }
}

/// The area that a run sets up is the one that the command line asks for. It begins
/// at the offset, its pages have the size that was asked for, and it has all the
/// whole pages that the device has room for, at least ten; a forced one has ten
/// where the device has no room for them. Where a check is asked for, every page but
/// the first was read before anything was written, one by one and in order, however
/// many there are; and else none was.
pub proof fn runs_set_up_all_of_the_area(
    options: Options,
    fresh: Seq<u8>,
    states: Seq<Mkswap>,
    events: Seq<Event>,
    steps: Seq<Step>,
)
    requires
        is_run(options, fresh, states, events, steps),
        events.len() > 0,
        steps.last().action is WriteArea,
    ensures
        states.last().stage is Write,
        size_asked(options, events) is Some,
        ({
            let offset = offset_asked(options);
            let pagesize = pagesize_asked(options, events[0]);
            let size = size_asked(options, events)->0;
            let pages = states.last().stage->Write_pages;
            let count = if options.check {
                pages - 1
            } else {
                0
            };
            &&& pages >= 10
            &&& {
                ||| offset + pages * pagesize <= size < offset + (pages + 1) * pagesize
                ||| options.force && pages == 10 && size < offset + 10 * pagesize
            }
            &&& outcomes(events).len() == count
            &&& reads_in_order(reads(steps), offset, pagesize, count)
        }),
{
    let n = events.len() as int;
    lemma_all_known(options, fresh, states, events, steps, n);
    assert(events.take(n) =~= events);
    assert(steps.take(n) =~= steps);
    lemma_last_step(options, fresh, states, events, steps);
    let run = states.last();
    requests_hold_what_is_asked(run.request, options, ByteOrder::of_machine(), fresh);
    let pages = run.stage->Write_pages;
    let pagesize = run.stage->Write_pagesize;
    areas_have_all_whole_pages(
        run.stage->Write_devsize,
        run.request.offset,
        pagesize,
        run.request.force,
    );
    assert(10 * pagesize <= pages * pagesize) by (nonlinear_arith)
        requires
            pages >= 10,
            pagesize >= 0,
    ;
}

/// What the last step of a run writes, where it does.
proof fn lemma_last_step(
    options: Options,
    fresh: Seq<u8>,
    states: Seq<Mkswap>,
    events: Seq<Event>,
    steps: Seq<Step>,
)
    requires
        is_run(options, fresh, states, events, steps),
        events.len() > 0,
        steps.last().action is WriteArea,
    ensures
        ({
            let request = states.last().request;
            let write = steps.last().action->WriteArea_0;
            let bad = unreadable(outcomes(events));
            &&& states.last().stage is Write
            &&& states.last().wf()
            &&& write.position == request.offset + 1024
            &&& write.bytes@ == request.first_page(
                states.last().stage->Write_pagesize,
                states.last().stage->Write_pages,
                bad,
            ).skip(1024)
            &&& page_error(
                encode_utf8(request.label@),
                states.last().stage->Write_pages,
                bad,
                states.last().stage->Write_pagesize as nat,
            ) is None
        }),
{
    let n = events.len() - 1;
    lemma_all_known(options, fresh, states, events, steps, n);
    assert(goes(states, events, steps, n));
    reveal(goes);
    let before = states[n];
    let event = events[n];
    assert(events.drop_last() =~= events.take(n));
    lemma_written_by(before, event, states[n + 1], steps[n]);
    let prior = outcomes(events.take(n));
    if before.stage is Scan {
        assert(outcomes(events) == prior.push(event->Page_readable));
        assert(prior.push(event->Page_readable).drop_last() =~= prior);
        assert(badpages_after(before, event) == unreadable(outcomes(events)));
    } else {
        assert(outcomes(events) == prior);
        assert(badpages_after(before, event) =~= unreadable(outcomes(events)));
    }
}

/// Four bytes of a page stand for the same number wherever the page is cut off.
proof fn lemma_word(page: Seq<u8>, at: int, big: bool)
    requires
        1024 <= at,
        at + 4 <= page.len(),
    ensures
        word(page.skip(1024), at - 1024, big) == if big {
            ByteOrder::Big.decode(page, at)
        } else {
            ByteOrder::Little.decode(page, at)
        },
{
    let bytes = page.skip(1024);
    assert(bytes[at - 1024] == page[at]);
    assert(bytes[at - 1024 + 1] == page[at + 1]);
    assert(bytes[at - 1024 + 2] == page[at + 2]);
    assert(bytes[at - 1024 + 3] == page[at + 3]);
}

/// The numbers on the first page of a request's area, from the end of what is left
/// to a boot loader on.
#[verifier::spinoff_prover]
proof fn lemma_page_words(
    request: Request,
    pagesize: usize,
    pages: u32,
    bad: Seq<u32>,
    big: bool,
)
    requires
        pagesize >= MIN_HEADER_PAGE,
        bad.len() <= u32::MAX,
        page_error(encode_utf8(request.label@), pages, bad, pagesize as nat) is None,
        request.endianness.on_disk(request.host) == if big {
            ByteOrder::Big
        } else {
            ByteOrder::Little
        },
    ensures
        ({
            let bytes = request.first_page(pagesize, pages, bad).skip(1024);
            &&& word(bytes, 0, big) == 1
            &&& word(bytes, 4, big) == pages - 1
            &&& word(bytes, 8, big) == bad.len()
            &&& forall|i: int|
                0 <= i < bad.len() ==> word(bytes, 512 + 4 * i, big) == #[trigger] bad[i]
        }),
{
    let order = request.endianness.on_disk(request.host);
    let label = encode_utf8(request.label@);
    let page = request.first_page(pagesize, pages, bad);
    let bytes = page.skip(1024);
    page_reads_back(order, label, request.uuid@, pages, bad, pagesize as nat);
    lemma_word(page, 1024, big);
    lemma_word(page, 1028, big);
    lemma_word(page, 1032, big);
    assert forall|i: int| 0 <= i < bad.len() implies word(bytes, 512 + 4 * i, big)
        == #[trigger] bad[i] by {
        assert(order.decode(page, 0 + BADPAGES_OFFSET + 4 * i) == bad[i]);
        lemma_word(page, 1536 + 4 * i, big);
        assert(1536 + 4 * i - 1024 == 512 + 4 * i);
    }
}

/// What else stands on the first page of a request's area, from the end of what is
/// left to a boot loader on.
#[verifier::spinoff_prover]
proof fn lemma_page_rest(request: Request, pagesize: usize, pages: u32, bad: Seq<u32>)
    requires
        pagesize >= MIN_HEADER_PAGE,
        bad.len() <= u32::MAX,
        page_error(encode_utf8(request.label@), pages, bad, pagesize as nat) is None,
    ensures
        ({
            let bytes = request.first_page(pagesize, pages, bad).skip(1024);
            let label = encode_utf8(request.label@);
            &&& bytes.len() == pagesize - 1024
            &&& bytes.subrange(12, 28) == request.uuid@
            &&& label.len() <= 16
            &&& bytes.subrange(28, 28 + label.len() as int) == label
            &&& 512 + 4 * bad.len() <= pagesize - 1034
            &&& bytes.subrange(pagesize - 1034, pagesize - 1024) == SWAP_SIGNATURE@
            &&& forall|i: int|
                {
                    ||| 28 + label.len() <= i < 512
                    ||| 512 + 4 * bad.len() <= i < pagesize - 1034
                } ==> #[trigger] bytes[i] == 0
        }),
{
    let order = request.endianness.on_disk(request.host);
    let label = encode_utf8(request.label@);
    let page = request.first_page(pagesize, pages, bad);
    let bytes = page.skip(1024);
    page_reads_back(order, label, request.uuid@, pages, bad, pagesize as nat);
    unused_bytes_are_zero(order, label, request.uuid@, pages, bad, pagesize as nat);
    assert(forall|i: int| 0 <= i < pagesize - 1024 ==> #[trigger] bytes[i] == page[i + 1024]);
    assert(bytes.subrange(12, 28) =~= page.subrange(1036, 1052));
    assert(bytes.subrange(28, 28 + label.len() as int) =~= page.subrange(
        1052,
        1052 + label.len() as int,
    ));
    assert(bytes.subrange(pagesize - 1034, pagesize - 1024) =~= page.subrange(
        pagesize - 10,
        pagesize as int,
    ));
}

/// What a run that writes the area goes by is what the command line asks for.
proof fn lemma_held(
    options: Options,
    fresh: Seq<u8>,
    states: Seq<Mkswap>,
    events: Seq<Event>,
    steps: Seq<Step>,
)
    requires
        is_run(options, fresh, states, events, steps),
        events.len() > 0,
        steps.last().action is WriteArea,
    ensures
        ({
            let run = states.last();
            let request = run.request;
            &&& run.stage->Write_pagesize == pagesize_asked(options, events[0])
            &&& run.stage->Write_pagesize >= MIN_HEADER_PAGE
            &&& request.offset == offset_asked(options)
            &&& encode_utf8(request.label@) == label_asked(options)
            &&& request.endianness.on_disk(request.host) == if big_asked(options) {
                ByteOrder::Big
            } else {
                ByteOrder::Little
            }
            &&& match options.uuid {
                Some(text) => uuid_of_text(text@) == Some(request.uuid@),
                None => request.uuid@ == fresh,
            }
            &&& unreadable(outcomes(events)).len() <= u32::MAX
        }),
{
    let n = events.len() as int;
    lemma_all_known(options, fresh, states, events, steps, n);
    assert(events.take(n) =~= events);
    assert(steps.take(n) =~= steps);
    lemma_last_step(options, fresh, states, events, steps);
    let request = states.last().request;
    let host = ByteOrder::of_machine();
    requests_hold_what_is_asked(request, options, host, fresh);
    uuids_are_kept_as_they_are(request, options, host, fresh, request.uuid@);
    unreadable_pages_are_listed_once_in_order(outcomes(events));
    if options.label is None {
        assert(request.label@ =~= Seq::<char>::empty());
        assert(encode_utf8(request.label@) =~= label_asked(options));
    }
}

/// What a run writes is the area that the command line asks for and nothing else. It
/// is written from 1024 bytes behind the offset on, to the end of the first page, and
/// holds, in the byte order that was asked for, the version, the number of the last
/// page, and how many of the pages that were read could not be and which; the UUID
/// and the label that were asked for; the signature; and zeros.
pub proof fn runs_write_what_the_command_line_asks_for(
    options: Options,
    fresh: Seq<u8>,
    states: Seq<Mkswap>,
    events: Seq<Event>,
    steps: Seq<Step>,
)
    requires
        is_run(options, fresh, states, events, steps),
        events.len() > 0,
        steps.last().action is WriteArea,
    ensures
        ({
            let write = steps.last().action->WriteArea_0;
            let bytes = write.bytes@;
            let end = pagesize_asked(options, events[0]) - 1024;
            let pages = states.last().stage->Write_pages;
            let bad = unreadable(outcomes(events));
            let label = label_asked(options);
            let big = big_asked(options);
            &&& write.position == offset_asked(options) + 1024
            &&& bytes.len() == end
            &&& word(bytes, 0, big) == 1
            &&& word(bytes, 4, big) == pages - 1
            &&& word(bytes, 8, big) == bad.len()
            &&& forall|i: int|
                0 <= i < bad.len() ==> word(bytes, 512 + 4 * i, big) == #[trigger] bad[i]
            &&& match options.uuid {
                Some(text) => uuid_of_text(text@) == Some(bytes.subrange(12, 28)),
                None => bytes.subrange(12, 28) == fresh,
            }
            &&& label.len() <= 16
            &&& bytes.subrange(28, 28 + label.len() as int) == label
            &&& 512 + 4 * bad.len() <= end - 10
            &&& bytes.subrange(end - 10, end)
                == seq![0x53u8, 0x57, 0x41, 0x50, 0x53, 0x50, 0x41, 0x43, 0x45, 0x32]
            &&& forall|i: int|
                {
                    ||| 28 + label.len() <= i < 512
                    ||| 512 + 4 * bad.len() <= i < end - 10
                } ==> #[trigger] bytes[i] == 0
        }),
{
    lemma_last_step(options, fresh, states, events, steps);
    lemma_held(options, fresh, states, events, steps);
    let run = states.last();
    let bad = unreadable(outcomes(events));
    lemma_page_words(
        run.request,
        run.stage->Write_pagesize,
        run.stage->Write_pages,
        bad,
        big_asked(options),
    );
    lemma_page_rest(run.request, run.stage->Write_pagesize, run.stage->Write_pages, bad);
    assert(SWAP_SIGNATURE@
        =~= seq![0x53u8, 0x57, 0x41, 0x50, 0x53, 0x50, 0x41, 0x43, 0x45, 0x32]);
}

/// What a run is like that reports success.
proof fn lemma_finished(
    options: Options,
    fresh: Seq<u8>,
    states: Seq<Mkswap>,
    events: Seq<Event>,
    steps: Seq<Step>,
)
    requires
        is_run(options, fresh, states, events, steps),
        events.len() > 0,
        steps.last().action is Finish,
    ensures
        events.len() > 1,
        events.last() is Written,
        ({
            let n = events.len() - 1;
            let run = states[n];
            &&& is_run(options, fresh, states.take(n + 1), events.take(n), steps.take(n))
            &&& steps[n - 1].action is WriteArea
            &&& run.stage is Write
            &&& steps.last().action->Finish_report@ == run.request.report_text(
                run.stage->Write_pagesize,
                run.stage->Write_pages,
            )
            &&& options.label matches Some(label) ==> run.request.label@ == label@
            &&& options.label is None ==> run.request.label@.len() == 0
        }),
{
    let n = events.len() - 1;
    lemma_all_known(options, fresh, states, events, steps, n);
    assert(goes(states, events, steps, n));
    reveal(goes);
    assert(states[n].stage is Write);
    requests_hold_what_is_asked(states[n].request, options, ByteOrder::of_machine(), fresh);
    assert(steps.take(n).last() == steps[n - 1]);
    assert forall|i: int| 0 <= i < n implies #[trigger] goes(
        states.take(n + 1),
        events.take(n),
        steps.take(n),
        i,
    ) by {
        assert(goes(states, events, steps, i));
    }
}

/// A run that reports success has just written the area, and reports its size, its
/// label and its UUID as they were written.
pub proof fn runs_report_what_they_wrote(
    options: Options,
    fresh: Seq<u8>,
    states: Seq<Mkswap>,
    events: Seq<Event>,
    steps: Seq<Step>,
) -> (parts: (Seq<char>, Seq<char>, Seq<char>))
    requires
        is_run(options, fresh, states, events, steps),
        events.len() > 0,
        steps.last().action is Finish,
    ensures
        events.len() > 1,
        events.last() is Written,
        steps[events.len() - 2].action is WriteArea,
        states[events.len() - 1].stage is Write,
        ({
            let pages = states[events.len() - 1].stage->Write_pages;
            let pagesize = pagesize_asked(options, events[0]);
            let write = steps[events.len() - 2].action->WriteArea_0;
            let (kib, bytes, uuid) = parts;
            let label = match options.label {
                Some(label) => if label@.len() == 0 {
                    "no label"@
                } else {
                    "LABEL="@ + label@
                },
                None => "no label"@,
            };
            &&& steps.last().action->Finish_report@ == "Setting up swapspace version 1, size = "@
                + kib + " KiB ("@ + bytes + " bytes)\n"@ + label + ", UUID="@ + uuid
            &&& tells(kib, (pages - 1) * (pagesize / 1024))
            &&& tells(bytes, (pages - 1) * pagesize)
            &&& uuid.len() == 36
            &&& uuid_of_text(uuid) == Some(write.bytes@.subrange(12, 28))
        }),
{
    let n = events.len() - 1;
    lemma_finished(options, fresh, states, events, steps);
    let early_states = states.take(n + 1);
    let early_events = events.take(n);
    let early_steps = steps.take(n);
    assert(early_steps.last() == steps[n - 1]);
    assert(early_states.last() == states[n]);
    assert(early_events[0] == events[0]);
    lemma_last_step(options, fresh, early_states, early_events, early_steps);
    lemma_held(options, fresh, early_states, early_events, early_steps);
    let run = states[n];
    lemma_page_rest(
        run.request,
        run.stage->Write_pagesize,
        run.stage->Write_pages,
        unreadable(outcomes(early_events)),
    );
    reports_tell_size_label_and_uuid(run.request, run.stage->Write_pagesize, run.stage->Write_pages)
}

/// Whether the answer number `i`, where it is one to an action on the device, is one
/// to the action that was asked for.
pub open spec fn answer_fits(steps: Seq<Step>, events: Seq<Event>, i: int) -> bool {
    steps[i - 1].action matches Action::Device(action) ==> events[i] matches Event::Device(answer)
        ==> answers(action, answer)
}

/// What a run has been through before it comes to a stage.
proof fn lemma_came_from(
    options: Options,
    fresh: Seq<u8>,
    states: Seq<Mkswap>,
    events: Seq<Event>,
    steps: Seq<Step>,
    i: int,
)
    requires
        is_run(options, fresh, states, events, steps),
        0 < i <= events.len(),
    ensures
        !(states[i - 1].stage is Over),
        states[i].request == states[i - 1].request,
        states[i].stage is Opening && i > 1 ==> states[i - 1].stage is Opening,
        states[i].stage is Status ==> states[i - 1].stage is Opening && i > 1,
        states[i].stage is BlockSize ==> states[i - 1].stage is Status,
        states[i].stage is SizeFile ==> states[i - 1].stage is BlockSize,
        measured(states[i].stage) is Some ==> measured(states[i - 1].stage) is Some
            || states[i - 1].stage is Status || states[i - 1].stage is BlockSize || states[i
            - 1].stage is SizeFile,
        i == 1 && states[1].stage is Opening ==> states[1].stage->Opening_action == (
        DeviceAction::Open { create: options.file }) && steps[0].action == Action::Device(
            DeviceAction::Open { create: options.file },
        ),
        states[i].stage is Opening ==> steps[i - 1].action == Action::Device(
            states[i].stage->Opening_action,
        ),
        steps[i - 1].action is Device ==> states[i].stage is Opening,
        states[i].stage is Status ==> steps[i - 1].action is QueryStatus,
        states[i - 1].stage is Opening && !(states[i].stage is Over) ==> {
            &&& events[i - 1] is Device
            &&& states[i].request.after_action(
                states[i - 1].stage->Opening_action,
                events[i - 1]->Device_0,
            ) == Ok::<_, SetupError>(
                if states[i].stage is Status {
                    DeviceAction::Done
                } else {
                    states[i].stage->Opening_action
                },
            )
            &&& !(states[i - 1].stage->Opening_action is Done)
        },
{
    lemma_all_known(options, fresh, states, events, steps, i - 1);
    assert(goes(states, events, steps, i - 1));
    reveal(goes);
    requests_hold_what_is_asked(states[i - 1].request, options, ByteOrder::of_machine(), fresh);
}

/// A run that comes to know who owns the device has done nothing before but open it.
proof fn lemma_opening_before(
    options: Options,
    fresh: Seq<u8>,
    states: Seq<Mkswap>,
    events: Seq<Event>,
    steps: Seq<Step>,
    k: int,
    i: int,
)
    requires
        is_run(options, fresh, states, events, steps),
        0 < i < k <= events.len(),
        states[k].stage is Status,
    ensures
        states[i].stage is Opening,
        states[i].request == states[k].request,
    decreases k - i,
{
    lemma_came_from(options, fresh, states, events, steps, i + 1);
    if i + 1 < k {
        lemma_opening_before(options, fresh, states, events, steps, k, i + 1);
    }
}

/// A run that has come to know who owns the device does not go back to opening it.
proof fn lemma_opening_no_more(
    options: Options,
    fresh: Seq<u8>,
    states: Seq<Mkswap>,
    events: Seq<Event>,
    steps: Seq<Step>,
    k: int,
    i: int,
)
    requires
        is_run(options, fresh, states, events, steps),
        0 < k <= i <= events.len(),
        states[k].stage is Status,
    ensures
        !(states[i].stage is Opening),
    decreases i,
{
    if i > k {
        lemma_opening_no_more(options, fresh, states, events, steps, k, i - 1);
        lemma_came_from(options, fresh, states, events, steps, i);
    }
}

/// A run that has measured the device came to know who owns it first.
proof fn lemma_status_before(
    options: Options,
    fresh: Seq<u8>,
    states: Seq<Mkswap>,
    events: Seq<Event>,
    steps: Seq<Step>,
    i: int,
) -> (k: int)
    requires
        is_run(options, fresh, states, events, steps),
        0 <= i <= events.len(),
        ({
            ||| measured(states[i].stage) is Some
            ||| states[i].stage is Status
            ||| states[i].stage is BlockSize
            ||| states[i].stage is SizeFile
        }),
    ensures
        0 < k <= i,
        states[k].stage is Status,
    decreases i,
{
    if i > 0 {
        lemma_came_from(options, fresh, states, events, steps, i);
    }
    if states[i].stage is Status {
        i
    } else {
        lemma_status_before(options, fresh, states, events, steps, i - 1)
    }
}

/// A run that writes the area has prepared the device in full before it asked for
/// anything else. A new file was opened, made readable and writable for its owner
/// alone, on Btrfs taken out of copy-on-write with its other flags kept, and given
/// blocks for as many bytes as the command line asks for, each of which succeeded. A
/// device that was there already was opened, and nothing was done to it. How many
/// events that took is handed back.
pub proof fn runs_prepare_the_device_before_they_write(
    options: Options,
    fresh: Seq<u8>,
    states: Seq<Mkswap>,
    events: Seq<Event>,
    steps: Seq<Step>,
) -> (k: int)
    requires
        is_run(options, fresh, states, events, steps),
        events.len() > 0,
        steps.last().action is WriteArea,
        forall|i: int| 0 < i < events.len() ==> #[trigger] answer_fits(steps, events, i),
    ensures
        0 < k < events.len(),
        steps[k - 1].action is QueryStatus,
        forall|i: int| k <= i < steps.len() ==> !((#[trigger] steps[i]).action is Device),
        steps[0].action == Action::Device(DeviceAction::Open { create: options.file }),
        events[1] == Event::Device(DeviceEvent::Succeeded),
        if !options.file {
            k == 2
        } else {
            let length = match steps[k - 2].action {
                Action::Device(DeviceAction::Allocate { length }) => Some(length as int),
                _ => None,
            };
            let filesize = match options.filesize {
                Some(filesize) => filesize as int,
                None => 0,
            };
            let succeeded = Event::Device(DeviceEvent::Succeeded);
            &&& steps[1].action == Action::Device(DeviceAction::SetPermissions { mode: 0o600 })
            &&& events[2] == succeeded
            &&& steps[2].action == Action::Device(DeviceAction::QueryFileSystem)
            &&& length == Some(filesize) || length == Some(filesize - 0x1_0000_0000_0000_0000)
            &&& events[k - 1] == succeeded
            &&& {
                ||| {
                    &&& events[3] == Event::Device(DeviceEvent::FileSystem(FileSystem::Other))
                    &&& k == 5
                }
                ||| {
                    &&& events[3] == Event::Device(DeviceEvent::FileSystem(FileSystem::Btrfs))
                    &&& k == 7
                    &&& steps[3].action == Action::Device(DeviceAction::GetFlags)
                    &&& events[4] matches Event::Device(DeviceEvent::Flags(read))
                    &&& steps[4].action == Action::Device(
                        DeviceAction::SetFlags { flags: read | 0x0080_0000i32 },
                    )
                    &&& events[5] == succeeded
                }
            }
        },
{
    let n = events.len() as int;
    lemma_last_step(options, fresh, states, events, steps);
    let k = lemma_status_before(options, fresh, states, events, steps, n);
    let request = states[k].request;
    let actions = Seq::new(
        k as nat,
        |j: int|
            if j < k - 1 {
                states[j + 1].stage->Opening_action
            } else {
                DeviceAction::Done
            },
    );
    let given = Seq::new((k - 1) as nat, |j: int| events[j + 1]->Device_0);
    assert forall|i: int| 0 <= i < given.len() implies #[trigger] request.goes_on_after(
        actions,
        given,
        i,
    ) by {
        lemma_opening_before(options, fresh, states, events, steps, k, i + 1);
        lemma_came_from(options, fresh, states, events, steps, i + 1);
        lemma_came_from(options, fresh, states, events, steps, i + 2);
        if i + 2 < k {
            lemma_opening_before(options, fresh, states, events, steps, k, i + 2);
        }
        assert(answer_fits(steps, events, i + 1));
        answered_actions_are_not_repeated(request, actions[i], given[i]);
    }
    assert forall|i: int| k <= i < steps.len() implies !((#[trigger] steps[i]).action is Device) by {
        lemma_opening_no_more(options, fresh, states, events, steps, k, i + 1);
        lemma_came_from(options, fresh, states, events, steps, i + 1);
    }
    assert forall|i: int| 0 <= i < k - 1 implies (#[trigger] steps[i]).action == Action::Device(
        actions[i],
    ) && events[i + 1] == Event::Device(given[i]) by {
        lemma_opening_before(options, fresh, states, events, steps, k, i + 1);
        lemma_came_from(options, fresh, states, events, steps, i + 1);
        lemma_came_from(options, fresh, states, events, steps, i + 2);
        if i + 2 < k {
            lemma_opening_before(options, fresh, states, events, steps, k, i + 2);
        }
    }
    lemma_came_from(options, fresh, states, events, steps, k);
    lemma_opening_before(options, fresh, states, events, steps, k, 1);
    lemma_came_from(options, fresh, states, events, steps, 1);
    assert(steps[0].action == Action::Device(actions[0]));
    if options.file {
        lemma_all_known(options, fresh, states, events, steps, k);
        requests_hold_what_is_asked(request, options, ByteOrder::of_machine(), fresh);
        new_files_are_prepared_in_full(request, actions, given);
        assert(steps[1].action == Action::Device(actions[1]));
        assert(steps[2].action == Action::Device(actions[2]));
        assert(steps[k - 2].action == Action::Device(actions[k - 2]));
        assert(steps[3].action == Action::Device(actions[3]));
        if k > 5 {
            assert(steps[4].action == Action::Device(actions[4]));
        }
    } else {
        assert(request.goes_on_after(actions, given, 0));
        assert(answer_fits(steps, events, 1));
        if k > 2 {
            assert(request.goes_on_after(actions, given, 1));
        }
    }
    k
}

} // verus!
