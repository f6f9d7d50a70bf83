//! A run of the program, from the command line to the area on the device.
//!
//! A run asks for one thing at a time that only the machine can do, and goes on
//! with what came of it.

use crate::area::{count_pages, least_size, min_swapsize, pages_of, Write};
use crate::device::{
    answered_size, is_size_of, size_file, size_file_path, size_from_line, size_told, DeviceAction,
    DeviceEvent,
};
use crate::endian::ByteOrder;
use crate::error::{MkswapError, Note, SetupError};
use crate::header::{page_error, BOOTBITS_SIZE, MIN_HEADER_PAGE, MIN_SWAP_PAGES};
use crate::pagesize::{choose_pagesize, getpagesize, settled_pagesize, system_pagesize};
use crate::request::{is_request_of, Options, Request};
use crate::scan::PageScan;
use crate::uuids::is_random_uuid;
use vstd::prelude::*;
use vstd::utf8::encode_utf8;

verus! {

/// What the machine is asked to do.
#[derive(Debug)]
pub enum Action {
    /// Tell the page size of the system, under both its names.
    QueryPageSize,
    /// Do something on the way to an open device.
    Device(DeviceAction),
    /// Tell who owns the device, who runs the program and what the device is.
    QueryStatus,
    /// Ask the kernel for the size of the block device.
    QueryBlockSize,
    /// Read the first line of a file.
    ReadSizeFile { path: String },
    /// Try to read so many bytes from the device.
    ReadPage { position: u64, length: usize },
    /// Write to the device and wait until it is there.
    WriteArea(Write),
    /// Tell the user that the area is set up; the run is over.
    Finish { report: String },
    /// Tell the user what is wrong; the run is over.
    Fail(SetupError),
}

/// What came of it.
#[derive(Debug)]
pub enum Event {
    PageSize { pagesize: i64, page_size: i64 },
    Device(DeviceEvent),
    Status { owner: u32, euid: u32, block_device: bool, size: u64 },
    BlockSize { status: i32, size: u64 },
    SizeFile { line: String },
    Page { readable: bool },
    Written,
    Failed { reason: String },
}

/// What a run waits for.
#[derive(Debug)]
pub enum Stage {
    PageSize,
    Opening { pagesize: usize, action: DeviceAction },
    Status { pagesize: usize },
    BlockSize { pagesize: usize },
    SizeFile { pagesize: usize },
    Scan { devsize: u64, scan: PageScan },
    Write { devsize: u64, pagesize: usize, pages: u32 },
    Over,
}

/// A run of the program.
#[derive(Debug)]
pub struct Mkswap {
    pub request: Request,
    pub stage: Stage,
}

/// What a run asks for next, and what it tells the user before.
#[derive(Debug)]
pub struct Step {
    pub note: Option<Note>,
    pub action: Action,
}

impl Mkswap {
    /// Whether what the run has found out so far fits together.
    pub open spec fn wf(self) -> bool {
        match self.stage {
            Stage::Opening { pagesize, action } => {
                &&& !(action is Done)
                &&& self.request.create ==> self.request.filesize >= least_size(pagesize)
            },
            Stage::Scan { devsize, scan } => {
                &&& self.request.check
                &&& scan.wf()
                &&& !scan.is_over()
                &&& scan.pagesize > 0
                &&& scan.offset == self.request.offset
                &&& self.has_area(devsize, scan.pagesize, scan.pages)
            },
            Stage::Write { devsize, pagesize, pages } => {
                &&& pagesize >= MIN_HEADER_PAGE
                &&& pages >= MIN_SWAP_PAGES
                &&& self.has_area(devsize, pagesize, pages)
            },
            _ => true,
        }
    }

    /// Whether a device of the given size has an area of so many pages. It ends
    /// inside the device unless it is forced.
    pub open spec fn has_area(self, devsize: u64, pagesize: usize, pages: u32) -> bool {
        let request = self.request;
        &&& pages_of(devsize, request.offset, pagesize, request.force) == Ok::<_, SetupError>(pages)
        &&& pages >= 1
        &&& request.offset + pages * pagesize <= u64::MAX
        &&& request.offset + pagesize <= u64::MAX
        &&& !request.force ==> request.offset + pages * pagesize <= devsize
        &&& !request.force ==> request.offset + pagesize <= devsize
    }

    /// Whether a page of the given size can be made into the first page of the
    /// area on a device of the given size, if it comes to that right away.
    pub open spec fn has_room(self, pagesize: usize, devsize: u64) -> bool {
        &&& pagesize > 0
        &&& pages_of(devsize, self.request.offset, pagesize, self.request.force) matches Ok(
            pages,
        ) ==> {
            ||| self.request.check && pages > 1
            ||| pagesize >= MIN_HEADER_PAGE
        }
    }

    /// Whether the run can go on with an event: it answers what the run waits
    /// for, and the page, where it is made next, has room for the header.
    pub open spec fn can_take(self, event: Event) -> bool {
        match (self.stage, event) {
            (Stage::Over, _) => false,
            (_, Event::Failed { .. }) => true,
            (Stage::PageSize, Event::PageSize { .. }) => true,
            (Stage::Opening { .. }, Event::Device(_)) => true,
            (Stage::Status { pagesize }, Event::Status { block_device, size, .. }) => {
                if self.request.create {
                    self.has_room(pagesize, self.request.filesize)
                } else {
                    block_device || self.has_room(pagesize, size)
                }
            },
            (Stage::BlockSize { pagesize }, Event::BlockSize { status, size }) => {
                size == 0 || status < 0 || self.has_room(pagesize, size)
            },
            (Stage::SizeFile { pagesize }, Event::SizeFile { line }) => {
                tells_size(line@) ==> self.has_room(pagesize, size_told(line@)->0 as u64)
            },
            (Stage::Scan { scan, .. }, Event::Page { .. }) => {
                scan.page + 1 < scan.pages || scan.pagesize >= MIN_HEADER_PAGE
            },
            (Stage::Write { .. }, Event::Written) => true,
            _ => false,
        }
    }
}

impl Mkswap {
    /// What the user is told when the run takes in an event about the owner of
    /// the device or about a page of it.
    pub open spec fn note_for(self, event: Event) -> Option<Note> {
        match (self.stage, event) {
            (Stage::Status { .. }, Event::Status { owner, euid, .. }) => {
                self.request.note_on_owner(owner, euid)
            },
            (Stage::Scan { scan, .. }, Event::Page { readable }) => {
                if !readable && self.request.verbose {
                    Some(Note::BadPage { page: scan.page })
                } else {
                    None
                }
            },
            _ => None,
        }
    }

    /// Finds what the user is told about the owner of the device or about a page
    /// of it, whether or not the run can go on with the event.
    pub fn note_on(&self, event: &Event) -> (note: Option<Note>)
        ensures
            note == self.note_for(*event),
    {
        match (&self.stage, event) {
            (Stage::Status { .. }, Event::Status { owner, euid, .. }) => {
                self.request.owner_note(*owner, *euid)
            },
            (Stage::Scan { scan, .. }, Event::Page { readable }) => {
                if !*readable && self.request.verbose {
                    Some(Note::BadPage { page: scan.page })
                } else {
                    None
                }
            },
            _ => None,
        }
    }
}

/// Whether a line tells the size of a block device.
pub open spec fn tells_size(line: Seq<char>) -> bool {
    &&& line.len() > 0
    &&& size_told(line) is Some
    &&& size_told(line)->0 <= u64::MAX
}

/// Whether a step of a run ends it with an error.
pub open spec fn ends(
    before: Mkswap,
    after: Mkswap,
    step: Step,
    note: Option<Note>,
    e: SetupError,
) -> bool {
    &&& after == (Mkswap { stage: Stage::Over, ..before })
    &&& step == (Step { note, action: Action::Fail(e) })
}

/// Whether a step of a run goes on to a given stage with a given action.
pub open spec fn goes_on(
    before: Mkswap,
    after: Mkswap,
    step: Step,
    note: Option<Note>,
    stage: Stage,
    action: Action,
) -> bool {
    &&& after == (Mkswap { stage, ..before })
    &&& step == (Step { note, action })
}

/// Whether a step of a run writes the area, or ends it where the area cannot be
/// made.
pub open spec fn writes(
    before: Mkswap,
    after: Mkswap,
    step: Step,
    note: Option<Note>,
    devsize: u64,
    pagesize: usize,
    pages: u32,
    badpages: Seq<u32>,
) -> bool {
    match page_error(encode_utf8(before.request.label@), pages, badpages, pagesize as nat) {
        Some(e) => ends(before, after, step, note, SetupError::Area(e)),
        None => {
            &&& after == (Mkswap { stage: Stage::Write { devsize, pagesize, pages }, ..before })
            &&& step.note == note
            &&& step.action matches Action::WriteArea(write) && {
                &&& write.position == before.request.offset + BOOTBITS_SIZE
                &&& write.bytes@ == before.request.first_page(pagesize, pages, badpages).skip(
                    BOOTBITS_SIZE as int,
                )
                &&& write.bytes@.len() == pagesize - BOOTBITS_SIZE
            }
        },
    }
}

/// Whether a step of a run reads the next page of a scan, or, where there is
/// none, writes the area.
pub open spec fn scans(
    before: Mkswap,
    after: Mkswap,
    step: Step,
    note: Option<Note>,
    devsize: u64,
    pagesize: usize,
    pages: u32,
    page: int,
    badpages: Seq<u32>,
) -> bool {
    if page < pages {
        &&& after.request == before.request
        &&& after.stage matches Stage::Scan { devsize: d, scan } && {
            &&& d == devsize
            &&& scan.pagesize == pagesize
            &&& scan.pages == pages
            &&& scan.offset == before.request.offset
            &&& scan.page == page
            &&& scan.badpages@ == badpages
        }
        &&& step.note == note
        &&& step.action matches Action::ReadPage { position, length } && {
            &&& position == before.request.offset + page * pagesize
            &&& length == pagesize
        }
    } else {
        writes(before, after, step, note, devsize, pagesize, pages, badpages)
    }
}

/// Whether a step of a run goes on once the size of the device is known.
pub open spec fn measures(
    before: Mkswap,
    after: Mkswap,
    step: Step,
    note: Option<Note>,
    pagesize: usize,
    devsize: u64,
) -> bool {
    match pages_of(devsize, before.request.offset, pagesize, before.request.force) {
        Err(e) => ends(before, after, step, note, e),
        Ok(pages) => if before.request.check {
            scans(before, after, step, note, devsize, pagesize, pages, 1, Seq::empty())
        } else {
            writes(before, after, step, note, devsize, pagesize, pages, Seq::empty())
        },
    }
}

/// Whether a step of a run goes on once the page size of the system is known.
pub open spec fn plans(
    before: Mkswap,
    after: Mkswap,
    step: Step,
    system: Result<usize, SetupError>,
) -> bool {
    let request = before.request;
    match system {
        Err(e) => ends(before, after, step, None, e),
        Ok(system) => match settled_pagesize(request.pagesize, request.force, system) {
            Err(e) => ends(before, after, step, None, e),
            Ok((pagesize, note)) => if request.create && request.filesize < least_size(pagesize) {
                let e = MkswapError::SwapAreaTooSmall { min_swapsize: least_size(pagesize) };
                ends(before, after, step, note, SetupError::Area(e))
            } else {
                let action = DeviceAction::Open { create: request.create };
                goes_on(
                    before,
                    after,
                    step,
                    note,
                    Stage::Opening { pagesize, action },
                    Action::Device(action),
                )
            },
        },
    }
}

/// Whether a step of a run goes on after an action on the device.
pub open spec fn opens(
    before: Mkswap,
    after: Mkswap,
    step: Step,
    pagesize: usize,
    next: Result<DeviceAction, SetupError>,
) -> bool {
    match next {
        Err(e) => ends(before, after, step, None, e),
        Ok(DeviceAction::Done) => goes_on(
            before,
            after,
            step,
            None,
            Stage::Status { pagesize },
            Action::QueryStatus,
        ),
        Ok(action) => goes_on(
            before,
            after,
            step,
            None,
            Stage::Opening { pagesize, action },
            Action::Device(action),
        ),
    }
}

/// The bad pages that a run knows of once it has taken in an event.
pub open spec fn badpages_after(before: Mkswap, event: Event) -> Seq<u32> {
    match (before.stage, event) {
        (Stage::Scan { scan, .. }, Event::Page { readable }) => if readable {
            scan.badpages@
        } else {
            scan.badpages@.push(scan.page)
        },
        _ => Seq::empty(),
    }
}

/// Whether a run goes from one state to another, and does so with the given
/// step, when it takes in an event.
pub open spec fn is_step(before: Mkswap, event: Event, after: Mkswap, step: Step) -> bool {
    let request = before.request;
    match (before.stage, event) {
        (_, Event::Failed { reason }) => ends(
            before,
            after,
            step,
            None,
            SetupError::Io { reason },
        ),
        (Stage::PageSize, Event::PageSize { pagesize, page_size }) => plans(
            before,
            after,
            step,
            system_pagesize(pagesize, page_size),
        ),
        (Stage::Opening { pagesize, action }, Event::Device(event)) => opens(
            before,
            after,
            step,
            pagesize,
            request.after_action(action, event),
        ),
        (Stage::Status { pagesize }, Event::Status { owner, euid, block_device, size }) => {
            let note = before.note_for(event);
            if request.create {
                measures(before, after, step, note, pagesize, request.filesize)
            } else if block_device {
                goes_on(
                    before,
                    after,
                    step,
                    note,
                    Stage::BlockSize { pagesize },
                    Action::QueryBlockSize,
                )
            } else {
                measures(before, after, step, note, pagesize, size)
            }
        },
        (Stage::BlockSize { pagesize }, Event::BlockSize { status, size }) => {
            if size == 0 || status < 0 {
                &&& after == (Mkswap { stage: Stage::SizeFile { pagesize }, ..before })
                &&& step.note is None
                &&& step.action matches Action::ReadSizeFile { path }
                &&& path@ == size_file(request.devname@)
            } else {
                measures(before, after, step, None, pagesize, size)
            }
        },
        (Stage::SizeFile { pagesize }, Event::SizeFile { line }) => {
            if tells_size(line@) {
                measures(before, after, step, None, pagesize, size_told(line@)->0 as u64)
            } else {
                &&& after == (Mkswap { stage: Stage::Over, ..before })
                &&& step.note is None
                &&& step.action matches Action::Fail(e)
                &&& is_size_of(Err(e), line@, request.devname@)
            }
        },
        (Stage::Scan { devsize, scan }, Event::Page { readable }) => {
            scans(
                before,
                after,
                step,
                before.note_for(event),
                devsize,
                scan.pagesize,
                scan.pages,
                scan.page + 1,
                badpages_after(before, event),
            )
        },
        (Stage::Write { pagesize, pages, .. }, Event::Written) => {
            &&& after == (Mkswap { stage: Stage::Over, ..before })
            &&& step.note is None
            &&& step.action matches Action::Finish { report }
            &&& report@ == request.report_text(pagesize, pages)
        },
        _ => false,
    }
}

/// Whether a run is begun by a command line on this machine, where the UUID to use
/// if the command line has none is as given.
pub open spec fn begins(options: Options, fresh: Seq<u8>, run: Mkswap) -> bool {
    &&& is_request_of(
        Ok::<Request, SetupError>(run.request),
        options,
        ByteOrder::of_machine(),
        fresh,
    )
    &&& options.uuid is None ==> is_random_uuid(fresh)
    &&& run.stage is PageSize
}

/// Begins a run: checks the command line and asks for the page size of the
/// system.
pub fn mkswap(options: Options) -> (r: Result<(Mkswap, Action), SetupError>)
    ensures
        exists|checked: Result<Request, SetupError>, fresh: [u8; 16]|
            #![trigger is_request_of(checked, options, ByteOrder::of_machine(), fresh@)]
            {
                &&& is_request_of(checked, options, ByteOrder::of_machine(), fresh@)
                &&& options.uuid is None ==> is_random_uuid(fresh@)
                &&& r == match checked {
                    Ok(request) => Ok(
                        (Mkswap { request, stage: Stage::PageSize }, Action::QueryPageSize),
                    ),
                    Err(e) => Err(e),
                }
            },
        options.endianness_has_no_case(),
        r matches Ok((run, action)) ==> {
            &&& run.wf()
            &&& action is QueryPageSize
            &&& exists|fresh: [u8; 16]| #[trigger] begins(options, fresh@, run)
        },
{
    let checked = Request::from_options(options);
    let ghost fresh = choose|fresh: [u8; 16]|
        #![trigger is_request_of(checked, options, ByteOrder::of_machine(), fresh@)]
        {
            &&& is_request_of(checked, options, ByteOrder::of_machine(), fresh@)
            &&& options.uuid is None ==> is_random_uuid(fresh@)
        };
    match checked {
        Ok(request) => {
            let run = Mkswap { request, stage: Stage::PageSize };
            assert(begins(options, fresh@, run));
            Ok((run, Action::QueryPageSize))
        },
        Err(e) => Err(e),
    }
}

impl Mkswap {
    fn end(self, note: Option<Note>, e: SetupError) -> (r: (Mkswap, Step))
        ensures
            ends(self, r.0, r.1, note, e),
    {
        (Mkswap { stage: Stage::Over, ..self }, Step { note, action: Action::Fail(e) })
    }

    fn go_on(self, note: Option<Note>, stage: Stage, action: Action) -> (r: (Mkswap, Step))
        ensures
            goes_on(self, r.0, r.1, note, stage, action),
    {
        (Mkswap { stage, ..self }, Step { note, action })
    }

    /// Makes the area and asks for it to be written.
    fn write(
        self,
        note: Option<Note>,
        devsize: u64,
        pagesize: usize,
        pages: u32,
        badpages: &Vec<u32>,
    ) -> (r: (Mkswap, Step))
        requires
            pagesize >= MIN_HEADER_PAGE,
            self.has_area(devsize, pagesize, pages),
        ensures
            r.0.wf(),
            writes(self, r.0, r.1, note, devsize, pagesize, pages, badpages@),
    {
        match self.request.area_write(pagesize, pages, badpages.as_slice()) {
            Ok(write) => self.go_on(
                note,
                Stage::Write { devsize, pagesize, pages },
                Action::WriteArea(write),
            ),
            Err(e) => self.end(note, e),
        }
    }

    /// Asks for the next page of a scan, or for the area to be written.
    fn scan(self, note: Option<Note>, devsize: u64, scan: PageScan) -> (r: (Mkswap, Step))
        requires
            self.request.check,
            scan.wf(),
            scan.pagesize > 0,
            scan.offset == self.request.offset,
            self.has_area(devsize, scan.pagesize, scan.pages),
            scan.is_over() ==> scan.pagesize >= MIN_HEADER_PAGE,
        ensures
            r.0.wf(),
            scans(
                self,
                r.0,
                r.1,
                note,
                devsize,
                scan.pagesize,
                scan.pages,
                scan.page as int,
                scan.badpages@,
            ),
    {
        match scan.position() {
            Some(position) => {
                let length: usize = scan.pagesize;
                self.go_on(
                    note,
                    Stage::Scan { devsize, scan },
                    Action::ReadPage { position, length },
                )
            },
            None => self.write(note, devsize, scan.pagesize, scan.pages, &scan.badpages),
        }
    }

    /// Goes on once the size of the device is known.
    fn measure(self, note: Option<Note>, pagesize: usize, devsize: u64) -> (r: (Mkswap, Step))
        requires
            self.has_room(pagesize, devsize),
        ensures
            r.0.wf(),
            measures(self, r.0, r.1, note, pagesize, devsize),
    {
        match count_pages(devsize, self.request.offset, pagesize, self.request.force) {
            Ok(pages) => if self.request.check {
                let scan = PageScan::new(pagesize, pages, self.request.offset);
                self.scan(note, devsize, scan)
            } else {
                self.write(note, devsize, pagesize, pages, &Vec::new())
            },
            Err(e) => self.end(note, e),
        }
    }

    /// Goes on once the page size of the system is known.
    fn plan(self, system: Result<usize, SetupError>) -> (r: (Mkswap, Step))
        ensures
            r.0.wf(),
            plans(self, r.0, r.1, system),
    {
        let system: usize = match system {
            Ok(system) => system,
            Err(e) => return self.end(None, e),
        };
        match choose_pagesize(self.request.pagesize, self.request.force, system) {
            Ok((pagesize, note)) => {
                let min: u64 = min_swapsize(pagesize);
                if self.request.create && self.request.filesize < min {
                    let e = MkswapError::SwapAreaTooSmall { min_swapsize: min };
                    return self.end(note, SetupError::Area(e));
                }
                let action = self.request.open_device();
                self.go_on(note, Stage::Opening { pagesize, action }, Action::Device(action))
            },
            Err(e) => self.end(None, e),
        }
    }

    /// Tells whether a page has room, if it is made next.
    fn room(&self, pagesize: usize, devsize: u64) -> (r: bool)
        ensures
            r == self.has_room(pagesize, devsize),
    {
        if pagesize == 0 {
            return false;
        }
        match count_pages(devsize, self.request.offset, pagesize, self.request.force) {
            Ok(pages) => self.request.check && pages > 1 || pagesize >= MIN_HEADER_PAGE,
            Err(_) => true,
        }
    }

    /// Tells whether the run can go on with an event.
    pub fn accepts(&self, event: &Event) -> (r: bool)
        ensures
            r == self.can_take(*event),
    {
        match (&self.stage, event) {
            (Stage::Over, _) => false,
            (_, Event::Failed { .. }) => true,
            (Stage::PageSize, Event::PageSize { .. }) => true,
            (Stage::Opening { .. }, Event::Device(_)) => true,
            (Stage::Status { pagesize }, Event::Status { block_device, size, .. }) => {
                if self.request.create {
                    self.room(*pagesize, self.request.filesize)
                } else {
                    *block_device || self.room(*pagesize, *size)
                }
            },
            (Stage::BlockSize { pagesize }, Event::BlockSize { status, size }) => {
                match answered_size(*status, *size) {
                    Some(size) => self.room(*pagesize, size),
                    None => true,
                }
            },
            (Stage::SizeFile { pagesize }, Event::SizeFile { line }) => {
                match size_from_line(line.as_str(), self.request.devname.as_str()) {
                    Ok(size) => self.room(*pagesize, size),
                    Err(_) => true,
                }
            },
            (Stage::Scan { scan, .. }, Event::Page { .. }) => {
                scan.pages > 1 && scan.page < scan.pages - 1 || scan.pagesize >= MIN_HEADER_PAGE
            },
            (Stage::Write { .. }, Event::Written) => true,
            _ => false,
        }
    }

    /// Takes in what came of the last action and decides what is next.
    pub fn step(self, event: Event) -> (r: (Mkswap, Step))
        requires
            self.wf(),
            self.can_take(event),
        ensures
            r.0.wf(),
            is_step(self, event, r.0, r.1),
    {
        let Mkswap { request, stage } = self;
        let run = Mkswap { request, stage: Stage::Over };
        match (stage, event) {
            (_, Event::Failed { reason }) => run.end(None, SetupError::Io { reason }),
            (Stage::PageSize, Event::PageSize { pagesize, page_size }) => {
                run.plan(getpagesize(pagesize, page_size))
            },
            (Stage::Opening { pagesize, action }, Event::Device(event)) => {
                match run.request.device_step(action, event) {
                    Ok(DeviceAction::Done) => run.go_on(
                        None,
                        Stage::Status { pagesize },
                        Action::QueryStatus,
                    ),
                    Ok(action) => run.go_on(
                        None,
                        Stage::Opening { pagesize, action },
                        Action::Device(action),
                    ),
                    Err(e) => run.end(None, e),
                }
            },
            (Stage::Status { pagesize }, Event::Status { owner, euid, block_device, size }) => {
                let note = run.request.owner_note(owner, euid);
                if run.request.create {
                    let filesize: u64 = run.request.filesize;
                    run.measure(note, pagesize, filesize)
                } else if block_device {
                    run.go_on(note, Stage::BlockSize { pagesize }, Action::QueryBlockSize)
                } else {
                    run.measure(note, pagesize, size)
                }
            },
            (Stage::BlockSize { pagesize }, Event::BlockSize { status, size }) => {
                match answered_size(status, size) {
                    Some(size) => run.measure(None, pagesize, size),
                    None => {
                        let path = size_file_path(run.request.devname.as_str());
                        run.go_on(None, Stage::SizeFile { pagesize }, Action::ReadSizeFile { path })
                    },
                }
            },
            (Stage::SizeFile { pagesize }, Event::SizeFile { line }) => {
                match size_from_line(line.as_str(), run.request.devname.as_str()) {
                    Ok(size) => run.measure(None, pagesize, size),
                    Err(e) => run.end(None, e),
                }
            },
            (Stage::Scan { devsize, scan }, Event::Page { readable }) => {
                let mut scan = scan;
                let note = scan.record(readable, run.request.verbose);
                run.scan(note, devsize, scan)
            },
            (Stage::Write { pagesize, pages, .. }, Event::Written) => {
                let report = run.request.report(pagesize, pages);
                run.go_on(None, Stage::Over, Action::Finish { report })
            },
            _ => vstd::pervasive::unreached(),
        }
    }
}

} // verus!
