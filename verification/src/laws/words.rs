//! What the user reads.

use crate::error::{MkswapError, Note, SetupError};
use crate::request::Request;
use crate::text::{decimal_digits, decimals_read_back, is_number, number};
use crate::uuids::{hyphenated, hyphenated_form_reads_back, uuid_of_text};
use vstd::prelude::*;

verus! {

/// Whether a text is a number in decimal that does not begin with a zero for
/// nothing.
pub open spec fn tells(text: Seq<char>, n: int) -> bool {
    &&& is_number(text)
    &&& number(text) == n
    &&& text[0] == '0' ==> text.len() == 1
}

/// The report tells how large the area is behind its first page, in KiB and in
/// bytes, then the label, or that there is none, and at the end the UUID, all of
/// which can be read off it. The three parts that are not fixed are handed back.
pub proof fn reports_tell_size_label_and_uuid(
    request: Request,
    pagesize: usize,
    pages: u32,
) -> (parts: (Seq<char>, Seq<char>, Seq<char>))
    requires
        pages >= 1,
    ensures
        ({
            let (kib, bytes, uuid) = parts;
            let label = if request.label@.len() == 0 {
                "no label"@
            } else {
                "LABEL="@ + request.label@
            };
            &&& request.report_text(pagesize, pages) == "Setting up swapspace version 1, size = "@
                + kib + " KiB ("@ + bytes + " bytes)\n"@ + label + ", UUID="@ + uuid
            &&& tells(kib, (pages - 1) * (pagesize as int / 1024))
            &&& tells(bytes, (pages - 1) * pagesize)
            &&& uuid.len() == 36
            &&& uuid_of_text(uuid) == Some(request.uuid@)
        }),
{
    assert((pages - 1) * (pagesize as int / 1024) >= 0 && (pages - 1) * pagesize >= 0)
        by (nonlinear_arith)
        requires
            pages >= 1,
            pagesize >= 0,
            pagesize as int / 1024 >= 0,
    ;
    let kib = decimal_digits(((pages - 1) * (pagesize / 1024)) as nat);
    let bytes = decimal_digits(((pages - 1) * pagesize) as nat);
    let uuid = hyphenated(request.uuid@);
    decimals_read_back(((pages - 1) * (pagesize / 1024)) as nat);
    decimals_read_back(((pages - 1) * pagesize) as nat);
    hyphenated_form_reads_back(request.uuid@);
    let head = "Setting up swapspace version 1, size = "@ + kib + " KiB ("@ + bytes
        + " bytes)\n"@;
    if request.label@.len() == 0 {
        assert(head + "no label"@ + request.label@ =~= head + "no label"@);
    } else {
        assert(head + "LABEL="@ + request.label@ =~= head + ("LABEL="@ + request.label@));
    }
    (kib, bytes, uuid)
}

/// The words for what is wrong with an area tell the bound that was not kept, or the
/// number that was not enough, as it is. The number is handed back.
pub proof fn area_errors_tell_the_bound(e: MkswapError) -> (told: Seq<char>)
    ensures
        match e {
            MkswapError::TooLongLabel => {
                &&& e.text() == "Label is too long, maximum size is "@ + told + " characters"@
                &&& tells(told, 16)
            },
            MkswapError::TooFewPages { pages } => {
                &&& e.text() == "Too few pages for a swap area ("@ + told + "), minimum is "@
                    + seq!['1', '0']
                &&& tells(told, pages as int)
            },
            MkswapError::MaxBadPagesExceeded { max_badpages } => {
                &&& e.text() == "Too many bad pages: "@ + told
                &&& tells(told, max_badpages as int)
            },
            MkswapError::SwapAreaTooSmall { min_swapsize } => {
                &&& e.text() == "error: swap area needs to be at least "@ + told + " KiB"@
                &&& tells(told, min_swapsize as int / 1024)
            },
        },
{
    let n: nat = match e {
        MkswapError::TooLongLabel => 16,
        MkswapError::TooFewPages { pages } => pages as nat,
        MkswapError::MaxBadPagesExceeded { max_badpages } => max_badpages as nat,
        MkswapError::SwapAreaTooSmall { min_swapsize } => min_swapsize as nat / 1024,
    };
    decimals_read_back(n);
    reveal_with_fuel(decimal_digits, 3);
    assert(decimal_digits(10) =~= seq!['1', '0']);
    decimal_digits(n)
}

/// The words for why a run ends hold what the user gave, what the device is called
/// and what the machine said, letter for letter, and numbers as they are. The
/// number, where there is one, is handed back.
pub proof fn errors_tell_their_cause(e: SetupError) -> (told: Seq<char>)
    ensures
        match e {
            SetupError::NoDevice { util_name } => e.text()
                == "error: Nowhere to set up swap on?\nTry '"@ + util_name@
                + " --help' for more information."@,
            SetupError::InvalidEndianness { name } => e.text() == "invalid endianness "@ + name@
                + " is not supported"@,
            SetupError::InvalidUuid { text, reason } => e.text() == "Invalid UUID '"@ + text@
                + "': "@ + reason@,
            SetupError::PageSizeUnknown => e.text()
                == "Failed to determine page size, please check your system configuration"@,
            SetupError::PageSizeTooLarge => {
                &&& e.text() == "Page size too large, max page size: "@ + told
                &&& tells(told, usize::MAX as int)
            },
            SetupError::BadPageSize { pagesize } => {
                &&& e.text() == "Bad user-specified page size "@ + told
                &&& tells(told, pagesize as int)
            },
            SetupError::Area(area) => e.text() == area.text(),
            SetupError::AreaTooLarge { max_gib } => {
                &&& e.text() == "error: swap area is too large: max size is "@ + told + " GiB"@
                &&& tells(told, max_gib as int)
            },
            SetupError::CannotOpen { path, reason } => e.text() == "cannot open "@ + path@ + ": "@
                + reason@,
            SetupError::FallocateFailed { util_name, path, reason } => e.text() == util_name@
                + ": "@ + path@ + ": Fallocate failed: "@ + reason@,
            SetupError::EmptySizeFile { devname } => e.text()
                == "empty size file for block device "@ + devname@,
            SetupError::InvalidSize { devname, reason } => e.text()
                == "Invalid size value for block device "@ + devname@ + ": "@ + reason@,
            SetupError::SizeUnknown => e.text() == "Unable to determine size of block device"@,
            SetupError::Io { reason } => e.text() == reason@,
        },
{
    let n: nat = match e {
        SetupError::PageSizeTooLarge => usize::MAX as nat,
        SetupError::BadPageSize { pagesize } => pagesize as nat,
        SetupError::AreaTooLarge { max_gib } => max_gib as nat,
        _ => 0,
    };
    decimals_read_back(n);
    decimal_digits(n)
}

/// The notes hold the numbers, the names and the path that they are about. The
/// numbers are handed back.
pub proof fn notes_tell_what_they_are_about(note: Note) -> (told: (Seq<char>, Seq<char>))
    ensures
        match note {
            Note::OtherPageSize { user, system } => {
                &&& note.text() == "Using user-specified page size "@ + told.0
                    + ", instead of the system value "@ + told.1
                &&& tells(told.0, user as int)
                &&& tells(told.1, system as int)
            },
            Note::InsecureOwner { util_name, devname, uid, path } => {
                &&& note.text() == util_name@ + ": "@ + devname@ + ": insecure file owner "@
                    + told.0 + ", fix with: chown 0:0 "@ + path@
                &&& tells(told.0, uid as int)
            },
            Note::BadPage { page } => {
                &&& note.text() == "bad page at index "@ + told.0
                &&& tells(told.0, page as int)
            },
        },
{
    let (m, n): (nat, nat) = match note {
        Note::OtherPageSize { user, system } => (user as nat, system as nat),
        Note::InsecureOwner { uid, .. } => (uid as nat, 0),
        Note::BadPage { page } => (page as nat, 0),
    };
    decimals_read_back(m);
    decimals_read_back(n);
    (decimal_digits(m), decimal_digits(n))
}

} // verus!
