//! How large the swap area is and what is written into it.

use crate::error::{MkswapError, SetupError};
use crate::header::{
    page_error, page_image, signature_page, BOOTBITS_SIZE, MIN_HEADER_PAGE, MIN_SWAP_PAGES,
};
use crate::request::Request;
use crate::text::{decimal, decimal_digits};
use crate::uuids::{hyphenated, uuid_text};
use vstd::prelude::*;
use vstd::utf8::encode_utf8;

verus! {

/// The least size of a swap area, as far as sizes can be told.
pub open spec fn least_size(pagesize: usize) -> u64 {
    if MIN_SWAP_PAGES * pagesize <= u64::MAX {
        (MIN_SWAP_PAGES * pagesize) as u64
    } else {
        u64::MAX
    }
}

/// Computes the least size of a swap area.
pub fn min_swapsize(pagesize: usize) -> (min: u64)
    ensures
        min == least_size(pagesize),
{
    match (MIN_SWAP_PAGES as u64).checked_mul(pagesize as u64) {
        Some(min) => min,
        None => u64::MAX,
    }
}

/// Whether the smallest area that begins at `offset` ends where positions can
/// be told, be there a device or not.
pub open spec fn least_area_can_be_told(offset: u64, pagesize: usize) -> bool {
    offset + MIN_SWAP_PAGES * pagesize <= u64::MAX
}

/// How many pages the area has that begins at `offset` on a device of the given
/// size, or why there is no area. It is made of all the whole pages that there
/// are. Where they are too few, force makes it the smallest area all the same,
/// which is then larger than the device.
pub open spec fn pages_of(devsize: u64, offset: u64, pagesize: usize, force: bool) -> Result<
    u32,
    SetupError,
> {
    let swapsize = devsize - offset;
    if swapsize < least_size(pagesize) {
        if force && least_area_can_be_told(offset, pagesize) {
            Ok(MIN_SWAP_PAGES)
        } else {
            Err(
                SetupError::Area(
                    MkswapError::SwapAreaTooSmall { min_swapsize: least_size(pagesize) },
                ),
            )
        }
    } else if swapsize / pagesize as int > u32::MAX {
        Err(SetupError::AreaTooLarge { max_gib: (u32::MAX * pagesize / 0x4000_0000) as u64 })
    } else {
        Ok((swapsize / pagesize as int) as u32)
    }
}

/// Tells whether the smallest area ends where positions can be told.
fn least_area_fits(offset: u64, pagesize: usize) -> (r: bool)
    ensures
        r == least_area_can_be_told(offset, pagesize),
{
    match (MIN_SWAP_PAGES as u64).checked_mul(pagesize as u64) {
        Some(size) => offset <= u64::MAX - size,
        None => false,
    }
}

/// Counts the pages of the area.
pub fn count_pages(devsize: u64, offset: u64, pagesize: usize, force: bool) -> (r: Result<
    u32,
    SetupError,
>)
    requires
        pagesize > 0,
    ensures
        r == pages_of(devsize, offset, pagesize, force),
        r matches Ok(pages) ==> {
            &&& pages >= 1
            &&& offset + pages * pagesize <= u64::MAX
            &&& offset + pagesize <= u64::MAX
            &&& !force ==> offset + pages * pagesize <= devsize
            &&& !force ==> offset + pagesize <= devsize
        },
{
    let min: u64 = min_swapsize(pagesize);
    let swapsize: u64 = devsize.saturating_sub(offset);
    if swapsize < min {
        if force && least_area_fits(offset, pagesize) {
            return Ok(MIN_SWAP_PAGES);
        }
        return Err(SetupError::Area(MkswapError::SwapAreaTooSmall { min_swapsize: min }));
    }
    let pages: u64 = (devsize - offset) / pagesize as u64;
    assert(pages * pagesize <= devsize - offset) by {
        vstd::arithmetic::div_mod::lemma_fundamental_div_mod(devsize - offset, pagesize as int);
        vstd::arithmetic::mul::lemma_mul_is_commutative(pages as int, pagesize as int);
    }
    if pages > u32::MAX as u64 {
        assert(u32::MAX * pagesize <= pages * pagesize) by (nonlinear_arith)
            requires
                u32::MAX <= pages,
                pagesize >= 0,
        ;
        return Err(
            SetupError::AreaTooLarge { max_gib: u32::MAX as u64 * pagesize as u64 / 0x4000_0000 },
        );
    }
    assert(pages >= 1) by (nonlinear_arith)
        requires
            pages == (devsize - offset) / pagesize as int,
            devsize - offset >= pagesize,
            pagesize > 0,
    ;
    Ok(pages as u32)
}

/// What is written to the device: the bytes, and where the first of them goes.
#[derive(Debug)]
pub struct Write {
    pub position: u64,
    pub bytes: Vec<u8>,
}

impl Request {
    /// The first page of the area.
    pub open spec fn first_page(self, pagesize: usize, pages: u32, badpages: Seq<u32>) -> Seq<u8> {
        page_image(
            self.endianness.on_disk(self.host),
            encode_utf8(self.label@),
            self.uuid@,
            pages,
            badpages,
            pagesize as nat,
        )
    }

    /// Makes what has to be written: the first page, without the bytes at its
    /// start that are left to a boot loader.
    pub fn area_write(&self, pagesize: usize, pages: u32, badpages: &[u32]) -> (r: Result<
        Write,
        SetupError,
    >)
        requires
            pagesize >= MIN_HEADER_PAGE,
            self.offset + BOOTBITS_SIZE <= u64::MAX,
        ensures
            match r {
                Ok(write) => {
                    &&& page_error(
                        encode_utf8(self.label@),
                        pages,
                        badpages@,
                        pagesize as nat,
                    ) is None
                    &&& write.position == self.offset + BOOTBITS_SIZE
                    &&& write.bytes@ == self.first_page(pagesize, pages, badpages@).skip(
                        BOOTBITS_SIZE as int,
                    )
                    &&& write.bytes@.len() == pagesize - BOOTBITS_SIZE
                },
                Err(e) => {
                    &&& page_error(
                        encode_utf8(self.label@),
                        pages,
                        badpages@,
                        pagesize as nat,
                    ) is Some
                    &&& e == SetupError::Area(
                        page_error(encode_utf8(self.label@), pages, badpages@, pagesize as nat)->0,
                    )
                },
            },
    {
        match signature_page(
            self.host,
            self.endianness,
            self.label.as_str(),
            self.uuid,
            pages,
            badpages,
            pagesize,
        ) {
            Ok(page) => {
                let mut page = page;
                let bytes = page.split_off(BOOTBITS_SIZE);
                Ok(Write { position: self.offset + BOOTBITS_SIZE as u64, bytes })
            },
            Err(e) => Err(SetupError::Area(e)),
        }
    }

    /// What the user reads once the area is set up.
    pub open spec fn report_text(self, pagesize: usize, pages: u32) -> Seq<char> {
        "Setting up swapspace version 1, size = "@ + decimal_digits(
            ((pages - 1) * (pagesize / 1024)) as nat,
        ) + " KiB ("@ + decimal_digits(((pages - 1) * pagesize) as nat) + " bytes)\n"@ + (
        if self.label@.len() == 0 {
            "no label"@
        } else {
            "LABEL="@
        }) + self.label@ + ", UUID="@ + hyphenated(self.uuid@)
    }

    /// Tells the user what has been set up.
    pub fn report(&self, pagesize: usize, pages: u32) -> (report: String)
        requires
            pages >= 1,
            pages * pagesize <= u64::MAX,
        ensures
            report@ == self.report_text(pagesize, pages),
    {
        proof {
            assert((pages - 1) * (pagesize / 1024) <= (pages - 1) * pagesize <= pages * pagesize)
                by (nonlinear_arith)
                requires
                    pages >= 1,
                    pagesize / 1024 <= pagesize,
                    pagesize >= 0,
            ;
        }
        let mut report = "Setting up swapspace version 1, size = ".to_owned();
        report.append(decimal((pages - 1) as u64 * (pagesize / 1024) as u64).as_str());
        report.append(" KiB (");
        report.append(decimal((pages - 1) as u64 * pagesize as u64).as_str());
        report.append(" bytes)\n");
        if self.label.as_str().is_empty() {
            report.append("no label");
        } else {
            report.append("LABEL=");
        }
        report.append(self.label.as_str());
        report.append(", UUID=");
        report.append(uuid_text(self.uuid).as_str());
        report
    }
}

/// An area has all the whole pages behind its offset and ends inside the device.
/// Where there are fewer than ten, or fewer bytes than can be told, there is none
/// unless it is forced and has ten pages then; where there are more than can be
/// counted, there is none either. There is no other cause.
pub proof fn areas_have_all_whole_pages(devsize: u64, offset: u64, pagesize: usize, force: bool)
    requires
        pagesize > 0,
    ensures
        ({
            let min = if 10 * pagesize <= u64::MAX {
                10 * pagesize
            } else {
                u64::MAX as int
            };
            let forced = force && offset + 10 * pagesize <= u64::MAX;
            match pages_of(devsize, offset, pagesize, force) {
                Ok(pages) => {
                    ||| {
                        &&& offset + min <= devsize
                        &&& offset + pages * pagesize <= devsize < offset + (pages + 1) * pagesize
                    }
                    ||| devsize < offset + min && forced && pages == 10
                },
                Err(SetupError::Area(MkswapError::SwapAreaTooSmall { min_swapsize })) => {
                    &&& devsize < offset + min
                    &&& !forced
                    &&& min_swapsize == min
                },
                Err(SetupError::AreaTooLarge { max_gib }) => {
                    &&& offset + 0x1_0000_0000 * pagesize <= devsize
                    &&& max_gib * 0x4000_0000 <= 0xffff_ffff * pagesize < (max_gib + 1)
                        * 0x4000_0000
                },
                Err(_) => false,
            }
        }),
{
    let size = devsize - offset;
    if size >= least_size(pagesize) {
        vstd::arithmetic::div_mod::lemma_fundamental_div_mod(size, pagesize as int);
        vstd::arithmetic::div_mod::lemma_mod_bound(size, pagesize as int);
        let pages = size / pagesize as int;
        assert(pages * pagesize <= size < (pages + 1) * pagesize) by (nonlinear_arith)
            requires
                size == pagesize * pages + size % pagesize as int,
                0 <= size % (pagesize as int) < pagesize,
        ;
        if pages > u32::MAX {
            assert(0x1_0000_0000 * pagesize <= pages * pagesize) by (nonlinear_arith)
                requires
                    0x1_0000_0000 <= pages,
                    pagesize > 0,
            ;
        }
    }
}

} // verus!
