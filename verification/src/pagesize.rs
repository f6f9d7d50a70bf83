//! Which page size the swap area has.

use crate::error::{Note, SetupError};
use crate::header::{SWAP_HEADER_SIZE, SWAP_SIGNATURE_SZ};
use vstd::arithmetic::power2::is_pow2;
use vstd::prelude::*;

verus! {

/// The page size of a system, given its answers to the two names that the page
/// size goes by. The second answer counts where the first tells nothing.
pub open spec fn system_pagesize(pagesize: i64, page_size: i64) -> Result<usize, SetupError> {
    let answer = if pagesize > 0 {
        pagesize
    } else {
        page_size
    };
    if answer <= 0 {
        Err(SetupError::PageSizeUnknown)
    } else if answer > usize::MAX {
        Err(SetupError::PageSizeTooLarge)
    } else {
        Ok(answer as usize)
    }
}

/// Finds the page size of the system in its two answers.
pub fn getpagesize(pagesize: i64, page_size: i64) -> (r: Result<usize, SetupError>)
    ensures
        r == system_pagesize(pagesize, page_size),
{
    let mut sz: i64 = pagesize;
    if sz <= 0 {
        sz = page_size;
    }
    if sz <= 0 {
        Err(SetupError::PageSizeUnknown)
    } else if sz as u64 > usize::MAX as u64 {
        Err(SetupError::PageSizeTooLarge)
    } else {
        Ok(sz as usize)
    }
}

fn is_power_of_two(n: usize) -> (r: bool)
    ensures
        r == is_pow2(n as int),
    decreases n,
{
    reveal(is_pow2);
    if n == 0 {
        false
    } else if n == 1 {
        true
    } else {
        n % 2 == 0 && is_power_of_two(n / 2)
    }
}

/// Whether a user may choose a page size: it is a power of two, and the header
/// and the signature leave some of the page over.
pub open spec fn is_usable(pagesize: usize) -> bool {
    pagesize > SWAP_HEADER_SIZE + SWAP_SIGNATURE_SZ && is_pow2(pagesize as int)
}

/// The page size of the area: that of the user, if there is one and it is usable
/// or forced, else that of the system.
pub open spec fn settled_pagesize(requested: Option<usize>, force: bool, system: usize) -> Result<
    (usize, Option<Note>),
    SetupError,
> {
    match requested {
        Some(sz) => if !force && !is_usable(sz) {
            Err(SetupError::BadPageSize { pagesize: sz })
        } else if sz != system {
            Ok((sz, Some(Note::OtherPageSize { user: sz, system })))
        } else {
            Ok((sz, None))
        },
        None => Ok((system, None)),
    }
}

/// Settles the page size of the area.
pub fn choose_pagesize(requested: Option<usize>, force: bool, system: usize) -> (r: Result<
    (usize, Option<Note>),
    SetupError,
>)
    ensures
        r == settled_pagesize(requested, force, system),
{
    match requested {
        Some(sz) => {
            if !force && (sz <= SWAP_HEADER_SIZE + SWAP_SIGNATURE_SZ || !is_power_of_two(sz)) {
                return Err(SetupError::BadPageSize { pagesize: sz });
            }
            if sz != system {
                Ok((sz, Some(Note::OtherPageSize { user: sz, system })))
            } else {
                Ok((sz, None))
            }
        },
        None => Ok((system, None)),
    }
}

/// The page size of the system is its first answer where that is a size, and else
/// its second, whatever the size; where neither is one, it is not known.
pub proof fn either_answer_tells_the_page_size(pagesize: i64, page_size: i64)
    ensures
        match system_pagesize(pagesize, page_size) {
            Ok(sz) => {
                &&& sz > 0
                &&& pagesize > 0 ==> sz == pagesize
                &&& pagesize <= 0 ==> sz == page_size
            },
            Err(SetupError::PageSizeUnknown) => pagesize <= 0 && page_size <= 0,
            Err(SetupError::PageSizeTooLarge) => {
                pagesize > usize::MAX || pagesize <= 0 && page_size > usize::MAX
            },
            Err(_) => false,
        },
{
}

/// The user has the page size that they ask for, or the run ends; and it ends only
/// where the size is not forced and either is no power of two or does not leave
/// more than the 1550 bytes of the header and the signature. The user is told
/// exactly where the size is not that of the system. Who asks for none has the size
/// of the system.
pub proof fn users_have_the_page_size_they_ask_for(
    requested: Option<usize>,
    force: bool,
    system: usize,
)
    ensures
        match settled_pagesize(requested, force, system) {
            Ok((sz, note)) => {
                &&& requested matches Some(user) ==> sz == user
                &&& requested is None ==> sz == system
                &&& note is Some <==> sz != system
                &&& note matches Some(told) ==> told == (Note::OtherPageSize { user: sz, system })
                &&& requested is Some && !force ==> sz > 1550 && is_pow2(sz as int)
            },
            Err(e) => requested matches Some(user) && {
                &&& e == (SetupError::BadPageSize { pagesize: user })
                &&& !force
                &&& user <= 1550 || !is_pow2(user as int)
            },
        },
{
}

} // verus!
