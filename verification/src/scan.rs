//! Looking for pages that cannot be read.

use crate::error::Note;
use vstd::prelude::*;

verus! {

/// The pages that a scan lists, given for each page from the second on whether
/// it could be read.
pub open spec fn unreadable(outcomes: Seq<bool>) -> Seq<u32>
    decreases outcomes.len(),
{
    if outcomes.len() == 0 {
        Seq::empty()
    } else if outcomes.last() {
        unreadable(outcomes.drop_last())
    } else {
        unreadable(outcomes.drop_last()).push(outcomes.len() as u32)
    }
}

/// A scan of a swap area, page by page. The first page is not read: it will be
/// written.
#[derive(Debug)]
pub struct PageScan {
    pub pagesize: usize,
    /// How many pages the area has.
    pub pages: u32,
    /// Where the area begins.
    pub offset: u64,
    /// The page that is read next.
    pub page: u32,
    /// The pages that could not be read so far.
    pub badpages: Vec<u32>,
}

impl PageScan {
    /// Whether the area ends where positions can be told and the scan is
    /// somewhere in it.
    pub open spec fn wf(self) -> bool {
        &&& self.offset + self.pages * self.pagesize <= u64::MAX
        &&& self.page >= 1
        &&& self.page <= self.pages || self.page == 1
        &&& self.badpages@.len() < self.page
    }

    /// Whether all pages have been read.
    pub open spec fn is_over(self) -> bool {
        self.page >= self.pages
    }

    /// Begins a scan.
    pub fn new(pagesize: usize, pages: u32, offset: u64) -> (scan: PageScan)
        requires
            offset + pages * pagesize <= u64::MAX,
        ensures
            scan.wf(),
            scan.pagesize == pagesize,
            scan.pages == pages,
            scan.offset == offset,
            scan.page == 1,
            scan.badpages@ == unreadable(Seq::empty()),
    {
        PageScan { pagesize, pages, offset, page: 1, badpages: Vec::new() }
    }

    /// Where the page that is read next begins, until the scan is over.
    pub fn position(&self) -> (r: Option<u64>)
        requires
            self.wf(),
        ensures
            match r {
                Some(position) => !self.is_over() && position == self.offset + self.page
                    * self.pagesize,
                None => self.is_over(),
            },
    {
        if self.page >= self.pages {
            return None;
        }
        assert(self.page * self.pagesize <= self.pages * self.pagesize) by (nonlinear_arith)
            requires
                self.page <= self.pages,
                self.pagesize >= 0,
        ;
        Some(self.offset + self.page as u64 * self.pagesize as u64)
    }

    /// Takes in whether the page could be read, and goes on to the next.
    pub fn record(&mut self, readable: bool, verbose: bool) -> (note: Option<Note>)
        requires
            old(self).wf(),
            !old(self).is_over(),
        ensures
            final(self).wf(),
            final(self).pagesize == old(self).pagesize,
            final(self).pages == old(self).pages,
            final(self).offset == old(self).offset,
            final(self).page == old(self).page + 1,
            final(self).badpages@ == if readable {
                old(self).badpages@
            } else {
                old(self).badpages@.push(old(self).page)
            },
            note == if !readable && verbose {
                Some(Note::BadPage { page: old(self).page })
            } else {
                None
            },
    {
        let page: u32 = self.page;
        self.page = page + 1;
        if readable {
            return None;
        }
        self.badpages.push(page);
        if verbose {
            Some(Note::BadPage { page })
        } else {
            None
        }
    }
}

/// A scan that has listed the unreadable ones among the pages read so far does
/// so again after the next page.
pub proof fn scans_list_what_they_could_not_read(
    before: PageScan,
    after: PageScan,
    outcomes: Seq<bool>,
    readable: bool,
)
    requires
        before.badpages@ == unreadable(outcomes),
        before.page == outcomes.len() + 1,
        after.page == before.page + 1,
        after.badpages@ == if readable {
            before.badpages@
        } else {
            before.badpages@.push(before.page)
        },
    ensures
        after.badpages@ == unreadable(outcomes.push(readable)),
        after.page == outcomes.push(readable).len() + 1,
{
    assert(outcomes.push(readable).drop_last() =~= outcomes);
}

/// The list of a scan has exactly the pages that could not be read, each once
/// and in ascending order.
pub proof fn unreadable_pages_are_listed_once_in_order(outcomes: Seq<bool>)
    requires
        outcomes.len() < u32::MAX,
    ensures
        forall|page: u32|
            unreadable(outcomes).contains(page) <==> 1 <= page <= outcomes.len()
                && !outcomes[page - 1],
        forall|i: int, j: int|
            0 <= i < j < unreadable(outcomes).len() ==> unreadable(outcomes)[i] < unreadable(
                outcomes,
            )[j],
        unreadable(outcomes).len() <= outcomes.len(),
    decreases outcomes.len(),
{
    if outcomes.len() > 0 {
        let prior = outcomes.drop_last();
        unreadable_pages_are_listed_once_in_order(prior);
        let last = outcomes.len() as u32;
        let list = unreadable(outcomes);
        let old_list = unreadable(prior);
        if !outcomes.last() {
            assert(list == old_list.push(last));
            assert forall|i: int| 0 <= i < old_list.len() implies old_list[i] < last by {
                assert(old_list.contains(old_list[i]));
            }
            assert forall|page: u32| list.contains(page) <==> old_list.contains(page) || page
                == last by {
                if list.contains(page) {
                    let i = list.index_of(page);
                    if i < old_list.len() {
                        assert(old_list[i] == page);
                    }
                }
                if old_list.contains(page) {
                    let i = old_list.index_of(page);
                    assert(list[i] == page);
                }
                if page == last {
                    assert(list[old_list.len() as int] == page);
                }
            }
        }
        assert forall|page: u32|
            list.contains(page) <==> 1 <= page <= outcomes.len() && !outcomes[page - 1] by {
            if 1 <= page <= prior.len() {
                assert(prior[page - 1] == outcomes[page - 1]);
            }
        }
    }
}

/// A scan that stops earlier lists a beginning of what it would have listed.
pub proof fn shorter_scans_list_a_beginning(outcomes: Seq<bool>, len: nat)
    requires
        len <= outcomes.len(),
    ensures
        unreadable(outcomes.take(len as int)).is_prefix_of(unreadable(outcomes)),
    decreases outcomes.len(),
{
    if len == outcomes.len() {
        assert(outcomes.take(len as int) =~= outcomes);
    } else {
        let prior = outcomes.drop_last();
        shorter_scans_list_a_beginning(prior, len);
        assert(prior.take(len as int) =~= outcomes.take(len as int));
    }
}

} // verus!
