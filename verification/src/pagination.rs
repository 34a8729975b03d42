//! Walking a paginated listing: items are handed out page by page, in the
//! order each page lists them, and the next page is asked for with the
//! cursor the last page gave, until a page is empty and gives no cursor.
//! Fetching a page is the caller's part.
use vstd::prelude::*;

verus! {

/// What to do next while walking a listing.
pub enum PageStep<T> {
    /// Hand out this item.
    Item(T),
    /// Fetch the page at this cursor (the first page for `None`).
    Fetch(Option<String>),
    /// The listing is exhausted.
    Done,
}

/// Progress through a paginated listing.
pub struct PaginationState<T> {
    cursor: Option<String>,
    buffer: Vec<T>,
    finished: bool,
}

pub struct PaginationView<T> {
    pub cursor: Option<Seq<char>>,
    /// Items of the current page not yet handed out, in order.
    pub queue: Seq<T>,
    pub finished: bool,
}

impl<T> View for PaginationState<T> {
    type V = PaginationView<T>;

    closed spec fn view(&self) -> PaginationView<T> {
        PaginationView {
            cursor: match self.cursor {
                Some(c) => Some(c@),
                None => None,
            },
            queue: self.buffer@.reverse(),
            finished: self.finished,
        }
    }
}

pub open spec fn cursor_view(c: Option<String>) -> Option<Seq<char>> {
    match c {
        Some(s) => Some(s@),
        None => None,
    }
}

impl<T> PaginationState<T> {
    /// Starts at the given cursor, nothing fetched yet.
    pub fn new(initial_cursor: Option<String>) -> (r: Self)
        ensures
            r@.cursor == cursor_view(initial_cursor),
            r@.queue.len() == 0,
            !r@.finished,
    {
        let r = PaginationState { cursor: initial_cursor, buffer: Vec::new(), finished: false };
        r
    }

    /// The next item of the current page; else, unless the listing is
    /// exhausted, the page to fetch.
    pub fn next_step(&mut self) -> (r: PageStep<T>)
        ensures
            old(self)@.queue.len() > 0 ==> {
                &&& r matches PageStep::Item(x) && x == old(self)@.queue[0]
                &&& final(self)@ == (PaginationView { queue: old(self)@.queue.drop_first(), ..old(self)@ })
            },
            old(self)@.queue.len() == 0 && old(self)@.finished ==> r is Done && final(self)@ == old(self)@,
            old(self)@.queue.len() == 0 && !old(self)@.finished ==> {
                &&& r matches PageStep::Fetch(c) && cursor_view(c) == old(self)@.cursor
                &&& final(self)@ == old(self)@
            },
    {
        let ghost before = self.buffer@;
        match self.buffer.pop() {
            Some(item) => {
                proof {
                    assert(self.buffer@.reverse() =~= before.reverse().drop_first());
                }
                PageStep::Item(item)
            },
            None => {
                if self.finished {
                    PageStep::Done
                } else {
                    let c: Option<String> = match &self.cursor {
                        Some(s) => Some(s.clone()),
                        None => None,
                    };
                    PageStep::Fetch(c)
                }
            },
        }
    }

    /// Takes in a fetched page: its cursor becomes the current one, its
    /// items are handed out next; an empty page without a cursor ends the
    /// listing.
    pub fn receive_page(&mut self, items: Vec<T>, next_cursor: Option<String>)
        ensures
            final(self)@.cursor == cursor_view(next_cursor),
            items@.len() > 0 ==> final(self)@.queue == items@ && final(self)@.finished == old(self)@.finished,
            items@.len() == 0 ==> {
                &&& final(self)@.queue == old(self)@.queue
                &&& final(self)@.finished == (old(self)@.finished || next_cursor is None)
            },
    {
        self.cursor = next_cursor;
        if items.len() == 0 {
            if self.cursor.is_none() {
                self.finished = true;
            }
            return;
        }
        let ghost initial = items@;
        let mut rest = items;
        let mut reversed: Vec<T> = Vec::new();
        while rest.len() > 0
            invariant
                initial == rest@ + reversed@.reverse(),
            decreases rest.len(),
        {
            let ghost r0 = rest@;
            let ghost v0 = reversed@;
            let x = rest.pop().unwrap();
            reversed.push(x);
        }
        self.buffer = reversed;
    }
}

/// The cursor of a listing that gives an empty text when there is no next
/// page.
pub fn next_cursor(cursor: String) -> (r: Option<String>)
    ensures
        cursor@.len() == 0 ==> r is None,
        cursor@.len() > 0 ==> r == Some(cursor),
{
    if cursor.as_str().is_empty() {
        None
    } else {
        Some(cursor)
    }
}

} // verus!
