use vstd::prelude::*;
use crate::error::{Error, ErrorKind};
use crate::text::push_char;

verus! {

/// How many records one request for a page of a collection asks for: the
/// remote service's maximum.
pub const PAGE_SIZE: u32 = 100;

/// The texts of some strings.
pub open spec fn texts(v: Seq<String>) -> Seq<Seq<char>> {
    v.map_values(|s: String| s@)
}

/// The smaller of two numbers.
pub open spec fn at_most(a: int, b: int) -> int {
    if a < b {
        a
    } else {
        b
    }
}

/// The items of `seen` after the first `offset`, at most `limit` of them.
pub open spec fn window_of(seen: Seq<Seq<char>>, offset: int, limit: int) -> Seq<Seq<char>> {
    seen.subrange(at_most(offset, seen.len() as int), at_most(offset + limit, seen.len() as int))
}

/// Whether a window has kept as many identifiers as it may.
pub open spec fn holds_limit(mode: ListingMode, kept: nat) -> bool {
    match mode {
        ListingMode::All => false,
        ListingMode::Window { limit, .. } => kept == limit,
    }
}

/// Which identifiers a listing keeps.
#[derive(Clone, Copy, Debug, PartialEq, Eq, Structural)]
pub enum ListingMode {
    /// Every identifier of the collection.
    All,
    /// Skips `offset` identifiers, then keeps up to `limit`; stops requesting
    /// pages once `limit` are kept.
    Window { offset: usize, limit: usize },
}

/// The state of a listing of a collection that the remote service hands out
/// page by page, each page with a cursor to the next one. The caller asks
/// `next_cursor` for what to request, requests that page, and passes it to
/// `accept_page`, until `is_finished`.
pub struct PaginatedLister {
    mode: ListingMode,
    ids: Vec<String>,
    visited: usize,
    skipped: usize,
    cursor: Option<String>,
    finished: bool,
    seen: Ghost<Seq<Seq<char>>>,
}

impl PaginatedLister {
    /// Every identifier visited so far, in the order the pages gave them.
    pub closed spec fn seen(&self) -> Seq<Seq<char>> {
        self.seen@
    }

    pub closed spec fn spec_mode(&self) -> ListingMode {
        self.mode
    }

    pub closed spec fn spec_ids(&self) -> Seq<Seq<char>> {
        texts(self.ids@)
    }

    pub closed spec fn spec_finished(&self) -> bool {
        self.finished
    }

    pub closed spec fn spec_cursor(&self) -> Option<Seq<char>> {
        match self.cursor {
            Some(c) => Some(c@),
            None => None,
        }
    }

    /// The identifiers that the mode keeps of what was seen.
    pub open spec fn kept(mode: ListingMode, seen: Seq<Seq<char>>) -> Seq<Seq<char>> {
        match mode {
            ListingMode::All => seen,
            ListingMode::Window { offset, limit } => window_of(seen, offset as int, limit as int),
        }
    }

    pub open spec fn wf(&self) -> bool {
        &&& self.spec_ids() == Self::kept(self.spec_mode(), self.seen())
        &&& self.spec_mode() matches ListingMode::Window { limit, .. } ==> limit > 0
        &&& self.inner_wf()
    }

    pub closed spec fn inner_wf(&self) -> bool {
        &&& self.visited == self.seen@.len()
        &&& self.skipped == match self.mode {
            ListingMode::All => 0,
            ListingMode::Window { offset, .. } => at_most(offset as int, self.seen@.len() as int),
        }
        &&& self.finished ==> self.cursor is None
    }

    fn start(mode: ListingMode) -> (r: PaginatedLister)
        requires
            mode matches ListingMode::Window { limit, .. } ==> limit > 0,
        ensures
            r.wf(),
            r.spec_mode() == mode,
            r.seen() == Seq::<Seq<char>>::empty(),
            !r.spec_finished(),
            r.spec_cursor() is None,
    {
        let r = PaginatedLister {
            mode,
            ids: Vec::new(),
            visited: 0,
            skipped: 0,
            cursor: None,
            finished: false,
            seen: Ghost(Seq::empty()),
        };
        assert(r.spec_ids() =~= Self::kept(mode, Seq::empty()));
        r
    }

    /// A listing that keeps every identifier.
    pub fn all() -> (r: PaginatedLister)
        ensures
            r.wf(),
            r.spec_mode() == ListingMode::All,
            r.seen() == Seq::<Seq<char>>::empty(),
            !r.spec_finished(),
            r.spec_cursor() is None,
    {
        Self::start(ListingMode::All)
    }

    /// A listing that skips `offset` identifiers and keeps up to `limit`; a
    /// limit of zero is invalid input.
    pub fn window(offset: usize, limit: usize) -> (r: Result<PaginatedLister, Error>)
        ensures
            r is Err <==> limit == 0,
            r matches Err(e) ==> e.kind == ErrorKind::InvalidInput,
            r matches Ok(l) ==> {
                &&& l.wf()
                &&& l.spec_mode() == (ListingMode::Window { offset, limit })
                &&& l.seen() == Seq::<Seq<char>>::empty()
                &&& !l.spec_finished()
                &&& l.spec_cursor() is None
            },
    {
        if limit == 0 {
            Err(Error::new(ErrorKind::InvalidInput, "limit must be positive"))
        } else {
            Ok(Self::start(ListingMode::Window { offset, limit }))
        }
    }

    /// Whether no further page is to be requested.
    pub fn is_finished(&self) -> (r: bool)
        ensures
            r == self.spec_finished(),
    {
        self.finished
    }

    /// The cursor to request the next page with; `None` asks for the first page.
    pub fn next_cursor(&self) -> (r: Option<String>)
        ensures
            match r {
                Some(c) => self.spec_cursor() == Some(c@),
                None => self.spec_cursor() is None,
            },
    {
        match &self.cursor {
            Some(c) => Some(c.clone()),
            None => None,
        }
    }

    /// The number of identifiers visited, kept or not: every identifier of
    /// every page taken in, also those after a window filled up.
    pub fn visited(&self) -> (r: usize)
        requires
            self.wf(),
        ensures
            r == self.seen().len(),
    {
        self.visited
    }

    /// The identifiers kept so far.
    pub fn ids(&self) -> (r: &Vec<String>)
        ensures
            texts(r@) == self.spec_ids(),
    {
        &self.ids
    }

    /// The identifiers kept, ending the listing.
    pub fn into_ids(self) -> (r: Vec<String>)
        ensures
            texts(r@) == self.spec_ids(),
    {
        self.ids
    }

    /// Takes in one page: its identifiers in order, and the cursor to the page
    /// after it, `None` when it is the last. The listing is finished after the
    /// last page, or once a window holds `limit` identifiers.
    pub fn accept_page(&mut self, page: Vec<String>, next: Option<String>)
        requires
            old(self).wf(),
            !old(self).spec_finished(),
            old(self).seen().len() + page@.len() <= usize::MAX,
        ensures
            final(self).wf(),
            final(self).spec_mode() == old(self).spec_mode(),
            final(self).seen() == old(self).seen() + texts(page@),
            final(self).spec_finished() == (next is None || holds_limit(
                final(self).spec_mode(),
                final(self).spec_ids().len(),
            )),
            !final(self).spec_finished() ==> final(self).spec_cursor() == Some(next->0@),
    {
        let ghost seen0 = self.seen@;
        let mut i: usize = 0;
        while i < page.len()
            invariant
                self.wf(),
                !self.finished,
                self.mode == old(self).mode,
                seen0 == old(self).seen(),
                i <= page@.len(),
                seen0.len() + page@.len() <= usize::MAX,
                self.seen@ == seen0 + texts(page@.subrange(0, i as int)),
            decreases page@.len() - i,
        {
            let ghost before = self.seen@;
            let id = page[i].clone();
            proof {
                self.seen@ = before.push(id@);
            }
            self.visited = self.visited + 1;
            match self.mode {
                ListingMode::All => {
                    self.ids.push(id);
                    assert(texts(self.ids@) =~= self.seen@);
                },
                ListingMode::Window { offset, limit } => {
                    if self.skipped < offset {
                        self.skipped = self.skipped + 1;
                        assert(texts(self.ids@) =~= window_of(self.seen@, offset as int, limit as int));
                    } else if self.ids.len() < limit {
                        let ghost w = window_of(before, offset as int, limit as int);
                        assert(texts(self.ids@).len() == self.ids@.len());
                        assert(w.len() == self.ids@.len());
                        assert(w =~= before.subrange(offset as int, before.len() as int));
                        let ghost idv = id@;
                        let ghost kept = texts(self.ids@);
                        self.ids.push(id);
                        assert(texts(self.ids@) =~= kept.push(idv));
                        assert(window_of(self.seen@, offset as int, limit as int) =~= w.push(idv));
                    } else {
                        assert(texts(self.ids@) =~= window_of(self.seen@, offset as int, limit as int));
                    }
                },
            }
            assert(texts(page@.subrange(0, i + 1)) =~= texts(page@.subrange(0, i as int)).push(id@));
            i = i + 1;
        }
        assert(page@.subrange(0, page@.len() as int) =~= page@);
        let full = match self.mode {
            ListingMode::All => false,
            ListingMode::Window { limit, .. } => self.ids.len() == limit,
        };
        if next.is_none() || full {
            self.cursor = None;
            self.finished = true;
        } else {
            self.cursor = next;
        }
    }
}

/// A listing of the whole collection keeps every identifier it visited, once
/// each and in the order the pages gave them, however many pages there were;
/// a window keeps the visited identifiers after the offset, at most `limit`.
pub proof fn lemma_listing_keeps_what_it_visited(l: &PaginatedLister)
    requires
        l.wf(),
    ensures
        l.spec_mode() == ListingMode::All ==> l.spec_ids() == l.seen(),
        l.spec_mode() matches ListingMode::Window { offset, limit } ==> {
            &&& l.spec_ids() == window_of(l.seen(), offset as int, limit as int)
            &&& l.spec_ids().len() <= limit
        },
{
}

/// The name of a listed entry: the identifier with the `.md` suffix.
pub open spec fn entry_name(id: Seq<char>) -> Seq<char> {
    id + seq!['.', 'm', 'd']
}

/// Hands out the entries of a finished listing one at a time, in order.
#[derive(Debug)]
pub struct NotionLister {
    pages: Vec<String>,
    idx: usize,
}

impl NotionLister {
    /// The identifiers not yet handed out.
    pub closed spec fn remaining(&self) -> Seq<Seq<char>> {
        texts(self.pages@).subrange(at_most(self.idx as int, self.pages@.len() as int), self.pages@.len() as int)
    }

    /// A lister over `pages`, from the first.
    pub fn new(pages: Vec<String>) -> (r: NotionLister)
        ensures
            r.remaining() == texts(pages@),
    {
        let r = NotionLister { pages, idx: 0 };
        assert(r.remaining() =~= texts(r.pages@));
        r
    }

    /// The name of the next entry, or `None` when all have been handed out.
    pub fn next(&mut self) -> (r: Option<String>)
        ensures
            old(self).remaining().len() == 0 ==> r is None && final(self).remaining().len() == 0,
            old(self).remaining().len() > 0 ==> {
                &&& r matches Some(name) && name@ == entry_name(old(self).remaining()[0])
                &&& final(self).remaining() == old(self).remaining().drop_first()
            },
    {
        if self.idx >= self.pages.len() {
            return None;
        }
        let mut name = self.pages[self.idx].clone();
        let ghost id = name@;
        push_char(&mut name, '.');
        push_char(&mut name, 'm');
        push_char(&mut name, 'd');
        assert(name@ =~= entry_name(id));
        self.idx = self.idx + 1;
        assert(final(self).remaining() =~= old(self).remaining().drop_first());
        Some(name)
    }
}

} // verus!
