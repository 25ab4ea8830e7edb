//! Link records: the per-session mirror of the buffer's anchor table, with
//! identity and lifecycle metadata, and the persisted row shape they are
//! saved as.

use vstd::prelude::*;

verus! {

/// A persisted link row.
#[derive(Debug, Clone, Copy, PartialEq, Eq, Structural)]
pub struct DbNoteLink {
    pub parent_note_id: i64,
    pub textarea_id: i64,
    pub textarea_row: i64,
    pub start_col: i64,
    pub end_col: i64,
    pub linked_note_id: i64,
}

/// A note's id and title, as listed on the load screen.
#[derive(Debug, Clone)]
pub struct NoteIdentifier {
    pub id: i64,
    pub title: String,
}

impl NoteIdentifier {
    /// The note's display text: its title.
    pub fn to_string(&self) -> (r: String)
        ensures
            r@ == self.title@,
    {
        let r = self.title.clone();
        proof {
            assert(r@ == self.title@);
        }
        r
    }
}

/// A live link: identity (parent note, text anchor), target note, the anchor
/// geometry it last saw, and its three lifecycle flags.
#[derive(Debug, Clone, Copy, PartialEq, Eq, Structural)]
pub struct Link {
    pub id: i64,
    pub text_id: i64,
    pub linked_id: i64,
    pub row: usize,
    pub start_col: usize,
    pub end_col: usize,
    /// Persisted at least once.
    pub saved: bool,
    /// Geometry has diverged from the last persisted state.
    pub updated: bool,
    /// The backing text run was removed.
    pub deleted: bool,
}

/// The link's geometry fits the persisted row's signed columns.
pub open spec fn link_geometry_fits(l: Link) -> bool {
    l.row <= i64::MAX && l.start_col <= i64::MAX && l.end_col <= i64::MAX
}

/// The row's geometry is non-negative and fits the in-memory unsigned form.
pub open spec fn row_geometry_fits(r: DbNoteLink) -> bool {
    &&& 0 <= r.textarea_row <= usize::MAX
    &&& 0 <= r.start_col <= usize::MAX
    &&& 0 <= r.end_col <= usize::MAX
}

/// The link a persisted row rehydrates to: same identity and geometry, flags
/// reset to saved, not updated, not deleted.
pub open spec fn link_of_row(r: DbNoteLink) -> Link {
    Link {
        id: r.parent_note_id,
        text_id: r.textarea_id,
        linked_id: r.linked_note_id,
        row: r.textarea_row as usize,
        start_col: r.start_col as usize,
        end_col: r.end_col as usize,
        saved: true,
        updated: false,
        deleted: false,
    }
}

/// The row a link persists as.
pub open spec fn row_of_link(l: Link) -> DbNoteLink {
    DbNoteLink {
        parent_note_id: l.id,
        textarea_id: l.text_id,
        textarea_row: l.row as i64,
        start_col: l.start_col as i64,
        end_col: l.end_col as i64,
        linked_note_id: l.linked_id,
    }
}

/// The anchor-table entry a link mirrors.
pub open spec fn anchor_of(l: Link) -> crate::anchors::Anchor {
    crate::anchors::Anchor {
        id: l.text_id as usize,
        row: l.row,
        start_col: l.start_col,
        end_col: l.end_col,
        edited: false,
        deleted: l.deleted,
    }
}

impl Link {
    /// Rehydrate one persisted row.
    pub fn from_db_link(db_link: DbNoteLink) -> (l: Link)
        requires
            row_geometry_fits(db_link),
        ensures
            l == link_of_row(db_link),
    {
        Link {
            id: db_link.parent_note_id,
            text_id: db_link.textarea_id,
            linked_id: db_link.linked_note_id,
            row: db_link.textarea_row as usize,
            start_col: db_link.start_col as usize,
            end_col: db_link.end_col as usize,
            saved: true,
            updated: false,
            deleted: false,
        }
    }

    /// The persisted form of this link.
    pub fn to_db_link(&self) -> (r: DbNoteLink)
        requires
            link_geometry_fits(*self),
        ensures
            r == row_of_link(*self),
    {
        DbNoteLink {
            parent_note_id: self.id,
            textarea_id: self.text_id,
            textarea_row: self.row as i64,
            start_col: self.start_col as i64,
            end_col: self.end_col as i64,
            linked_note_id: self.linked_id,
        }
    }

    /// The anchor-table entry this link mirrors.
    pub fn to_anchor(&self) -> (a: crate::anchors::Anchor)
        requires
            self.text_id >= 0,
            self.text_id <= usize::MAX,
        ensures
            a == anchor_of(*self),
            a.id == self.text_id,
            a.row == self.row,
            a.start_col == self.start_col,
            a.end_col == self.end_col,
            !a.edited,
            a.deleted == self.deleted,
    {
        crate::anchors::Anchor {
            id: self.text_id as usize,
            row: self.row,
            start_col: self.start_col,
            end_col: self.end_col,
            edited: false,
            deleted: self.deleted,
        }
    }

    /// A freshly created link over a just-drawn anchor: the record starts
    /// with all three lifecycle flags false.
    pub fn new_unsaved(parent_id: i64, linked_id: i64, anchor: &crate::anchors::Anchor) -> (l:
        Link)
        requires
            anchor.id <= i64::MAX,
        ensures
            l == (Link {
                id: parent_id,
                text_id: anchor.id as i64,
                linked_id,
                row: anchor.row,
                start_col: anchor.start_col,
                end_col: anchor.end_col,
                saved: false,
                updated: false,
                deleted: false,
            }),
    {
        Link {
            id: parent_id,
            text_id: anchor.id as i64,
            linked_id,
            row: anchor.row,
            start_col: anchor.start_col,
            end_col: anchor.end_col,
            saved: false,
            updated: false,
            deleted: false,
        }
    }

    /// Has the anchor's geometry diverged from what this link remembers?
    pub fn moved(&self, anchor: &crate::anchors::Anchor) -> (r: bool)
        ensures
            r == (self.row != anchor.row || self.start_col != anchor.start_col || self.end_col
                != anchor.end_col),
    {
        self.row != anchor.row || self.start_col != anchor.start_col || self.end_col
            != anchor.end_col
    }
}

/// Rehydrating a persisted row and saving it again yields the row itself.
pub proof fn lemma_row_round_trip(r: DbNoteLink)
    requires
        row_geometry_fits(r),
    ensures
        row_of_link(link_of_row(r)) == r,
{
}

/// Saving a link and rehydrating the row yields the same identity and
/// geometry, with the flags reset to saved, not updated, not deleted.
pub proof fn lemma_link_round_trip(l: Link)
    requires
        link_geometry_fits(l),
    ensures
        link_of_row(row_of_link(l)) == (Link { saved: true, updated: false, deleted: false, ..l }),
{
}

/// Rehydrating a whole table of persisted rows and saving every link again
/// reproduces the table row for row.
pub proof fn lemma_store_round_trip(rows: Seq<DbNoteLink>)
    requires
        forall|i: int| 0 <= i < rows.len() ==> row_geometry_fits(#[trigger] rows[i]),
    ensures
        rows.map_values(|r: DbNoteLink| row_of_link(link_of_row(r))) =~= rows,
{
    assert forall|i: int| 0 <= i < rows.len() implies row_of_link(
        link_of_row(#[trigger] rows[i]),
    ) == rows[i] by {
        lemma_row_round_trip(rows[i]);
    }
}

/// Saving a whole store of links and rehydrating the rows yields the same
/// store with every link's flags reset to saved, not updated, not deleted.
pub proof fn lemma_saved_links_rehydrate(links: Seq<Link>)
    requires
        forall|i: int| 0 <= i < links.len() ==> link_geometry_fits(#[trigger] links[i]),
    ensures
        links.map_values(|l: Link| link_of_row(row_of_link(l))) =~= links.map_values(
            |l: Link| (Link { saved: true, updated: false, deleted: false, ..l }),
        ),
{
    assert forall|i: int| 0 <= i < links.len() implies link_of_row(
        row_of_link(#[trigger] links[i]),
    ) == (Link { saved: true, updated: false, deleted: false, ..links[i] }) by {
        lemma_link_round_trip(links[i]);
    }
}

/// The index of the link with the given anchor id, scanning in store order.
pub open spec fn find_link(links: Seq<Link>, text_id: int) -> Option<int>
    decreases links.len(),
{
    if links.len() == 0 {
        None
    } else if links[0].text_id == text_id {
        Some(0int)
    } else {
        match find_link(links.drop_first(), text_id) {
            Some(i) => Some(i + 1),
            None => None,
        }
    }
}

/// A found index names a link with the id sought.
pub proof fn lemma_find_link_sound(links: Seq<Link>, text_id: int)
    ensures
        match find_link(links, text_id) {
            Some(i) => 0 <= i < links.len() && links[i].text_id == text_id,
            None => forall|i: int| 0 <= i < links.len() ==> (#[trigger] links[i]).text_id != text_id,
        },
    decreases links.len(),
{
    if links.len() > 0 {
        lemma_find_link_sound(links.drop_first(), text_id);
        if links[0].text_id != text_id {
            match find_link(links.drop_first(), text_id) {
                Some(i) => {
                    assert(links.drop_first()[i] == links[i + 1]);
                },
                None => {
                    assert forall|i: int| 0 <= i < links.len() implies (#[trigger] links[i]).text_id
                        != text_id by {
                        if i > 0 {
                            assert(links.drop_first()[i - 1] == links[i]);
                        }
                    }
                },
            }
        }
    }
}

/// Look a link up by its text anchor id.
pub fn link_index(links: &Vec<Link>, text_id: i64) -> (r: Option<usize>)
    ensures
        match r {
            Some(i) => find_link(links@, text_id as int) == Some(i as int),
            None => find_link(links@, text_id as int) is None,
        },
{
    let mut i: usize = 0;
    proof {
        assert(links@.skip(0) =~= links@);
    }
    while i < links.len()
        invariant
            i <= links@.len(),
            ({
                let rest = find_link(links@.skip(i as int), text_id as int);
                find_link(links@, text_id as int) == match rest {
                    Some(k) => Some(k + i),
                    None => None,
                }
            }),
        decreases links@.len() - i,
    {
        proof {
            assert(links@.skip(i as int)[0] == links@[i as int]);
            assert(links@.skip(i as int).drop_first() =~= links@.skip(i + 1));
        }
        if links[i].text_id == text_id {
            return Some(i);
        }
        i = i + 1;
    }
    proof {
        assert(links@.skip(links@.len() as int) =~= Seq::<Link>::empty());
    }
    None
}

/// No persisted link id exceeds the signed range, so an oversized anchor id
/// never matches.
pub proof fn lemma_find_link_out_of_i64(links: Seq<Link>, id: int)
    requires
        id > i64::MAX,
    ensures
        find_link(links, id) is None,
    decreases links.len(),
{
    if links.len() > 0 {
        lemma_find_link_out_of_i64(links.drop_first(), id);
    }
}

/// Rehydrate a whole set of persisted rows, in order.
pub fn links_from_rows(rows: &Vec<DbNoteLink>) -> (links: Vec<Link>)
    requires
        forall|i: int| 0 <= i < rows@.len() ==> row_geometry_fits(#[trigger] rows@[i]),
    ensures
        links@ == rows@.map_values(|r: DbNoteLink| link_of_row(r)),
{
    let mut links: Vec<Link> = Vec::new();
    let mut i: usize = 0;
    while i < rows.len()
        invariant
            i <= rows@.len(),
            forall|j: int| 0 <= j < rows@.len() ==> row_geometry_fits(#[trigger] rows@[j]),
            links@ =~= rows@.subrange(0, i as int).map_values(|r: DbNoteLink| link_of_row(r)),
        decreases rows@.len() - i,
    {
        links.push(Link::from_db_link(rows[i]));
        proof {
            let ghost ii = i as int;
            assert(rows@.subrange(0, ii + 1) =~= rows@.subrange(0, ii).push(rows@[ii]));
        }
        i = i + 1;
    }
    proof {
        assert(rows@.subrange(0, rows@.len() as int) =~= rows@);
        assert(links@ =~= rows@.map_values(|r: DbNoteLink| link_of_row(r)));
    }
    links
}

} // verus!
