//! The link synchronization protocol's decisions: classify the session's
//! links into the three disjoint write sets, aggregate the legs' results
//! into one error, apply a committed transaction back onto the store, and
//! model what the writes do to the persisted rows. The embedding program
//! owns the storage engine and its transaction; everything it needs to
//! decide is computed here.

use vstd::prelude::*;

use crate::links::{row_of_link, DbNoteLink, Link, NoteIdentifier};

verus! {

/// A storage-layer error carried up to the user, as one message.
#[derive(Debug, Clone)]
pub struct DbError {
    pub msg: String,
}

impl DbError {
    /// The user-visible message.
    pub fn message(&self) -> (r: String)
        ensures
            r@ == self.msg@,
    {
        let r = self.msg.clone();
        proof {
            assert(r@ == self.msg@);
        }
        r
    }
}

/// Wrap a message as a storage-layer error.
pub fn create_db_error(msg: String) -> (e: DbError)
    ensures
        e.msg@ == msg@,
{
    DbError { msg }
}

/// One leg of the synchronization transaction.
#[derive(Debug, Clone, Copy, PartialEq, Eq, Structural)]
pub enum SyncLeg {
    Update,
    Save,
    Delete,
}

/// The aggregated failure of a synchronization attempt: every leg that
/// failed, in leg order.
#[derive(Debug, Clone)]
pub struct SyncError {
    pub failed: Vec<SyncLeg>,
}

/// The three disjoint write sets of one synchronization: rows to update,
/// rows to insert, and row identities to delete.
#[derive(Debug, Clone)]
pub struct SyncPlan {
    pub to_update: Vec<DbNoteLink>,
    pub to_insert: Vec<DbNoteLink>,
    pub to_delete: Vec<(i64, i64)>,
}

/// A link whose persisted geometry must be rewritten.
pub open spec fn is_to_update(l: Link) -> bool {
    !l.deleted && l.saved && l.updated
}

/// A link that has never been persisted.
pub open spec fn is_to_save(l: Link) -> bool {
    !l.deleted && !l.saved
}

/// A link whose persisted row must be removed.
pub open spec fn is_to_delete(l: Link) -> bool {
    l.deleted && l.saved
}

/// The rows of the update leg, in store order.
pub open spec fn update_rows(links: Seq<Link>) -> Seq<DbNoteLink>
    decreases links.len(),
{
    if links.len() == 0 {
        Seq::empty()
    } else {
        update_rows(links.drop_last()) + if is_to_update(links.last()) {
            seq![row_of_link(links.last())]
        } else {
            Seq::<DbNoteLink>::empty()
        }
    }
}

/// The rows of the insert leg, in store order.
pub open spec fn insert_rows(links: Seq<Link>) -> Seq<DbNoteLink>
    decreases links.len(),
{
    if links.len() == 0 {
        Seq::empty()
    } else {
        insert_rows(links.drop_last()) + if is_to_save(links.last()) {
            seq![row_of_link(links.last())]
        } else {
            Seq::<DbNoteLink>::empty()
        }
    }
}

/// The row identities of the delete leg, in store order.
pub open spec fn delete_keys(links: Seq<Link>, parent_id: i64) -> Seq<(i64, i64)>
    decreases links.len(),
{
    if links.len() == 0 {
        Seq::empty()
    } else {
        delete_keys(links.drop_last(), parent_id) + if is_to_delete(links.last()) {
            seq![(parent_id, links.last().text_id)]
        } else {
            Seq::<(i64, i64)>::empty()
        }
    }
}

/// The store after a committed synchronization: persisted-and-deleted links
/// leave the store; every live link is now saved with no divergence; a
/// deleted link that was never persisted stays as it is.
pub open spec fn synced_store(links: Seq<Link>) -> Seq<Link>
    decreases links.len(),
{
    if links.len() == 0 {
        Seq::empty()
    } else {
        let l = links.last();
        synced_store(links.drop_last()) + if is_to_delete(l) {
            Seq::<Link>::empty()
        } else if !l.deleted {
            seq![(Link { saved: true, updated: false, ..l })]
        } else {
            seq![l]
        }
    }
}

/// The legs among a list of leg results that failed, in order.
pub open spec fn failed_of(results: Seq<(SyncLeg, bool)>) -> Seq<SyncLeg>
    decreases results.len(),
{
    if results.len() == 0 {
        Seq::empty()
    } else {
        failed_of(results.drop_last()) + if results.last().1 {
            Seq::<SyncLeg>::empty()
        } else {
            seq![results.last().0]
        }
    }
}

/// The legs that failed, in leg order.
pub open spec fn failed_legs(update_ok: bool, save_ok: bool, delete_ok: bool) -> Seq<SyncLeg> {
    (if update_ok {
        Seq::<SyncLeg>::empty()
    } else {
        seq![SyncLeg::Update]
    }) + (if save_ok {
        Seq::<SyncLeg>::empty()
    } else {
        seq![SyncLeg::Save]
    }) + (if delete_ok {
        Seq::<SyncLeg>::empty()
    } else {
        seq![SyncLeg::Delete]
    })
}

/// Dispatchers for the save-time synchronization protocol.
pub struct Events {}

impl Events {
    /// Does this link belong to the update leg?
    pub fn check_links_to_update(link: &Link) -> (r: bool)
        ensures
            r == is_to_update(*link),
    {
        !link.deleted && link.saved && link.updated
    }

    /// Does this link belong to the insert leg?
    pub fn check_links_to_save(link: &Link) -> (r: bool)
        ensures
            r == is_to_save(*link),
    {
        !link.deleted && !link.saved
    }

    /// Does this link belong to the delete leg?
    pub fn check_links_to_delete(link: &Link) -> (r: bool)
        ensures
            r == is_to_delete(*link),
    {
        link.deleted && link.saved
    }

    /// The minimal diff one save must persist: the three disjoint write
    /// sets, computed from the store alone.
    pub fn compute_sync_plan(links: &Vec<Link>, parent_id: i64) -> (p: SyncPlan)
        requires
            forall|i: int|
                0 <= i < links@.len() ==> crate::links::link_geometry_fits(#[trigger] links@[i]),
        ensures
            p.to_update@ == update_rows(links@),
            p.to_insert@ == insert_rows(links@),
            p.to_delete@ == delete_keys(links@, parent_id),
    {
        let mut to_update: Vec<DbNoteLink> = Vec::new();
        let mut to_insert: Vec<DbNoteLink> = Vec::new();
        let mut to_delete: Vec<(i64, i64)> = Vec::new();
        let mut i: usize = 0;
        while i < links.len()
            invariant
                i <= links@.len(),
                forall|j: int|
                    0 <= j < links@.len() ==> crate::links::link_geometry_fits(
                        #[trigger] links@[j],
                    ),
                to_update@ =~= update_rows(links@.subrange(0, i as int)),
                to_insert@ =~= insert_rows(links@.subrange(0, i as int)),
                to_delete@ =~= delete_keys(links@.subrange(0, i as int), parent_id),
            decreases links@.len() - i,
        {
            let l = links[i];
            if Events::check_links_to_update(&l) {
                to_update.push(l.to_db_link());
            } else if Events::check_links_to_save(&l) {
                to_insert.push(l.to_db_link());
            } else if Events::check_links_to_delete(&l) {
                to_delete.push((parent_id, l.text_id));
            }
            proof {
                let ghost ii = i as int;
                assert(links@.subrange(0, ii + 1).drop_last() =~= links@.subrange(0, ii));
                assert(links@.subrange(0, ii + 1).last() == links@[ii]);
            }
            i = i + 1;
        }
        proof {
            assert(links@.subrange(0, links@.len() as int) =~= links@);
        }
        SyncPlan { to_update, to_insert, to_delete }
    }

    /// Is there nothing to write?
    pub fn plan_is_empty(p: &SyncPlan) -> (r: bool)
        ensures
            r == (p.to_update@.len() == 0 && p.to_insert@.len() == 0 && p.to_delete@.len() == 0),
    {
        p.to_update.len() == 0 && p.to_insert.len() == 0 && p.to_delete.len() == 0
    }

    /// Aggregate the three legs' results: success only when every leg
    /// succeeded, and otherwise one error naming exactly the failed legs.
    pub fn sync_outcome(update_ok: bool, save_ok: bool, delete_ok: bool) -> (r: Result<
        (),
        SyncError,
    >)
        ensures
            r is Ok <==> update_ok && save_ok && delete_ok,
            r matches Err(e) ==> e.failed@ == failed_legs(update_ok, save_ok, delete_ok),
    {
        let mut results: Vec<(SyncLeg, bool)> = Vec::new();
        results.push((SyncLeg::Update, update_ok));
        results.push((SyncLeg::Save, save_ok));
        results.push((SyncLeg::Delete, delete_ok));
        let mut failed: Vec<SyncLeg> = Vec::new();
        let mut i: usize = 0;
        while i < results.len()
            invariant
                i <= 3,
                results@.len() == 3,
                results@[0] == (SyncLeg::Update, update_ok),
                results@[1] == (SyncLeg::Save, save_ok),
                results@[2] == (SyncLeg::Delete, delete_ok),
                failed@ =~= failed_of(results@.subrange(0, i as int)),
            decreases 3 - i,
        {
            let (leg, ok) = results[i];
            if !ok {
                failed.push(leg);
            }
            proof {
                let ghost ii = i as int;
                assert(results@.subrange(0, ii + 1).drop_last() =~= results@.subrange(0, ii));
                assert(results@.subrange(0, ii + 1).last() == results@[ii]);
            }
            i = i + 1;
        }
        proof {
            let ghost s = results@;
            assert(s.subrange(0, 1).drop_last() =~= s.subrange(0, 0));
            assert(s.subrange(0, 2).drop_last() =~= s.subrange(0, 1));
            assert(s.subrange(0, 3).drop_last() =~= s.subrange(0, 2));
            assert(s.subrange(0, 1).last() == s[0]);
            assert(s.subrange(0, 2).last() == s[1]);
            assert(s.subrange(0, 3).last() == s[2]);
            assert(failed_of(s.subrange(0, 0)) =~= Seq::<SyncLeg>::empty());
            assert(failed_of(s.subrange(0, 1)) =~= (if update_ok {
                Seq::<SyncLeg>::empty()
            } else {
                seq![SyncLeg::Update]
            }));
            assert(failed_of(s.subrange(0, 2)) =~= failed_of(s.subrange(0, 1)) + (if save_ok {
                Seq::<SyncLeg>::empty()
            } else {
                seq![SyncLeg::Save]
            }));
            assert(failed_of(s.subrange(0, 3)) =~= failed_of(s.subrange(0, 2)) + (if delete_ok {
                Seq::<SyncLeg>::empty()
            } else {
                seq![SyncLeg::Delete]
            }));
            assert(failed@ =~= failed_legs(update_ok, save_ok, delete_ok));
        }
        if failed.len() == 0 {
            Ok(())
        } else {
            Err(SyncError { failed })
        }
    }

    /// Fold a committed synchronization back into the store: every written
    /// link is now saved and undiverged, every persisted deletion leaves the
    /// store.
    pub fn apply_sync_success(links: &mut Vec<Link>)
        ensures
            final(links)@ == synced_store(old(links)@),
    {
        let mut out: Vec<Link> = Vec::new();
        let mut i: usize = 0;
        while i < links.len()
            invariant
                i <= links@.len(),
                out@ =~= synced_store(links@.subrange(0, i as int)),
            decreases links@.len() - i,
        {
            let l = links[i];
            if l.deleted && l.saved {
            } else if !l.deleted {
                out.push(Link { saved: true, updated: false, ..l });
            } else {
                out.push(l);
            }
            proof {
                let ghost ii = i as int;
                assert(links@.subrange(0, ii + 1).drop_last() =~= links@.subrange(0, ii));
                assert(links@.subrange(0, ii + 1).last() == links@[ii]);
            }
            i = i + 1;
        }
        proof {
            assert(links@.subrange(0, links@.len() as int) =~= links@);
        }
        *links = out;
    }

    /// Is a note title already taken by a listed note?
    pub fn title_taken(nids: &Vec<NoteIdentifier>, title: &String) -> (r: bool)
        ensures
            r == exists|i: int| 0 <= i < nids@.len() && (#[trigger] nids@[i]).title@ == title@,
    {
        let mut i: usize = 0;
        while i < nids.len()
            invariant
                i <= nids@.len(),
                forall|j: int| 0 <= j < i ==> (#[trigger] nids@[j]).title@ != title@,
            decreases nids@.len() - i,
        {
            if nids[i].title.eq(title) {
                return true;
            }
            i = i + 1;
        }
        false
    }
}

/// After a committed synchronization nothing is left to write: running the
/// protocol again with no edits in between computes three empty sets.
pub proof fn lemma_sync_idempotent(links: Seq<Link>, parent_id: i64)
    ensures
        update_rows(synced_store(links)).len() == 0,
        insert_rows(synced_store(links)).len() == 0,
        delete_keys(synced_store(links), parent_id).len() == 0,
    decreases links.len(),
{
    if links.len() > 0 {
        lemma_sync_idempotent(links.drop_last(), parent_id);
        let l = links.last();
        let rest = synced_store(links.drop_last());
        if is_to_delete(l) {
            assert(synced_store(links) =~= rest);
        } else if !l.deleted {
            let s = synced_store(links);
            assert(s.drop_last() =~= rest);
            assert(s.last() == (Link { saved: true, updated: false, ..l }));
        } else {
            let s = synced_store(links);
            assert(s.drop_last() =~= rest);
            assert(s.last() == l);
        }
    }
}

/// A persisted row's identity: parent note and text anchor.
pub open spec fn row_key(r: DbNoteLink) -> (int, int) {
    (r.parent_note_id as int, r.textarea_id as int)
}

/// The first update-leg row with the given identity.
pub open spec fn upd_find(upd: Seq<DbNoteLink>, k: (int, int)) -> Option<DbNoteLink>
    decreases upd.len(),
{
    if upd.len() == 0 {
        None
    } else if row_key(upd[0]) == k {
        Some(upd[0])
    } else {
        upd_find(upd.drop_first(), k)
    }
}

/// Does the delete leg name this identity?
pub open spec fn key_deleted(del: Seq<(i64, i64)>, k: (int, int)) -> bool
    decreases del.len(),
{
    if del.len() == 0 {
        false
    } else if (del[0].0 as int, del[0].1 as int) == k {
        true
    } else {
        key_deleted(del.drop_first(), k)
    }
}

/// The persisted rows after the update and delete legs: deleted identities
/// leave, updated identities carry their new row, all others stay untouched.
pub open spec fn rows_synced(
    rows: Seq<DbNoteLink>,
    upd: Seq<DbNoteLink>,
    del: Seq<(i64, i64)>,
) -> Seq<DbNoteLink>
    decreases rows.len(),
{
    if rows.len() == 0 {
        Seq::empty()
    } else {
        let r = rows.last();
        rows_synced(rows.drop_last(), upd, del) + if key_deleted(del, row_key(r)) {
            Seq::<DbNoteLink>::empty()
        } else {
            match upd_find(upd, row_key(r)) {
                Some(u) => seq![u],
                None => seq![r],
            }
        }
    }
}

/// The persisted rows after the whole transaction: the update and delete
/// legs applied, then the insert leg's fresh rows appended.
pub open spec fn rows_after_plan(
    rows: Seq<DbNoteLink>,
    upd: Seq<DbNoteLink>,
    ins: Seq<DbNoteLink>,
    del: Seq<(i64, i64)>,
) -> Seq<DbNoteLink> {
    rows_synced(rows, upd, del) + ins
}

/// What one committed transaction leaves in the persisted table; a model of
/// the storage engine the embedding program drives.
pub fn apply_plan_to_rows(rows: &Vec<DbNoteLink>, plan: &SyncPlan) -> (out: Vec<DbNoteLink>)
    ensures
        out@ == rows_after_plan(rows@, plan.to_update@, plan.to_insert@, plan.to_delete@),
{
    let mut out: Vec<DbNoteLink> = Vec::new();
    let mut i: usize = 0;
    while i < rows.len()
        invariant
            i <= rows@.len(),
            out@ =~= rows_synced(rows@.subrange(0, i as int), plan.to_update@, plan.to_delete@),
        decreases rows@.len() - i,
    {
        let r = rows[i];
        if !key_in_del(&plan.to_delete, r.parent_note_id, r.textarea_id) {
            match find_upd(&plan.to_update, r.parent_note_id, r.textarea_id) {
                Some(u) => {
                    out.push(u);
                },
                None => {
                    out.push(r);
                },
            }
        }
        proof {
            let ghost ii = i as int;
            assert(rows@.subrange(0, ii + 1).drop_last() =~= rows@.subrange(0, ii));
            assert(rows@.subrange(0, ii + 1).last() == rows@[ii]);
        }
        i = i + 1;
    }
    proof {
        assert(rows@.subrange(0, rows@.len() as int) =~= rows@);
    }
    let mut k: usize = 0;
    let ghost base = out@;
    while k < plan.to_insert.len()
        invariant
            k <= plan.to_insert@.len(),
            out@ =~= base + plan.to_insert@.subrange(0, k as int),
        decreases plan.to_insert@.len() - k,
    {
        out.push(plan.to_insert[k]);
        proof {
            let ghost kk = k as int;
            assert(plan.to_insert@.subrange(0, kk + 1) =~= plan.to_insert@.subrange(0, kk).push(
                plan.to_insert@[kk],
            ));
        }
        k = k + 1;
    }
    proof {
        assert(plan.to_insert@.subrange(0, plan.to_insert@.len() as int) =~= plan.to_insert@);
        assert(out@ =~= rows_after_plan(rows@, plan.to_update@, plan.to_insert@, plan.to_delete@));
    }
    out
}

/// Does the delete leg name this row identity?
fn key_in_del(del: &Vec<(i64, i64)>, parent: i64, text: i64) -> (r: bool)
    ensures
        r == key_deleted(del@, (parent as int, text as int)),
{
    proof {
        assert(del@.skip(0) =~= del@);
    }
    let mut i: usize = 0;
    while i < del.len()
        invariant
            i <= del@.len(),
            key_deleted(del@, (parent as int, text as int)) == key_deleted(
                del@.skip(i as int),
                (parent as int, text as int),
            ),
        decreases del@.len() - i,
    {
        proof {
            assert(del@.skip(i as int)[0] == del@[i as int]);
            assert(del@.skip(i as int).drop_first() =~= del@.skip(i + 1));
        }
        let (p, t) = del[i];
        if p == parent && t == text {
            return true;
        }
        i = i + 1;
    }
    proof {
        assert(del@.skip(del@.len() as int) =~= Seq::<(i64, i64)>::empty());
    }
    false
}

/// The first update-leg row with this identity.
fn find_upd(upd: &Vec<DbNoteLink>, parent: i64, text: i64) -> (r: Option<DbNoteLink>)
    ensures
        r == upd_find(upd@, (parent as int, text as int)),
{
    proof {
        assert(upd@.skip(0) =~= upd@);
    }
    let mut i: usize = 0;
    while i < upd.len()
        invariant
            i <= upd@.len(),
            upd_find(upd@, (parent as int, text as int)) == upd_find(
                upd@.skip(i as int),
                (parent as int, text as int),
            ),
        decreases upd@.len() - i,
    {
        proof {
            assert(upd@.skip(i as int)[0] == upd@[i as int]);
            assert(upd@.skip(i as int).drop_first() =~= upd@.skip(i + 1));
        }
        if upd[i].parent_note_id == parent && upd[i].textarea_id == text {
            return Some(upd[i]);
        }
        i = i + 1;
    }
    proof {
        assert(upd@.skip(upd@.len() as int) =~= Seq::<DbNoteLink>::empty());
    }
    None
}

/// The persisted rows with one identity's rows removed and every other row
/// untouched.
pub open spec fn rows_without_key(rows: Seq<DbNoteLink>, k: (int, int)) -> Seq<DbNoteLink>
    decreases rows.len(),
{
    if rows.len() == 0 {
        Seq::empty()
    } else {
        rows_without_key(rows.drop_last(), k) + if row_key(rows.last()) == k {
            Seq::<DbNoteLink>::empty()
        } else {
            seq![rows.last()]
        }
    }
}

/// A transaction whose only write is one deletion removes exactly that
/// identity's rows and leaves every other row untouched.
pub proof fn lemma_delete_leg_exact(rows: Seq<DbNoteLink>, k: (i64, i64))
    ensures
        rows_after_plan(rows, Seq::empty(), Seq::empty(), seq![k]) == rows_without_key(
            rows,
            (k.0 as int, k.1 as int),
        ),
    decreases rows.len(),
{
    if rows.len() > 0 {
        lemma_delete_leg_exact(rows.drop_last(), k);
        let r = rows.last();
        assert(key_deleted(seq![k], row_key(r)) == (row_key(r) == (k.0 as int, k.1 as int)))
            by {
            assert(seq![k].drop_first() =~= Seq::<(i64, i64)>::empty());
            assert(!key_deleted(Seq::<(i64, i64)>::empty(), row_key(r)));
        }
        assert(upd_find(Seq::empty(), row_key(r)) is None);
        assert(rows_after_plan(rows, Seq::empty(), Seq::empty(), seq![k]) =~= rows_without_key(
            rows,
            (k.0 as int, k.1 as int),
        ));
    } else {
        assert(rows_after_plan(rows, Seq::empty(), Seq::empty(), seq![k]) =~= Seq::<
            DbNoteLink,
        >::empty());
    }
}

} // verus!
