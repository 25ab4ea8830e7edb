use tuipaz::editor::Editor;
use tuipaz::events::{Events, SyncLeg, SyncPlan};
use tuipaz::events::apply_plan_to_rows;
use tuipaz::input::{Input, Key};
use tuipaz::links::{links_from_rows, DbNoteLink, Link};

fn key(c: char) -> Input {
    Input { key: Key::Char(c), ..Default::default() }
}

fn link(text_id: i64, saved: bool, updated: bool, deleted: bool) -> Link {
    Link {
        id: 7,
        text_id,
        linked_id: 40 + text_id,
        row: 0,
        start_col: (text_id as usize) * 10,
        end_col: (text_id as usize) * 10 + 4,
        saved,
        updated,
        deleted,
    }
}

fn row(text_id: i64) -> DbNoteLink {
    DbNoteLink {
        parent_note_id: 7,
        textarea_id: text_id,
        textarea_row: 0,
        start_col: text_id * 10,
        end_col: text_id * 10 + 4,
        linked_note_id: 40 + text_id,
    }
}

#[test]
fn link_row_round_trip_resets_flags() {
    let l = Link {
        id: 3,
        text_id: 1,
        linked_id: 9,
        row: 2,
        start_col: 4,
        end_col: 11,
        saved: false,
        updated: true,
        deleted: false,
    };
    let persisted = l.to_db_link();
    let back = Link::from_db_link(persisted);
    assert_eq!(back.id, 3);
    assert_eq!(back.text_id, 1);
    assert_eq!(back.linked_id, 9);
    assert_eq!(back.row, 2);
    assert_eq!(back.start_col, 4);
    assert_eq!(back.end_col, 11);
    assert!(back.saved);
    assert!(!back.updated);
    assert!(!back.deleted);
}

#[test]
fn rehydrated_rows_keep_geometry_per_id() {
    let rows = vec![row(0), row(1)];
    let links = links_from_rows(&rows);
    assert_eq!(links.len(), 2);
    for (l, r) in links.iter().zip(rows.iter()) {
        assert_eq!(l.text_id, r.textarea_id);
        assert_eq!(l.row as i64, r.textarea_row);
        assert_eq!(l.start_col as i64, r.start_col);
        assert_eq!(l.end_col as i64, r.end_col);
        assert_eq!(l.linked_id, r.linked_note_id);
        assert!(l.saved && !l.updated && !l.deleted);
    }
    assert_eq!(links[0].to_db_link(), row(0));
    assert_eq!(links[1].to_db_link(), row(1));
}

#[test]
fn plan_partitions_the_store_into_three_disjoint_sets() {
    let links = vec![
        link(0, true, true, false),   // to update
        link(1, false, false, false), // to insert
        link(2, true, false, true),   // to delete
        link(3, true, false, false),  // clean: no writes
        link(4, false, false, true),  // deleted before ever saved: no writes
    ];
    let plan = Events::compute_sync_plan(&links, 7);
    assert_eq!(plan.to_update, vec![links[0].to_db_link()]);
    assert_eq!(plan.to_insert, vec![links[1].to_db_link()]);
    assert_eq!(plan.to_delete, vec![(7, 2)]);
}

#[test]
fn second_sync_performs_zero_writes() {
    let mut links = vec![
        link(0, true, true, false),
        link(1, false, false, false),
        link(2, true, false, true),
        link(3, true, false, false),
    ];
    Events::apply_sync_success(&mut links);
    assert_eq!(links.len(), 3);
    for l in links.iter() {
        assert!(l.saved && !l.updated && !l.deleted);
    }
    let again = Events::compute_sync_plan(&links, 7);
    assert!(Events::plan_is_empty(&again));
}

#[test]
fn delete_leg_removes_exactly_one_row() {
    let rows = vec![row(0), row(1), row(2)];
    let plan = SyncPlan {
        to_update: Vec::new(),
        to_insert: Vec::new(),
        to_delete: vec![(7, 1)],
    };
    let after = apply_plan_to_rows(&rows, &plan);
    assert_eq!(after, vec![row(0), row(2)]);
}

#[test]
fn sync_outcome_aggregates_failed_legs() {
    assert!(Events::sync_outcome(true, true, true).is_ok());
    let e = Events::sync_outcome(true, true, false).unwrap_err();
    assert_eq!(e.failed, vec![SyncLeg::Delete]);
    let e = Events::sync_outcome(false, true, false).unwrap_err();
    assert_eq!(e.failed, vec![SyncLeg::Update, SyncLeg::Delete]);
    let e = Events::sync_outcome(false, false, false).unwrap_err();
    assert_eq!(e.failed, vec![SyncLeg::Update, SyncLeg::Save, SyncLeg::Delete]);
}

#[test]
fn failed_delete_leg_rolls_back_and_retry_persists_the_full_diff() {
    let links = vec![
        link(0, true, true, false),   // geometry must be rewritten
        link(1, false, false, false), // fresh link
        link(2, true, false, true),   // must leave the table
    ];
    let rows = vec![row(0), row(2)];

    // First attempt: the delete leg fails, so nothing is committed and the
    // store is left untouched.
    let plan = Events::compute_sync_plan(&links, 7);
    let outcome = Events::sync_outcome(true, true, false);
    assert_eq!(outcome.unwrap_err().failed, vec![SyncLeg::Delete]);

    // Retried with no edits in between, the recomputed diff is identical.
    let retry_plan = Events::compute_sync_plan(&links, 7);
    assert_eq!(retry_plan.to_update, plan.to_update);
    assert_eq!(retry_plan.to_insert, plan.to_insert);
    assert_eq!(retry_plan.to_delete, plan.to_delete);

    // A successful retry persists the originally intended full diff.
    assert!(Events::sync_outcome(true, true, true).is_ok());
    let after = apply_plan_to_rows(&rows, &retry_plan);
    assert_eq!(after, vec![row(0), row(1)]);
    let mut store = links;
    Events::apply_sync_success(&mut store);
    assert_eq!(store.len(), 2);
    assert!(store.iter().all(|l| l.saved && !l.updated && !l.deleted));
}

#[test]
fn deleting_link_text_marks_the_link_for_deletion() {
    let saved_link = Link {
        id: 7,
        text_id: 0,
        linked_id: 9,
        row: 0,
        start_col: 0,
        end_col: 5,
        saved: true,
        updated: false,
        deleted: false,
    };
    let mut editor = Editor::new(
        "Linked".to_string(),
        vec!["[[a]]x".to_string(), "second".to_string()],
        vec![saved_link],
        None,
        false,
        140,
    );
    editor.handle_input(key('d'));
    editor.handle_input(key('d'));
    assert_eq!(editor.body.lines(), vec!["second".to_string()]);
    editor.check_link_deletion();
    assert!(editor.links[0].deleted);
    assert_eq!(editor.deleted_link_ids, vec![0]);
    let plan = Events::compute_sync_plan(&editor.links, 7);
    assert_eq!(plan.to_delete, vec![(7, 0)]);
    assert!(plan.to_update.is_empty() && plan.to_insert.is_empty());
}

#[test]
fn persisted_store_round_trips() {
    let saved_link = Link {
        id: 7,
        text_id: 0,
        linked_id: 9,
        row: 0,
        start_col: 2,
        end_col: 7,
        saved: false,
        updated: true,
        deleted: false,
    };
    let editor = Editor::new(
        "Linked".to_string(),
        vec!["ab[[c]]de".to_string()],
        vec![saved_link],
        None,
        false,
        140,
    );
    let rows = editor.persistable_links();
    let reloaded = links_from_rows(&rows);
    assert_eq!(reloaded.len(), 1);
    let l = reloaded[0];
    assert_eq!(l.id, 7);
    assert_eq!(l.text_id, 0);
    assert_eq!(l.linked_id, 9);
    assert_eq!((l.row, l.start_col, l.end_col), (0, 2, 7));
    assert!(l.saved && !l.updated && !l.deleted);
}

#[test]
fn editing_before_a_link_updates_its_geometry() {
    let saved_link = Link {
        id: 7,
        text_id: 0,
        linked_id: 9,
        row: 0,
        start_col: 2,
        end_col: 7,
        saved: true,
        updated: false,
        deleted: false,
    };
    let mut editor = Editor::new(
        "Linked".to_string(),
        vec!["ab[[c]]de".to_string()],
        vec![saved_link],
        None,
        false,
        140,
    );
    editor.handle_input(key('i'));
    editor.handle_input(key('z'));
    editor.check_link_moved();
    assert_eq!(editor.links[0].start_col, 3);
    assert_eq!(editor.links[0].end_col, 8);
    assert!(editor.links[0].updated);
    let plan = Events::compute_sync_plan(&editor.links, 7);
    assert_eq!(plan.to_update.len(), 1);
    assert_eq!(plan.to_update[0].start_col, 3);
    assert_eq!(plan.to_update[0].end_col, 8);
}

#[test]
fn reconcile_after_a_deleting_key_drains_the_buffer() {
    let saved_link = Link {
        id: 7,
        text_id: 0,
        linked_id: 9,
        row: 0,
        start_col: 0,
        end_col: 5,
        saved: true,
        updated: false,
        deleted: false,
    };
    let mut editor = Editor::new(
        "Linked".to_string(),
        vec!["[[a]]x".to_string(), "second".to_string()],
        vec![saved_link],
        None,
        false,
        140,
    );
    editor.handle_input(key('d'));
    editor.reconcile_after(key('d'));
    editor.handle_input(key('d'));
    editor.reconcile_after(key('d'));
    assert!(editor.links[0].deleted);
    assert_eq!(editor.deleted_link_ids, vec![0]);
    assert!(editor.body.deleted_link_ids.is_empty());
    assert!(editor.orphaned_link_ids().is_empty());
}

#[test]
fn commit_sync_settles_the_session() {
    let mut editor = Editor::new(
        "Linked".to_string(),
        vec!["[[a]]x".to_string()],
        vec![
            link(0, true, true, false),
            link(1, false, false, false),
            link(2, true, false, true),
        ],
        None,
        false,
        140,
    );
    editor.deleted_link_ids.push(2);
    editor.commit_sync();
    assert_eq!(editor.links.len(), 2);
    assert!(editor.links.iter().all(|l| l.saved && !l.updated && !l.deleted));
    assert!(editor.deleted_link_ids.is_empty());
}

#[test]
fn a_fresh_link_record_starts_with_all_flags_false() {
    let anchor = tuipaz::anchors::Anchor {
        id: 4,
        row: 1,
        start_col: 2,
        end_col: 9,
        edited: false,
        deleted: false,
    };
    let l = Link::new_unsaved(7, 11, &anchor);
    assert_eq!((l.id, l.text_id, l.linked_id), (7, 4, 11));
    assert_eq!((l.row, l.start_col, l.end_col), (1, 2, 9));
    assert!(!l.saved && !l.updated && !l.deleted);
}
