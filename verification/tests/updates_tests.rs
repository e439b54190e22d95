use tuifile::updates::{
    Updates, UPDATE_FILTER_FILES, UPDATE_MOVE_CURSOR, UPDATE_REDRAW_FILELIST,
    UPDATE_REDRAW_INFOBAR, UPDATE_REDRAW_SEARCHBAR, UPDATE_RESCAN_FILES,
};

#[test]
fn requesting_sets_and_consuming_clears_one_flag() {
    let mut bits: u32 = 0;
    assert!(!bits.rescan_files());
    bits.request_rescan_files();
    assert!(bits.rescan_files());
    assert!(!bits.filter_files()); // other flags untouched
    bits.dont_rescan_files();
    assert!(!bits.rescan_files());
}

#[test]
fn requests_are_idempotent() {
    let mut bits: u32 = 0;
    bits.request_filter_files();
    let once = bits;
    bits.request_filter_files();
    assert_eq!(bits, once);
}

#[test]
fn redraw_requests_all_three_panes() {
    let mut bits: u32 = 0;
    bits.request_redraw();
    assert_eq!(
        bits,
        UPDATE_REDRAW_INFOBAR | UPDATE_REDRAW_SEARCHBAR | UPDATE_REDRAW_FILELIST
    );
    assert!(bits.redraw_infobar() && bits.redraw_searchbar() && bits.redraw_filelist());
    assert!(!bits.move_cursor() && !bits.clear());
}

#[test]
fn consuming_one_flag_leaves_the_others() {
    let mut bits: u32 = UPDATE_FILTER_FILES | UPDATE_MOVE_CURSOR | UPDATE_RESCAN_FILES;
    bits.dont_filter_files();
    assert!(!bits.filter_files());
    assert!(bits.move_cursor());
    assert!(bits.rescan_files());
}
