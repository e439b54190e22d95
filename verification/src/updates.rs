//! Pending-action scheduler: a bitset of per-session dirty flags.
//!
//! Each bit stands for one action the main loop still has to run
//! (rescan the directory, re-apply the filter, redraw one part of the
//! screen, ...). Requesting an action sets its bit; consuming it clears
//! the bit and performs the work. The lemmas at the bottom state the
//! scheduler's contract: requests are idempotent and order-independent,
//! and touching one flag leaves every other flag unchanged.

use vstd::prelude::*;

verus! {

pub const UPDATE_RESCAN_FILES: u32 = 0b1;
pub const UPDATE_CLEAR: u32 = 0b10;
pub const UPDATE_REDRAW_INFOBAR: u32 = 0b100;
pub const UPDATE_REDRAW_SEARCHBAR: u32 = 0b1000;
pub const UPDATE_REDRAW_FILELIST: u32 = 0b10000;
pub const UPDATE_MOVE_CURSOR: u32 = 0b100000;
pub const UPDATE_FILTER_FILES: u32 = 0b1000000;
pub const UPDATE_RESET_CURRENT_INDEX: u32 = 0b10000000;
pub const UPDATE_RESET_SEARCH: u32 = 0b100000000;
pub const UPDATE_RESCANNING_FILES_COMPLETE: u32 = 0b1000000000;
pub const UPDATE_REDRAW_FILEBAR: u32 = 0b10000000000;

/// The pending-action bitset, implemented for `u32`.
///
/// For every action `x` there are three methods: `x()` reads whether the
/// action is pending, `request_x()` sets its bit, and `dont_x()` toggles
/// the bit off (the drain loop only calls it after seeing the bit set).
pub trait Updates: Sized {
    spec fn bits(&self) -> u32;

    /// Requests every redraw needed after a full refresh: info bar,
    /// search bar and file list.
    fn request_redraw(&mut self)
        ensures
            final(self).bits() == (old(self).bits() | UPDATE_REDRAW_INFOBAR
                | UPDATE_REDRAW_SEARCHBAR | UPDATE_REDRAW_FILELIST),
    ;

    fn rescan_files(&self) -> (r: bool)
        ensures
            r == ((self.bits() & UPDATE_RESCAN_FILES) != 0),
    ;

    fn dont_rescan_files(&mut self)
        ensures
            final(self).bits() == (old(self).bits() ^ UPDATE_RESCAN_FILES),
    ;

    fn request_rescan_files(&mut self)
        ensures
            final(self).bits() == (old(self).bits() | UPDATE_RESCAN_FILES),
    ;

    fn clear(&self) -> (r: bool)
        ensures
            r == ((self.bits() & UPDATE_CLEAR) != 0),
    ;

    fn dont_clear(&mut self)
        ensures
            final(self).bits() == (old(self).bits() ^ UPDATE_CLEAR),
    ;

    fn request_clear(&mut self)
        ensures
            final(self).bits() == (old(self).bits() | UPDATE_CLEAR),
    ;

    fn redraw_infobar(&self) -> (r: bool)
        ensures
            r == ((self.bits() & UPDATE_REDRAW_INFOBAR) != 0),
    ;

    fn dont_redraw_infobar(&mut self)
        ensures
            final(self).bits() == (old(self).bits() ^ UPDATE_REDRAW_INFOBAR),
    ;

    fn request_redraw_infobar(&mut self)
        ensures
            final(self).bits() == (old(self).bits() | UPDATE_REDRAW_INFOBAR),
    ;

    fn redraw_searchbar(&self) -> (r: bool)
        ensures
            r == ((self.bits() & UPDATE_REDRAW_SEARCHBAR) != 0),
    ;

    fn dont_redraw_searchbar(&mut self)
        ensures
            final(self).bits() == (old(self).bits() ^ UPDATE_REDRAW_SEARCHBAR),
    ;

    fn request_redraw_searchbar(&mut self)
        ensures
            final(self).bits() == (old(self).bits() | UPDATE_REDRAW_SEARCHBAR),
    ;

    fn redraw_filelist(&self) -> (r: bool)
        ensures
            r == ((self.bits() & UPDATE_REDRAW_FILELIST) != 0),
    ;

    fn dont_redraw_filelist(&mut self)
        ensures
            final(self).bits() == (old(self).bits() ^ UPDATE_REDRAW_FILELIST),
    ;

    fn request_redraw_filelist(&mut self)
        ensures
            final(self).bits() == (old(self).bits() | UPDATE_REDRAW_FILELIST),
    ;

    fn move_cursor(&self) -> (r: bool)
        ensures
            r == ((self.bits() & UPDATE_MOVE_CURSOR) != 0),
    ;

    fn dont_move_cursor(&mut self)
        ensures
            final(self).bits() == (old(self).bits() ^ UPDATE_MOVE_CURSOR),
    ;

    fn request_move_cursor(&mut self)
        ensures
            final(self).bits() == (old(self).bits() | UPDATE_MOVE_CURSOR),
    ;

    fn filter_files(&self) -> (r: bool)
        ensures
            r == ((self.bits() & UPDATE_FILTER_FILES) != 0),
    ;

    fn dont_filter_files(&mut self)
        ensures
            final(self).bits() == (old(self).bits() ^ UPDATE_FILTER_FILES),
    ;

    fn request_filter_files(&mut self)
        ensures
            final(self).bits() == (old(self).bits() | UPDATE_FILTER_FILES),
    ;

    fn reset_current_index(&self) -> (r: bool)
        ensures
            r == ((self.bits() & UPDATE_RESET_CURRENT_INDEX) != 0),
    ;

    fn dont_reset_current_index(&mut self)
        ensures
            final(self).bits() == (old(self).bits() ^ UPDATE_RESET_CURRENT_INDEX),
    ;

    fn request_reset_current_index(&mut self)
        ensures
            final(self).bits() == (old(self).bits() | UPDATE_RESET_CURRENT_INDEX),
    ;

    fn reset_search(&self) -> (r: bool)
        ensures
            r == ((self.bits() & UPDATE_RESET_SEARCH) != 0),
    ;

    fn dont_reset_search(&mut self)
        ensures
            final(self).bits() == (old(self).bits() ^ UPDATE_RESET_SEARCH),
    ;

    fn request_reset_search(&mut self)
        ensures
            final(self).bits() == (old(self).bits() | UPDATE_RESET_SEARCH),
    ;

    fn rescanning_files_complete(&self) -> (r: bool)
        ensures
            r == ((self.bits() & UPDATE_RESCANNING_FILES_COMPLETE) != 0),
    ;

    fn dont_rescanning_files_complete(&mut self)
        ensures
            final(self).bits() == (old(self).bits() ^ UPDATE_RESCANNING_FILES_COMPLETE),
    ;

    fn request_rescanning_files_complete(&mut self)
        ensures
            final(self).bits() == (old(self).bits() | UPDATE_RESCANNING_FILES_COMPLETE),
    ;

    fn redraw_filebar(&self) -> (r: bool)
        ensures
            r == ((self.bits() & UPDATE_REDRAW_FILEBAR) != 0),
    ;

    fn dont_redraw_filebar(&mut self)
        ensures
            final(self).bits() == (old(self).bits() ^ UPDATE_REDRAW_FILEBAR),
    ;

    fn request_redraw_filebar(&mut self)
        ensures
            final(self).bits() == (old(self).bits() | UPDATE_REDRAW_FILEBAR),
    ;
}

impl Updates for u32 {
    open spec fn bits(&self) -> u32 {
        *self
    }

    fn request_redraw(&mut self) {
        self.request_redraw_infobar();
        self.request_redraw_searchbar();
        self.request_redraw_filelist();
        proof {
            let b = old(self).bits();
            assert(((b | UPDATE_REDRAW_INFOBAR) | UPDATE_REDRAW_SEARCHBAR)
                | UPDATE_REDRAW_FILELIST == (b | UPDATE_REDRAW_INFOBAR
                | UPDATE_REDRAW_SEARCHBAR | UPDATE_REDRAW_FILELIST)) by (bit_vector);
        }
    }

    fn rescan_files(&self) -> bool {
        0 != *self & UPDATE_RESCAN_FILES
    }

    fn dont_rescan_files(&mut self) {
        *self ^= UPDATE_RESCAN_FILES;
    }

    fn request_rescan_files(&mut self) {
        *self |= UPDATE_RESCAN_FILES;
    }

    fn clear(&self) -> bool {
        0 != *self & UPDATE_CLEAR
    }

    fn dont_clear(&mut self) {
        *self ^= UPDATE_CLEAR;
    }

    fn request_clear(&mut self) {
        *self |= UPDATE_CLEAR;
    }

    fn redraw_infobar(&self) -> bool {
        0 != *self & UPDATE_REDRAW_INFOBAR
    }

    fn dont_redraw_infobar(&mut self) {
        *self ^= UPDATE_REDRAW_INFOBAR;
    }

    fn request_redraw_infobar(&mut self) {
        *self |= UPDATE_REDRAW_INFOBAR;
    }

    fn redraw_searchbar(&self) -> bool {
        0 != *self & UPDATE_REDRAW_SEARCHBAR
    }

    fn dont_redraw_searchbar(&mut self) {
        *self ^= UPDATE_REDRAW_SEARCHBAR;
    }

    fn request_redraw_searchbar(&mut self) {
        *self |= UPDATE_REDRAW_SEARCHBAR;
    }

    fn redraw_filelist(&self) -> bool {
        0 != *self & UPDATE_REDRAW_FILELIST
    }

    fn dont_redraw_filelist(&mut self) {
        *self ^= UPDATE_REDRAW_FILELIST;
    }

    fn request_redraw_filelist(&mut self) {
        *self |= UPDATE_REDRAW_FILELIST;
    }

    fn move_cursor(&self) -> bool {
        0 != *self & UPDATE_MOVE_CURSOR
    }

    fn dont_move_cursor(&mut self) {
        *self ^= UPDATE_MOVE_CURSOR;
    }

    fn request_move_cursor(&mut self) {
        *self |= UPDATE_MOVE_CURSOR;
    }

    fn filter_files(&self) -> bool {
        0 != *self & UPDATE_FILTER_FILES
    }

    fn dont_filter_files(&mut self) {
        *self ^= UPDATE_FILTER_FILES;
    }

    fn request_filter_files(&mut self) {
        *self |= UPDATE_FILTER_FILES;
    }

    fn reset_current_index(&self) -> bool {
        0 != *self & UPDATE_RESET_CURRENT_INDEX
    }

    fn dont_reset_current_index(&mut self) {
        *self ^= UPDATE_RESET_CURRENT_INDEX;
    }

    fn request_reset_current_index(&mut self) {
        *self |= UPDATE_RESET_CURRENT_INDEX;
    }

    fn reset_search(&self) -> bool {
        0 != *self & UPDATE_RESET_SEARCH
    }

    fn dont_reset_search(&mut self) {
        *self ^= UPDATE_RESET_SEARCH;
    }

    fn request_reset_search(&mut self) {
        *self |= UPDATE_RESET_SEARCH;
    }

    fn rescanning_files_complete(&self) -> bool {
        0 != *self & UPDATE_RESCANNING_FILES_COMPLETE
    }

    fn dont_rescanning_files_complete(&mut self) {
        *self ^= UPDATE_RESCANNING_FILES_COMPLETE;
    }

    fn request_rescanning_files_complete(&mut self) {
        *self |= UPDATE_RESCANNING_FILES_COMPLETE;
    }

    fn redraw_filebar(&self) -> bool {
        0 != *self & UPDATE_REDRAW_FILEBAR
    }

    fn dont_redraw_filebar(&mut self) {
        *self ^= UPDATE_REDRAW_FILEBAR;
    }

    fn request_redraw_filebar(&mut self) {
        *self |= UPDATE_REDRAW_FILEBAR;
    }
}

/// Requesting an action that is already pending changes nothing:
/// requests are idempotent.
pub proof fn lemma_request_idempotent(b: u32, m: u32)
    ensures
        ((b | m) | m) == (b | m),
{
    assert(((b | m) | m) == (b | m)) by (bit_vector);
}

/// Two requests reach the same state in either order.
pub proof fn lemma_request_commutes(b: u32, m: u32, n: u32)
    ensures
        ((b | m) | n) == ((b | n) | m),
{
    assert(((b | m) | n) == ((b | n) | m)) by (bit_vector);
}

/// After a request the action reads as pending.
pub proof fn lemma_request_sets(b: u32, m: u32)
    requires
        m != 0,
    ensures
        ((b | m) & m) != 0,
{
    assert(m != 0 ==> ((b | m) & m) != 0) by (bit_vector);
}

/// Requesting one action leaves every disjoint action's bits unchanged.
pub proof fn lemma_request_preserves_disjoint(b: u32, m: u32, n: u32)
    requires
        m & n == 0,
    ensures
        ((b | m) & n) == (b & n),
{
    assert(m & n == 0 ==> ((b | m) & n) == (b & n)) by (bit_vector);
}

/// Consuming a pending action clears exactly its bits.
pub proof fn lemma_consume_clears(b: u32, m: u32)
    requires
        b & m == m,
    ensures
        ((b ^ m) & m) == 0,
{
    assert(b & m == m ==> ((b ^ m) & m) == 0) by (bit_vector);
}

/// Consuming one action leaves every disjoint action's bits unchanged.
pub proof fn lemma_consume_preserves_disjoint(b: u32, m: u32, n: u32)
    requires
        m & n == 0,
    ensures
        ((b ^ m) & n) == (b & n),
{
    assert(m & n == 0 ==> ((b ^ m) & n) == (b & n)) by (bit_vector);
}

/// A pending single-flag action reads back as the whole mask, so consuming
/// it afterwards clears it.
pub proof fn lemma_single_flag_full(b: u32, m: u32)
    requires
        m == UPDATE_RESCAN_FILES || m == UPDATE_CLEAR || m == UPDATE_REDRAW_INFOBAR
            || m == UPDATE_REDRAW_SEARCHBAR || m == UPDATE_REDRAW_FILELIST
            || m == UPDATE_MOVE_CURSOR || m == UPDATE_FILTER_FILES
            || m == UPDATE_RESET_CURRENT_INDEX || m == UPDATE_RESET_SEARCH
            || m == UPDATE_RESCANNING_FILES_COMPLETE || m == UPDATE_REDRAW_FILEBAR,
        b & m != 0,
    ensures
        b & m == m,
{
    assert((m == 0b1u32 || m == 0b10u32 || m == 0b100u32 || m == 0b1000u32
        || m == 0b10000u32 || m == 0b100000u32 || m == 0b1000000u32
        || m == 0b10000000u32 || m == 0b100000000u32 || m == 0b1000000000u32
        || m == 0b10000000000u32) && b & m != 0 ==> b & m == m) by (bit_vector);
}

} // verus!
