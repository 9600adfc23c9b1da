//! Display areas: one bit per part of the screen that may need redrawing.

#![allow(non_upper_case_globals)]

use vstd::prelude::*;

verus! {

pub type DArea = u64;

pub const TopText: DArea = 1u64 << 0u64;
pub const BotText: DArea = 1u64 << 1u64;
pub const EditArea: DArea = 1u64 << 2u64;
/// the 'all' flag for top text
pub const TTAllE: DArea = 1u64 << 3u64;
/// the 'all' flag for bot text
pub const BTAllE: DArea = 1u64 << 4u64;
/// the 'all' flag for edit area
pub const EAAllE: DArea = 1u64 << 5u64;
/// bot text cursor position display
pub const BTCuP: DArea = 1u64 << 6u64;
/// bot text message
pub const BTMsg: DArea = 1u64 << 7u64;
/// top text size display
pub const TTSize: DArea = 1u64 << 8u64;
/// top text saved status
pub const TTSaved: DArea = 1u64 << 9u64;
/// edit area cur line
pub const EACuL: DArea = 1u64 << 10u64;
/// edit area cur line + next (1) line
pub const EACuLNext: DArea = 1u64 << 11u64;
/// edit area cur line + next (all) lines
pub const EACuLNexts: DArea = 1u64 << 12u64;
/// edit area cur line + prev (1) line
pub const EACULPrev: DArea = 1u64 << 13u64;
/// top text all
pub const TTAll: DArea = TopText | TTSize | TTSaved | TTAllE;
/// bot text all
pub const BTAll: DArea = BotText | BTCuP | BTAllE | BTMsg;
/// edit area all
pub const EAAll: DArea = EditArea | EACuL | EACuLNext | EACuLNexts | EACULPrev | EAAllE;

} // verus!
