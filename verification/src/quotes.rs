//! The pure parts of the quote store: pagination tokens and the paging
//! arithmetic. The SQL rows themselves live outside; this module only
//! decides which page a token names and what token names the next page.

use crate::digits::parse_u64_radix;
use crate::digits::spec_hex16;
use crate::digits::spec_parse_u64;
use crate::digits::u64_to_hex16;
use vstd::prelude::*;

verus! {

/// How many quotes one page shows.
pub const PAGE_SIZE: i64 = 3;

/// A quote submission: author and text.
pub struct Payload {
    pub author: String,
    pub quote: String,
}

/// The query naming a pagination token.
pub struct ListQuery {
    pub token: String,
}

/// A page number reinterpreted as a plain 64-bit word, two's complement.
pub open spec fn page_bits(page: i64) -> u64 {
    if page >= 0 {
        page as u64
    } else {
        (page + 0x1_0000_0000_0000_0000) as u64
    }
}

/// The word a pagination token holds, reinterpreted as a page number,
/// two's complement.
pub open spec fn page_of_bits(w: u64) -> i64 {
    if w <= i64::MAX {
        w as i64
    } else {
        (w - 0x1_0000_0000_0000_0000) as i64
    }
}

/// Renders a page number as a 16-digit uppercase hexadecimal token.
pub fn encode_page(page: i64) -> (r: String)
    ensures
        r@ == spec_hex16(page_bits(page)),
{
    let w: u64 = if page >= 0 {
        page as u64
    } else {
        ((page as i128) + 0x1_0000_0000_0000_0000i128) as u64
    };
    u64_to_hex16(w)
}

/// Reads a pagination token back to a page number; anything
/// `u64::from_str_radix` would refuse is refused.
pub fn decode_page(token: &str) -> (r: Option<i64>)
    ensures
        r == match spec_parse_u64(token@, 16) {
            Some(w) => Some(page_of_bits(w)),
            None => None,
        },
{
    match parse_u64_radix(token, 16) {
        Some(w) => {
            if w <= i64::MAX as u64 {
                Some(w as i64)
            } else {
                Some(((w as i128) - 0x1_0000_0000_0000_0000i128) as i64)
            }
        },
        None => None,
    }
}

/// Page numbers whose row offset arithmetic fits a 64-bit signed word.
pub open spec fn page_in_range(page: int) -> bool {
    -3074457345618258602 <= page <= 3074457345618258601
}

/// What one listing request should fetch and report.
pub struct ListPlan {
    /// The row offset to fetch from.
    pub offset: i64,
    /// The one-based page label the response reports.
    pub page_label: i64,
    /// The token naming the next page, absent on the last page.
    pub next_token: Option<String>,
}

/// Turns a decoded page number and the total row count into the fetch
/// offset, the reported page label, and the next-page token. A token is
/// only issued while rows remain beyond this page. Refused only for page
/// numbers whose offset arithmetic would leave the 64-bit range.
pub fn plan_list_page(page: i64, count: i64) -> (r: Option<ListPlan>)
    ensures
        r is Some <==> page_in_range(page as int),
        r matches Some(p) ==> {
            &&& p.offset == PAGE_SIZE * page
            &&& p.page_label == page + 1
            &&& (p.next_token is Some <==> PAGE_SIZE * page + PAGE_SIZE < count)
            &&& (p.next_token matches Some(tok) ==> tok@ == spec_hex16(
                page_bits((page + 1) as i64),
            ))
        },
{
    if page < -3074457345618258602i64 || page > 3074457345618258601i64 {
        return None;
    }
    let offset: i64 = PAGE_SIZE * page;
    let next_token: Option<String> = if offset + PAGE_SIZE >= count {
        None
    } else {
        Some(encode_page(page + 1))
    };
    Some(ListPlan { offset, page_label: page + 1, next_token })
}

} // verus!
