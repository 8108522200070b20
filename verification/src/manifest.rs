//! The decisions behind the manifest endpoint, on a plain model of the
//! parsed manifest. Reading TOML, YAML or JSON into this model is the
//! adapters' business; everything the endpoint decides once the text is
//! parsed — the magic keyword gate and the order listing — is here.

use crate::digits::spec_dec;
use crate::digits::u64_to_dec;
use crate::text::str_eq;
use vstd::prelude::*;

verus! {

/// A value found in an order field: text, a whole number, or anything
/// else.
pub enum OrderValue {
    Text(String),
    Number(i64),
    Other,
}

/// One entry of the order list, fields as optional as the format leaves
/// them.
pub struct OrderEntry {
    pub item: Option<OrderValue>,
    pub quantity: Option<OrderValue>,
}

/// The package keyword list: inherited from a workspace, or given in
/// place.
pub enum Keywords {
    Inherited,
    Local(Vec<String>),
}

/// What the endpoint reads from a parsed manifest: the keyword list if the
/// package has one, and the metadata order list if the package has one.
pub struct ManifestInfo {
    pub keywords: Option<Keywords>,
    pub orders: Option<Vec<OrderEntry>>,
}

/// How a manifest request ends once the text is parsed.
pub enum ManifestVerdict {
    /// The magic keyword is missing.
    NoKeyword,
    /// The keyword is there but no order list, or no valid order, is.
    NoOrders,
    /// The newline-joined listing of the valid orders.
    Orders(String),
}

/// Whether a word list holds the magic keyword.
pub open spec fn contains_magic(words: Seq<String>) -> bool {
    exists|i: int| 0 <= i < words.len() && words[i]@ == "Christmas 2024"@
}

/// Whether the keyword list names the magic keyword in place; an inherited
/// or missing list never does.
pub open spec fn spec_has_magic(kw: Option<Keywords>) -> bool {
    match kw {
        Some(Keywords::Local(v)) => contains_magic(v@),
        _ => false,
    }
}

/// The text and count a valid order contributes: its item must be text
/// and its quantity a whole number that fits an unsigned 32-bit word.
pub open spec fn spec_valid_order(o: OrderEntry) -> Option<(Seq<char>, u32)> {
    match o.item {
        Some(OrderValue::Text(s)) => match o.quantity {
            Some(OrderValue::Number(q)) => if 0 <= q <= u32::MAX {
                Some((s@, q as u32))
            } else {
                None
            },
            _ => None,
        },
        _ => None,
    }
}

/// One listed order line.
pub open spec fn spec_order_line(item: Seq<char>, q: u32) -> Seq<char> {
    item + ": "@ + spec_dec(q as u64)
}

/// The count of valid orders among the first `n`, and their listing,
/// newline separated.
pub open spec fn spec_orders_text(orders: Seq<OrderEntry>, n: int) -> (int, Seq<char>)
    decreases n,
{
    if n <= 0 {
        (0int, Seq::<char>::empty())
    } else {
        let (c, t) = spec_orders_text(orders, n - 1);
        match spec_valid_order(orders[n - 1]) {
            Some(line) => (
                c + 1,
                if c > 0 {
                    t + "\n"@ + spec_order_line(line.0, line.1)
                } else {
                    t + spec_order_line(line.0, line.1)
                },
            ),
            None => (c, t),
        }
    }
}

/// Whether the keyword list names the magic keyword in place.
pub fn has_magic_keyword(kw: &Option<Keywords>) -> (r: bool)
    ensures
        r == spec_has_magic(*kw),
{
    match kw {
        Some(k) => match k {
            Keywords::Local(v) => {
                let mut i: usize = 0;
                let n = v.len();
                while i < n
                    invariant
                        i <= n,
                        n == v@.len(),
                        *kw == Some(Keywords::Local(*v)),
                        forall|j: int| 0 <= j < i as int ==> v@[j]@ != "Christmas 2024"@,
                        spec_has_magic(*kw) == contains_magic(v@),
                    decreases n - i,
                {
                    if str_eq(v[i].as_str(), "Christmas 2024") {
                        proof {
                            let ghost j = i as int;
                            assert(0 <= j < v@.len() && v@[j]@ == "Christmas 2024"@);
                            assert(contains_magic(v@));
                        }
                        return true;
                    }
                    i = i + 1;
                }
                false
            },
            Keywords::Inherited => false,
        },
        None => false,
    }
}

/// Judges a parsed manifest: the magic keyword gate first, then the
/// newline-joined listing of the valid orders, if any are.
pub fn evaluate_manifest(info: &ManifestInfo) -> (r: ManifestVerdict)
    ensures
        r is NoKeyword <==> !spec_has_magic(info.keywords),
        r is NoOrders <==> (spec_has_magic(info.keywords) && (info.orders is None
            || spec_orders_text(info.orders->Some_0@, info.orders->Some_0@.len() as int).0
            == 0)),
        r matches ManifestVerdict::Orders(s) ==> info.orders matches Some(v) && s@
            == spec_orders_text(v@, v@.len() as int).1 && spec_orders_text(
            v@,
            v@.len() as int,
        ).0 > 0,
    {
    if !has_magic_keyword(&info.keywords) {
        return ManifestVerdict::NoKeyword;
    }
    let orders: &Vec<OrderEntry> = match &info.orders {
        Some(v) => v,
        None => {
            return ManifestVerdict::NoOrders;
        },
    };
    let mut count: u64 = 0;
    let mut text = String::new();
    let mut i: usize = 0;
    let n = orders.len();
    while i < n
        invariant
            i <= n,
            n == orders@.len(),
            count <= i,
            spec_orders_text(orders@, i as int) == (count as int, text@),
        decreases n - i,
    {
        let entry = &orders[i];
        match &entry.item {
            Some(OrderValue::Text(item)) => {
                match &entry.quantity {
                    Some(OrderValue::Number(q)) => {
                        if 0 <= *q && *q <= u32::MAX as i64 {
                            if count > 0 {
                                text.append("\n");
                            }
                            text.append(item.as_str());
                            text.append(": ");
                            let dec = u64_to_dec(*q as u64);
                            text.append(dec.as_str());
                            count = count + 1;
                            proof {
                                assert(spec_valid_order(orders@[i as int]) matches Some(p)
                                    && p.0 == item@ && p.1 == *q as u32);
                                assert(text@ =~= spec_orders_text(orders@, i as int + 1).1);
                            }
                        } else {
                            proof {
                                assert(spec_valid_order(orders@[i as int]) is None);
                            }
                        }
                    },
                    _ => {
                        proof {
                            assert(spec_valid_order(orders@[i as int]) is None);
                        }
                    },
                }
            },
            _ => {
                proof {
                    assert(spec_valid_order(orders@[i as int]) is None);
                }
            },
        }
        i = i + 1;
    }
    if count == 0 {
        ManifestVerdict::NoOrders
    } else {
        ManifestVerdict::Orders(text)
    }
}

} // verus!
