//! The dialog text formats: `key: value` lines with `#` comments.
//!
//! Three dialog fields carry such blocks: the menu (`name: price`), the
//! shortage adjustments (`order id: new quantity`), and the session
//! metadata (`key: value`).  Each parser rejects exactly what its
//! specification says, line by line.

use vstd::prelude::*;

use crate::model::Item;
use crate::money::{
    find_char, find_char_at, money_str, price_value, quantity_value, Money, PriceParseError,
    MAX_QUANTITY,
};

verus! {

/// Whether `c` is one of the whitespace characters these formats strip.
pub open spec fn is_ws(c: char) -> bool {
    c == ' ' || c == '\t' || c == '\r' || c == '\n'
}

/// `s` without leading whitespace.
pub open spec fn trim_front(s: Seq<char>) -> Seq<char>
    decreases s.len(),
{
    if s.len() > 0 && is_ws(s[0]) {
        trim_front(s.drop_first())
    } else {
        s
    }
}

/// `s` without trailing whitespace.
pub open spec fn trim_back(s: Seq<char>) -> Seq<char>
    decreases s.len(),
{
    if s.len() > 0 && is_ws(s.last()) {
        trim_back(s.drop_last())
    } else {
        s
    }
}

/// `s` without leading or trailing whitespace.
pub open spec fn trim_spec(s: Seq<char>) -> Seq<char> {
    trim_back(trim_front(s))
}

/// The lines of `s`, split at every newline.
pub open spec fn split_lines(s: Seq<char>) -> Seq<Seq<char>>
    decreases s.len(),
{
    match find_char(s, '\n') {
        None => seq![s],
        Some(i) => if 0 <= i < s.len() {
            seq![s.take(i)] + split_lines(s.skip(i + 1))
        } else {
            seq![s]
        },
    }
}

/// The views of a list of line texts.
pub open spec fn lines_view(v: Seq<String>) -> Seq<Seq<char>> {
    v.map_values(|x: String| x@)
}

proof fn lemma_trim_front_skip(s: Seq<char>, k: int)
    requires
        0 <= k <= s.len(),
        forall|j: int| 0 <= j < k ==> is_ws(#[trigger] s[j]),
    ensures
        trim_front(s) == trim_front(s.skip(k)),
    decreases k,
{
    if k > 0 {
        assert(is_ws(s[0]));
        assert(s.drop_first() =~= s.skip(1));
        assert(forall|j: int| 0 <= j < k - 1 ==> is_ws(#[trigger] s.skip(1)[j]));
        lemma_trim_front_skip(s.skip(1), k - 1);
        assert(s.skip(1).skip(k - 1) =~= s.skip(k));
    } else {
        assert(s.skip(0) =~= s);
    }
}

proof fn lemma_trim_back_take(s: Seq<char>, k: int)
    requires
        0 <= k <= s.len(),
        forall|j: int| k <= j < s.len() ==> is_ws(#[trigger] s[j]),
    ensures
        trim_back(s) == trim_back(s.take(k)),
    decreases s.len() - k,
{
    if k < s.len() {
        assert(is_ws(s.last()));
        assert(s.drop_last() =~= s.take(s.len() - 1));
        assert(forall|j: int|
            k <= j < s.take(s.len() - 1).len() ==> is_ws(#[trigger] s.take(s.len() - 1)[j]));
        lemma_trim_back_take(s.take(s.len() - 1), k);
        assert(s.take(s.len() - 1).take(k) =~= s.take(k));
    } else {
        assert(s.take(k) =~= s);
    }
}

/// Whether `c` is stripped by trimming.
fn is_ws_char(c: char) -> (r: bool)
    ensures
        r == is_ws(c),
{
    c == ' ' || c == '\t' || c == '\r' || c == '\n'
}

/// Strips leading and trailing whitespace from a line.
pub fn trim_text(s: &str) -> (r: String)
    ensures
        r@ == trim_spec(s@),
{
    let n = s.unicode_len();
    let mut a: usize = 0;
    while a < n && is_ws_char(s.get_char(a))
        invariant
            0 <= a <= n,
            n == s@.len(),
            forall|j: int| 0 <= j < a ==> is_ws(#[trigger] s@[j]),
        decreases n - a,
    {
        a = a + 1;
    }
    proof {
        lemma_trim_front_skip(s@, a as int);
    }
    if a == n {
        proof {
            assert(s@.skip(a as int) =~= Seq::<char>::empty());
        }
        let out = String::new();
        assert(out@ =~= trim_spec(s@));
        return out;
    }
    let ghost rest = s@.skip(a as int);
    assert(trim_front(s@) == rest);
    let mut b: usize = n;
    while b > a && is_ws_char(s.get_char(b - 1))
        invariant
            a <= b <= n,
            n == s@.len(),
            a < n,
            !is_ws(s@[a as int]),
            forall|j: int| b <= j < n ==> is_ws(#[trigger] s@[j]),
        decreases b,
    {
        b = b - 1;
    }
    assert(!is_ws(s@[b - 1]));
    proof {
        assert(forall|j: int|
            b - a <= j < rest.len() ==> is_ws(#[trigger] rest[j]));
        lemma_trim_back_take(rest, b - a);
        assert(rest.take(b - a) =~= s@.subrange(a as int, b as int));
        let kept = rest.take(b - a);
        assert(kept.len() > 0 && !is_ws(kept.last()));
        assert(trim_back(kept) == kept);
    }
    let piece = s.substring_char(a, b);
    String::from_str(piece)
}

/// Splits a text into its lines.
pub fn split_to_lines(s: &str) -> (r: Vec<String>)
    ensures
        lines_view(r@) == split_lines(s@),
{
    let n = s.unicode_len();
    let mut out: Vec<String> = Vec::new();
    let mut p: usize = 0;
    proof {
        assert(s@.skip(0) =~= s@);
        assert(lines_view(out@) =~= Seq::<Seq<char>>::empty());
    }
    loop
        invariant_except_break
            0 <= p <= n,
            n == s@.len(),
            split_lines(s@) =~= lines_view(out@) + split_lines(s@.skip(p as int)),
        ensures
            split_lines(s@) =~= lines_view(out@),
        decreases n - p,
    {
        let mut q: usize = p;
        while q < n && s.get_char(q) != '\n'
            invariant
                p <= q <= n,
                n == s@.len(),
                forall|j: int| p <= j < q ==> s@[j] != '\n',
            decreases n - q,
        {
            q = q + 1;
        }
        let ghost rem = s@.skip(p as int);
        proof {
            assert(forall|j: int| 0 <= j < q - p ==> rem[j] == s@[p + j]);
        }
        let piece = s.substring_char(p, q);
        out.push(String::from_str(piece));
        if q < n {
            proof {
                assert(rem[q - p] == s@[q as int]);
                crate::money::lemma_find_char_first(rem, '\n', q - p);
                assert(split_lines(rem) == seq![rem.take(q - p)] + split_lines(
                    rem.skip(q - p + 1),
                ));
                assert(rem.take(q - p) =~= s@.subrange(p as int, q as int));
                assert(rem.skip(q - p + 1) =~= s@.skip(q + 1));
                assert(lines_view(out@) =~= lines_view(out@.drop_last()) + seq![piece@]);
            }
            p = q + 1;
        } else {
            proof {
                assert(forall|j: int| 0 <= j < rem.len() ==> rem[j] == s@[p + j]);
                crate::money::lemma_find_char_absent(rem, '\n');
                assert(split_lines(rem) == seq![rem]);
                assert(rem =~= s@.subrange(p as int, n as int));
                assert(lines_view(out@) =~= lines_view(out@.drop_last()) + seq![piece@]);
                assert(split_lines(s@) =~= lines_view(out@));
            }
            break;
        }
    }
    out
}

/// Why a dialog block was rejected.
#[derive(Clone, Copy, Debug, PartialEq, Eq, Structural)]
pub enum YamlError {
    /// A non-comment line without a colon.
    MalformedLine,
    /// A line whose key is empty.
    EmptyName,
    /// A price that does not parse as a non-negative decimal.
    BadPrice,
    /// A negative price.
    NegativePrice,
    /// A price above the accepted bound.
    PriceTooLarge,
    /// A quantity that does not parse as an integer.
    BadQuantity,
    /// A negative quantity.
    NegativeQuantity,
    /// A quantity above the accepted bound.
    QuantityTooLarge,
}

/// First index of a pair with this key, if any.
pub open spec fn find_key<V>(ps: Seq<(Seq<char>, V)>, key: Seq<char>) -> Option<int>
    decreases ps.len(),
{
    if ps.len() == 0 {
        None
    } else if ps[0].0 == key {
        Some(0)
    } else {
        match find_key(ps.drop_first(), key) {
            Some(i) => Some(i + 1),
            None => None,
        }
    }
}

/// Inserts or replaces the value under `key`, keeping first-seen order.
pub open spec fn upsert<V>(ps: Seq<(Seq<char>, V)>, key: Seq<char>, v: V) -> Seq<(Seq<char>, V)> {
    match find_key(ps, key) {
        Some(i) => ps.update(i, (key, v)),
        None => ps.push((key, v)),
    }
}

/// The menu a block of `name: price` lines denotes, carried line by line:
/// blank and `#` lines are skipped, every other line must split at its first
/// colon into a non-empty name and a non-negative bounded price.
pub open spec fn parse_items_spec(
    lines: Seq<Seq<char>>,
    acc: Seq<(Seq<char>, int)>,
) -> Result<Seq<(Seq<char>, int)>, YamlError>
    decreases lines.len(),
{
    if lines.len() == 0 {
        Ok(acc)
    } else {
        let t = trim_spec(lines[0]);
        if t.len() == 0 || t[0] == '#' {
            parse_items_spec(lines.drop_first(), acc)
        } else {
            match find_char(t, ':') {
                None => Err(YamlError::MalformedLine),
                Some(i) => {
                    let name = trim_spec(t.take(i));
                    let price_text = trim_spec(t.skip(i + 1));
                    if name.len() == 0 {
                        Err(YamlError::EmptyName)
                    } else if price_text.len() > 0 && price_text[0] == '-' && price_value(
                        price_text.drop_first(),
                    ) is Some {
                        Err(YamlError::NegativePrice)
                    } else {
                        match price_value(price_text) {
                            None => Err(YamlError::BadPrice),
                            Some(v) => if v > crate::money::MAX_PRICE_CENTS {
                                Err(YamlError::PriceTooLarge)
                            } else {
                                parse_items_spec(lines.drop_first(), upsert(acc, name, v))
                            },
                        }
                    }
                },
            }
        }
    }
}

/// The name-to-hundredths pairs a menu holds.
pub open spec fn items_pairs(items: Seq<Item>) -> Seq<(Seq<char>, int)> {
    items.map_values(|it: Item| (it.name@, it.price.cents as int))
}

/// First index of the item with this name, by linear scan.
fn item_index(items: &Vec<Item>, name: &str) -> (r: Option<usize>)
    ensures
        match r {
            Some(i) => find_key(items_pairs(items@), name@) == Some(i as int) && i
                < items@.len(),
            None => find_key(items_pairs(items@), name@) is None,
        },
{
    let mut i: usize = 0;
    while i < items.len()
        invariant
            0 <= i <= items@.len(),
            forall|j: int| 0 <= j < i ==> (#[trigger] items@[j].name)@ != name@,
        decreases items@.len() - i,
    {
        if crate::model::str_eq(items[i].name.as_str(), name) {
            proof {
                lemma_find_key_first(items_pairs(items@), name@, i as int);
            }
            return Some(i);
        }
        i = i + 1;
    }
    proof {
        lemma_find_key_absent(items_pairs(items@), name@);
    }
    None
}

proof fn lemma_find_key_first<V>(ps: Seq<(Seq<char>, V)>, key: Seq<char>, i: int)
    requires
        0 <= i < ps.len(),
        ps[i].0 == key,
        forall|j: int| 0 <= j < i ==> (#[trigger] ps[j]).0 != key,
    ensures
        find_key(ps, key) == Some(i),
    decreases ps.len(),
{
    if i > 0 {
        assert(forall|j: int|
            0 <= j < ps.drop_first().len() ==> #[trigger] ps.drop_first()[j] == ps[j + 1]);
        lemma_find_key_first(ps.drop_first(), key, i - 1);
    }
}

proof fn lemma_find_key_absent<V>(ps: Seq<(Seq<char>, V)>, key: Seq<char>)
    requires
        forall|j: int| 0 <= j < ps.len() ==> (#[trigger] ps[j]).0 != key,
    ensures
        find_key(ps, key) is None,
    decreases ps.len(),
{
    if ps.len() > 0 {
        assert(forall|j: int|
            0 <= j < ps.drop_first().len() ==> #[trigger] ps.drop_first()[j] == ps[j + 1]);
        lemma_find_key_absent(ps.drop_first(), key);
    }
}

/// Parses a menu block.  On success the result is exactly the mapping the
/// block denotes, and is a well-formed menu.
pub fn parse_items_yaml(yaml: &str) -> (r: Result<Vec<Item>, YamlError>)
    ensures
        match r {
            Ok(items) => parse_items_spec(split_lines(yaml@), Seq::empty()) == Ok::<
                _,
                YamlError,
            >(items_pairs(items@)) && crate::model::items_wf(items@),
            Err(e) => parse_items_spec(split_lines(yaml@), Seq::empty()) == Err::<
                Seq<(Seq<char>, int)>,
                _,
            >(e),
        },
{
    let lines = split_to_lines(yaml);
    let ghost all = split_lines(yaml@);
    let mut out: Vec<Item> = Vec::new();
    let mut k: usize = 0;
    proof {
        assert(all.skip(0) =~= all);
        assert(items_pairs(out@) =~= Seq::<(Seq<char>, int)>::empty());
    }
    while k < lines.len()
        invariant
            0 <= k <= lines@.len(),
            all == split_lines(yaml@),
            lines_view(lines@) == all,
            parse_items_spec(all, Seq::empty()) == parse_items_spec(
                all.skip(k as int),
                items_pairs(out@),
            ),
            crate::model::items_wf(out@),
        decreases lines@.len() - k,
    {
        proof {
            assert(all.len() == lines@.len());
            assert(all.skip(k as int)[0] == lines@[k as int]@);
            assert(all.skip(k as int).drop_first() =~= all.skip(k + 1));
        }
        let line = trim_text(lines[k].as_str());
        let t = line.as_str();
        let n = t.unicode_len();
        if n == 0 || t.get_char(0) == '#' {
            k = k + 1;
            continue;
        }
        let colon = match find_char_at(t, ':') {
            Some(c) => c,
            None => {
                return Err(YamlError::MalformedLine);
            },
        };
        let name_text = trim_text(t.substring_char(0, colon));
        let price_text = trim_text(t.substring_char(colon + 1, n));
        proof {
            assert(t@.subrange(0, colon as int) =~= t@.take(colon as int));
            assert(t@.subrange(colon + 1, n as int) =~= t@.skip(colon + 1));
        }
        if name_text.as_str().unicode_len() == 0 {
            return Err(YamlError::EmptyName);
        }
        let price = match Money::parse(price_text.as_str()) {
            Ok(m) => {
                proof {
                    crate::money::lemma_price_value_not_minus(price_text@);
                }
                m
            },
            Err(PriceParseError::Negative) => {
                return Err(YamlError::NegativePrice);
            },
            Err(PriceParseError::TooLarge) => {
                proof {
                    crate::money::lemma_price_value_not_minus(price_text@);
                }
                return Err(YamlError::PriceTooLarge);
            },
            Err(PriceParseError::Malformed) => {
                return Err(YamlError::BadPrice);
            },
        };
        let ghost pre_pairs = items_pairs(out@);
        let ghost pre_items = out@;
        match item_index(&out, name_text.as_str()) {
            Some(i) => {
                proof {
                    lemma_find_key_props(pre_pairs, name_text@);
                    assert(pre_items[i as int].name@ == name_text@);
                }
                let slot = &mut out[i];
                slot.name = name_text;
                slot.price = price;
                proof {
                    assert(items_pairs(out@) =~= upsert(
                        pre_pairs,
                        name_text@,
                        price.cents as int,
                    ));
                    assert(forall|x: int|
                        0 <= x < out@.len() ==> (#[trigger] out@[x].name)@
                            == pre_items[x].name@);
                    assert(forall|x: int|
                        0 <= x < out@.len() ==> (#[trigger] out@[x].price).cents
                            <= crate::money::MAX_PRICE_CENTS);
                    assert(crate::model::items_wf(out@));
                }
            },
            None => {
                proof {
                    lemma_find_key_props(pre_pairs, name_text@);
                }
                out.push(Item { name: name_text, price });
                proof {
                    assert(items_pairs(out@) =~= upsert(
                        pre_pairs,
                        name_text@,
                        price.cents as int,
                    ));
                    assert forall|x: int|
                        0 <= x < pre_items.len() implies (#[trigger] pre_items[x].name)@
                        != name_text@ by {
                        assert(pre_pairs[x].0 == pre_items[x].name@);
                        assert(pre_pairs[x].0 != name_text@);
                    }
                    assert(crate::model::items_wf(out@));
                }
            },
        }
        k = k + 1;
    }
    proof {
        assert(all.skip(lines@.len() as int) =~= Seq::<Seq<char>>::empty());
    }
    Ok(out)
}

/// The order-id-to-quantity pairs an adjustment block denotes: blank and
/// comment lines are skipped (the block is pre-filled with comments);
/// every other line must split at its first colon into a non-empty order
/// id and a bounded non-negative integer — a malformed line rejects the
/// whole block.
pub open spec fn parse_adjustments_spec(
    lines: Seq<Seq<char>>,
    acc: Seq<(Seq<char>, u32)>,
) -> Result<Seq<(Seq<char>, u32)>, YamlError>
    decreases lines.len(),
{
    if lines.len() == 0 {
        Ok(acc)
    } else {
        let t = trim_spec(lines[0]);
        if t.len() == 0 || t[0] == '#' {
            parse_adjustments_spec(lines.drop_first(), acc)
        } else {
            match find_char(t, ':') {
                None => Err(YamlError::MalformedLine),
                Some(i) => {
                    let order_id = trim_spec(t.take(i));
                    let qty_text = trim_spec(t.skip(i + 1));
                    if order_id.len() == 0 {
                        Err(YamlError::EmptyName)
                    } else if qty_text.len() > 0 && qty_text[0] == '-' && quantity_value(
                        qty_text.drop_first(),
                    ) is Some {
                        Err(YamlError::NegativeQuantity)
                    } else {
                        match quantity_value(qty_text) {
                            None => Err(YamlError::BadQuantity),
                            Some(v) => if v > MAX_QUANTITY {
                                Err(YamlError::QuantityTooLarge)
                            } else {
                                parse_adjustments_spec(
                                    lines.drop_first(),
                                    upsert(acc, order_id, v as u32),
                                )
                            },
                        }
                    }
                },
            }
        }
    }
}

/// The key views of a list of keyed quantities.
pub open spec fn quantity_pairs(v: Seq<(String, u32)>) -> Seq<(Seq<char>, u32)> {
    v.map_values(|p: (String, u32)| (p.0@, p.1))
}

/// First index of the pair keyed by `key`, by linear scan.
fn pair_index(v: &Vec<(String, u32)>, key: &str) -> (r: Option<usize>)
    ensures
        match r {
            Some(i) => find_key(quantity_pairs(v@), key@) == Some(i as int) && i < v@.len(),
            None => find_key(quantity_pairs(v@), key@) is None,
        },
{
    let mut i: usize = 0;
    while i < v.len()
        invariant
            0 <= i <= v@.len(),
            forall|j: int| 0 <= j < i ==> (#[trigger] v@[j]).0@ != key@,
        decreases v@.len() - i,
    {
        if crate::model::str_eq(v[i].0.as_str(), key) {
            proof {
                lemma_find_key_first(quantity_pairs(v@), key@, i as int);
            }
            return Some(i);
        }
        i = i + 1;
    }
    proof {
        lemma_find_key_absent(quantity_pairs(v@), key@);
    }
    None
}

/// Parses an adjustment block.  On success the result is exactly the
/// mapping the block denotes, every quantity within bounds.
pub fn parse_adjustments_yaml(yaml: &str) -> (r: Result<Vec<(String, u32)>, YamlError>)
    ensures
        match r {
            Ok(advs) => parse_adjustments_spec(split_lines(yaml@), Seq::empty()) == Ok::<
                _,
                YamlError,
            >(quantity_pairs(advs@)) && (forall|t: int|
                0 <= t < advs@.len() ==> (#[trigger] advs@[t]).1 <= MAX_QUANTITY),
            Err(e) => parse_adjustments_spec(split_lines(yaml@), Seq::empty()) == Err::<
                Seq<(Seq<char>, u32)>,
                _,
            >(e),
        },
{
    let lines = split_to_lines(yaml);
    let ghost all = split_lines(yaml@);
    let mut out: Vec<(String, u32)> = Vec::new();
    let mut k: usize = 0;
    proof {
        assert(all.skip(0) =~= all);
        assert(quantity_pairs(out@) =~= Seq::<(Seq<char>, u32)>::empty());
    }
    while k < lines.len()
        invariant
            0 <= k <= lines@.len(),
            all == split_lines(yaml@),
            lines_view(lines@) == all,
            parse_adjustments_spec(all, Seq::empty()) == parse_adjustments_spec(
                all.skip(k as int),
                quantity_pairs(out@),
            ),
            forall|t: int| 0 <= t < out@.len() ==> (#[trigger] out@[t]).1 <= MAX_QUANTITY,
        decreases lines@.len() - k,
    {
        proof {
            assert(all.len() == lines@.len());
            assert(all.skip(k as int)[0] == lines@[k as int]@);
            assert(all.skip(k as int).drop_first() =~= all.skip(k + 1));
        }
        let line = trim_text(lines[k].as_str());
        let t = line.as_str();
        let n = t.unicode_len();
        if n == 0 || t.get_char(0) == '#' {
            k = k + 1;
            continue;
        }
        let colon = match find_char_at(t, ':') {
            Some(c) => c,
            None => {
                return Err(YamlError::MalformedLine);
            },
        };
        let order_id = trim_text(t.substring_char(0, colon));
        let qty_text = trim_text(t.substring_char(colon + 1, n));
        proof {
            assert(t@.subrange(0, colon as int) =~= t@.take(colon as int));
            assert(t@.subrange(colon + 1, n as int) =~= t@.skip(colon + 1));
        }
        if order_id.as_str().unicode_len() == 0 {
            return Err(YamlError::EmptyName);
        }
        let qty = match crate::money::parse_quantity(qty_text.as_str()) {
            Ok(q) => {
                proof {
                    assert(crate::money::is_digit(qty_text@[0]));
                    assert(qty_text@[0] != '-');
                }
                q
            },
            Err(crate::money::QuantityParseError::Negative) => {
                return Err(YamlError::NegativeQuantity);
            },
            Err(crate::money::QuantityParseError::TooLarge) => {
                proof {
                    assert(crate::money::is_digit(qty_text@[0]));
                    assert(qty_text@[0] != '-');
                }
                return Err(YamlError::QuantityTooLarge);
            },
            Err(crate::money::QuantityParseError::Malformed) => {
                return Err(YamlError::BadQuantity);
            },
        };
        let ghost pre_pairs = quantity_pairs(out@);
        match pair_index(&out, order_id.as_str()) {
            Some(i) => {
                let slot = &mut out[i];
                slot.0 = order_id;
                slot.1 = qty;
                proof {
                    assert(quantity_pairs(out@) =~= upsert(pre_pairs, order_id@, qty));
                }
            },
            None => {
                out.push((order_id, qty));
                proof {
                    assert(quantity_pairs(out@) =~= upsert(pre_pairs, order_id@, qty));
                }
            },
        }
        k = k + 1;
    }
    proof {
        assert(all.skip(lines@.len() as int) =~= Seq::<Seq<char>>::empty());
    }
    Ok(out)
}

/// The key/value pairs a metadata block denotes: blank and comment lines
/// are skipped; every other line must split at its first colon into a
/// non-empty key and a value, both trimmed.
pub open spec fn parse_metadata_spec(
    lines: Seq<Seq<char>>,
    acc: Seq<(Seq<char>, Seq<char>)>,
) -> Result<Seq<(Seq<char>, Seq<char>)>, YamlError>
    decreases lines.len(),
{
    if lines.len() == 0 {
        Ok(acc)
    } else {
        let t = trim_spec(lines[0]);
        if t.len() == 0 || t[0] == '#' {
            parse_metadata_spec(lines.drop_first(), acc)
        } else {
            match find_char(t, ':') {
                None => Err(YamlError::MalformedLine),
                Some(i) => {
                    let key = trim_spec(t.take(i));
                    let value = trim_spec(t.skip(i + 1));
                    if key.len() == 0 {
                        Err(YamlError::EmptyName)
                    } else {
                        parse_metadata_spec(lines.drop_first(), upsert(acc, key, value))
                    }
                },
            }
        }
    }
}

/// The views of a list of string pairs.
pub open spec fn string_pairs(v: Seq<(String, String)>) -> Seq<(Seq<char>, Seq<char>)> {
    v.map_values(|p: (String, String)| (p.0@, p.1@))
}

/// First index of the pair keyed by `key`, by linear scan.
fn meta_index(v: &Vec<(String, String)>, key: &str) -> (r: Option<usize>)
    ensures
        match r {
            Some(i) => find_key(string_pairs(v@), key@) == Some(i as int) && i < v@.len(),
            None => find_key(string_pairs(v@), key@) is None,
        },
{
    let mut i: usize = 0;
    while i < v.len()
        invariant
            0 <= i <= v@.len(),
            forall|j: int| 0 <= j < i ==> (#[trigger] v@[j]).0@ != key@,
        decreases v@.len() - i,
    {
        if crate::model::str_eq(v[i].0.as_str(), key) {
            proof {
                lemma_find_key_first(string_pairs(v@), key@, i as int);
            }
            return Some(i);
        }
        i = i + 1;
    }
    proof {
        lemma_find_key_absent(string_pairs(v@), key@);
    }
    None
}

/// Parses a metadata block.  On success the result is exactly the mapping
/// the block denotes.
pub fn parse_metadata_yaml(yaml: &str) -> (r: Result<Vec<(String, String)>, YamlError>)
    ensures
        match r {
            Ok(meta) => parse_metadata_spec(split_lines(yaml@), Seq::empty()) == Ok::<
                _,
                YamlError,
            >(string_pairs(meta@)),
            Err(e) => parse_metadata_spec(split_lines(yaml@), Seq::empty()) == Err::<
                Seq<(Seq<char>, Seq<char>)>,
                _,
            >(e),
        },
{
    let lines = split_to_lines(yaml);
    let ghost all = split_lines(yaml@);
    let mut out: Vec<(String, String)> = Vec::new();
    let mut k: usize = 0;
    proof {
        assert(all.skip(0) =~= all);
        assert(string_pairs(out@) =~= Seq::<(Seq<char>, Seq<char>)>::empty());
    }
    while k < lines.len()
        invariant
            0 <= k <= lines@.len(),
            all == split_lines(yaml@),
            lines_view(lines@) == all,
            parse_metadata_spec(all, Seq::empty()) == parse_metadata_spec(
                all.skip(k as int),
                string_pairs(out@),
            ),
        decreases lines@.len() - k,
    {
        proof {
            assert(all.len() == lines@.len());
            assert(all.skip(k as int)[0] == lines@[k as int]@);
            assert(all.skip(k as int).drop_first() =~= all.skip(k + 1));
        }
        let line = trim_text(lines[k].as_str());
        let t = line.as_str();
        let n = t.unicode_len();
        if n == 0 || t.get_char(0) == '#' {
            k = k + 1;
            continue;
        }
        let colon = match find_char_at(t, ':') {
            Some(c) => c,
            None => {
                return Err(YamlError::MalformedLine);
            },
        };
        let key = trim_text(t.substring_char(0, colon));
        let value = trim_text(t.substring_char(colon + 1, n));
        proof {
            assert(t@.subrange(0, colon as int) =~= t@.take(colon as int));
            assert(t@.subrange(colon + 1, n as int) =~= t@.skip(colon + 1));
        }
        if key.as_str().unicode_len() == 0 {
            return Err(YamlError::EmptyName);
        }
        let ghost pre_pairs = string_pairs(out@);
        match meta_index(&out, key.as_str()) {
            Some(i) => {
                let slot = &mut out[i];
                slot.0 = key;
                slot.1 = value;
                proof {
                    assert(string_pairs(out@) =~= upsert(pre_pairs, key@, value@));
                }
            },
            None => {
                out.push((key, value));
                proof {
                    assert(string_pairs(out@) =~= upsert(pre_pairs, key@, value@));
                }
            },
        }
        k = k + 1;
    }
    proof {
        assert(all.skip(lines@.len() as int) =~= Seq::<Seq<char>>::empty());
    }
    Ok(out)
}

/// One rendered menu line per item, in menu order.
pub open spec fn items_yaml_lines(items: Seq<Item>) -> Seq<char>
    decreases items.len(),
{
    if items.len() == 0 {
        Seq::empty()
    } else {
        items_yaml_lines(items.drop_last()) + items.last().name@ + seq![':', ' '] + money_str(
            items.last().price.cents as int,
        ) + seq!['\n']
    }
}

/// The menu block the edit dialog is pre-filled with: one `name: price`
/// line per item, or a commented sample line while only the placeholder
/// item is present.
pub open spec fn items_yaml(items: Seq<Item>) -> Seq<char> {
    if items.len() == 1 && items[0].name@ == "範例商品"@ {
        "# 範例商品: 10\n"@
    } else {
        items_yaml_lines(items)
    }
}

/// Renders the menu back into the dialog block format.
pub fn items_to_yaml(items: &Vec<Item>) -> (r: String)
    ensures
        r@ == items_yaml(items@),
{
    if items.len() == 1 && crate::model::str_eq(items[0].name.as_str(), "範例商品") {
        return String::from_str("# 範例商品: 10\n");
    }
    let mut out = String::new();
    let mut i: usize = 0;
    assert(out@ =~= items_yaml_lines(items@.take(0)));
    while i < items.len()
        invariant
            0 <= i <= items@.len(),
            out@ == items_yaml_lines(items@.take(i as int)),
        decreases items@.len() - i,
    {
        proof {
            reveal_strlit(": ");
            reveal_strlit("\n");
            assert(items@.take(i + 1).drop_last() =~= items@.take(i as int));
        }
        out.append(items[i].name.as_str());
        out.append(": ");
        let price = items[i].price.format();
        out.append(price.as_str());
        out.append("\n");
        assert(": "@ =~= seq![':', ' ']);
        assert("\n"@ =~= seq!['\n']);
        assert(out@ =~= items_yaml_lines(items@.take(i + 1)));
        i = i + 1;
    }
    assert(items@.take(items@.len() as int) =~= items@);
    out
}

proof fn lemma_find_key_props<V>(ps: Seq<(Seq<char>, V)>, key: Seq<char>)
    ensures
        match find_key(ps, key) {
            Some(i) => 0 <= i < ps.len() && ps[i].0 == key,
            None => forall|j: int| 0 <= j < ps.len() ==> (#[trigger] ps[j]).0 != key,
        },
    decreases ps.len(),
{
    if ps.len() > 0 && ps[0].0 != key {
        let rest = ps.drop_first();
        lemma_find_key_props(rest, key);
        match find_key(ps, key) {
            Some(i) => {
                assert(find_key(rest, key) == Some(i - 1));
                assert(ps[i] == rest[i - 1]);
            },
            None => {
                assert forall|j: int| 0 <= j < ps.len() implies (#[trigger] ps[j]).0 != key by {
                    if j > 0 {
                        assert(ps[j] == rest[j - 1]);
                        assert(rest[j - 1].0 != key);
                    }
                }
            },
        }
    }
}

} // verus!
