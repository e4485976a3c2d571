//! How orders rest, match and are cancelled, in terms of the orders of the
//! book and of what the taker hands in.

use vstd::prelude::*;

use crate::base::address::Address;
use crate::base::arith::{fits, lemma_quot_bounds, lemma_quot_rest};
use crate::prediction::contract::{order_cancelled, order_placed};
use crate::prediction::laws::matching_has_price_priority;
use crate::prediction::orderbook::{
    best_match, book_of, depth_upto, fill_of, lemma_best_match, lesser, match_step, matched,
    order_index,    quote_count, run_match, snapshot_of, Matching, Taker,
};
use crate::prediction::state::PredictionState;
use crate::prediction::types::{
    MarketStatus, OrderBookSnapshot, OrderSide, OrderStatus, PredictionOrder, TradeFill,
};

verus! {

// ---------------------------------------------------------------------------
// Placing and cancelling
// ---------------------------------------------------------------------------

/// The open orders of a market.
pub open spec fn open_orders(s: PredictionState, id: u64) -> Seq<PredictionOrder> {
    if s.order_books.contains_key(id) {
        s.order_books[id]
    } else {
        Seq::empty()
    }
}

proof fn lemma_depth(book: Seq<PredictionOrder>, side: OrderSide, n: int)
    requires
        0 <= n <= book.len(),
    ensures
        depth_upto(book, side, n) == book.take(n).filter(|o: PredictionOrder| o.side == side).len(),
    decreases n,
{
    reveal(Seq::filter);
    if n > 0 {
        lemma_depth(book, side, n - 1);
        assert(book.take(n).drop_last() =~= book.take(n - 1));
        assert(book.take(n).last() == book[n - 1]);
    }
}

/// An order of a positive amount at a positive price, for an outcome of a
/// market that trades now, rests behind all older ones, as long as its side of
/// the book has room. It gets the market's next number and wants all it asks
/// for.
pub proof fn orders_rest_in_the_book(
    s: PredictionState,
    owner: Address,
    id: u64,
    i: u32,
    side: OrderSide,
    price: i128,
    amount: i128,
)
    requires
        s.order_counters.contains_key(id) ==> s.order_counters[id] < u64::MAX,
    ensures
        ({
            let r = order_placed(s, owner, id, i, side, price, amount);
            let same_side = open_orders(s, id).filter(|o: PredictionOrder| o.side == side).len();
            &&& r is Ok <==> {
                &&& s.markets.contains_key(id)
                &&& s.markets[id].status == MarketStatus::Active
                &&& s.timestamp < s.markets[id].trading_end_time
                &&& i < s.markets[id].outcomes.len()
                &&& amount > 0
                &&& price > 0
                &&& same_side < 256
            }
            &&& r is Ok ==> {
                let (t, order_id) = r->Ok_0;
                let o = t.orders[(id, order_id)];
                &&& order_id == if s.order_counters.contains_key(id) {
                    s.order_counters[id]
                } else {
                    1
                }
                &&& t.order_counters[id] == order_id + 1
                &&& o.order_id == order_id
                &&& o.market_id == id
                &&& o.owner == owner
                &&& o.outcome_index == i
                &&& o.side == side
                &&& o.price == price
                &&& o.amount == amount
                &&& o.remaining == amount
                &&& o.status == OrderStatus::Active
                &&& o.created_at == s.timestamp
                &&& t.orders == s.orders.insert((id, order_id), o)
                &&& t.order_books == s.order_books.insert(id, open_orders(s, id).push(o))
            }
        }),
{
    let book = open_orders(s, id);
    assert(book == book_of(s, id));
    lemma_depth(book, side, book.len() as int);
    assert(book.take(book.len() as int) =~= book);
}

proof fn lemma_first_order(book: Seq<PredictionOrder>, order_id: u64, i: int)
    requires
        0 <= i < book.len(),
        book[i].order_id == order_id,
        forall|j: int| 0 <= j < i ==> (#[trigger] book[j]).order_id != order_id,
    ensures
        order_index(book, order_id) == i,
    decreases book.len(),
{
    if i > 0 {
        assert(book[0].order_id != order_id);
        assert forall|j: int| 0 <= j < i - 1 implies (#[trigger] book.skip(1)[j]).order_id
            != order_id by {
            assert(book.skip(1)[j] == book[j + 1]);
        }
        lemma_first_order(book.skip(1), order_id, i - 1);
    }
}

/// The owner of an order, and the administrator, cancel it while it is open.
/// It then wants nothing and is gone from the book; all other orders stay.
pub proof fn owners_cancel_their_orders(
    s: PredictionState,
    caller: Address,
    id: u64,
    order_id: u64,
    at: int,
)
    requires
        0 <= at < open_orders(s, id).len(),
        open_orders(s, id)[at].order_id == order_id,
        forall|j: int|
            0 <= j < at ==> (#[trigger] open_orders(s, id)[j]).order_id != order_id,
    ensures
        ({
            let r = order_cancelled(s, caller, id, order_id);
            let o = s.orders[(id, order_id)];
            &&& r is Ok <==> {
                &&& s.orders.contains_key((id, order_id))
                &&& o.status == OrderStatus::Active || o.status == OrderStatus::PartiallyFilled
                &&& o.owner == caller || s.admin == Some(caller)
            }
            &&& r is Ok ==> {
                let t = r->Ok_0.0;
                &&& t.orders == s.orders.insert(
                    (id, order_id),
                    PredictionOrder { status: OrderStatus::Cancelled, remaining: 0, ..o },
                )
                &&& t.order_books == s.order_books.insert(id, open_orders(s, id).remove(at))
            }
        }),
{
    assert(open_orders(s, id) == book_of(s, id));
    lemma_first_order(open_orders(s, id), order_id, at);
}

// ---------------------------------------------------------------------------
// Matching
// ---------------------------------------------------------------------------

/// The order is one that the taker trades with: open, for the same outcome, on
/// the other side, and at a price within the taker's limit.
pub open spec fn crosses(t: Taker, o: PredictionOrder) -> bool {
    &&& o.outcome_index == t.outcome_index
    &&& o.status == OrderStatus::Active || o.status == OrderStatus::PartiallyFilled
    &&& match t.side {
        OrderSide::Buy => o.side == OrderSide::Sell && o.price <= t.limit_price,
        OrderSide::Sell => o.side == OrderSide::Buy && o.price >= t.limit_price,
    }
}

/// The fill is of a part of the order, at the order's price and for the taker.
/// A taker with a fee pays that fraction of quantity times price, rounded
/// down; one without pays none.
pub open spec fn is_fill(t: Taker, o: PredictionOrder, f: TradeFill) -> bool {
    &&& f.order_id == o.order_id
    &&& f.maker == o.owner
    &&& f.taker == t.taker
    &&& f.outcome_index == t.outcome_index
    &&& f.side == t.side
    &&& f.price == o.price
    &&& 0 < f.amount <= o.remaining
    &&& t.fee_bps <= 0 ==> f.fee == 0
    &&& t.fee_bps > 0 && o.price >= 0 && fits(f.amount * o.price) && fits(
        f.amount * o.price * t.fee_bps,
    ) ==> f.fee * 10_000 <= f.amount * o.price * t.fee_bps < (f.fee + 1) * 10_000
}

/// The order after a part of it was filled: it lacks what was filled, and is
/// filled where nothing remains.
pub open spec fn is_order_after(o: PredictionOrder, f: TradeFill, after: PredictionOrder) -> bool {
    &&& after.remaining == o.remaining - f.amount
    &&& after.status == if f.amount == o.remaining {
        OrderStatus::Filled
    } else {
        OrderStatus::PartiallyFilled
    }
    &&& after == PredictionOrder { remaining: after.remaining, status: after.status, ..o }
}

proof fn lemma_fill(t: Taker, o: PredictionOrder, qty: int)
    requires
        0 < qty <= o.remaining,
    ensures
        is_fill(t, o, fill_of(t, o, qty)),
{
    let x = qty * o.price;
    let y = x * t.fee_bps;
    if t.fee_bps > 0 && o.price >= 0 && fits(x) && fits(y) {
        assert(x >= 0) by (nonlinear_arith)
            requires
                x == qty * o.price,
                qty > 0,
                o.price >= 0,
        ;
        assert(y >= 0) by (nonlinear_arith)
            requires
                y == x * t.fee_bps,
                x >= 0,
                t.fee_bps > 0,
        ;
        lemma_quot_rest(y, 10_000);
        lemma_quot_bounds(y, 10_000);
    }
}

/// Every fill of a match is with an order that the taker crosses, as it rested
/// in the book. Where the taker still wants something, no order is left that
/// the taker crosses. Orders that the taker does not cross stay in the book,
/// and stored orders change only where they were filled.
pub proof fn fills_are_with_crossing_orders(t: Taker, m: Matching)
    requires
        forall|i: int| 0 <= i < m.book.len() ==> (#[trigger] m.book[i]).remaining > 0,
    ensures
        ({
            let r = run_match(t, m);
            &&& m.fills.len() <= r.fills.len()
            &&& forall|k: int| 0 <= k < m.fills.len() ==> #[trigger] r.fills[k] == m.fills[k]
            &&& forall|k: int|
                m.fills.len() <= k < r.fills.len() ==> exists|j: int|
                    0 <= j < m.book.len() && crosses(t, #[trigger] m.book[j]) && is_fill(
                        t,
                        m.book[j],
                        #[trigger] r.fills[k],
                    )
            &&& r.remaining > 0 ==> forall|j: int|
                0 <= j < r.book.len() ==> !crosses(t, #[trigger] r.book[j])
            &&& forall|j: int|
                0 <= j < m.book.len() && !crosses(t, #[trigger] m.book[j]) ==> r.book.contains(
                    m.book[j],
                )
            &&& forall|key: (u64, u64)|
                (forall|k: int|
                    m.fills.len() <= k < r.fills.len() ==> key != (
                        t.market_id,
                        (#[trigger] r.fills[k]).order_id,
                    )) ==> (#[trigger] r.orders.contains_key(key) <==> m.orders.contains_key(key))
                    && r.orders[key] == m.orders[key]
        }),
    decreases m.book.len(),
{
    lemma_best_match(t, m.book, m.book.len() as int);
    let r = run_match(t, m);
    let base = m.fills.len() as int;
    match best_match(t, m.book, m.book.len() as int) {
        None => {
            assert forall|j: int| 0 <= j < m.book.len() && !crosses(
                t,
                #[trigger] m.book[j],
            ) implies r.book.contains(m.book[j]) by {
                assert(r.book[j] == m.book[j]);
            }
        },
        Some(i) => {
            if m.remaining <= 0 {
                assert forall|j: int| 0 <= j < m.book.len() && !crosses(
                    t,
                    #[trigger] m.book[j],
                ) implies r.book.contains(m.book[j]) by {
                    assert(r.book[j] == m.book[j]);
                }
            } else {
                let o = m.book[i];
                let qty = lesser(m.remaining, o.remaining as int);
                let next = match_step(t, m, i);
                lemma_fill(t, o, qty);
                assert(crosses(t, m.book[i]));
                assert(next.fills[base] == fill_of(t, o, qty));
                if o.remaining <= m.remaining {
                    assert forall|j: int| 0 <= j < next.book.len() implies (#[trigger]
                    next.book[j]).remaining > 0 by {
                        assert(next.book[j] == m.book[if j < i {
                            j
                        } else {
                            j + 1
                        }]);
                    }
                    fills_are_with_crossing_orders(t, next);
                    assert(r == run_match(t, next));
                    assert forall|k: int| 0 <= k < base implies #[trigger] r.fills[k]
                        == m.fills[k] by {
                        assert(r.fills[k] == next.fills[k]);
                    }
                    assert forall|k: int| base <= k < r.fills.len() implies exists|j: int|
                        0 <= j < m.book.len() && crosses(t, #[trigger] m.book[j]) && is_fill(
                            t,
                            m.book[j],
                            #[trigger] r.fills[k],
                        ) by {
                        if k == base {
                            assert(r.fills[base] == next.fills[base]);
                            assert(is_fill(t, m.book[i], r.fills[k]));
                        } else {
                            let j = choose|j: int|
                                0 <= j < next.book.len() && crosses(t, #[trigger] next.book[j])
                                    && is_fill(t, next.book[j], r.fills[k]);
                            let j2 = if j < i {
                                j
                            } else {
                                j + 1
                            };
                            assert(next.book[j] == m.book[j2]);
                            assert(is_fill(t, m.book[j2], r.fills[k]));
                        }
                    }
                    assert forall|j: int| 0 <= j < m.book.len() && !crosses(
                        t,
                        #[trigger] m.book[j],
                    ) implies r.book.contains(m.book[j]) by {
                        assert(j != i);
                        let j2 = if j < i {
                            j
                        } else {
                            j - 1
                        };
                        assert(next.book[j2] == m.book[j]);
                    }
                    assert forall|key: (u64, u64)|
                        (forall|k: int|
                            base <= k < r.fills.len() ==> key != (
                                t.market_id,
                                (#[trigger] r.fills[k]).order_id,
                            )) implies (#[trigger] r.orders.contains_key(key)
                        <==> m.orders.contains_key(key)) && r.orders[key] == m.orders[key] by {
                        assert(r.fills[base] == next.fills[base]);
                        assert(key != (t.market_id, o.order_id));
                        assert(next.orders.contains_key(key) <==> m.orders.contains_key(key));
                    }
                } else {
                    assert(r == next);
                    assert forall|j: int| 0 <= j < m.book.len() && !crosses(
                        t,
                        #[trigger] m.book[j],
                    ) implies r.book.contains(m.book[j]) by {
                        assert(j != i);
                        assert(r.book[j] == m.book[j]);
                    }
                    assert forall|k: int| base <= k < r.fills.len() implies exists|j: int|
                        0 <= j < m.book.len() && crosses(t, #[trigger] m.book[j]) && is_fill(
                            t,
                            m.book[j],
                            #[trigger] r.fills[k],
                        ) by {
                        assert(is_fill(t, m.book[i], r.fills[k]));
                    }
                    assert forall|key: (u64, u64)|
                        (forall|k: int|
                            base <= k < r.fills.len() ==> key != (
                                t.market_id,
                                (#[trigger] r.fills[k]).order_id,
                            )) implies (#[trigger] r.orders.contains_key(key)
                        <==> m.orders.contains_key(key)) && r.orders[key] == m.orders[key] by {
                        assert(r.fills[base] == next.fills[base]);
                        assert(key != (t.market_id, o.order_id));
                    }
                }
            }
        },
    }
    assert(forall|k: int|
        m.fills.len() <= k < r.fills.len() ==> exists|j: int|
            0 <= j < m.book.len() && crosses(t, #[trigger] m.book[j]) && is_fill(
                t,
                m.book[j],
                #[trigger] r.fills[k],
            ));
    assert(r.remaining > 0 ==> forall|j: int|
        0 <= j < r.book.len() ==> !crosses(t, #[trigger] r.book[j]));
}

/// Who buys is filled from the lowest price up, who sells from the highest
/// down, and each fill is within the taker's limit.
pub proof fn fills_go_from_the_best_price_on(t: Taker, m: Matching, a: int, b: int)
    requires
        forall|i: int| 0 <= i < m.book.len() ==> (#[trigger] m.book[i]).remaining > 0,
        m.fills.len() <= a < b < run_match(t, m).fills.len(),
    ensures
        ({
            let fills = run_match(t, m).fills;
            &&& t.side == OrderSide::Buy ==> fills[a].price <= fills[b].price <= t.limit_price
            &&& t.side == OrderSide::Sell ==> fills[a].price >= fills[b].price >= t.limit_price
        }),
{
    matching_has_price_priority(t, m);
}

/// No two orders of the book have the same number.
pub open spec fn have_their_own_numbers(book: Seq<PredictionOrder>) -> bool {
    forall|i: int, j: int|
        0 <= i < j < book.len() ==> (#[trigger] book[i]).order_id != (#[trigger] book[j]).order_id
}

/// Every order that was filled is stored as it is afterwards: it lacks what
/// was filled of it, and it is filled where nothing remains.
pub proof fn filled_orders_are_stored(t: Taker, m: Matching, k: int)
    requires
        forall|i: int| 0 <= i < m.book.len() ==> (#[trigger] m.book[i]).remaining > 0,
        have_their_own_numbers(m.book),
        m.fills.len() <= k < run_match(t, m).fills.len(),
    ensures
        ({
            let r = run_match(t, m);
            let f = r.fills[k];
            exists|j: int|
                0 <= j < m.book.len() && (#[trigger] m.book[j]).order_id == f.order_id
                    && is_order_after(m.book[j], f, r.orders[(t.market_id, f.order_id)])
        }),
    decreases m.book.len(),
{
    lemma_best_match(t, m.book, m.book.len() as int);
    let r = run_match(t, m);
    let base = m.fills.len() as int;
    match best_match(t, m.book, m.book.len() as int) {
        None => {},
        Some(i) => {
            if m.remaining > 0 {
                let o = m.book[i];
                let qty = lesser(m.remaining, o.remaining as int);
                let next = match_step(t, m, i);
                lemma_fill(t, o, qty);
                assert(next.fills[base] == fill_of(t, o, qty));
                assert(is_order_after(
                    o,
                    fill_of(t, o, qty),
                    next.orders[(t.market_id, o.order_id)],
                ));
                if o.remaining <= m.remaining {
                    assert forall|j: int| 0 <= j < next.book.len() implies (#[trigger]
                    next.book[j]).remaining > 0 by {
                        assert(next.book[j] == m.book[if j < i {
                            j
                        } else {
                            j + 1
                        }]);
                    }
                    assert forall|a: int, b: int| 0 <= a < b < next.book.len() implies (#[trigger]
                    next.book[a]).order_id != (#[trigger] next.book[b]).order_id by {
                        let x = if a < i {
                            a
                        } else {
                            a + 1
                        };
                        let y = if b < i {
                            b
                        } else {
                            b + 1
                        };
                        assert(next.book[a] == m.book[x] && next.book[b] == m.book[y]);
                    }
                    fills_are_with_crossing_orders(t, next);
                    assert(r == run_match(t, next));
                    if k > base {
                        filled_orders_are_stored(t, next, k);
                        let f = r.fills[k];
                        let j = choose|j: int|
                            0 <= j < next.book.len() && (#[trigger] next.book[j]).order_id
                                == f.order_id && is_order_after(
                                next.book[j],
                                f,
                                r.orders[(t.market_id, f.order_id)],
                            );
                        let at = if j < i {
                            j
                        } else {
                            j + 1
                        };
                        assert(next.book[j] == m.book[at]);
                    } else {
                        let key = (t.market_id, o.order_id);
                        assert(r.fills[base] == next.fills[base]);
                        assert forall|q: int| next.fills.len() <= q < r.fills.len() implies key != (
                            t.market_id,
                            (#[trigger] r.fills[q]).order_id,
                        ) by {
                            let j = choose|j: int|
                                0 <= j < next.book.len() && crosses(t, #[trigger] next.book[j])
                                    && is_fill(t, next.book[j], r.fills[q]);
                            let at = if j < i {
                                j
                            } else {
                                j + 1
                            };
                            assert(next.book[j] == m.book[at]);
                            if at < i {
                                assert(m.book[at].order_id != m.book[i].order_id);
                            } else {
                                assert(m.book[i].order_id != m.book[at].order_id);
                            }
                        }
                        assert(next.orders.contains_key(key));
                        assert(r.orders.contains_key(key));
                        assert(r.orders[key] == next.orders[key]);
                        assert(m.book[i].order_id == r.fills[k].order_id);
                    }
                } else {
                    assert(r == next);
                    assert(m.book[i].order_id == r.fills[k].order_id);
                }
            }
        },
    }
}

/// Matching starts from the open orders of the market and changes nothing but
/// these and the stored orders.
pub proof fn matching_changes_orders_alone(s: PredictionState, t: Taker, amount: i128)
    ensures
        ({
            let (after, m) = matched(s, t, amount);
            &&& m == run_match(
                t,
                Matching {
                    book: open_orders(s, t.market_id),
                    orders: s.orders,
                    fills: Seq::empty(),
                    remaining: amount as int,
                },
            )
            &&& after.orders == m.orders
            &&& after.order_books == s.order_books.insert(t.market_id, m.book)
            &&& after == PredictionState {
                orders: after.orders,
                order_books: after.order_books,
                ..s
            }
        }),
{
}

/// A taker who wants something and crosses some order is filled first by the
/// one with the best price, and of these by the one that came first: with all
/// that is wanted, or all that the order has.
pub proof fn the_best_and_oldest_order_is_filled_first(t: Taker, m: Matching, j: int)
    requires
        forall|i: int| 0 <= i < m.book.len() ==> (#[trigger] m.book[i]).remaining > 0,
        m.remaining > 0,
        0 <= j < m.book.len(),
        crosses(t, m.book[j]),
    ensures
        ({
            let r = run_match(t, m);
            let n = m.fills.len() as int;
            &&& r.fills.len() > n
            &&& exists|i: int|
                {
                    let o = #[trigger] m.book[i];
                    &&& 0 <= i < m.book.len()
                    &&& crosses(t, o)
                    &&& is_fill(t, o, r.fills[n])
                    &&& r.fills[n].amount == if m.remaining < o.remaining {
                        m.remaining
                    } else {
                        o.remaining as int
                    }
                    &&& t.side == OrderSide::Buy ==> o.price <= m.book[j].price
                    &&& t.side == OrderSide::Sell ==> o.price >= m.book[j].price
                    &&& o.price == m.book[j].price ==> i <= j
                }
        }),
{
    lemma_best_match(t, m.book, m.book.len() as int);
    fills_are_with_crossing_orders(t, m);
    let n = m.fills.len() as int;
    let i = best_match(t, m.book, m.book.len() as int).unwrap();
    let o = m.book[i];
    let qty = lesser(m.remaining, o.remaining as int);
    lemma_fill(t, o, qty);
    let next = match_step(t, m, i);
    let r = run_match(t, m);
    assert(next.fills[n] == fill_of(t, o, qty));
    if o.remaining <= m.remaining {
        assert forall|k: int| 0 <= k < next.book.len() implies (#[trigger] next.book[k]).remaining
            > 0 by {
            assert(next.book[k] == m.book[if k < i {
                k
            } else {
                k + 1
            }]);
        }
        fills_are_with_crossing_orders(t, next);
        assert(r == run_match(t, next));
        assert(r.fills[n] == next.fills[n]);
    } else {
        assert(r == next);
    }
    assert(crosses(t, m.book[i]));
}

// ---------------------------------------------------------------------------
// Snapshots
// ---------------------------------------------------------------------------

/// The order is open and offers the outcome on the side.
pub open spec fn offers(o: PredictionOrder, i: u32, side: OrderSide) -> bool {
    &&& o.outcome_index == i
    &&& o.side == side
    &&& o.status == OrderStatus::Active || o.status == OrderStatus::PartiallyFilled
}

proof fn lemma_quotes(book: Seq<PredictionOrder>, i: u32, side: OrderSide, n: int)
    requires
        0 <= n <= book.len(),
    ensures
        quote_count(book, i, side, n) == book.take(n).filter(
            |o: PredictionOrder| offers(o, i, side),
        ).len(),
    decreases n,
{
    reveal(Seq::filter);
    if n > 0 {
        lemma_quotes(book, i, side, n - 1);
        assert(book.take(n).drop_last() =~= book.take(n - 1));
        assert(book.take(n).last() == book[n - 1]);
    }
}

/// A snapshot counts the open bids and asks of its outcome; its best bid is
/// the highest of the bids and its best ask the lowest of the asks.
pub proof fn snapshots_show_the_best_prices(
    book: Seq<PredictionOrder>,
    id: u64,
    i: u32,
    snap: OrderBookSnapshot,
    j: int,
)
    requires
        snapshot_of(book, id, i, snap),
        0 <= j < book.len(),
    ensures
        snap.market_id == id,
        snap.bid_count == book.filter(|o: PredictionOrder| offers(o, i, OrderSide::Buy)).len(),
        snap.ask_count == book.filter(|o: PredictionOrder| offers(o, i, OrderSide::Sell)).len(),
        offers(book[j], i, OrderSide::Buy) ==> book[j].price <= snap.best_bid,
        offers(book[j], i, OrderSide::Sell) ==> book[j].price >= snap.best_ask,
        snap.bid_count > 0 ==> exists|k: int|
            0 <= k < book.len() && offers(#[trigger] book[k], i, OrderSide::Buy) && book[k].price
                == snap.best_bid,
        snap.ask_count > 0 ==> exists|k: int|
            0 <= k < book.len() && offers(#[trigger] book[k], i, OrderSide::Sell) && book[k].price
                == snap.best_ask,
        snap.best_bid > 0 && snap.best_ask > 0 ==> snap.spread == snap.best_ask - snap.best_bid,
{
    let n = book.len() as int;
    lemma_quotes(book, i, OrderSide::Buy, n);
    lemma_quotes(book, i, OrderSide::Sell, n);
    assert(book.take(n) =~= book);
    lemma_no_quotes(book, i, OrderSide::Buy, n);
    lemma_no_quotes(book, i, OrderSide::Sell, n);
}

proof fn lemma_no_quotes(book: Seq<PredictionOrder>, i: u32, side: OrderSide, n: int)
    requires
        0 <= n <= book.len(),
    ensures
        (forall|k: int| 0 <= k < n ==> !offers(#[trigger] book[k], i, side)) ==> quote_count(
            book,
            i,
            side,
            n,
        ) == 0,
        forall|k: int| 0 <= k < n && offers(#[trigger] book[k], i, side) ==> quote_count(
            book,
            i,
            side,
            n,
        ) > 0,
    decreases n,
{
    if n > 0 {
        lemma_no_quotes(book, i, side, n - 1);
    }
}

} // verus!
