//! Limit orders for outcome tokens, matched by price and then by time.

use vstd::prelude::*;

use crate::base::address::Address;
use crate::base::arith::{checked_quot, fits, lemma_quot_bounds, quot};
use crate::base::table::value_or;
use crate::base::vecs::copy_vec;
use crate::prediction::state::{PredictionEnv, PredictionState};
use crate::prediction::types::{
    OrderBookSnapshot, OrderSide, OrderStatus, PredictionError, PredictionOrder, TradeFill,
};

verus! {

/// Maximum order book depth per side.
pub const MAX_BOOK_DEPTH: u32 = 256;

/// The order can still be filled.
pub open spec fn is_live(o: PredictionOrder) -> bool {
    o.status == OrderStatus::Active || o.status == OrderStatus::PartiallyFilled
}

/// Number of orders of one side among the first `n` of a book.
pub open spec fn depth_upto(book: Seq<PredictionOrder>, side: OrderSide, n: int) -> nat
    decreases n,
{
    if n <= 0 {
        0
    } else {
        depth_upto(book, side, n - 1) + if book[n - 1].side == side {
            1nat
        } else {
            0nat
        }
    }
}

/// Number of orders of one side in a book.
pub open spec fn depth(book: Seq<PredictionOrder>, side: OrderSide) -> nat {
    depth_upto(book, side, book.len() as int)
}

/// A book holds live orders with something left to fill, and no side is too deep.
pub open spec fn book_wf(book: Seq<PredictionOrder>) -> bool {
    &&& forall|i: int|
        0 <= i < book.len() ==> is_live(#[trigger] book[i]) && book[i].remaining > 0
    &&& depth(book, OrderSide::Buy) <= MAX_BOOK_DEPTH
    &&& depth(book, OrderSide::Sell) <= MAX_BOOK_DEPTH
}

/// The open orders of a market, oldest first.
pub open spec fn book_of(s: PredictionState, market_id: u64) -> Seq<PredictionOrder> {
    value_or(s.order_books, market_id, Seq::empty())
}

/// Both sides together are the whole book.
pub proof fn lemma_depths_add_up(book: Seq<PredictionOrder>, n: int)
    requires
        0 <= n <= book.len(),
    ensures
        depth_upto(book, OrderSide::Buy, n) + depth_upto(book, OrderSide::Sell, n) == n,
    decreases n,
{
    if n > 0 {
        lemma_depths_add_up(book, n - 1);
    }
}

/// A copy of the open orders of a market.
fn book_copy(env: &PredictionEnv, market_id: u64) -> (book: Vec<PredictionOrder>)
    ensures
        book@ == book_of(env@, market_id),
{
    match env.order_books.get(market_id) {
        Some(book) => copy_vec(book),
        None => {
            let book: Vec<PredictionOrder> = Vec::new();
            assert(book@ =~= Seq::empty());
            book
        },
    }
}

/// Load the order book for a market.
pub fn load_order_book(env: &PredictionEnv, market_id: u64) -> (r: Result<
    Vec<PredictionOrder>,
    PredictionError,
>)
    ensures
        r is Ok,
        r->Ok_0@ == book_of(env@, market_id),
{
    Ok(book_copy(env, market_id))
}

/// Save the order book of a market.
pub fn save_orders(env: &mut PredictionEnv, market_id: u64, orders: Vec<PredictionOrder>)
    ensures
        final(env)@ == (PredictionState {
            order_books: old(env)@.order_books.insert(market_id, orders@),
            ..old(env)@
        }),
{
    env.order_books.set(market_id, orders);
    assert(env@ =~= (PredictionState {
        order_books: old(env)@.order_books.insert(market_id, orders@),
        ..old(env)@
    }));
}

/// The order ID that comes next in a market.
pub open spec fn next_id(s: PredictionState, market_id: u64) -> u64 {
    value_or(s.order_counters, market_id, 1)
}

/// Get the next order ID for a market and count it as used.
pub fn next_order_id(env: &mut PredictionEnv, market_id: u64) -> (id: u64)
    requires
        next_id(old(env)@, market_id) < u64::MAX,
    ensures
        id == next_id(old(env)@, market_id),
        final(env)@ == (PredictionState {
            order_counters: old(env)@.order_counters.insert(market_id, (id + 1) as u64),
            ..old(env)@
        }),
{
    let current: u64 = match env.order_counters.copied(market_id) {
        Some(n) => n,
        None => 1,
    };
    env.order_counters.set(market_id, current + 1);
    assert(env@ =~= (PredictionState {
        order_counters: old(env)@.order_counters.insert(market_id, (current + 1) as u64),
        ..old(env)@
    }));
    current
}

// ---------------------------------------------------------------------------
// Order placement
// ---------------------------------------------------------------------------

/// What placing an order does to the state and gives back.
pub open spec fn place(
    s: PredictionState,
    market_id: u64,
    owner: Address,
    outcome_index: u32,
    side: OrderSide,
    price: i128,
    amount: i128,
) -> Result<(PredictionState, u64), PredictionError> {
    if amount <= 0 || price <= 0 {
        Err(PredictionError::InvalidOrderAmount)
    } else if depth(book_of(s, market_id), side) >= MAX_BOOK_DEPTH {
        Err(PredictionError::ArithmeticOverflow)
    } else {
        let id = next_id(s, market_id);
        let order = PredictionOrder {
            order_id: id,
            market_id,
            owner,
            outcome_index,
            side,
            price,
            amount,
            remaining: amount,
            status: OrderStatus::Active,
            created_at: s.timestamp,
        };
        Ok(
            (
                PredictionState {
                    order_counters: s.order_counters.insert(market_id, (id + 1) as u64),
                    orders: s.orders.insert((market_id, id), order),
                    order_books: s.order_books.insert(
                        market_id,
                        book_of(s, market_id).push(order),
                    ),
                    ..s
                },
                id,
            ),
        )
    }
}

fn side_depth(book: &Vec<PredictionOrder>, side: OrderSide) -> (n: usize)
    ensures
        n == depth(book@, side),
{
    let mut n: usize = 0;
    let mut i: usize = 0;
    while i < book.len()
        invariant
            i <= book@.len(),
            n == depth_upto(book@, side, i as int),
            n <= i,
        decreases book@.len() - i,
    {
        if book[i].side == side {
            n += 1;
        }
        i += 1;
    }
    n
}

proof fn lemma_depth_upto_same(
    a: Seq<PredictionOrder>,
    b: Seq<PredictionOrder>,
    side: OrderSide,
    n: int,
)
    requires
        n <= a.len(),
        n <= b.len(),
        forall|i: int| 0 <= i < n ==> (#[trigger] a[i]).side == b[i].side,
    ensures
        depth_upto(a, side, n) == depth_upto(b, side, n),
    decreases n,
{
    if n > 0 {
        lemma_depth_upto_same(a, b, side, n - 1);
        assert(a[n - 1].side == b[n - 1].side);
    }
}

/// Adding an order makes its side one deeper and leaves the other.
pub proof fn lemma_depth_push(book: Seq<PredictionOrder>, o: PredictionOrder, side: OrderSide)
    ensures
        depth(book.push(o), side) == depth(book, side) + if o.side == side {
            1nat
        } else {
            0nat
        },
{
    let b = book.push(o);
    assert(b[b.len() - 1] == o);
    lemma_depth_upto_same(b, book, side, book.len() as int);
}

/// Taking an order out never makes a side deeper.
pub proof fn lemma_depth_remove(book: Seq<PredictionOrder>, i: int, side: OrderSide)
    requires
        0 <= i < book.len(),
    ensures
        depth(book.remove(i), side) <= depth(book, side),
    decreases book.len(),
{
    let n = book.len() as int;
    let b = book.remove(i);
    if i == n - 1 {
        lemma_depth_upto_same(b, book, side, n - 1);
    } else {
        let front = book.drop_last();
        lemma_depth_remove(front, i, side);
        let fb = front.remove(i);
        lemma_depth_upto_same(fb, b, side, n - 2);
        lemma_depth_upto_same(front, book, side, n - 1);
        assert(b[n - 2] == book[n - 1]);
        assert(depth_upto(b, side, n - 1) == depth_upto(b, side, n - 2) + if b[n - 2].side == side {
            1nat
        } else {
            0nat
        });
    }
}

/// Replacing an order by one of the same side leaves the depths.
pub proof fn lemma_depth_update(
    book: Seq<PredictionOrder>,
    i: int,
    o: PredictionOrder,
    side: OrderSide,
)
    requires
        0 <= i < book.len(),
        o.side == book[i].side,
    ensures
        depth(book.update(i, o), side) == depth(book, side),
{
    lemma_depth_upto_same(book.update(i, o), book, side, book.len() as int);
}

/// Place a new limit order on the outcome token order book.
pub fn place_order(
    env: &mut PredictionEnv,
    market_id: u64,
    owner: Address,
    outcome_index: u32,
    side: OrderSide,
    price: i128,
    amount: i128,
) -> (r: Result<u64, PredictionError>)
    requires
        next_id(old(env)@, market_id) < u64::MAX,
        old(env)@.wf(),
    ensures
        match place(old(env)@, market_id, owner, outcome_index, side, price, amount) {
            Ok((s, id)) => r == Ok::<u64, PredictionError>(id) && final(env)@ == s,
            Err(e) => r == Err::<u64, PredictionError>(e) && final(env)@ == old(env)@,
        },
        final(env)@.wf(),
{
    if amount <= 0 || price <= 0 {
        return Err(PredictionError::InvalidOrderAmount);
    }
    let mut book = book_copy(env, market_id);
    if side_depth(&book, side) >= MAX_BOOK_DEPTH as usize {
        return Err(PredictionError::ArithmeticOverflow);
    }
    let order_id: u64 = next_order_id(env, market_id);
    let order = PredictionOrder {
        order_id,
        market_id,
        owner,
        outcome_index,
        side,
        price,
        amount,
        remaining: amount,
        status: OrderStatus::Active,
        created_at: env.timestamp,
    };
    env.orders.set((market_id, order_id), order);
    proof {
        lemma_depth_push(book@, order, OrderSide::Buy);
        lemma_depth_push(book@, order, OrderSide::Sell);
        assert(depth(Seq::<PredictionOrder>::empty(), OrderSide::Buy) == 0);
        assert(depth(Seq::<PredictionOrder>::empty(), OrderSide::Sell) == 0);
    }
    book.push(order);
    save_orders(env, market_id, book);
    proof {
        let s = place(old(env)@, market_id, owner, outcome_index, side, price, amount)->Ok_0.0;
        assert(env@ =~= s);
    }
    Ok(order_id)
}

/// Position of the first order with the ID, or the length.
pub open spec fn order_index(book: Seq<PredictionOrder>, order_id: u64) -> int
    decreases book.len(),
{
    if book.len() == 0 {
        0
    } else if book[0].order_id == order_id {
        0
    } else {
        1 + order_index(book.skip(1), order_id)
    }
}

/// The book without the first order that has the ID.
pub open spec fn without_order(book: Seq<PredictionOrder>, order_id: u64) -> Seq<PredictionOrder> {
    if order_index(book, order_id) < book.len() {
        book.remove(order_index(book, order_id))
    } else {
        book
    }
}

proof fn lemma_order_index(book: Seq<PredictionOrder>, order_id: u64, i: int)
    requires
        0 <= i <= book.len(),
        forall|j: int| 0 <= j < i ==> (#[trigger] book[j]).order_id != order_id,
        i < book.len() ==> book[i].order_id == order_id,
    ensures
        order_index(book, order_id) == i,
    decreases book.len(),
{
    if book.len() > 0 && i > 0 {
        assert(book[0].order_id != order_id);
        assert forall|j: int| 0 <= j < i - 1 implies (#[trigger] book.skip(1)[j]).order_id
            != order_id by {
            assert(book.skip(1)[j] == book[j + 1]);
        }
        lemma_order_index(book.skip(1), order_id, i - 1);
    }
}

/// Remove an order from a list by order ID.
fn remove_order_from_list(orders: &mut Vec<PredictionOrder>, order_id: u64)
    ensures
        final(orders)@ == without_order(old(orders)@, order_id),
{
    let mut i: usize = 0;
    while i < orders.len()
        invariant
            i <= orders@.len(),
            orders@ == old(orders)@,
            forall|j: int| 0 <= j < i ==> (#[trigger] orders@[j]).order_id != order_id,
        decreases orders@.len() - i,
    {
        if orders[i].order_id == order_id {
            proof {
                lemma_order_index(orders@, order_id, i as int);
            }
            orders.remove(i);
            return;
        }
        i += 1;
    }
    proof {
        lemma_order_index(orders@, order_id, i as int);
    }
}

/// What cancelling an order does to the state.
pub open spec fn cancel(
    s: PredictionState,
    market_id: u64,
    order_id: u64,
    caller: Address,
    is_admin: bool,
) -> Result<PredictionState, PredictionError> {
    if !s.orders.contains_key((market_id, order_id)) {
        Err(PredictionError::OrderNotFound)
    } else {
        let order = s.orders[(market_id, order_id)];
        if !is_live(order) {
            Err(PredictionError::OrderNotFound)
        } else if !is_admin && order.owner != caller {
            Err(PredictionError::NotOrderOwner)
        } else {
            Ok(
                PredictionState {
                    orders: s.orders.insert(
                        (market_id, order_id),
                        PredictionOrder {
                            status: OrderStatus::Cancelled,
                            remaining: 0,
                            ..order
                        },
                    ),
                    order_books: s.order_books.insert(
                        market_id,
                        without_order(book_of(s, market_id), order_id),
                    ),
                    ..s
                },
            )
        }
    }
}

/// Cancel an existing active order.
pub fn cancel_order(
    env: &mut PredictionEnv,
    market_id: u64,
    order_id: u64,
    caller: Address,
    is_admin: bool,
) -> (r: Result<(), PredictionError>)
    requires
        old(env)@.wf(),
    ensures
        match cancel(old(env)@, market_id, order_id, caller, is_admin) {
            Ok(s) => r is Ok && final(env)@ == s,
            Err(e) => r == Err::<(), PredictionError>(e) && final(env)@ == old(env)@,
        },
        final(env)@.wf(),
{
    let mut order: PredictionOrder = match env.orders.copied((market_id, order_id)) {
        Some(o) => o,
        None => return Err(PredictionError::OrderNotFound),
    };
    if order.status != OrderStatus::Active && order.status != OrderStatus::PartiallyFilled {
        return Err(PredictionError::OrderNotFound);
    }
    if !is_admin && order.owner != caller {
        return Err(PredictionError::NotOrderOwner);
    }
    order.status = OrderStatus::Cancelled;
    order.remaining = 0;
    env.orders.set((market_id, order_id), order);
    let mut book = book_copy(env, market_id);
    let ghost before = book@;
    remove_order_from_list(&mut book, order_id);
    proof {
        let n = order_index(before, order_id);
        lemma_order_index_range(before, order_id);
        if n < before.len() {
            lemma_depth_remove(before, n, OrderSide::Buy);
            lemma_depth_remove(before, n, OrderSide::Sell);
        }
        assert(depth(Seq::<PredictionOrder>::empty(), OrderSide::Buy) == 0);
        assert(depth(Seq::<PredictionOrder>::empty(), OrderSide::Sell) == 0);
        assert(book_wf(before));
        assert(book_wf(book@));
    }
    save_orders(env, market_id, book);
    proof {
        assert(env@ =~= cancel(old(env)@, market_id, order_id, caller, is_admin)->Ok_0);
    }
    Ok(())
}

proof fn lemma_order_index_range(book: Seq<PredictionOrder>, order_id: u64)
    ensures
        0 <= order_index(book, order_id) <= book.len(),
    decreases book.len(),
{
    if book.len() > 0 {
        lemma_order_index_range(book.skip(1), order_id);
    }
}

/// Look up a single order by market and ID.
pub fn get_order(env: &PredictionEnv, market_id: u64, order_id: u64) -> (r: Option<PredictionOrder>)
    ensures
        r == (if env@.orders.contains_key((market_id, order_id)) {
            Some(env@.orders[(market_id, order_id)])
        } else {
            None
        }),
{
    env.orders.copied((market_id, order_id))
}

// ---------------------------------------------------------------------------
// Snapshot
// ---------------------------------------------------------------------------

/// The order is live, on the given outcome and side.
pub open spec fn quotes(o: PredictionOrder, outcome_index: u32, side: OrderSide) -> bool {
    o.outcome_index == outcome_index && is_live(o) && o.side == side
}

/// Number of quotes among the first `n` orders.
pub open spec fn quote_count(
    book: Seq<PredictionOrder>,
    outcome_index: u32,
    side: OrderSide,
    n: int,
) -> nat
    decreases n,
{
    if n <= 0 {
        0
    } else {
        quote_count(book, outcome_index, side, n - 1) + if quotes(
            book[n - 1],
            outcome_index,
            side,
        ) {
            1nat
        } else {
            0nat
        }
    }
}

/// `p` is the best of the quoted prices: the highest bid or the lowest ask.
pub open spec fn is_best_price(
    book: Seq<PredictionOrder>,
    outcome_index: u32,
    side: OrderSide,
    p: i128,
) -> bool {
    &&& exists|i: int|
        0 <= i < book.len() && quotes(#[trigger] book[i], outcome_index, side) && book[i].price == p
    &&& forall|i: int|
        0 <= i < book.len() && quotes(#[trigger] book[i], outcome_index, side) ==> (if side
            == OrderSide::Buy {
            book[i].price <= p
        } else {
            book[i].price >= p
        })
}

/// No order quotes the side.
pub open spec fn no_quotes(book: Seq<PredictionOrder>, outcome_index: u32, side: OrderSide) -> bool {
    forall|i: int| 0 <= i < book.len() ==> !quotes(#[trigger] book[i], outcome_index, side)
}

/// The best price of a side, or `None` where nothing quotes it.
fn best_price(book: &Vec<PredictionOrder>, outcome_index: u32, side: OrderSide) -> (r: Option<i128>)
    ensures
        match r {
            Some(p) => is_best_price(book@, outcome_index, side, p),
            None => no_quotes(book@, outcome_index, side),
        },
{
    let mut best: Option<i128> = None;
    let mut i: usize = 0;
    while i < book.len()
        invariant
            i <= book@.len(),
            match best {
                Some(p) => is_best_price(book@.take(i as int), outcome_index, side, p),
                None => no_quotes(book@.take(i as int), outcome_index, side),
            },
        decreases book@.len() - i,
    {
        let o: PredictionOrder = book[i];
        let ghost now = book@.take(i as int);
        let ghost next = book@.take(i + 1);
        let live: bool = o.status == OrderStatus::Active || o.status
            == OrderStatus::PartiallyFilled;
        if o.outcome_index == outcome_index && live && o.side == side {
            let better: bool = match best {
                None => true,
                Some(p) => if side == OrderSide::Buy {
                    o.price > p
                } else {
                    o.price < p
                },
            };
            let ghost was = best;
            if better {
                best = Some(o.price);
            }
            proof {
                assert(quotes(next[i as int], outcome_index, side));
                assert forall|j: int| 0 <= j < next.len() && j != i implies next[j] == now[j] by {}
                if !better {
                    let p = best.unwrap();
                    let w = choose|w: int|
                        0 <= w < now.len() && quotes(#[trigger] now[w], outcome_index, side)
                            && now[w].price == p;
                    assert(next[w] == now[w]);
                }
                assert forall|j: int|
                    0 <= j < next.len() && quotes(
                        #[trigger] next[j],
                        outcome_index,
                        side,
                    ) implies (if side == OrderSide::Buy {
                    next[j].price <= best.unwrap()
                } else {
                    next[j].price >= best.unwrap()
                }) by {
                    if j < i {
                        assert(quotes(now[j], outcome_index, side));
                    }
                }
                assert(is_best_price(next, outcome_index, side, best.unwrap()));
            }
        } else {
            proof {
                assert(!quotes(next[i as int], outcome_index, side));
                assert forall|j: int| 0 <= j < now.len() implies next[j] == now[j] by {}
                match best {
                    Some(p) => {
                        let w = choose|w: int|
                            0 <= w < now.len() && quotes(#[trigger] now[w], outcome_index, side)
                                && now[w].price == p;
                        assert(next[w] == now[w]);
                        assert forall|j: int|
                            0 <= j < next.len() && quotes(
                                #[trigger] next[j],
                                outcome_index,
                                side,
                            ) implies (if side == OrderSide::Buy {
                            next[j].price <= p
                        } else {
                            next[j].price >= p
                        }) by {
                            assert(quotes(now[j], outcome_index, side));
                        }
                    },
                    None => {
                        assert forall|j: int| 0 <= j < next.len() implies !quotes(
                            #[trigger] next[j],
                            outcome_index,
                            side,
                        ) by {
                            if j < i {
                                assert(!quotes(now[j], outcome_index, side));
                            }
                        }
                    },
                }
            }
        }
        i += 1;
    }
    assert(book@.take(i as int) =~= book@);
    best
}

fn count_quotes(book: &Vec<PredictionOrder>, outcome_index: u32, side: OrderSide) -> (n: u32)
    requires
        book@.len() <= u32::MAX,
    ensures
        n == quote_count(book@, outcome_index, side, book@.len() as int),
{
    let mut n: u32 = 0;
    let mut i: usize = 0;
    while i < book.len()
        invariant
            i <= book@.len() <= u32::MAX,
            n == quote_count(book@, outcome_index, side, i as int),
            n <= i,
        decreases book@.len() - i,
    {
        let o: PredictionOrder = book[i];
        if o.outcome_index == outcome_index && (o.status == OrderStatus::Active || o.status
            == OrderStatus::PartiallyFilled) && o.side == side {
            n += 1;
        }
        i += 1;
    }
    n
}

/// The snapshot tells the state of the book for one outcome.
pub open spec fn snapshot_of(
    book: Seq<PredictionOrder>,
    market_id: u64,
    outcome_index: u32,
    snap: OrderBookSnapshot,
) -> bool {
    &&& snap.market_id == market_id
    &&& snap.bid_count == quote_count(book, outcome_index, OrderSide::Buy, book.len() as int)
    &&& snap.ask_count == quote_count(book, outcome_index, OrderSide::Sell, book.len() as int)
    &&& if no_quotes(book, outcome_index, OrderSide::Buy) {
        snap.best_bid == 0
    } else {
        is_best_price(book, outcome_index, OrderSide::Buy, snap.best_bid)
    }
    &&& if no_quotes(book, outcome_index, OrderSide::Sell) {
        snap.best_ask == 0
    } else {
        is_best_price(book, outcome_index, OrderSide::Sell, snap.best_ask)
    }
    &&& snap.spread == (if snap.best_bid > 0 && snap.best_ask > 0 {
        snap.best_ask - snap.best_bid
    } else {
        0
    })
}

/// Get a snapshot of the order book for an outcome.
pub fn get_book_snapshot(env: &PredictionEnv, market_id: u64, outcome_index: u32) -> (r:
    OrderBookSnapshot)
    requires
        env@.wf(),
    ensures
        snapshot_of(book_of(env@, market_id), market_id, outcome_index, r),
{
    let book = book_copy(env, market_id);
    proof {
        lemma_depths_add_up(book@, book@.len() as int);
    }
    let best_bid: i128 = match best_price(&book, outcome_index, OrderSide::Buy) {
        Some(p) => p,
        None => 0,
    };
    let best_ask: i128 = match best_price(&book, outcome_index, OrderSide::Sell) {
        Some(p) => p,
        None => 0,
    };
    let spread: i128 = if best_bid > 0 && best_ask > 0 {
        best_ask - best_bid
    } else {
        0
    };
    OrderBookSnapshot {
        market_id,
        bid_count: count_quotes(&book, outcome_index, OrderSide::Buy),
        ask_count: count_quotes(&book, outcome_index, OrderSide::Sell),
        best_bid,
        best_ask,
        spread,
    }
}

// ---------------------------------------------------------------------------
// Matching engine
// ---------------------------------------------------------------------------

/// An incoming order.
#[derive(Clone, Copy, Debug, PartialEq, Eq, Structural)]
pub struct Taker {
    /// Market of the order.
    pub market_id: u64,
    /// Who takes.
    pub taker: Address,
    /// Outcome that is traded.
    pub outcome_index: u32,
    /// Side of the taker.
    pub side: OrderSide,
    /// Worst price that the taker accepts.
    pub limit_price: i128,
    /// Fee rate in basis points.
    pub fee_bps: i128,
}

/// A resting order that the taker can trade with.
pub open spec fn can_match(t: Taker, o: PredictionOrder) -> bool {
    &&& o.outcome_index == t.outcome_index
    &&& is_live(o)
    &&& o.side != t.side
    &&& if t.side == OrderSide::Buy {
        o.price <= t.limit_price
    } else {
        o.price >= t.limit_price
    }
}

/// Price `a` is better for the taker than price `b`.
pub open spec fn better_price(t: Taker, a: i128, b: i128) -> bool {
    if t.side == OrderSide::Buy {
        a < b
    } else {
        a > b
    }
}

/// Position of the order that the taker trades with next among the first `n`:
/// the best price, and of these the oldest.
pub open spec fn best_match(t: Taker, book: Seq<PredictionOrder>, n: int) -> Option<int>
    decreases n,
{
    if n <= 0 {
        None
    } else {
        let before = best_match(t, book, n - 1);
        if can_match(t, book[n - 1]) && (before is None || better_price(
            t,
            book[n - 1].price,
            book[before.unwrap()].price,
        )) {
            Some(n - 1)
        } else {
            before
        }
    }
}

/// A product that is cut off at the largest `i128`.
pub open spec fn capped(x: int) -> int {
    if fits(x) {
        x
    } else {
        i128::MAX as int
    }
}

/// The fee on a fill.
pub open spec fn fill_fee(qty: int, price: int, fee_bps: int) -> int {
    if fee_bps > 0 {
        quot(capped(capped(qty * price) * fee_bps), 10_000)
    } else {
        0
    }
}

/// The smaller of two numbers.
pub open spec fn lesser(a: int, b: int) -> int {
    if a <= b {
        a
    } else {
        b
    }
}

/// Where a match stands.
#[verifier::ext_equal]
pub struct Matching {
    /// The open orders.
    pub book: Seq<PredictionOrder>,
    /// Orders by market and ID.
    pub orders: Map<(u64, u64), PredictionOrder>,
    /// The fills so far, oldest first.
    pub fills: Seq<TradeFill>,
    /// What the taker still wants.
    pub remaining: int,
}

/// The fill of `qty` against a resting order.
pub open spec fn fill_of(t: Taker, o: PredictionOrder, qty: int) -> TradeFill {
    TradeFill {
        order_id: o.order_id,
        taker: t.taker,
        maker: o.owner,
        outcome_index: t.outcome_index,
        side: t.side,
        price: o.price,
        amount: qty as i128,
        fee: fill_fee(qty, o.price as int, t.fee_bps as int) as i128,
    }
}

/// A resting order after `qty` of it was filled.
pub open spec fn filled_order(o: PredictionOrder, qty: int) -> PredictionOrder {
    PredictionOrder {
        remaining: (o.remaining - qty) as i128,
        status: if o.remaining == qty {
            OrderStatus::Filled
        } else {
            OrderStatus::PartiallyFilled
        },
        ..o
    }
}

/// One fill against the order at position `i`; a filled order leaves the book.
pub open spec fn match_step(t: Taker, m: Matching, i: int) -> Matching {
    let o = m.book[i];
    let qty = lesser(m.remaining, o.remaining as int);
    let after = filled_order(o, qty);
    Matching {
        book: if o.remaining == qty {
            m.book.remove(i)
        } else {
            m.book.update(i, after)
        },
        orders: m.orders.insert((t.market_id, o.order_id), after),
        fills: m.fills.push(fill_of(t, o, qty)),
        remaining: m.remaining - qty,
    }
}

/// Fills the taker from the best order on, until the taker has enough or no
/// order is left that the taker can trade with.
pub open spec fn run_match(t: Taker, m: Matching) -> Matching
    decreases m.book.len(),
    when forall|i: int| 0 <= i < m.book.len() ==> (#[trigger] m.book[i]).remaining > 0
{
    match best_match(t, m.book, m.book.len() as int) {
        None => m,
        Some(i) => if m.remaining <= 0 || !(0 <= i < m.book.len()) {
            m
        } else if m.book[i].remaining <= m.remaining {
            run_match(t, match_step(t, m, i))
        } else {
            match_step(t, m, i)
        },
    }
}

/// The chosen order is one that can match, no other has a better price, and
/// no older one has the same price.
pub proof fn lemma_best_match(t: Taker, book: Seq<PredictionOrder>, n: int)
    requires
        0 <= n <= book.len(),
    ensures
        match best_match(t, book, n) {
            None => forall|j: int| 0 <= j < n ==> !can_match(t, #[trigger] book[j]),
            Some(i) => {
                &&& 0 <= i < n
                &&& can_match(t, book[i])
                &&& forall|j: int|
                    0 <= j < n && can_match(t, #[trigger] book[j]) ==> !better_price(
                        t,
                        book[j].price,
                        book[i].price,
                    ) && (j < i ==> book[j].price != book[i].price)
            },
        },
    decreases n,
{
    if n > 0 {
        lemma_best_match(t, book, n - 1);
    }
}

fn find_best(t: &Taker, book: &Vec<PredictionOrder>) -> (r: Option<usize>)
    ensures
        match r {
            Some(i) => best_match(*t, book@, book@.len() as int) == Some(i as int) && i
                < book@.len(),
            None => best_match(*t, book@, book@.len() as int) is None,
        },
{
    let mut best: Option<usize> = None;
    let mut i: usize = 0;
    while i < book.len()
        invariant
            i <= book@.len(),
            match best {
                Some(b) => best_match(*t, book@, i as int) == Some(b as int) && b < i,
                None => best_match(*t, book@, i as int) is None,
            },
        decreases book@.len() - i,
    {
        let o: PredictionOrder = book[i];
        let eligible: bool = o.outcome_index == t.outcome_index && (o.status
            == OrderStatus::Active || o.status == OrderStatus::PartiallyFilled) && o.side != t.side
            && (if t.side == OrderSide::Buy {
            o.price <= t.limit_price
        } else {
            o.price >= t.limit_price
        });
        if eligible {
            let better: bool = match best {
                None => true,
                Some(b) => if t.side == OrderSide::Buy {
                    o.price < book[b].price
                } else {
                    o.price > book[b].price
                },
            };
            if better {
                best = Some(i);
            }
        }
        i += 1;
    }
    best
}

fn compute_fee(qty: i128, price: i128, fee_bps: i128) -> (fee: i128)
    ensures
        fee == fill_fee(qty as int, price as int, fee_bps as int),
{
    if fee_bps > 0 {
        let notional: i128 = match qty.checked_mul(price) {
            Some(x) => x,
            None => i128::MAX,
        };
        let scaled: i128 = match notional.checked_mul(fee_bps) {
            Some(x) => x,
            None => i128::MAX,
        };
        proof {
            lemma_quot_bounds(scaled as int, 10_000);
        }
        match checked_quot(scaled, 10_000) {
            Some(x) => x,
            None => 0,
        }
    } else {
        0
    }
}

/// What matching an incoming order does to the state and gives back.
pub open spec fn matched(s: PredictionState, t: Taker, amount: i128) -> (
    PredictionState,
    Matching,
) {
    let m = run_match(
        t,
        Matching {
            book: book_of(s, t.market_id),
            orders: s.orders,
            fills: Seq::empty(),
            remaining: amount as int,
        },
    );
    (
        PredictionState {
            orders: m.orders,
            order_books: s.order_books.insert(t.market_id, m.book),
            ..s
        },
        m,
    )
}

/// Match an incoming order against existing orders on the book.
///
/// Returns the fills and the filled amount. A buy order matches against asks,
/// lowest price first; a sell order against bids, highest price first; at one
/// price the oldest order comes first.
pub fn match_order(
    env: &mut PredictionEnv,
    market_id: u64,
    taker: Address,
    outcome_index: u32,
    side: OrderSide,
    amount: i128,
    limit_price: i128,
    fee_bps: i128,
) -> (r: (Vec<TradeFill>, i128))
    requires
        old(env)@.wf(),
    ensures
        ({
            let t = Taker { market_id, taker, outcome_index, side, limit_price, fee_bps };
            let (s, m) = matched(old(env)@, t, amount);
            &&& final(env)@ == s
            &&& r.0@ == m.fills
            &&& r.1 == amount - m.remaining
        }),
        final(env)@.wf(),
{
    let t = Taker { market_id, taker, outcome_index, side, limit_price, fee_bps };
    let mut book = book_copy(env, market_id);
    let mut fills: Vec<TradeFill> = Vec::new();
    let mut remaining: i128 = amount;
    let ghost start = Matching {
        book: book@,
        orders: env@.orders,
        fills: Seq::empty(),
        remaining: amount as int,
    };
    proof {
        assert(depth(Seq::<PredictionOrder>::empty(), OrderSide::Buy) == 0);
        assert(depth(Seq::<PredictionOrder>::empty(), OrderSide::Sell) == 0);
        assert(book_wf(book@));
        assert(env@ =~= (PredictionState { orders: env@.orders, ..old(env)@ }));
        assert(fills@ =~= Seq::empty());
    }
    let mut done: bool = false;
    while !done
        invariant
            t == (Taker { market_id, taker, outcome_index, side, limit_price, fee_bps }),
            book_wf(book@),
            env@ == (PredictionState { orders: env@.orders, ..old(env)@ }),
            remaining <= amount,
            amount > 0 ==> remaining >= 0,
            amount <= 0 ==> remaining == amount,
            !done ==> run_match(
                t,
                Matching {
                    book: book@,
                    orders: env@.orders,
                    fills: fills@,
                    remaining: remaining as int,
                },
            ) == run_match(t, start),
            done ==> (Matching {
                book: book@,
                orders: env@.orders,
                fills: fills@,
                remaining: remaining as int,
            }) == run_match(t, start),
        decreases book@.len(), !done as int,
    {
        let ghost m = Matching {
            book: book@,
            orders: env@.orders,
            fills: fills@,
            remaining: remaining as int,
        };
        let next: Option<usize> = find_best(&t, &book);
        match next {
            Some(i) if remaining > 0 => {
                let o: PredictionOrder = book[i];
                let qty: i128 = if remaining <= o.remaining {
                    remaining
                } else {
                    o.remaining
                };
                let fill = TradeFill {
                    order_id: o.order_id,
                    taker,
                    maker: o.owner,
                    outcome_index,
                    side,
                    price: o.price,
                    amount: qty,
                    fee: compute_fee(qty, o.price, fee_bps),
                };
                let mut after: PredictionOrder = o;
                after.remaining = o.remaining - qty;
                if after.remaining == 0 {
                    after.status = OrderStatus::Filled;
                } else {
                    after.status = OrderStatus::PartiallyFilled;
                }
                fills.push(fill);
                let full: bool = after.remaining == 0;
                proof {
                    if full {
                        lemma_depth_remove(book@, i as int, OrderSide::Buy);
                        lemma_depth_remove(book@, i as int, OrderSide::Sell);
                    } else {
                        lemma_depth_update(book@, i as int, after, OrderSide::Buy);
                        lemma_depth_update(book@, i as int, after, OrderSide::Sell);
                    }
                }
                let ghost before_env = env@;
                if full {
                    book.remove(i);
                } else {
                    book.set(i, after);
                }
                env.orders.set((market_id, o.order_id), after);
                remaining = remaining - qty;
                proof {
                    let m2 = Matching {
                        book: book@,
                        orders: env@.orders,
                        fills: fills@,
                        remaining: remaining as int,
                    };
                    assert(m2 =~= match_step(t, m, i as int));
                    assert(env@ =~= (PredictionState { orders: env@.orders, ..old(env)@ }));
                }
                if !full {
                    done = true;
                }
            },
            _ => {
                done = true;
            },
        }
    }
    save_orders(env, market_id, book);
    proof {
        let (s, m) = matched(old(env)@, t, amount);
        assert(env@ =~= s);
    }
    (fills, amount - remaining)
}

} // verus!
