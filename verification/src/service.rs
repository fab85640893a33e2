//! The order service's rules: which requests it accepts and the order it
//! creates for a request.
use std::sync::Arc;
use vstd::prelude::*;
use crate::error::{error_view, ErrorView, ServiceError, StatusCode};
use crate::json::strings_view;
use crate::orders::{CreateOrderRequest, ListOrdersRequest, Order, OrderStatus, OrderView};
use crate::text::{
    decimal_digits, decimal_text, digit_char, i64_to_decimal, is_blank, is_digit, push_char,
    trim_spec,
};

verus! {

/// Refusal texts.
pub const USER_ID_REQUIRED: &'static str = "user_id 不能为空";

pub const CLOCK_FAILED: &'static str = "时间异常";

pub const ORDER_NOT_FOUND: &'static str = "订单不存在";

/// Amount charged for a new order.
pub const NEW_ORDER_TOTAL: i64 = 100;

/// Whether a user id is missing: empty once trimmed.
pub open spec fn user_id_missing(user_id: Seq<char>) -> bool {
    trim_spec(user_id).len() == 0
}

/// The id of an order created for `user_id` at `now`: `o_<user_id>_<now>`.
pub open spec fn order_id_for(user_id: Seq<char>, now: i64) -> Seq<char> {
    seq!['o', '_'] + user_id + seq!['_'] + decimal_text(now as int)
}

/// The order created for `req` at `now` (seconds since the Unix epoch):
/// unpaid, at the fixed total, with no logistics number yet.
pub open spec fn new_order_spec(req: CreateOrderRequest, now: i64) -> OrderView {
    OrderView {
        order_id: order_id_for(req.user_id@, now),
        user_id: req.user_id@,
        image_urls: strings_view(req.image_urls@),
        total_amount: NEW_ORDER_TOTAL,
        paid_amount: 0,
        status: OrderStatus::Created.spec_code(),
        layout_type: req.layout_type@,
        frame_type: req.frame_type@,
        address_id: req.address_id@,
        logistics_no: seq![],
        created_at: now,
        updated_at: now,
    }
}

/// The order a create request yields, or why it yields none, given the clock
/// reading (seconds since the Unix epoch; `None` when the clock is before it).
pub open spec fn create_spec(req: CreateOrderRequest, clock: Option<u64>) -> Result<OrderView, ErrorView> {
    if user_id_missing(req.user_id@) {
        Err(error_view(StatusCode::InvalidArgument, USER_ID_REQUIRED@))
    } else {
        match clock {
            None => Err(error_view(StatusCode::Internal, CLOCK_FAILED@)),
            Some(secs) => Ok(new_order_spec(req, secs as i64)),
        }
    }
}

/// The order service over an order store of type `R`.
pub struct OrderServiceImpl<R> {
    repo: Arc<R>,
}

impl<R> OrderServiceImpl<R> {
    pub closed spec fn spec_repo(&self) -> Arc<R> {
        self.repo
    }

    /// A service over `repo`.
    pub fn new(repo: Arc<R>) -> (r: Arc<Self>)
        ensures
            r.spec_repo() == repo,
    {
        Arc::new(OrderServiceImpl { repo })
    }

    /// The order store.
    pub fn repo(&self) -> (r: &Arc<R>)
        ensures
            *r == self.spec_repo(),
    {
        &self.repo
    }

    /// The order to store for a create request, given the clock reading in
    /// seconds since the Unix epoch (`None` when the clock is before it).
    pub fn create_order(req: CreateOrderRequest, clock: Option<u64>) -> (r: Result<
        Order,
        ServiceError,
    >)
        ensures
            match (r, create_spec(req, clock)) {
                (Ok(o), Ok(s)) => o@ == s,
                (Err(e), Err(s)) => e@ == s,
                _ => false,
            },
    {
        if is_blank(req.user_id.as_str()) {
            return Err(ServiceError::new(StatusCode::InvalidArgument, USER_ID_REQUIRED));
        }
        let now: i64 = match clock {
            None => {
                return Err(ServiceError::new(StatusCode::Internal, CLOCK_FAILED));
            },
            Some(secs) => secs as i64,
        };
        let mut order_id = String::new();
        push_char(&mut order_id, 'o');
        push_char(&mut order_id, '_');
        order_id.append(req.user_id.as_str());
        push_char(&mut order_id, '_');
        let stamp = i64_to_decimal(now);
        order_id.append(stamp.as_str());
        assert(order_id@ =~= order_id_for(req.user_id@, now));
        let ghost req0 = req;
        let o = Order {
            order_id,
            user_id: req.user_id,
            image_urls: req.image_urls,
            total_amount: NEW_ORDER_TOTAL,
            paid_amount: 0,
            status: OrderStatus::Created.code(),
            layout_type: req.layout_type,
            frame_type: req.frame_type,
            address_id: req.address_id,
            logistics_no: String::new(),
            created_at: now,
            updated_at: now,
        };
        assert(o@ == new_order_spec(req0, now));
        Ok(o)
    }

    /// The order a lookup found, or not-found.
    pub fn get_order(found: Option<Order>) -> (r: Result<Order, ServiceError>)
        ensures
            match found {
                Some(o) => r == Ok::<Order, ServiceError>(o),
                None => r matches Err(e) && e@ == error_view(
                    StatusCode::NotFound,
                    ORDER_NOT_FOUND@,
                ),
            },
    {
        match found {
            Some(o) => Ok(o),
            None => Err(ServiceError::new(StatusCode::NotFound, ORDER_NOT_FOUND)),
        }
    }

    /// Whether a list request may be served: it must name a user.
    pub fn list_orders(req: &ListOrdersRequest) -> (r: Result<(), ServiceError>)
        ensures
            user_id_missing(req.user_id@) ==> (r matches Err(e) && e@ == error_view(
                StatusCode::InvalidArgument,
                USER_ID_REQUIRED@,
            )),
            !user_id_missing(req.user_id@) ==> r is Ok,
    {
        if is_blank(req.user_id.as_str()) {
            Err(ServiceError::new(StatusCode::InvalidArgument, USER_ID_REQUIRED))
        } else {
            Ok(())
        }
    }
}

proof fn lemma_digit_char_injective(a: nat, b: nat)
    requires
        a < 10,
        b < 10,
        digit_char(a) == digit_char(b),
    ensures
        a == b,
{
}

proof fn lemma_decimal_digits_shape(n: nat)
    ensures
        decimal_digits(n).len() >= 1,
        n < 10 <==> decimal_digits(n).len() == 1,
        forall|i: int|
            0 <= i < decimal_digits(n).len() ==> is_digit(#[trigger] decimal_digits(n)[i]),
    decreases n,
{
    if n >= 10 {
        lemma_decimal_digits_shape(n / 10);
    }
}

proof fn lemma_decimal_digits_injective(a: nat, b: nat)
    requires
        decimal_digits(a) == decimal_digits(b),
    ensures
        a == b,
    decreases a,
{
    lemma_decimal_digits_shape(a);
    lemma_decimal_digits_shape(b);
    if a < 10 {
        assert(b < 10);
        assert(decimal_digits(a) == seq![digit_char(a)]);
        assert(decimal_digits(b) == seq![digit_char(b)]);
        assert(seq![digit_char(a)][0] == digit_char(a));
        assert(seq![digit_char(b)][0] == digit_char(b));
        lemma_digit_char_injective(a, b);
    } else {
        let da = decimal_digits(a);
        let db = decimal_digits(b);
        assert(da.last() == db.last());
        lemma_digit_char_injective(a % 10, b % 10);
        assert(da.drop_last() =~= decimal_digits(a / 10));
        assert(db.drop_last() =~= decimal_digits(b / 10));
        lemma_decimal_digits_injective(a / 10, b / 10);
    }
}

proof fn lemma_decimal_text_shape(n: int)
    ensures
        forall|i: int|
            0 <= i < decimal_text(n).len() ==> #[trigger] decimal_text(n)[i] != '_',
{
    if n < 0 {
        lemma_decimal_digits_shape((-n) as nat);
        assert forall|i: int| 0 <= i < decimal_text(n).len() implies #[trigger] decimal_text(
            n,
        )[i] != '_' by {
            if i > 0 {
                assert(decimal_text(n)[i] == decimal_digits((-n) as nat)[i - 1]);
            }
        }
    } else {
        lemma_decimal_digits_shape(n as nat);
    }
}

proof fn lemma_decimal_text_injective(a: int, b: int)
    requires
        decimal_text(a) == decimal_text(b),
    ensures
        a == b,
{
    if a < 0 {
        lemma_decimal_digits_shape((-a) as nat);
    } else {
        lemma_decimal_digits_shape(a as nat);
    }
    if b < 0 {
        lemma_decimal_digits_shape((-b) as nat);
    } else {
        lemma_decimal_digits_shape(b as nat);
    }
    assert(is_digit(decimal_text(a)[0]) <==> a >= 0);
    assert(is_digit(decimal_text(b)[0]) <==> b >= 0);
    if a < 0 {
        assert(decimal_text(a).drop_first() =~= decimal_digits((-a) as nat));
        assert(decimal_text(b).drop_first() =~= decimal_digits((-b) as nat));
        lemma_decimal_digits_injective((-a) as nat, (-b) as nat);
    } else {
        lemma_decimal_digits_injective(a as nat, b as nat);
    }
}

/// An order id names the user and the second it was created at: two orders
/// created for different users, or at different seconds, get different ids.
pub proof fn lemma_order_id_identifies_user_and_time(
    user_a: Seq<char>,
    now_a: i64,
    user_b: Seq<char>,
    now_b: i64,
)
    ensures
        order_id_for(user_a, now_a) == order_id_for(user_b, now_b) <==> (user_a == user_b && now_a
            == now_b),
{
    let ia = order_id_for(user_a, now_a);
    let ib = order_id_for(user_b, now_b);
    if ia == ib {
        lemma_decimal_text_shape(now_a as int);
        lemma_decimal_text_shape(now_b as int);
        let la = user_a.len() as int;
        let lb = user_b.len() as int;
        let pa = seq!['o', '_'] + user_a + seq!['_'];
        let pb = seq!['o', '_'] + user_b + seq!['_'];
        let da = decimal_text(now_a as int);
        let db = decimal_text(now_b as int);
        assert(ia == pa + da);
        assert(ib == pb + db);
        assert(pa.len() == 3 + la);
        assert(pb.len() == 3 + lb);
        assert(pa[2 + la] == '_');
        assert(pb[2 + lb] == '_');
        assert(ia[2 + la] == '_');
        assert(ib[2 + lb] == '_');
        if la < lb {
            assert(ia[2 + lb] == da[lb - la - 1]);
        } else if lb < la {
            assert(ib[2 + la] == db[la - lb - 1]);
        }
        assert(la == lb);
        assert(user_a =~= ia.subrange(2, 2 + la));
        assert(user_b =~= ib.subrange(2, 2 + lb));
        assert(decimal_text(now_a as int) =~= ia.subrange(3 + la, ia.len() as int));
        assert(decimal_text(now_b as int) =~= ib.subrange(3 + lb, ib.len() as int));
        lemma_decimal_text_injective(now_a as int, now_b as int);
    }
}

/// A create request from a user is refused whatever the clock says when its
/// user id is blank, and otherwise fails only when the clock cannot be read.
pub proof fn lemma_create_refusals(req: CreateOrderRequest, clock: Option<u64>)
    ensures
        user_id_missing(req.user_id@) ==> create_spec(req, clock) == Err::<OrderView, ErrorView>(
            error_view(StatusCode::InvalidArgument, USER_ID_REQUIRED@),
        ),
        !user_id_missing(req.user_id@) && clock is None ==> create_spec(req, clock) == Err::<
            OrderView,
            ErrorView,
        >(error_view(StatusCode::Internal, CLOCK_FAILED@)),
        !user_id_missing(req.user_id@) && clock is Some ==> create_spec(req, clock) is Ok,
{
}

/// The order created for a request carries the request's user, every one of
/// its photos in order, and its layout, frame and address; it is new: charged
/// the fixed total, nothing paid, created and updated at the clock reading,
/// with no logistics number, and its id is `o_`, the user id, `_` and the
/// clock reading in decimal.
pub proof fn lemma_created_order_from_request(req: CreateOrderRequest, secs: u64)
    requires
        !user_id_missing(req.user_id@),
    ensures
        create_spec(req, Some(secs)) matches Ok(o) && {
            &&& o.user_id == req.user_id@
            &&& o.image_urls.len() == req.image_urls@.len()
            &&& forall|i: int|
                0 <= i < req.image_urls@.len() ==> #[trigger] o.image_urls[i]
                    == req.image_urls@[i]@
            &&& o.layout_type == req.layout_type@
            &&& o.frame_type == req.frame_type@
            &&& o.address_id == req.address_id@
            &&& o.total_amount == 100
            &&& o.paid_amount == 0
            &&& o.status == 1
            &&& o.logistics_no.len() == 0
            &&& o.created_at == secs as i64
            &&& o.updated_at == o.created_at
            &&& o.order_id == seq!['o', '_'] + req.user_id@ + seq!['_'] + decimal_text(
                (secs as i64) as int,
            )
        },
{
}

} // verus!
