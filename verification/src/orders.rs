//! Order messages, the stored order record and the paging of order lists.
use vstd::prelude::*;
use crate::json::{
    encode_string_list, json_string_list, json_string_list_parse, parse_string_list,
    strings_view,
};

verus! {

/// Lifecycle state of an order, carried on the wire as its code.
#[derive(Clone, Copy, Debug, PartialEq, Eq, Structural)]
pub enum OrderStatus {
    Unspecified,
    Created,
}

impl OrderStatus {
    pub open spec fn spec_code(self) -> i32 {
        match self {
            OrderStatus::Unspecified => 0,
            OrderStatus::Created => 1,
        }
    }

    /// The wire code of the status.
    pub fn code(self) -> (r: i32)
        ensures
            r == self.spec_code(),
    {
        match self {
            OrderStatus::Unspecified => 0,
            OrderStatus::Created => 1,
        }
    }
}

/// An order as the service exchanges it.
#[derive(Clone, Debug)]
pub struct Order {
    pub order_id: String,
    pub user_id: String,
    pub image_urls: Vec<String>,
    pub total_amount: i64,
    pub paid_amount: i64,
    pub status: i32,
    pub layout_type: String,
    pub frame_type: String,
    pub address_id: String,
    pub logistics_no: String,
    pub created_at: i64,
    pub updated_at: i64,
}

/// The contents of an [`Order`].
pub struct OrderView {
    pub order_id: Seq<char>,
    pub user_id: Seq<char>,
    pub image_urls: Seq<Seq<char>>,
    pub total_amount: i64,
    pub paid_amount: i64,
    pub status: i32,
    pub layout_type: Seq<char>,
    pub frame_type: Seq<char>,
    pub address_id: Seq<char>,
    pub logistics_no: Seq<char>,
    pub created_at: i64,
    pub updated_at: i64,
}

impl View for Order {
    type V = OrderView;

    open spec fn view(&self) -> OrderView {
        OrderView {
            order_id: self.order_id@,
            user_id: self.user_id@,
            image_urls: strings_view(self.image_urls@),
            total_amount: self.total_amount,
            paid_amount: self.paid_amount,
            status: self.status,
            layout_type: self.layout_type@,
            frame_type: self.frame_type@,
            address_id: self.address_id@,
            logistics_no: self.logistics_no@,
            created_at: self.created_at,
            updated_at: self.updated_at,
        }
    }
}

/// A request to create an order.
#[derive(Clone, Debug)]
pub struct CreateOrderRequest {
    pub user_id: String,
    pub image_urls: Vec<String>,
    pub layout_type: String,
    pub frame_type: String,
    pub address_id: String,
}

/// A request for one order.
#[derive(Clone, Debug)]
pub struct GetOrderRequest {
    pub order_id: String,
}

/// A page of a list: 1-based page number and page size.
#[derive(Clone, Copy, Debug, PartialEq, Eq, Structural)]
pub struct PageRequest {
    pub page: i32,
    pub page_size: i32,
}

/// A request for a user's orders, one page at a time.
#[derive(Clone, Debug)]
pub struct ListOrdersRequest {
    pub user_id: String,
    pub page: Option<PageRequest>,
}

/// Where a page lies in the whole list.
#[derive(Clone, Copy, Debug, PartialEq, Eq, Structural)]
pub struct PageResponse {
    pub page: i32,
    pub page_size: i32,
    pub total: i64,
}

/// One page of orders.
#[derive(Clone, Debug)]
pub struct OrderList {
    pub list: Vec<Order>,
    pub page: Option<PageResponse>,
}

/// An order as one row of the `orders` table: the image URLs are held as
/// JSON text.
#[derive(Clone, Debug)]
pub struct OrderRow {
    pub order_id: String,
    pub user_id: String,
    pub image_urls: String,
    pub total_amount: i64,
    pub paid_amount: i64,
    pub status: i32,
    pub layout_type: String,
    pub frame_type: String,
    pub address_id: String,
    pub logistics_no: String,
    pub created_at: i64,
    pub updated_at: i64,
}

/// The contents of an [`OrderRow`].
pub struct OrderRowView {
    pub order_id: Seq<char>,
    pub user_id: Seq<char>,
    pub image_urls: Seq<char>,
    pub total_amount: i64,
    pub paid_amount: i64,
    pub status: i32,
    pub layout_type: Seq<char>,
    pub frame_type: Seq<char>,
    pub address_id: Seq<char>,
    pub logistics_no: Seq<char>,
    pub created_at: i64,
    pub updated_at: i64,
}

impl View for OrderRow {
    type V = OrderRowView;

    open spec fn view(&self) -> OrderRowView {
        OrderRowView {
            order_id: self.order_id@,
            user_id: self.user_id@,
            image_urls: self.image_urls@,
            total_amount: self.total_amount,
            paid_amount: self.paid_amount,
            status: self.status,
            layout_type: self.layout_type@,
            frame_type: self.frame_type@,
            address_id: self.address_id@,
            logistics_no: self.logistics_no@,
            created_at: self.created_at,
            updated_at: self.updated_at,
        }
    }
}

/// The order a stored row stands for: image URLs that are not a JSON array
/// of strings read as no URLs.
pub open spec fn row_to_order(row: OrderRowView) -> OrderView {
    row_with_urls(
        row,
        match json_string_list_parse(row.image_urls) {
            Some(v) => v,
            None => seq![],
        },
    )
}

/// The order a stored row stands for, with `image_urls` as its image URLs.
pub open spec fn row_with_urls(row: OrderRowView, image_urls: Seq<Seq<char>>) -> OrderView {
    OrderView {
        order_id: row.order_id,
        user_id: row.user_id,
        image_urls,
        total_amount: row.total_amount,
        paid_amount: row.paid_amount,
        status: row.status,
        layout_type: row.layout_type,
        frame_type: row.frame_type,
        address_id: row.address_id,
        logistics_no: row.logistics_no,
        created_at: row.created_at,
        updated_at: row.updated_at,
    }
}

/// The row an order is stored as.
pub open spec fn order_to_row(o: OrderView) -> OrderRowView {
    OrderRowView {
        order_id: o.order_id,
        user_id: o.user_id,
        image_urls: json_string_list(o.image_urls),
        total_amount: o.total_amount,
        paid_amount: o.paid_amount,
        status: o.status,
        layout_type: o.layout_type,
        frame_type: o.frame_type,
        address_id: o.address_id,
        logistics_no: o.logistics_no,
        created_at: o.created_at,
        updated_at: o.updated_at,
    }
}

impl OrderRow {
    /// The order this row stands for.
    pub fn into_proto(self) -> (r: Order)
        ensures
            r@ == row_to_order(self@),
    {
        let parsed = parse_string_list(self.image_urls.as_str());
        self.into_order_with(parsed)
    }

    /// The order this row stands for, given what its image-URL text reads as
    /// (`None` when it is not a JSON array of strings, which reads as no URLs).
    pub fn into_order_with(self, image_urls: Option<Vec<String>>) -> (r: Order)
        ensures
            r@ == row_with_urls(
                self@,
                match image_urls {
                    Some(v) => strings_view(v@),
                    None => seq![],
                },
            ),
    {
        let ghost given = image_urls;
        let image_urls = match image_urls {
            Some(v) => v,
            None => Vec::new(),
        };
        assert(given is None ==> strings_view(image_urls@) =~= Seq::<Seq<char>>::empty());
        let r = Order {
            order_id: self.order_id,
            user_id: self.user_id,
            image_urls,
            total_amount: self.total_amount,
            paid_amount: self.paid_amount,
            status: self.status,
            layout_type: self.layout_type,
            frame_type: self.frame_type,
            address_id: self.address_id,
            logistics_no: self.logistics_no,
            created_at: self.created_at,
            updated_at: self.updated_at,
        };
        r
    }

    /// The row that stores `order`; reading the row back gives `order` again.
    pub fn from_order(order: &Order) -> (r: OrderRow)
        ensures
            r@ == order_to_row(order@),
            row_to_order(r@) == order@,
    {
        let encoded = encode_string_list(&order.image_urls);
        let image_urls = match encoded {
            Ok(text) => text,
            Err(_) => {
                proof {
                    assert(false);
                }
                String::new()
            },
        };
        let r = OrderRow {
            order_id: order.order_id.clone(),
            user_id: order.user_id.clone(),
            image_urls,
            total_amount: order.total_amount,
            paid_amount: order.paid_amount,
            status: order.status,
            layout_type: order.layout_type.clone(),
            frame_type: order.frame_type.clone(),
            address_id: order.address_id.clone(),
            logistics_no: order.logistics_no.clone(),
            created_at: order.created_at,
            updated_at: order.updated_at,
        };
        r
    }
}

/// Storing an order writes each of its fields to the column of the same
/// name, the image URLs as their JSON text.
pub proof fn lemma_row_columns(o: OrderView)
    ensures
        order_to_row(o).order_id == o.order_id,
        order_to_row(o).user_id == o.user_id,
        order_to_row(o).image_urls == json_string_list(o.image_urls),
        order_to_row(o).total_amount == o.total_amount,
        order_to_row(o).paid_amount == o.paid_amount,
        order_to_row(o).status == o.status,
        order_to_row(o).layout_type == o.layout_type,
        order_to_row(o).frame_type == o.frame_type,
        order_to_row(o).address_id == o.address_id,
        order_to_row(o).logistics_no == o.logistics_no,
        order_to_row(o).created_at == o.created_at,
        order_to_row(o).updated_at == o.updated_at,
{
}

/// Reading a row gives an order whose fields are the columns of the same
/// name; the image URLs are the list the JSON text holds, or none when the
/// text is not a JSON array of strings.
pub proof fn lemma_row_fields_read(row: OrderRowView, urls: Seq<Seq<char>>)
    ensures
        row_with_urls(row, urls).order_id == row.order_id,
        row_with_urls(row, urls).user_id == row.user_id,
        row_with_urls(row, urls).image_urls == urls,
        row_with_urls(row, urls).total_amount == row.total_amount,
        row_with_urls(row, urls).paid_amount == row.paid_amount,
        row_with_urls(row, urls).status == row.status,
        row_with_urls(row, urls).layout_type == row.layout_type,
        row_with_urls(row, urls).frame_type == row.frame_type,
        row_with_urls(row, urls).address_id == row.address_id,
        row_with_urls(row, urls).logistics_no == row.logistics_no,
        row_with_urls(row, urls).created_at == row.created_at,
        row_with_urls(row, urls).updated_at == row.updated_at,
        row_to_order(row).total_amount == row.total_amount,
        row_to_order(row).paid_amount == row.paid_amount,
        json_string_list_parse(row.image_urls) matches Some(v) ==> row_to_order(row).image_urls
            == v,
        json_string_list_parse(row.image_urls) is None ==> row_to_order(row).image_urls.len()
            == 0,
{
}

} // verus!
