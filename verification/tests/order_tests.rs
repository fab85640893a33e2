use order_service::cache::{CacheCommand, RedisRepo};
use order_service::error::StatusCode;
use order_service::orders::{
    CreateOrderRequest, ListOrdersRequest, Order, OrderRow, OrderStatus, PageRequest,
    PageResponse,
};
use order_service::repository::{MySqlOrderRepository, PageWindow};
use order_service::service::OrderServiceImpl;
use order_service::settings::{
    mysql_url, redis_url, server_address, MysqlSettings, RedisSettings, ServerSettings,
};
use std::sync::Arc;

type Repo = MySqlOrderRepository<()>;
type Service = OrderServiceImpl<()>;

fn sample_order(urls: Vec<&str>) -> Order {
    Order {
        order_id: "o_u1_1700000000".to_string(),
        user_id: "u1".to_string(),
        image_urls: urls.into_iter().map(|s| s.to_string()).collect(),
        total_amount: 100,
        paid_amount: 0,
        status: 1,
        layout_type: "grid".to_string(),
        frame_type: "oak".to_string(),
        address_id: "a9".to_string(),
        logistics_no: String::new(),
        created_at: 1_700_000_000,
        updated_at: 1_700_000_001,
    }
}

fn request(user_id: &str) -> CreateOrderRequest {
    CreateOrderRequest {
        user_id: user_id.to_string(),
        image_urls: vec!["https://img/1.png".to_string()],
        layout_type: "grid".to_string(),
        frame_type: "oak".to_string(),
        address_id: "a9".to_string(),
    }
}

fn same(a: &Order, b: &Order) -> bool {
    a.order_id == b.order_id
        && a.user_id == b.user_id
        && a.image_urls == b.image_urls
        && a.total_amount == b.total_amount
        && a.paid_amount == b.paid_amount
        && a.status == b.status
        && a.layout_type == b.layout_type
        && a.frame_type == b.frame_type
        && a.address_id == b.address_id
        && a.logistics_no == b.logistics_no
        && a.created_at == b.created_at
        && a.updated_at == b.updated_at
}

#[test]
fn create_order_builds_new_order() {
    let o = Service::create_order(request("u1"), Some(1_700_000_000)).unwrap();
    assert_eq!(o.order_id, "o_u1_1700000000");
    assert_eq!(o.user_id, "u1");
    assert_eq!(o.image_urls, vec!["https://img/1.png".to_string()]);
    assert_eq!((o.total_amount, o.paid_amount), (100, 0));
    assert_eq!(o.status, OrderStatus::Created.code());
    assert_eq!(o.status, 1);
    assert_eq!(o.logistics_no, "");
    assert_eq!((o.created_at, o.updated_at), (1_700_000_000, 1_700_000_000));
    assert_eq!((o.layout_type.as_str(), o.frame_type.as_str(), o.address_id.as_str()), ("grid", "oak", "a9"));
}

#[test]
fn create_order_keeps_untrimmed_user_id() {
    let o = Service::create_order(request(" u1 "), Some(5)).unwrap();
    assert_eq!(o.order_id, "o_ u1 _5");
}

#[test]
fn create_order_refuses_blank_user() {
    let e = Service::create_order(request("  \t"), Some(5)).unwrap_err();
    assert_eq!((e.code, e.message.as_str()), (StatusCode::InvalidArgument, "user_id 不能为空"));
    let e = Service::create_order(request(""), None).unwrap_err();
    assert_eq!(e.code, StatusCode::InvalidArgument);
}

#[test]
fn create_order_clock_failure() {
    let e = Service::create_order(request("u1"), None).unwrap_err();
    assert_eq!((e.code, e.message.as_str()), (StatusCode::Internal, "时间异常"));
}

#[test]
fn create_order_clock_beyond_i64_wraps() {
    let o = Service::create_order(request("u"), Some(u64::MAX)).unwrap();
    assert_eq!(o.created_at, -1);
    assert_eq!(o.order_id, "o_u_-1");
}

#[test]
fn get_order_not_found() {
    let e = Service::get_order(None).unwrap_err();
    assert_eq!((e.code, e.message.as_str()), (StatusCode::NotFound, "订单不存在"));
    let o = Service::get_order(Some(sample_order(vec![]))).unwrap();
    assert_eq!(o.order_id, "o_u1_1700000000");
}

#[test]
fn list_orders_needs_user() {
    let e = Service::list_orders(&ListOrdersRequest { user_id: " ".to_string(), page: None }).unwrap_err();
    assert_eq!((e.code, e.message.as_str()), (StatusCode::InvalidArgument, "user_id 不能为空"));
    assert!(Service::list_orders(&ListOrdersRequest { user_id: "u1".to_string(), page: None }).is_ok());
}

#[test]
fn service_holds_its_store() {
    let svc = OrderServiceImpl::new(Arc::new(7u32));
    assert_eq!(**svc.repo(), 7);
}

#[test]
fn row_json_text_of_image_urls() {
    let row = OrderRow::from_order(&sample_order(vec!["a\"b", "c\\d", "e\nf", "\u{1}", "é/"]));
    assert_eq!(row.image_urls, r#"["a\"b","c\\d","e\nf","\u0001","é/"]"#);
    let row = OrderRow::from_order(&sample_order(vec![]));
    assert_eq!(row.image_urls, "[]");
    let o = sample_order(vec!["x", "y"]);
    assert_eq!(row.image_urls, serde_json::to_string(&Vec::<String>::new()).unwrap());
    assert_eq!(OrderRow::from_order(&o).image_urls, serde_json::to_string(&o.image_urls).unwrap());
}

#[test]
fn stored_order_reads_back() {
    for urls in [vec![], vec!["https://img/1.png"], vec!["a\"b", "\u{7}\t", "中文", ""]] {
        let o = sample_order(urls);
        let back = OrderRow::from_order(&o).into_proto();
        assert!(same(&o, &back));
    }
}

#[test]
fn unreadable_image_urls_read_as_none() {
    let mut row = OrderRow::from_order(&sample_order(vec!["x"]));
    row.image_urls = "not json".to_string();
    assert!(row.clone().into_proto().image_urls.is_empty());
    row.image_urls = "[1, 2]".to_string();
    assert!(row.clone().into_proto().image_urls.is_empty());
    row.image_urls = " [ \"p\" , \"q\" ] ".to_string();
    assert_eq!(row.into_proto().image_urls, vec!["p".to_string(), "q".to_string()]);
}

#[test]
fn page_window_defaults_and_floors() {
    assert_eq!(Repo::page_window(&None), PageWindow { page_no: 1, page_size: 10, offset: 0 });
    assert_eq!(
        Repo::page_window(&Some(PageRequest { page: 3, page_size: 20 })),
        PageWindow { page_no: 3, page_size: 20, offset: 40 }
    );
    assert_eq!(
        Repo::page_window(&Some(PageRequest { page: 0, page_size: -5 })),
        PageWindow { page_no: 1, page_size: 1, offset: 0 }
    );
}

#[test]
fn page_offset_overflow_detected() {
    assert!(Repo::page_offset_fits(&None));
    assert!(Repo::page_offset_fits(&Some(PageRequest { page: 2, page_size: i32::MAX })));
    assert!(!Repo::page_offset_fits(&Some(PageRequest { page: 3, page_size: i32::MAX })));
    assert!(!Repo::page_offset_fits(&Some(PageRequest { page: i32::MAX, page_size: i32::MAX })));
}

#[test]
fn order_list_assembly() {
    let rows = vec![
        OrderRow::from_order(&sample_order(vec!["1"])),
        OrderRow::from_order(&sample_order(vec!["2", "3"])),
    ];
    let w = Repo::page_window(&Some(PageRequest { page: 2, page_size: 2 }));
    let list = Repo::order_list(rows, 9, w);
    assert_eq!(list.list.len(), 2);
    assert_eq!(list.list[1].image_urls, vec!["2".to_string(), "3".to_string()]);
    assert_eq!(list.page, Some(PageResponse { page: 2, page_size: 2, total: 9 }));
    let empty = Repo::order_list(Vec::new(), 0, Repo::page_window(&None));
    assert!(empty.list.is_empty());
    assert_eq!(empty.page, Some(PageResponse { page: 1, page_size: 10, total: 0 }));
}

#[test]
fn repository_holds_its_pool() {
    let r = MySqlOrderRepository::new(5u8);
    assert_eq!(*r.pool(), 5);
}

#[test]
fn blacklist_keys_and_commands() {
    assert_eq!(RedisRepo::<()>::token_blacklist_key("abc"), "auth:blacklist:abc");
    assert_ne!(RedisRepo::<()>::token_blacklist_key("a"), RedisRepo::<()>::token_blacklist_key("b"));
    match RedisRepo::<()>::blacklist_token_command("abc", 3600) {
        CacheCommand::SetEx { key, value, ttl_secs } => {
            assert_eq!((key.as_str(), value.as_str(), ttl_secs), ("auth:blacklist:abc", "1", 3600));
        }
        other => panic!("{:?}", other),
    }
    match RedisRepo::<()>::token_blacklisted_command("abc") {
        CacheCommand::Exists { key } => assert_eq!(key, "auth:blacklist:abc"),
        other => panic!("{:?}", other),
    }
    let repo = RedisRepo::new("pool".to_string());
    assert_eq!(repo.pool(), "pool");
}

#[test]
fn blacklist_entry_expires_after_ttl() {
    // key -> (value, instant it expires at)
    let mut store: std::collections::HashMap<String, (String, u64)> = std::collections::HashMap::new();
    let now = 1_000u64;
    if let CacheCommand::SetEx { key, value, ttl_secs } = RedisRepo::<()>::blacklist_token_command("t1", 60) {
        store.insert(key, (value, now + ttl_secs));
    }
    let exists_at = |cmd: CacheCommand, t: u64| match cmd {
        CacheCommand::Exists { key } => store.get(&key).map_or(false, |(_, exp)| t < *exp),
        _ => false,
    };
    assert!(exists_at(RedisRepo::<()>::token_blacklisted_command("t1"), now));
    assert!(exists_at(RedisRepo::<()>::token_blacklisted_command("t1"), now + 59));
    assert!(!exists_at(RedisRepo::<()>::token_blacklisted_command("t1"), now + 60));
    assert!(!exists_at(RedisRepo::<()>::token_blacklisted_command("t2"), now));
}

#[test]
fn urls_from_settings() {
    let r = RedisSettings { host: "127.0.0.1".to_string(), port: 6379, password: String::new() };
    assert_eq!(redis_url(&r), "redis://127.0.0.1:6379");
    let r = RedisSettings { password: "pw".to_string(), ..r };
    assert_eq!(redis_url(&r), "redis://:pw@127.0.0.1:6379");
    let m = MysqlSettings {
        host: "db".to_string(),
        port: 3306,
        username: "root".to_string(),
        password: String::new(),
        database: "shop".to_string(),
    };
    assert_eq!(mysql_url(None, &m), "mysql://root@db:3306/shop");
    let m = MysqlSettings { password: "pw".to_string(), ..m };
    assert_eq!(mysql_url(None, &m), "mysql://root:pw@db:3306/shop");
    assert_eq!(mysql_url(Some("mysql://x".to_string()), &m), "mysql://x");
    let s = ServerSettings { host: "0.0.0.0".to_string(), port: 50051 };
    assert_eq!(server_address(&s), "0.0.0.0:50051");
}

#[test]
fn consecutive_pages_tile() {
    for (page, size) in [(1, 10), (2, 7), (5, 1), (3, 0)] {
        let this = Repo::page_window(&Some(PageRequest { page, page_size: size }));
        let next = Repo::page_window(&Some(PageRequest { page: page + 1, page_size: size }));
        assert_eq!(next.offset, this.offset + this.page_size as i64);
    }
}

#[test]
fn order_ids_tell_user_and_second_apart() {
    let id = |u: &str, t: u64| Service::create_order(request(u), Some(t)).unwrap().order_id;
    assert_ne!(id("a_1", 2), id("a", 12));
    assert_ne!(id("u1", 10), id("u1", 11));
    assert_ne!(id("u1", 10), id("u2", 10));
    assert_eq!(id("u1", 10), id("u1", 10));
}

#[test]
fn row_with_given_image_urls() {
    let row = OrderRow::from_order(&sample_order(vec!["x"]));
    let o = row.clone().into_order_with(Some(vec!["p".to_string(), "q".to_string()]));
    assert_eq!(o.image_urls, vec!["p".to_string(), "q".to_string()]);
    assert_eq!((o.layout_type.as_str(), o.frame_type.as_str()), ("grid", "oak"));
    assert_eq!(o.updated_at, 1_700_000_001);
    let o = row.into_order_with(None);
    assert!(o.image_urls.is_empty());
    assert_eq!(o.order_id, "o_u1_1700000000");
}
