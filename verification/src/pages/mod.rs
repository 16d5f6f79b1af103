pub mod add_url;
pub mod artikle_list;
pub mod feed_list;
pub mod feed_view;
