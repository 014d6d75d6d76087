pub mod keepass_query;
pub mod metadata;
pub mod otp;
pub mod kpxc_search;
pub mod entropy;
pub mod entry_view;
pub mod icons;
pub mod into_container;
pub mod rx_db;
pub mod rx_entry;
pub mod rx_group;
pub mod rx_container;
pub mod rx_loader;
pub mod search;
pub mod sort_order;
pub mod virtual_hierarchy;
pub mod close;
pub mod kdbx;
pub mod source;
